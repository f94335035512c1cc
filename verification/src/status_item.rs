//! Status items (notification area icons): which engine owns which item,
//! handle allocation, decoding of icon messages and choice of icon size.
use crate::engine_map::{keys_owned_by, owned_by};
use crate::words::{HIWORD, LOWORD};
use std::collections::HashMap;
use vstd::prelude::*;
use vstd::std_specs::hash::group_hash_axioms;

verus! {

broadcast use group_hash_axioms;

/// Identifies a status item.
#[derive(Clone, Copy, PartialEq, Eq, Structural, Debug)]
pub struct StatusItemHandle(pub i64);

/// What the user did with a status item.
#[derive(Clone, Copy, PartialEq, Eq, Structural, Debug)]
pub enum StatusItemActionType {
    LeftMouseDown,
    LeftMouseUp,
    RightMouseDown,
    RightMouseUp,
}

/// Errors of status item requests.
#[derive(Clone, Copy, PartialEq, Eq, Structural, Debug)]
pub enum StatusItemError {
    InvalidStatusItemHandle,
}

pub const WM_MOUSEMOVE: u32 = 0x0200;
pub const WM_LBUTTONDOWN: u32 = 0x0201;
pub const WM_LBUTTONUP: u32 = 0x0202;
pub const WM_RBUTTONDOWN: u32 = 0x0204;
pub const WM_RBUTTONUP: u32 = 0x0205;
pub const NIF_MESSAGE: u32 = 0x0001;
pub const NIF_ICON: u32 = 0x0002;
pub const NIF_TIP: u32 = 0x0004;

/// The action reported for a mouse message on the icon, if any.
pub open spec fn action_for_message(msg: u32) -> Option<StatusItemActionType> {
    if msg == WM_LBUTTONDOWN {
        Some(StatusItemActionType::LeftMouseDown)
    } else if msg == WM_LBUTTONUP {
        Some(StatusItemActionType::LeftMouseUp)
    } else if msg == WM_RBUTTONDOWN {
        Some(StatusItemActionType::RightMouseDown)
    } else if msg == WM_RBUTTONUP {
        Some(StatusItemActionType::RightMouseUp)
    } else {
        None
    }
}

/// Whether `msg` is one of the four mouse button messages of the icon.
pub open spec fn is_button_message(msg: u32) -> bool {
    msg == WM_LBUTTONDOWN || msg == WM_LBUTTONUP || msg == WM_RBUTTONDOWN || msg == WM_RBUTTONUP
}

/// Mouse messages on the icon: each of the four button messages is reported
/// as an action of its own, two different messages never as the same action,
/// and every other message (mouse moves among them) as none. The action
/// names the button the message names (left for the left button messages)
/// and whether it went up (up for the button up messages).
pub proof fn lemma_button_messages_reported(msg: u32, other: u32)
    ensures
        action_for_message(msg) is Some <==> is_button_message(msg),
        action_for_message(WM_MOUSEMOVE) is None,
        action_for_message(msg) is Some && action_for_message(other) is Some && msg != other
            ==> action_for_message(msg) != action_for_message(other),
        action_for_message(msg) is Some ==> ((action_for_message(msg)->0
            == StatusItemActionType::LeftMouseDown || action_for_message(msg)->0
            == StatusItemActionType::LeftMouseUp) <==> (msg == WM_LBUTTONDOWN || msg
            == WM_LBUTTONUP)),
        action_for_message(msg) is Some ==> ((action_for_message(msg)->0
            == StatusItemActionType::LeftMouseUp || action_for_message(msg)->0
            == StatusItemActionType::RightMouseUp) <==> (msg == WM_LBUTTONUP || msg
            == WM_RBUTTONUP)),
{
}

/// One status item, owned by an engine.
pub struct PlatformStatusItem {
    pub handle: StatusItemHandle,
    pub engine: i64,
}

impl PlatformStatusItem {
    /// A status item for `engine`.
    pub fn new(handle: StatusItemHandle, engine: i64) -> (r: Self)
        ensures
            r.handle == handle,
            r.engine == engine,
    {
        PlatformStatusItem { handle, engine }
    }

    /// The action to report for a mouse message on the icon; mouse moves are ignored.
    pub fn on_message(&self, msg: u32) -> (action: Option<StatusItemActionType>)
        ensures
            action == action_for_message(msg),
    {
        if msg == WM_MOUSEMOVE {
            return None;
        }
        if msg == WM_LBUTTONDOWN {
            Some(StatusItemActionType::LeftMouseDown)
        } else if msg == WM_LBUTTONUP {
            Some(StatusItemActionType::LeftMouseUp)
        } else if msg == WM_RBUTTONDOWN {
            Some(StatusItemActionType::RightMouseDown)
        } else if msg == WM_RBUTTONUP {
            Some(StatusItemActionType::RightMouseUp)
        } else {
            None
        }
    }

    /// Fields to update on the icon: message and tip always, the icon when there is one.
    pub fn update_flags(has_icon: bool) -> (flags: u32)
        ensures
            flags == if has_icon { NIF_MESSAGE | NIF_TIP | NIF_ICON } else { NIF_MESSAGE | NIF_TIP },
    {
        let mut flags = NIF_MESSAGE | NIF_TIP;
        if has_icon {
            flags = flags | NIF_ICON;
        }
        flags
    }
}

/// Distance between an image height and the ideal one.
pub open spec fn height_distance(h: i32, ideal: i32) -> int {
    if h >= ideal { h - ideal } else { ideal - h }
}

/// The index of the first image whose height is closest to `ideal`, if there is an image.
pub open spec fn is_closest_image(heights: Seq<i32>, ideal: i32, i: int) -> bool {
    &&& 0 <= i < heights.len()
    &&& forall|j: int| 0 <= j < heights.len() ==> height_distance(heights[i], ideal)
        <= height_distance(#[trigger] heights[j], ideal)
    &&& forall|j: int| 0 <= j < i ==> height_distance(heights[i], ideal) < height_distance(
        #[trigger] heights[j],
        ideal,
    )
}

/// Picks the image to show in the notification area: the first one whose
/// height is closest to `ideal_height`.
pub fn choose_icon(heights: &[i32], ideal_height: i32) -> (r: Option<usize>)
    requires
        forall|j: int| 0 <= j < heights@.len() ==> i32::MIN < #[trigger] heights@[j] - ideal_height
            < i32::MAX,
    ensures
        heights@.len() == 0 ==> r is None,
        heights@.len() > 0 ==> (r matches Some(i) && is_closest_image(heights@, ideal_height, i as int)),
{
    if heights.len() == 0 {
        return None;
    }
    let mut best: usize = 0;
    let mut best_d: i32 = if heights[0] >= ideal_height { heights[0] - ideal_height } else {
        ideal_height - heights[0]
    };
    let mut i: usize = 1;
    while i < heights.len()
        invariant
            1 <= i <= heights@.len(),
            best < i,
            forall|j: int| 0 <= j < heights@.len() ==> i32::MIN < #[trigger] heights@[j]
                - ideal_height < i32::MAX,
            best_d == height_distance(heights@[best as int], ideal_height),
            forall|j: int| 0 <= j < i ==> best_d <= height_distance(#[trigger] heights@[j], ideal_height),
            forall|j: int| 0 <= j < best ==> best_d < height_distance(#[trigger] heights@[j], ideal_height),
        decreases heights@.len() - i,
    {
        let h = heights[i];
        let d: i32 = if h >= ideal_height { h - ideal_height } else { ideal_height - h };
        if d < best_d {
            best = i;
            best_d = d;
        }
        i = i + 1;
    }
    Some(best)
}

/// The status items that exist on the platform side.
pub struct PlatformStatusItemManager {
    items: Vec<PlatformStatusItem>,
}

/// A decoded notification message of a status item.
#[derive(Clone, Copy, PartialEq, Eq, Structural, Debug)]
pub struct StatusItemMessage {
    pub handle: StatusItemHandle,
    pub msg: u32,
    pub x: u16,
    pub y: u16,
}

/// The (handle, engine) pairs of a sequence of status items, in order.
pub open spec fn entries(items: Seq<PlatformStatusItem>) -> Seq<(StatusItemHandle, i64)>
    decreases items.len(),
{
    if items.len() == 0 {
        Seq::empty()
    } else {
        entries(items.drop_last()).push((items.last().handle, items.last().engine))
    }
}

/// Keeps the entries of every handle but `handle`.
pub open spec fn other_handle(handle: StatusItemHandle) -> spec_fn((StatusItemHandle, i64)) -> bool {
    |e: (StatusItemHandle, i64)| e.0 != handle
}

proof fn lemma_entries_len(items: Seq<PlatformStatusItem>)
    ensures
        entries(items).len() == items.len(),
        forall|i: int| 0 <= i < items.len() ==> #[trigger] entries(items)[i] == (items[i].handle, items[i].engine),
    decreases items.len(),
{
    if items.len() > 0 {
        lemma_entries_len(items.drop_last());
    }
}

impl View for PlatformStatusItemManager {
    type V = Seq<(StatusItemHandle, i64)>;

    closed spec fn view(&self) -> Seq<(StatusItemHandle, i64)> {
        entries(self.items@)
    }
}

impl PlatformStatusItemManager {
    /// No status items.
    pub fn new() -> (r: Self)
        ensures
            r@ == Seq::<(StatusItemHandle, i64)>::empty(),
    {
        PlatformStatusItemManager { items: Vec::new() }
    }


    /// Creates a status item and keeps it.
    pub fn create_status_item(&mut self, handle: StatusItemHandle, engine: i64) -> (r:
        PlatformStatusItem)
        ensures
            final(self)@ == old(self)@.push((handle, engine)),
            r.handle == handle && r.engine == engine,
    {
        self.items.push(PlatformStatusItem::new(handle, engine));
        assert(self.items@.drop_last() =~= old(self).items@);
        PlatformStatusItem::new(handle, engine)
    }

    /// Forgets every status item with the given handle.
    pub fn unregister_status_item(&mut self, handle: StatusItemHandle)
        ensures
            final(self)@ == old(self)@.filter(other_handle(handle)),
    {
        let mut kept: Vec<PlatformStatusItem> = Vec::new();
        let mut i: usize = 0;
        let ghost old_items = self.items@;
        while i < self.items.len()
            invariant
                0 <= i <= self.items@.len(),
                old_items == self.items@,
                entries(kept@) == entries(old_items.take(i as int)).filter(other_handle(handle)),
            decreases self.items@.len() - i,
        {
            let ghost before = kept@;
            if self.items[i].handle != handle {
                kept.push(PlatformStatusItem::new(self.items[i].handle, self.items[i].engine));
                assert(kept@.drop_last() =~= before);
            }
            proof {
                let p = other_handle(handle);
                let t = old_items.take(i + 1);
                assert(t.drop_last() =~= old_items.take(i as int));
                assert(entries(t) == entries(t.drop_last()).push((t.last().handle, t.last().engine)));
                reveal_with_fuel(Seq::<(StatusItemHandle, i64)>::filter, 1);
                assert(entries(t).drop_last() =~= entries(t.drop_last()));
            }
            i = i + 1;
        }
        assert(old_items.take(self.items@.len() as int) =~= old_items);
        self.items = kept;
    }

    /// Decodes a notification message: the message and item id in `l_param`,
    /// the pointer position in `w_param`; `None` if no item has that id.
    pub fn on_status_item_message(&self, w_param: u32, l_param: u32) -> (r: Option<
        StatusItemMessage,
    >)
        ensures
            r matches Some(m) ==> {
                &&& m.handle.0 == l_param / 0x10000
                &&& m.msg == l_param % 0x10000
                &&& m.x == w_param % 0x10000
                &&& m.y == w_param / 0x10000
                &&& exists|i: int| 0 <= i < self@.len() && self@[i].0 == m.handle
            },
            r is None <==> forall|i: int| 0 <= i < self@.len() ==> self@[i].0.0 != l_param / 0x10000,
    {
        proof {
            lemma_entries_len(self.items@);
        }
        let msg = LOWORD(l_param);
        let id = HIWORD(l_param);
        let x = LOWORD(w_param);
        let y = HIWORD(w_param);
        let mut i: usize = 0;
        while i < self.items.len()
            invariant
                0 <= i <= self.items@.len(),
                id == l_param / 0x10000,
                msg == l_param % 0x10000,
                x == w_param % 0x10000,
                y == w_param / 0x10000,
                self@.len() == self.items@.len(),
                forall|j: int| 0 <= j < self.items@.len() ==> #[trigger] self@[j] == (self.items@[j].handle, self.items@[j].engine),
                forall|j: int| 0 <= j < i ==> self@[j].0.0 != id,
            decreases self.items@.len() - i,
        {
            if self.items[i].handle.0 == id as i64 {
                proof {
                    assert(self@[i as int].0 == self.items@[i as int].handle);
                }
                return Some(StatusItemMessage { handle: self.items[i].handle, msg: msg as u32, x, y });
            }
            proof {
                assert(self@[i as int].0 == self.items@[i as int].handle);
            }
            i = i + 1;
        }
        None
    }
}

/// Receives the actions performed on status items.
pub trait StatusItemDelegate {
    /// The engine to tell of `action` on the item `handle`, if the item is known.
    fn on_action(&self, handle: StatusItemHandle, action: StatusItemActionType) -> Option<i64>;
}

/// The status items of all engines: handle allocation and the items the
/// platform side shows.
pub struct StatusItemManager {
    status_item_map: HashMap<i64, i64>,
    platform_manager: PlatformStatusItemManager,
    next_handle: i64,
}

impl View for StatusItemManager {
    type V = Map<i64, i64>;

    /// The engine that owns each live status item, by handle.
    closed spec fn view(&self) -> Map<i64, i64> {
        self.status_item_map@
    }
}

impl StatusItemManager {
    /// The handle that the next created item gets.
    pub closed spec fn next_handle_spec(&self) -> i64 {
        self.next_handle
    }

    /// The items that the platform side shows, in creation order.
    pub closed spec fn platform_items(&self) -> Seq<(StatusItemHandle, i64)> {
        self.platform_manager@
    }

    /// The platform side shows exactly the live items, and every live handle
    /// was handed out before the next one.
    pub closed spec fn wf(&self) -> bool {
        &&& 1 <= self.next_handle
        &&& forall|h: i64| #[trigger] self@.contains_key(h) ==> 1 <= h < self.next_handle
        &&& forall|h: StatusItemHandle, e: i64| #[trigger] self.platform_manager@.contains((h, e))
            <==> (self@.contains_key(h.0) && self@[h.0] == e)
    }

    /// No status items; the first handle is 1.
    pub fn new() -> (r: Self)
        ensures
            r.wf(),
            r@ == Map::<i64, i64>::empty(),
            r.next_handle_spec() == 1,
    {
        let platform_manager = PlatformStatusItemManager::new();
        StatusItemManager { status_item_map: HashMap::new(), platform_manager, next_handle: 1 }
    }

    /// Removes every status item of `engine` (an engine that restarts starts
    /// with none); the items of other engines stay.
    pub fn init(&mut self, engine: i64)
        requires
            old(self).wf(),
        ensures
            final(self).wf(),
            final(self).next_handle_spec() == old(self).next_handle_spec(),
            final(self)@ == old(self)@.remove_keys(owned_by(old(self)@, engine)),
    {
        let keys = keys_owned_by(&self.status_item_map, engine);
        let ghost old_map = self@;
        let mut i: usize = 0;
        while i < keys.len()
            invariant
                self.wf(),
                self.next_handle == old(self).next_handle,
                old_map == old(self)@,
                0 <= i <= keys@.len(),
                keys@.no_duplicates(),
                keys@.to_set() == owned_by(old_map, engine),
                self@ == old_map.remove_keys(keys@.take(i as int).to_set()),
            decreases keys@.len() - i,
        {
            let h = keys[i];
            self.destroy(StatusItemHandle(h));
            proof {
                assert(keys@.take(i + 1) =~= keys@.take(i as int).push(h));
                keys@.take(i as int).lemma_push_to_set_commute(h);
                assert(self@ =~= old_map.remove_keys(keys@.take(i + 1).to_set()));
            }
            i = i + 1;
        }
        proof {
            assert(keys@.take(keys@.len() as int) =~= keys@);
        }
    }

    /// Creates a status item for `engine` under a fresh handle.
    pub fn on_create(&mut self, engine: i64) -> (r: Result<StatusItemHandle, StatusItemError>)
        requires
            old(self).wf(),
            old(self).next_handle_spec() < i64::MAX,
        ensures
            final(self).wf(),
            r == Ok::<StatusItemHandle, StatusItemError>(StatusItemHandle(old(self).next_handle_spec())),
            !old(self)@.contains_key(old(self).next_handle_spec()),
            final(self).next_handle_spec() == old(self).next_handle_spec() + 1,
            final(self)@ == old(self)@.insert(old(self).next_handle_spec(), engine),
    {
        let handle = StatusItemHandle(self.next_handle);
        self.next_handle = self.next_handle + 1;
        let ghost before = self.platform_manager@;
        let _item = self.platform_manager.create_status_item(handle, engine);
        self.status_item_map.insert(handle.0, engine);
        proof {
            assert forall|h: i64| #[trigger] self@.contains_key(h) implies 1 <= h < self.next_handle by {
                if h != handle.0 {
                    assert(old(self)@.contains_key(h));
                }
            }
            assert forall|h: StatusItemHandle, e: i64| #[trigger] self.platform_manager@.contains((h, e))
                <==> (self@.contains_key(h.0) && self@[h.0] == e) by {
                if self.platform_manager@.contains((h, e)) {
                    let j = choose|j: int| 0 <= j < self.platform_manager@.len()
                        && self.platform_manager@[j] == (h, e);
                    if j < before.len() {
                        assert(before[j] == (h, e));
                        assert(before.contains((h, e)));
                    }
                }
                if self@.contains_key(h.0) && self@[h.0] == e && h != handle {
                    assert(before.contains((h, e)));
                    let j = choose|j: int| 0 <= j < before.len() && before[j] == (h, e);
                    assert(self.platform_manager@[j] == (h, e));
                }
                if h == handle && e == engine {
                    assert(self.platform_manager@[before.len() as int] == (h, e));
                }
            }
        }
        Ok(handle)
    }

    /// Forgets the item `handle`, if it exists.
    pub fn destroy(&mut self, handle: StatusItemHandle)
        requires
            old(self).wf(),
        ensures
            final(self).wf(),
            final(self).next_handle_spec() == old(self).next_handle_spec(),
            final(self)@ == old(self)@.remove(handle.0),
    {
        let ghost before = self.platform_manager@;
        let removed = self.status_item_map.remove(&handle.0);
        if removed.is_some() {
            self.platform_manager.unregister_status_item(handle);
        }
        proof {
            let p = other_handle(handle);
            assert forall|h: i64| #[trigger] self@.contains_key(h) implies 1 <= h < self.next_handle by {
                assert(old(self)@.contains_key(h));
            }
            if removed.is_some() {
                assert forall|h: StatusItemHandle, e: i64| #[trigger] self.platform_manager@.contains((h, e))
                    <==> (self@.contains_key(h.0) && self@[h.0] == e) by {
                    let f = before.filter(p);
                    if f.contains((h, e)) {
                        before.lemma_filter_contains_rev(p, (h, e));
                        let j = choose|j: int| 0 <= j < f.len() && f[j] == (h, e);
                        before.lemma_filter_pred(p, j);
                        assert(h.0 != handle.0);
                    }
                    if self@.contains_key(h.0) && self@[h.0] == e {
                        assert(old(self)@.contains_key(h.0));
                        assert(before.contains((h, e)));
                        let j = choose|j: int| 0 <= j < before.len() && before[j] == (h, e);
                        before.lemma_filter_contains(p, j);
                    }
                }
            } else {
                assert forall|h: StatusItemHandle, e: i64| before.contains((h, e)) implies h != handle by {}
            }
        }
    }

    /// The item `handle`, or an error if no such item exists.
    pub fn get_platform_status_item(&self, handle: StatusItemHandle) -> (r: Result<
        PlatformStatusItem,
        StatusItemError,
    >)
        ensures
            match r {
                Ok(item) => self@.contains_key(handle.0) && item.handle == handle && item.engine
                    == self@[handle.0],
                Err(e) => !self@.contains_key(handle.0) && e == StatusItemError::InvalidStatusItemHandle,
            },
    {
        match self.status_item_map.get(&handle.0) {
            Some(engine) => Ok(PlatformStatusItem::new(handle, *engine)),
            None => Err(StatusItemError::InvalidStatusItemHandle),
        }
    }

    /// The engine that owns `handle`, if the item exists.
    pub fn engine_of(&self, handle: StatusItemHandle) -> (r: Option<i64>)
        ensures
            r == if self@.contains_key(handle.0) { Some(self@[handle.0]) } else { None::<i64> },
    {
        match self.status_item_map.get(&handle.0) {
            Some(engine) => Some(*engine),
            None => None,
        }
    }

    /// The platform side, which decodes the notification messages.
    pub fn platform_manager(&self) -> (r: &PlatformStatusItemManager)
        ensures
            r@ == self.platform_items(),
    {
        &self.platform_manager
    }
}

impl StatusItemDelegate for StatusItemManager {
    fn on_action(&self, handle: StatusItemHandle, action: StatusItemActionType) -> (r: Option<i64>)
        ensures
            r == if self@.contains_key(handle.0) { Some(self@[handle.0]) } else { None::<i64> },
    {
        self.engine_of(handle)
    }
}

/// Length of the tip of a notification area icon, in UTF-16 units.
pub const TIP_LEN: usize = 128;

/// The tip field of a notification area icon filled from `tip` (UTF-16
/// with its terminating zero): as much of `tip` as fits, zeros after it.
pub fn tip_buffer(tip: &[u16]) -> (r: Vec<u16>)
    ensures
        r@.len() == TIP_LEN,
        forall|i: int| 0 <= i < TIP_LEN ==> #[trigger] r@[i] == if i < tip@.len() { tip@[i] } else { 0u16 },
{
    let mut r: Vec<u16> = Vec::new();
    let mut i: usize = 0;
    while i < TIP_LEN
        invariant
            0 <= i <= TIP_LEN,
            r@.len() == i,
            forall|k: int| 0 <= k < i ==> #[trigger] r@[k] == if k < tip@.len() { tip@[k] } else { 0u16 },
        decreases TIP_LEN - i,
    {
        if i < tip.len() {
            r.push(tip[i]);
        } else {
            r.push(0);
        }
        i = i + 1;
    }
    r
}

/// Destroying an item right after creating it gives back the items there
/// were before.
pub proof fn lemma_destroy_undoes_create(items: Map<i64, i64>, handle: i64, engine: i64)
    requires
        !items.contains_key(handle),
    ensures
        items.insert(handle, engine).remove(handle) == items,
{
    assert(items.insert(handle, engine).remove(handle) =~= items);
}

/// Initialising an engine keeps exactly the items of the other engines.
pub proof fn lemma_init_keeps_other_engines(items: Map<i64, i64>, engine: i64, handle: i64)
    ensures
        items.remove_keys(owned_by(items, engine)).contains_key(handle) <==> (items.contains_key(handle)
            && items[handle] != engine),
{
}

} // verus!

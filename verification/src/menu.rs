//! Platform menus: item titles with their accelerators, the item
//! description handed to the system, and the menu manager.
use crate::diff::{
    both_count, lcs_len, pairs_equal, update_diff, DiffResult, DiffStep, lefts, merged, news, olds,
    rights,
};
use vstd::std_specs::cmp::PartialEqSpec;
use crate::error::{PlatformError, PlatformResult};
use vstd::prelude::*;

verus! {

/// Check mark state of a menu item.
#[derive(Clone, Copy, PartialEq, Eq, Structural, Debug)]
pub enum CheckStatus {
    NoCheck,
    CheckOn,
    CheckOff,
    RadioOn,
    RadioOff,
}

/// Keyboard shortcut shown next to a menu item.
#[derive(PartialEq)]
pub struct Accelerator {
    pub label: String,
    pub alt: bool,
    pub control: bool,
    pub shift: bool,
    pub meta: bool,
}

/// A menu item as described by the application.
#[derive(PartialEq)]
pub struct MenuItem {
    pub id: i64,
    pub title: String,
    pub enabled: bool,
    pub separator: bool,
    pub check_status: CheckStatus,
    pub submenu: Option<i64>,
    pub accelerator: Option<Accelerator>,
}

/// Menu item description passed to the system.
#[derive(Clone, Copy, PartialEq, Eq, Structural, Debug)]
pub struct MenuItemInfo {
    pub mask: u32,
    pub item_type: u32,
    pub state: u32,
    pub id: u32,
    pub submenu: isize,
    pub title_len: u32,
}

pub const MFT_STRING: u32 = 0x0000;
pub const MFT_RADIOCHECK: u32 = 0x0200;
pub const MFT_SEPARATOR: u32 = 0x0800;
pub const MFS_ENABLED: u32 = 0x0000;
pub const MFS_DISABLED: u32 = 0x0003;
pub const MFS_CHECKED: u32 = 0x0008;
pub const MIIM_STATE: u32 = 0x0001;
pub const MIIM_ID: u32 = 0x0002;
pub const MIIM_SUBMENU: u32 = 0x0004;
pub const MIIM_STRING: u32 = 0x0040;
pub const MIIM_FTYPE: u32 = 0x0100;

/// Names of the modifiers of an accelerator, in display order.
pub open spec fn modifier_names(a: &Accelerator) -> Seq<Seq<char>> {
    (if a.control { seq!["Ctrl"@] } else { Seq::empty() }) + (if a.alt { seq!["Alt"@] } else {
        Seq::empty()
    }) + (if a.shift { seq!["Shift"@] } else { Seq::empty() }) + (if a.meta { seq!["Win"@] } else {
        Seq::empty()
    })
}

/// The parts appended to a title: a tab before the first, a plus before the others.
pub open spec fn title_suffix(parts: Seq<Seq<char>>) -> Seq<char>
    decreases parts.len(),
{
    if parts.len() == 0 {
        Seq::empty()
    } else {
        title_suffix(parts.drop_last()) + (if parts.len() == 1 { "\t"@ } else { "+"@ })
            + parts.last()
    }
}

/// The title shown for a menu item: its title, then its accelerator.
pub open spec fn menu_title(item: &MenuItem) -> Seq<char> {
    match item.accelerator {
        None => item.title@,
        Some(a) => item.title@ + title_suffix(modifier_names(&a).push(a.label@)),
    }
}

proof fn lemma_suffix_push(parts: Seq<Seq<char>>, p: Seq<char>)
    ensures
        title_suffix(parts.push(p)) == title_suffix(parts) + (if parts.len() == 0 { "\t"@ } else {
            "+"@
        }) + p,
{
    assert(parts.push(p).drop_last() =~= parts);
}

/// The title of a menu item with its accelerator, as the system shows it.
pub fn title_for_item(item: &MenuItem) -> (res: String)
    ensures
        res@ == menu_title(item),
{
    let mut res = item.title.clone();
    match &item.accelerator {
        None => {},
        Some(a) => {
            let ghost base = item.title@;
            let mut first = true;
            assert(res@ =~= base + title_suffix(Seq::empty()));
            let ghost p0: Seq<Seq<char>> = Seq::empty();
            let ghost p1 = if a.control { p0.push("Ctrl"@) } else { p0 };
            if a.control {
                append_part_step(&mut res, &mut first, Ghost(base), Ghost(p0), "Ctrl");
            }
            let ghost p2 = if a.alt { p1.push("Alt"@) } else { p1 };
            if a.alt {
                append_part_step(&mut res, &mut first, Ghost(base), Ghost(p1), "Alt");
            }
            let ghost p3 = if a.shift { p2.push("Shift"@) } else { p2 };
            if a.shift {
                append_part_step(&mut res, &mut first, Ghost(base), Ghost(p2), "Shift");
            }
            let ghost p4 = if a.meta { p3.push("Win"@) } else { p3 };
            if a.meta {
                append_part_step(&mut res, &mut first, Ghost(base), Ghost(p3), "Win");
            }
            assert(p4 =~= modifier_names(a));
            append_part_step(&mut res, &mut first, Ghost(base), Ghost(p4), a.label.as_str());
        },
    }
    res
}

fn append_part_step(
    res: &mut String,
    first: &mut bool,
    base: Ghost<Seq<char>>,
    parts: Ghost<Seq<Seq<char>>>,
    part: &str,
)
    requires
        *old(first) == (parts@.len() == 0),
        old(res)@ == base@ + title_suffix(parts@),
    ensures
        !*final(first),
        final(res)@ == base@ + title_suffix(parts@.push(part@)),
{
    if *first {
        res.append("\t");
    } else {
        res.append("+");
    }
    res.append(part);
    *first = false;
    proof {
        lemma_suffix_push(parts@, part@);
        assert(res@ =~= base@ + title_suffix(parts@.push(part@)));
    }
}

/// The item type flags: separator or string, radio check mark when a radio item is on.
pub open spec fn menu_item_type(item: &MenuItem) -> u32 {
    let base = if item.separator { MFT_SEPARATOR } else { MFT_STRING };
    if item.check_status == CheckStatus::RadioOn { base | MFT_RADIOCHECK } else { base }
}

/// The item state flags: disabled unless enabled, checked when a check or radio item is on.
pub open spec fn menu_item_state(item: &MenuItem) -> u32 {
    let s = if !item.enabled { MFS_ENABLED | MFS_DISABLED } else { MFS_ENABLED };
    if item.check_status == CheckStatus::CheckOn || item.check_status == CheckStatus::RadioOn {
        s | MFS_CHECKED
    } else {
        s
    }
}

/// What the flags say of an item: its state has the check mark bit exactly
/// when it is a check or radio item that is on, and the disabled bits
/// exactly when it is disabled, and no other bit; its type has the radio
/// mark bit exactly when it is a radio item that is on, and the separator
/// bit exactly when it is a separator, and no other bit.
pub proof fn lemma_item_flags(item: &MenuItem)
    ensures
        (menu_item_state(item) & MFS_CHECKED != 0) == (item.check_status == CheckStatus::CheckOn
            || item.check_status == CheckStatus::RadioOn),
        (menu_item_state(item) & MFS_DISABLED == MFS_DISABLED) == !item.enabled,
        (menu_item_state(item) & MFS_DISABLED == 0) == item.enabled,
        menu_item_state(item) | (MFS_DISABLED | MFS_CHECKED) == MFS_DISABLED | MFS_CHECKED,
        (menu_item_type(item) & MFT_RADIOCHECK != 0) == (item.check_status == CheckStatus::RadioOn),
        (menu_item_type(item) & MFT_SEPARATOR != 0) == item.separator,
        menu_item_type(item) | (MFT_RADIOCHECK | MFT_SEPARATOR) == MFT_RADIOCHECK | MFT_SEPARATOR,
{
    let s = menu_item_state(item);
    let t = menu_item_type(item);
    let checked = item.check_status == CheckStatus::CheckOn || item.check_status
        == CheckStatus::RadioOn;
    let radio = item.check_status == CheckStatus::RadioOn;
    assert(s == if item.enabled {
        if checked { 8u32 } else { 0u32 }
    } else {
        if checked { 11u32 } else { 3u32 }
    }) by {
        assert(0u32 | 3u32 == 3u32) by (bit_vector);
        assert(0u32 | 8u32 == 8u32) by (bit_vector);
        assert(3u32 | 8u32 == 11u32) by (bit_vector);
    }
    assert(t == if item.separator {
        if radio { 0xa00u32 } else { 0x800u32 }
    } else {
        if radio { 0x200u32 } else { 0u32 }
    }) by {
        assert(0u32 | 0x200u32 == 0x200u32) by (bit_vector);
        assert(0x800u32 | 0x200u32 == 0xa00u32) by (bit_vector);
    }
    assert(forall|v: u32|
        (v == 0u32 || v == 3u32 || v == 8u32 || v == 11u32) ==> ((v & 8u32 != 0) == (v == 8u32 || v
            == 11u32) && (v & 3u32 == 3u32) == (v == 3u32 || v == 11u32) && (v & 3u32 == 0) == (v
            == 0u32 || v == 8u32) && v | 11u32 == 11u32)) by (bit_vector);
    assert(forall|v: u32|
        (v == 0u32 || v == 0x200u32 || v == 0x800u32 || v == 0xa00u32) ==> ((v & 0x200u32 != 0) == (v
            == 0x200u32 || v == 0xa00u32) && (v & 0x800u32 != 0) == (v == 0x800u32 || v == 0xa00u32)
            && v | 0xa00u32 == 0xa00u32)) by (bit_vector);
    assert(MFS_DISABLED | MFS_CHECKED == 11u32) by (bit_vector);
    assert(MFT_RADIOCHECK | MFT_SEPARATOR == 0xa00u32) by (bit_vector);
}

/// Describes `item` for the system. `submenu` is the system menu of the
/// item's submenu when it has one that is known, `title` the item's title
/// in UTF-16 with its terminating zero.
pub fn get_menu_item_info(item: &MenuItem, title: &[u16], submenu: Option<isize>) -> (info:
    MenuItemInfo)
    ensures
        info.mask == MIIM_FTYPE | MIIM_ID | MIIM_STATE | MIIM_STRING | MIIM_SUBMENU,
        info.item_type == menu_item_type(item),
        info.state == menu_item_state(item),
        info.id == item.id as u32,
        info.submenu == match submenu {
            Some(m) => m,
            None => 0,
        },
        info.title_len == title@.len() as u32,
{
    let submenu = match submenu {
        Some(m) => m,
        None => 0,
    };
    let mut item_type = if item.separator { MFT_SEPARATOR } else { MFT_STRING };
    let mut state = MFS_ENABLED;
    if !item.enabled {
        state = state | MFS_DISABLED;
    }
    if item.check_status == CheckStatus::CheckOn {
        state = state | MFS_CHECKED;
    }
    if item.check_status == CheckStatus::RadioOn {
        item_type = item_type | MFT_RADIOCHECK;
        state = state | MFS_CHECKED;
    }
    MenuItemInfo {
        mask: MIIM_FTYPE | MIIM_ID | MIIM_STATE | MIIM_STRING | MIIM_SUBMENU,
        item_type,
        state,
        id: item.id as u32,
        submenu,
        title_len: title.len() as u32,
    }
}

/// Whether an existing item may be updated in place to show another one: always.
pub fn can_update(_old_item: &MenuItem, _new_item: &MenuItem) -> (r: bool)
    ensures
        r,
{
    true
}

/// Manages menus that are not attached to a window.
pub struct PlatformMenuManager {}

impl PlatformMenuManager {
    /// A menu manager.
    pub fn new() -> (r: Self) {
        PlatformMenuManager {}
    }

    /// Nothing to do: this platform keeps no reference to the manager.
    pub fn assign_weak_self(&self) {
    }

    /// An application menu bar does not exist on this platform.
    pub fn set_app_menu(&self, _menu: Option<i64>) -> (r: PlatformResult<()>)
        ensures
            r matches Err(PlatformError::NotAvailable),
    {
        Err(PlatformError::NotAvailable)
    }
}

/// A change to make to a system menu so that it shows a new list of items.
#[derive(Clone, Copy, PartialEq, Eq, Structural, Debug)]
pub enum MenuEdit {
    /// Remove the item with this command id.
    Remove { id: i64 },
    /// Show the new item at `index` in place of the item with command id `id`.
    Update { id: i64, index: usize },
    /// Insert the new item at `index`, at that position.
    Insert { index: usize },
}

/// The removals of an update diff, in order.
pub open spec fn removal_edits(r: Seq<DiffResult<&MenuItem>>) -> Seq<MenuEdit>
    decreases r.len(),
{
    if r.len() == 0 {
        Seq::empty()
    } else {
        let rest = removal_edits(r.drop_last());
        match r.last() {
            DiffResult::Remove(a) => rest.push(MenuEdit::Remove { id: a.id }),
            _ => rest,
        }
    }
}

/// How many steps of an update diff leave an item in the menu.
pub open spec fn kept_count(r: Seq<DiffResult<&MenuItem>>) -> nat
    decreases r.len(),
{
    if r.len() == 0 {
        0
    } else {
        kept_count(r.drop_last()) + match r.last() {
            DiffResult::Remove(_) => 0nat,
            _ => 1nat,
        }
    }
}

/// The updates and insertions of an update diff, in order, each at the
/// position that its item takes once the removals are done.
pub open spec fn placement_edits(r: Seq<DiffResult<&MenuItem>>) -> Seq<MenuEdit>
    decreases r.len(),
{
    if r.len() == 0 {
        Seq::empty()
    } else {
        let rest = placement_edits(r.drop_last());
        let index = kept_count(r.drop_last()) as usize;
        match r.last() {
            DiffResult::Update(a, _) => rest.push(MenuEdit::Update { id: a.id, index }),
            DiffResult::Insert(_) => rest.push(MenuEdit::Insert { index }),
            _ => rest,
        }
    }
}

/// The edits that carry out an update diff: all removals first, then the
/// updates and insertions.
pub open spec fn menu_edits(r: Seq<DiffResult<&MenuItem>>) -> Seq<MenuEdit> {
    removal_edits(r) + placement_edits(r)
}

/// The edits that carry out the update diff `diff` on a system menu.
pub fn edits_for_diff(diff: &Vec<DiffResult<&MenuItem>>) -> (edits: Vec<MenuEdit>)
    requires
        kept_count(diff@) <= usize::MAX,
    ensures
        edits@ == menu_edits(diff@),
{
    let mut edits: Vec<MenuEdit> = Vec::new();
    let mut i: usize = 0;
    while i < diff.len()
        invariant
            0 <= i <= diff@.len(),
            edits@ == removal_edits(diff@.take(i as int)),
        decreases diff@.len() - i,
    {
        proof {
            assert(diff@.take(i + 1).drop_last() =~= diff@.take(i as int));
        }
        match diff[i] {
            DiffResult::Remove(item) => {
                edits.push(MenuEdit::Remove { id: item.id });
            },
            _ => {},
        }
        i = i + 1;
    }
    proof {
        assert(diff@.take(diff@.len() as int) =~= diff@);
    }
    let ghost removals = edits@;
    let mut placed: usize = 0;
    let mut j: usize = 0;
    while j < diff.len()
        invariant
            0 <= j <= diff@.len(),
            kept_count(diff@) <= usize::MAX,
            placed == kept_count(diff@.take(j as int)),
            edits@ == removals + placement_edits(diff@.take(j as int)),
        decreases diff@.len() - j,
    {
        proof {
            assert(diff@.take(j + 1).drop_last() =~= diff@.take(j as int));
            lemma_kept_count_prefix(diff@, j as int + 1);
        }
        match diff[j] {
            DiffResult::Remove(_) => {},
            DiffResult::Keep(_, _) => {
                placed = placed + 1;
            },
            DiffResult::Update(old, _) => {
                edits.push(MenuEdit::Update { id: old.id, index: placed });
                placed = placed + 1;
            },
            DiffResult::Insert(_) => {
                edits.push(MenuEdit::Insert { index: placed });
                placed = placed + 1;
            },
        }
        j = j + 1;
    }
    proof {
        assert(diff@.take(diff@.len() as int) =~= diff@);
    }
    edits
}

proof fn lemma_kept_count_prefix(r: Seq<DiffResult<&MenuItem>>, j: int)
    requires
        0 <= j <= r.len(),
    ensures
        kept_count(r.take(j)) <= kept_count(r),
    decreases r.len() - j,
{
    if j < r.len() {
        lemma_kept_count_prefix(r, j + 1);
        assert(r.take(j + 1).drop_last() =~= r.take(j));
    } else {
        assert(r.take(j) =~= r);
    }
}

/// A menu shown by the system, with the items it was last built from.
pub struct PlatformMenu {
    handle: i64,
    previous_items: Vec<MenuItem>,
}

impl PlatformMenu {
    /// An empty menu.
    pub fn new(handle: i64) -> (r: Self)
        ensures
            r.menu_handle() == handle,
            r.previous_items()@.len() == 0,
    {
        PlatformMenu { handle, previous_items: Vec::new() }
    }

    /// The menu's handle.
    pub closed spec fn menu_handle(&self) -> i64 {
        self.handle
    }

    /// The menu's handle.
    pub fn handle(&self) -> (h: i64)
        ensures
            h == self.menu_handle(),
    {
        self.handle
    }

    /// The items that the system menu shows now.
    pub closed spec fn previous_items(&self) -> Vec<MenuItem> {
        self.previous_items
    }

    /// Brings the menu to `items`: the edits to make on the system menu, from
    /// the update diff between the items shown so far and `items` (every
    /// item may be updated in place).
    pub fn update_from_menu(&mut self, items: Vec<MenuItem>) -> (edits: Vec<MenuEdit>)
        requires
            items@.len() <= usize::MAX,
        ensures
            final(self).menu_handle() == old(self).menu_handle(),
            final(self).previous_items() == items,
            exists|r: Seq<DiffResult<&MenuItem>>, d: Seq<DiffStep<&MenuItem>>|
                #![trigger merged(d, r, can_update)]
                lefts(d) == old(self).previous_items()@ && rights(d) == items@ && merged(
                    d,
                    r,
                    can_update,
                ) && olds(r) == old(self).previous_items()@ && news(r) == items@ && edits@
                    == menu_edits(r) && (MenuItem::obeys_eq_spec() ==> pairs_equal(d) && both_count(
                    d,
                ) == lcs_len(old(self).previous_items()@, items@)),
    {
        let edits = {
            let diff = update_diff(self.previous_items.as_slice(), items.as_slice(), can_update);
            proof {
                lemma_kept_count_news(diff@);
            }
            edits_for_diff(&diff)
        };
        self.previous_items = items;
        edits
    }
}

/// Once the edits of an update diff are made, the menu has as many items as
/// the new list: one for each step that keeps, updates or inserts an item.
pub proof fn lemma_kept_count_news(r: Seq<DiffResult<&MenuItem>>)
    ensures
        kept_count(r) == news(r).len(),
    decreases r.len(),
{
    if r.len() > 0 {
        lemma_kept_count_news(r.drop_last());
        lemma_news_push(r.drop_last(), r.last());
        assert(r.drop_last().push(r.last()) =~= r);
    }
}

proof fn lemma_news_push(r: Seq<DiffResult<&MenuItem>>, x: DiffResult<&MenuItem>)
    ensures
        news(r.push(x)).len() == news(r).len() + match x {
            DiffResult::Remove(_) => 0nat,
            _ => 1nat,
        },
    decreases r.len(),
{
    if r.len() == 0 {
        assert(r.push(x).drop_first() =~= r);
    } else {
        lemma_news_push(r.drop_first(), x);
        assert(r.push(x).drop_first() =~= r.drop_first().push(x));
    }
}

/// The old item that a step of an update diff leaves in the menu, if any:
/// the kept or the updated one.
pub open spec fn step_kept(s: DiffResult<&MenuItem>) -> Seq<MenuItem> {
    match s {
        DiffResult::Keep(a, _) => seq![*a],
        DiffResult::Update(a, _) => seq![*a],
        _ => Seq::empty(),
    }
}

/// The new item that a step puts into the menu, if any: the item of an
/// update or an insertion.
pub open spec fn step_placed(s: DiffResult<&MenuItem>) -> Seq<MenuItem> {
    match s {
        DiffResult::Update(_, b) => seq![*b],
        DiffResult::Insert(b) => seq![*b],
        _ => Seq::empty(),
    }
}

/// What a step makes the menu show: the kept item, or the new one.
pub open spec fn step_shown(s: DiffResult<&MenuItem>) -> Seq<MenuItem> {
    match s {
        DiffResult::Keep(a, _) => seq![*a],
        DiffResult::Update(_, b) => seq![*b],
        DiffResult::Insert(b) => seq![*b],
        DiffResult::Remove(_) => Seq::empty(),
    }
}

/// The old items that an update diff leaves in the menu, in order.
pub open spec fn kept_olds(r: Seq<DiffResult<&MenuItem>>) -> Seq<MenuItem>
    decreases r.len(),
{
    if r.len() == 0 {
        Seq::empty()
    } else {
        step_kept(r[0]) + kept_olds(r.drop_first())
    }
}

/// The items a menu shows once an update diff is carried out: for each step
/// that leaves an item, the kept item or the new one.
pub open spec fn shown(r: Seq<DiffResult<&MenuItem>>) -> Seq<MenuItem>
    decreases r.len(),
{
    if r.len() == 0 {
        Seq::empty()
    } else {
        step_shown(r[0]) + shown(r.drop_first())
    }
}

/// No item of `m` has the command id of an item of `n`.
pub open spec fn ids_disjoint(m: Seq<MenuItem>, n: Seq<MenuItem>) -> bool {
    forall|i: int, k: int| 0 <= i < m.len() && 0 <= k < n.len() ==> m[i].id != n[k].id
}

/// The command ids of an update diff keep its edits apart: no old item
/// shares its id with a later old item, and no item that a step puts into
/// the menu shares its id with an old item that a later step keeps.
pub open spec fn ids_apart(r: Seq<DiffResult<&MenuItem>>) -> bool
    decreases r.len(),
{
    if r.len() == 0 {
        true
    } else {
        &&& ids_disjoint(crate::diff::result_old(r[0]), olds(r.drop_first()))
        &&& ids_disjoint(step_placed(r[0]), kept_olds(r.drop_first()))
        &&& ids_apart(r.drop_first())
    }
}

/// The position of the first entry of `m` with command id `id`, or the
/// length of `m` when there is none.
pub open spec fn position_of_id(m: Seq<MenuItem>, id: i64) -> int
    decreases m.len(),
{
    if m.len() == 0 || m[0].id == id {
        0
    } else {
        1 + position_of_id(m.drop_first(), id)
    }
}

/// The system menu `m` after the edit `e`, `items` being the new items:
/// a removal or an update acts on the first entry with the command id, an
/// insertion puts the new item at its position.
pub open spec fn apply_edit(m: Seq<MenuItem>, e: MenuEdit, items: Seq<MenuItem>) -> Seq<MenuItem> {
    match e {
        MenuEdit::Remove { id } => {
            let j = position_of_id(m, id);
            if j < m.len() {
                m.remove(j)
            } else {
                m
            }
        },
        MenuEdit::Update { id, index } => {
            let j = position_of_id(m, id);
            if j < m.len() {
                m.update(j, items[index as int])
            } else {
                m
            }
        },
        MenuEdit::Insert { index } => {
            if index <= m.len() {
                m.insert(index as int, items[index as int])
            } else {
                m
            }
        },
    }
}

/// The system menu `m` after the edits, in order.
pub open spec fn apply_edits(m: Seq<MenuItem>, edits: Seq<MenuEdit>, items: Seq<MenuItem>) -> Seq<
    MenuItem,
>
    decreases edits.len(),
{
    if edits.len() == 0 {
        m
    } else {
        apply_edits(apply_edit(m, edits[0], items), edits.drop_first(), items)
    }
}

/// Carrying out the edits of an update diff on the menu that shows the old
/// items leaves it showing, at each position, the kept old item or the new
/// one, provided that the command ids keep the edits apart.
pub proof fn lemma_edits_show_update(r: Seq<DiffResult<&MenuItem>>)
    requires
        ids_apart(r),
        news(r).len() <= usize::MAX,
    ensures
        apply_edits(olds(r), menu_edits(r), news(r)) == shown(r),
{
    let items = news(r);
    lemma_apply_edits_append(olds(r), removal_edits(r), placement_edits(r), items);
    lemma_removals_forward(r);
    lemma_placements_forward(r);
    assert(Seq::<MenuItem>::empty() + olds(r) =~= olds(r));
    lemma_removals_apply(Seq::empty(), r, items);
    assert(Seq::<MenuItem>::empty() + kept_olds(r) =~= kept_olds(r));
    assert forall|k: int| 0 <= k < news(r).len() implies items[0 + k] == #[trigger] news(r)[k] by {
    }
    lemma_placements_apply(Seq::empty(), r, items);
    assert(Seq::<MenuItem>::empty() + shown(r) =~= shown(r));
}

proof fn lemma_apply_edits_append(
    m: Seq<MenuItem>,
    e1: Seq<MenuEdit>,
    e2: Seq<MenuEdit>,
    items: Seq<MenuItem>,
)
    ensures
        apply_edits(m, e1 + e2, items) == apply_edits(apply_edits(m, e1, items), e2, items),
    decreases e1.len(),
{
    if e1.len() == 0 {
        assert(e1 + e2 =~= e2);
    } else {
        assert((e1 + e2)[0] == e1[0]);
        assert((e1 + e2).drop_first() =~= e1.drop_first() + e2);
        lemma_apply_edits_append(apply_edit(m, e1[0], items), e1.drop_first(), e2, items);
    }
}

/// The removal a step calls for, if any.
pub open spec fn removal_step(s: DiffResult<&MenuItem>) -> Seq<MenuEdit> {
    match s {
        DiffResult::Remove(a) => seq![MenuEdit::Remove { id: a.id }],
        _ => Seq::empty(),
    }
}

/// The removals of an update diff, gathered from its first step on.
pub open spec fn removals_from(r: Seq<DiffResult<&MenuItem>>) -> Seq<MenuEdit>
    decreases r.len(),
{
    if r.len() == 0 {
        Seq::empty()
    } else {
        removal_step(r[0]) + removals_from(r.drop_first())
    }
}

proof fn lemma_removals_from_push(r: Seq<DiffResult<&MenuItem>>, x: DiffResult<&MenuItem>)
    ensures
        removals_from(r.push(x)) == removals_from(r) + removal_step(x),
    decreases r.len(),
{
    if r.len() == 0 {
        assert(r.push(x).drop_first() =~= r);
        assert(removals_from(r.push(x)) =~= removals_from(r) + removal_step(x));
    } else {
        lemma_removals_from_push(r.drop_first(), x);
        assert(r.push(x).drop_first() =~= r.drop_first().push(x));
        assert(removals_from(r.push(x)) =~= removals_from(r) + removal_step(x));
    }
}

proof fn lemma_removals_forward(r: Seq<DiffResult<&MenuItem>>)
    ensures
        removal_edits(r) == removals_from(r),
    decreases r.len(),
{
    if r.len() > 0 {
        lemma_removals_forward(r.drop_last());
        lemma_removals_from_push(r.drop_last(), r.last());
        assert(r.drop_last().push(r.last()) =~= r);
        assert(removal_edits(r) =~= removal_edits(r.drop_last()) + removal_step(r.last()));
    }
}

/// The step counts toward the positions of later items: it is no removal.
pub open spec fn kept_inc(s: DiffResult<&MenuItem>) -> nat {
    match s {
        DiffResult::Remove(_) => 0,
        _ => 1,
    }
}

/// The update or insertion a step calls for, if any, at position `base`.
pub open spec fn placement_step(s: DiffResult<&MenuItem>, base: int) -> Seq<MenuEdit> {
    match s {
        DiffResult::Update(a, _) => seq![MenuEdit::Update { id: a.id, index: base as usize }],
        DiffResult::Insert(_) => seq![MenuEdit::Insert { index: base as usize }],
        _ => Seq::empty(),
    }
}

/// The updates and insertions of an update diff, gathered from its first
/// step on, the first placed at position `base`.
pub open spec fn placements_from(r: Seq<DiffResult<&MenuItem>>, base: int) -> Seq<MenuEdit>
    decreases r.len(),
{
    if r.len() == 0 {
        Seq::empty()
    } else {
        placement_step(r[0], base) + placements_from(r.drop_first(), base + kept_inc(r[0]))
    }
}

proof fn lemma_kept_count_first(r: Seq<DiffResult<&MenuItem>>)
    requires
        r.len() > 0,
    ensures
        kept_count(r) == kept_inc(r[0]) + kept_count(r.drop_first()),
    decreases r.len(),
{
    if r.len() == 1 {
        assert(r.drop_first() =~= Seq::<DiffResult<&MenuItem>>::empty());
        assert(r.drop_last() =~= Seq::<DiffResult<&MenuItem>>::empty());
    } else {
        lemma_kept_count_first(r.drop_last());
        assert(r.drop_last().drop_first() =~= r.drop_first().drop_last());
        assert(r.drop_first().last() == r.last());
    }
}

proof fn lemma_placements_from_push(
    r: Seq<DiffResult<&MenuItem>>,
    x: DiffResult<&MenuItem>,
    base: int,
)
    ensures
        placements_from(r.push(x), base) == placements_from(r, base) + placement_step(
            x,
            base + kept_count(r),
        ),
    decreases r.len(),
{
    if r.len() == 0 {
        assert(r.push(x).drop_first() =~= r);
        assert(r.push(x)[0] == x);
        assert(placements_from(r.push(x).drop_first(), base + kept_inc(x)) == Seq::<MenuEdit>::empty());
        assert(kept_count(r) == 0);
        assert(placements_from(r.push(x), base) =~= placements_from(r, base) + placement_step(
            x,
            base + kept_count(r),
        ));
    } else {
        lemma_placements_from_push(r.drop_first(), x, base + kept_inc(r[0]));
        lemma_kept_count_first(r);
        assert(r.push(x).drop_first() =~= r.drop_first().push(x));
        assert(r.push(x)[0] == r[0]);
        assert(placements_from(r.push(x), base) == placement_step(r[0], base) + placements_from(
            r.drop_first().push(x),
            base + kept_inc(r[0]),
        ));
        assert(base + kept_inc(r[0]) + kept_count(r.drop_first()) == base + kept_count(r));
        assert(placements_from(r.push(x), base) =~= placements_from(r, base) + placement_step(
            x,
            base + kept_count(r),
        ));
    }
}

proof fn lemma_placements_forward(r: Seq<DiffResult<&MenuItem>>)
    ensures
        placement_edits(r) == placements_from(r, 0),
    decreases r.len(),
{
    if r.len() > 0 {
        lemma_placements_forward(r.drop_last());
        lemma_placements_from_push(r.drop_last(), r.last(), 0);
        assert(r.drop_last().push(r.last()) =~= r);
        assert(placement_edits(r) =~= placement_edits(r.drop_last()) + placement_step(
            r.last(),
            0int + kept_count(r.drop_last()),
        ));
    }
}

proof fn lemma_position_after(p: Seq<MenuItem>, s: Seq<MenuItem>, id: i64)
    requires
        forall|i: int| 0 <= i < p.len() ==> p[i].id != id,
        s.len() > 0,
        s[0].id == id,
    ensures
        position_of_id(p + s, id) == p.len(),
    decreases p.len(),
{
    if p.len() == 0 {
        assert(p + s =~= s);
    } else {
        assert((p + s)[0] == p[0]);
        assert((p + s).drop_first() =~= p.drop_first() + s);
        lemma_position_after(p.drop_first(), s, id);
    }
}

proof fn lemma_disjoint_kept(x: Seq<MenuItem>, r: Seq<DiffResult<&MenuItem>>)
    requires
        ids_disjoint(x, olds(r)),
    ensures
        ids_disjoint(x, kept_olds(r)),
    decreases r.len(),
{
    if r.len() > 0 {
        let rest = r.drop_first();
        assert(olds(r) == crate::diff::result_old(r[0]) + olds(rest));
        assert forall|i: int, k: int| 0 <= i < x.len() && 0 <= k < olds(rest).len() implies x[i].id
            != olds(rest)[k].id by {
            assert(olds(r)[crate::diff::result_old(r[0]).len() + k] == olds(rest)[k]);
        }
        lemma_disjoint_kept(x, rest);
        assert forall|i: int, k: int| 0 <= i < x.len() && 0 <= k < kept_olds(r).len() implies x[i].id
            != kept_olds(r)[k].id by {
            if k < step_kept(r[0]).len() {
                assert(kept_olds(r)[k] == olds(r)[k]);
            } else {
                assert(kept_olds(r)[k] == kept_olds(rest)[k - step_kept(r[0]).len()]);
            }
        }
    }
}

proof fn lemma_removals_apply(p: Seq<MenuItem>, r: Seq<DiffResult<&MenuItem>>, items: Seq<MenuItem>)
    requires
        ids_apart(r),
        ids_disjoint(p, olds(r)),
    ensures
        apply_edits(p + olds(r), removals_from(r), items) == p + kept_olds(r),
    decreases r.len(),
{
    if r.len() == 0 {
        assert(p + olds(r) =~= p);
        assert(p + kept_olds(r) =~= p);
    } else {
        let rest = r.drop_first();
        let o = olds(rest);
        assert forall|i: int, k: int| 0 <= i < p.len() && 0 <= k < o.len() implies p[i].id
            != o[k].id by {
            assert(olds(r)[crate::diff::result_old(r[0]).len() + k] == o[k]);
        }
        match r[0] {
            DiffResult::Remove(a) => {
                let e = MenuEdit::Remove { id: a.id };
                assert(removals_from(r) =~= seq![e] + removals_from(rest));
                assert(removals_from(r)[0] == e);
                assert(removals_from(r).drop_first() =~= removals_from(rest));
                assert forall|i: int| 0 <= i < p.len() implies p[i].id != a.id by {
                    assert(olds(r)[0] == *a);
                }
                lemma_position_after(p, seq![*a] + o, a.id);
                assert(p + olds(r) =~= p + (seq![*a] + o));
                assert((p + (seq![*a] + o)).remove(p.len() as int) =~= p + o);
                lemma_removals_apply(p, rest, items);
                assert(p + kept_olds(r) =~= p + kept_olds(rest));
            },
            DiffResult::Insert(_) => {
                assert(removals_from(r) =~= removals_from(rest));
                lemma_removals_apply(p, rest, items);
                assert(p + olds(r) =~= p + o);
                assert(p + kept_olds(r) =~= p + kept_olds(rest));
            },
            DiffResult::Keep(a, _) => {
                let q = p.push(*a);
                assert(removals_from(r) =~= removals_from(rest));
                assert forall|i: int, k: int| 0 <= i < q.len() && 0 <= k < o.len() implies q[i].id
                    != o[k].id by {
                    if i == p.len() {
                        assert(crate::diff::result_old(r[0])[0] == *a);
                    }
                }
                lemma_removals_apply(q, rest, items);
                assert(q + o =~= p + olds(r));
                assert(q + kept_olds(rest) =~= p + kept_olds(r));
            },
            DiffResult::Update(a, _) => {
                let q = p.push(*a);
                assert(removals_from(r) =~= removals_from(rest));
                assert forall|i: int, k: int| 0 <= i < q.len() && 0 <= k < o.len() implies q[i].id
                    != o[k].id by {
                    if i == p.len() {
                        assert(crate::diff::result_old(r[0])[0] == *a);
                    }
                }
                lemma_removals_apply(q, rest, items);
                assert(q + o =~= p + olds(r));
                assert(q + kept_olds(rest) =~= p + kept_olds(r));
            },
        }
    }
}

proof fn lemma_placements_apply(d: Seq<MenuItem>, r: Seq<DiffResult<&MenuItem>>, items: Seq<MenuItem>)
    requires
        ids_apart(r),
        ids_disjoint(d, kept_olds(r)),
        d.len() + news(r).len() <= usize::MAX,
        d.len() + news(r).len() <= items.len(),
        forall|k: int| 0 <= k < news(r).len() ==> items[d.len() + k] == #[trigger] news(r)[k],
    ensures
        apply_edits(d + kept_olds(r), placements_from(r, d.len() as int), items) == d + shown(r),
    decreases r.len(),
{
    if r.len() == 0 {
        assert(d + kept_olds(r) =~= d);
        assert(d + shown(r) =~= d);
    } else {
        let rest = r.drop_first();
        let ko = kept_olds(rest);
        let base = d.len() as int;
        assert(news(r) == crate::diff::result_new(r[0]) + news(rest));
        match r[0] {
            DiffResult::Remove(_) => {
                assert(placements_from(r, base) =~= placements_from(rest, base));
                assert(kept_olds(r) =~= ko);
                assert(shown(r) =~= shown(rest));
                assert(news(r) =~= news(rest));
                lemma_placements_apply(d, rest, items);
            },
            DiffResult::Keep(a, b) => {
                let q = d.push(*a);
                assert(placements_from(r, base) =~= placements_from(rest, base + 1));
                assert(kept_olds(r) =~= seq![*a] + ko);
                lemma_disjoint_kept(seq![*a], rest);
                assert forall|i: int, k: int| 0 <= i < q.len() && 0 <= k < ko.len() implies q[i].id
                    != ko[k].id by {
                    if i < d.len() {
                        assert(kept_olds(r)[k + 1] == ko[k]);
                    }
                }
                assert forall|k: int| 0 <= k < news(rest).len() implies items[q.len() + k]
                    == #[trigger] news(rest)[k] by {
                    assert(news(r)[k + 1] == news(rest)[k]);
                }
                lemma_placements_apply(q, rest, items);
                assert(q + ko =~= d + kept_olds(r));
                assert(q + shown(rest) =~= d + shown(r));
            },
            DiffResult::Update(a, b) => {
                let e = MenuEdit::Update { id: a.id, index: base as usize };
                let q = d.push(*b);
                assert(placements_from(r, base) =~= seq![e] + placements_from(rest, base + 1));
                assert(placements_from(r, base)[0] == e);
                assert(placements_from(r, base).drop_first() =~= placements_from(rest, base + 1));
                assert(kept_olds(r) =~= seq![*a] + ko);
                assert forall|i: int| 0 <= i < d.len() implies d[i].id != a.id by {
                    assert(kept_olds(r)[0] == *a);
                }
                lemma_position_after(d, seq![*a] + ko, a.id);
                assert(d + kept_olds(r) =~= d + (seq![*a] + ko));
                assert(items[base] == news(r)[0]);
                assert((d + (seq![*a] + ko)).update(base, items[base]) =~= q + ko);
                assert forall|i: int, k: int| 0 <= i < q.len() && 0 <= k < ko.len() implies q[i].id
                    != ko[k].id by {
                    if i < d.len() {
                        assert(kept_olds(r)[k + 1] == ko[k]);
                    } else {
                        assert(step_placed(r[0])[0] == *b);
                    }
                }
                assert forall|k: int| 0 <= k < news(rest).len() implies items[q.len() + k]
                    == #[trigger] news(rest)[k] by {
                    assert(news(r)[k + 1] == news(rest)[k]);
                }
                lemma_placements_apply(q, rest, items);
                assert(q + shown(rest) =~= d + shown(r));
            },
            DiffResult::Insert(b) => {
                let e = MenuEdit::Insert { index: base as usize };
                let q = d.push(*b);
                assert(placements_from(r, base) =~= seq![e] + placements_from(rest, base + 1));
                assert(placements_from(r, base)[0] == e);
                assert(placements_from(r, base).drop_first() =~= placements_from(rest, base + 1));
                assert(kept_olds(r) =~= ko);
                assert(items[base] == news(r)[0]);
                assert((d + ko).insert(base, items[base]) =~= q + ko);
                assert forall|i: int, k: int| 0 <= i < q.len() && 0 <= k < ko.len() implies q[i].id
                    != ko[k].id by {
                    if i == d.len() {
                        assert(step_placed(r[0])[0] == *b);
                    }
                }
                assert forall|k: int| 0 <= k < news(rest).len() implies items[q.len() + k]
                    == #[trigger] news(rest)[k] by {
                    assert(news(r)[k + 1] == news(rest)[k]);
                }
                lemma_placements_apply(q, rest, items);
                assert(q + shown(rest) =~= d + shown(r));
            },
        }
    }
}

pub const WM_KEYDOWN: u32 = 0x0100;
pub const WM_KEYUP: u32 = 0x0101;
pub const WM_SYSKEYUP: u32 = 0x0105;
pub const WM_MOUSEFIRST: u32 = 0x0200;
pub const WM_LBUTTONDOWN: u32 = 0x0201;
pub const WM_LBUTTONUP: u32 = 0x0202;
pub const WM_RBUTTONDOWN: u32 = 0x0204;
pub const WM_RBUTTONUP: u32 = 0x0205;
pub const WM_MOUSELAST: u32 = 0x020E;
pub const VK_LEFT: usize = 0x25;
pub const VK_RIGHT: usize = 0x27;

/// What a popup menu that is being tracked has seen of the input so far.
#[derive(Clone, Copy, PartialEq, Eq, Structural, Debug)]
pub struct MenuHookState {
    pub seen_mouse_down: bool,
    pub seen_key_down: bool,
    pub mouse_in: bool,
    pub current_item_is_first: bool,
    pub current_item_is_last: bool,
}

impl MenuHookState {
    /// The state when a popup menu starts to be tracked: nothing seen yet,
    /// the pointer not in the tracking rectangle, and no item selected, so
    /// that the arrow keys move straight to the neighbouring menus.
    pub fn initial() -> (s: Self)
        ensures
            s == (MenuHookState {
                seen_mouse_down: false,
                seen_key_down: false,
                mouse_in: false,
                current_item_is_first: true,
                current_item_is_last: true,
            }),
    {
        MenuHookState {
            seen_mouse_down: false,
            seen_key_down: false,
            mouse_in: false,
            current_item_is_first: true,
            current_item_is_last: true,
        }
    }
}

/// Align the popup's left edge with the point.
pub const TPM_LEFTALIGN: u32 = 0x0000;
/// Align the popup's top edge with the point.
pub const TPM_TOPALIGN: u32 = 0x0000;
/// Keep the popup clear of the excluded rectangle vertically first.
pub const TPM_VERTICAL: u32 = 0x0040;
/// Return the chosen command instead of posting it.
pub const TPM_RETURNCMD: u32 = 0x0100;

/// The flags with which a popup menu is tracked: placed at the point, kept
/// clear of the item it belongs to vertically, the chosen command returned.
pub fn popup_track_flags() -> (f: u32)
    ensures
        f == TPM_LEFTALIGN | TPM_TOPALIGN | TPM_VERTICAL | TPM_RETURNCMD,
{
    TPM_LEFTALIGN | TPM_TOPALIGN | TPM_VERTICAL | TPM_RETURNCMD
}

/// A command chosen in a menu, for the menu's delegate.
#[derive(Clone, Copy, PartialEq, Eq, Structural, Debug)]
pub struct MenuAction {
    pub menu: i64,
    pub command: i64,
}

/// What came of tracking a popup menu.
#[derive(Clone, Copy, PartialEq, Eq, Structural, Debug)]
pub struct PopupOutcome {
    /// The menu action to report to the menu's delegate.
    pub action: Option<MenuAction>,
    /// The answer to the request: whether an item was selected.
    pub item_selected: bool,
}

/// The outcome of tracking the popup menu `menu_handle`, from the command
/// that tracking returned (0 when nothing was chosen): a chosen command is
/// reported to the menu's delegate while it is alive, and the request is
/// answered with whether an item was selected.
pub fn popup_outcome(command: i32, menu_handle: i64, has_delegate: bool) -> (o: PopupOutcome)
    ensures
        o.action == if command > 0 && has_delegate {
            Some(MenuAction { menu: menu_handle, command: command as i64 })
        } else {
            None::<MenuAction>
        },
        o.item_selected == (command != 0),
{
    let action = if command > 0 && has_delegate {
        Some(MenuAction { menu: menu_handle, command: command as i64 })
    } else {
        None
    };
    PopupOutcome { action, item_selected: command != 0 }
}

/// What to do for a message seen while a popup menu is tracked.
#[derive(Clone, Copy, PartialEq, Eq, Structural, Debug)]
pub enum MenuHookAction {
    /// Send the message to the Flutter window.
    Forward { message: u32, w_param: usize, l_param: isize },
    /// The pointer left the tracking rectangle: the Flutter window is told
    /// (and stops ignoring mouse leave messages).
    MouseLeave,
    /// Open the menu before this one in the menu bar.
    MoveToPreviousMenu,
    /// Open the menu after this one in the menu bar.
    MoveToNextMenu,
}

/// The message seen while a popup menu is tracked, with what the window
/// knows of it: `local_l_param` holds the pointer position in window
/// coordinates (for mouse messages), `inside_tracking` whether that position
/// is inside the tracking rectangle (`None` without one).
#[derive(Clone, Copy, PartialEq, Eq, Structural, Debug)]
pub struct MenuHookMessage {
    pub message: u32,
    pub w_param: usize,
    pub l_param: isize,
    pub local_l_param: isize,
    pub inside_tracking: Option<bool>,
    pub rtl: bool,
    pub has_delegate: bool,
}

/// The state after `m` and the actions, in order, for a tracked popup menu:
/// a first button or key release that the menu would swallow is passed on,
/// mouse messages inside the tracking rectangle are passed on in window
/// coordinates (leaving it is reported once), and the arrow keys move
/// between the menus of a menu bar at the first and last item.
pub open spec fn menu_hook_step(s: MenuHookState, m: MenuHookMessage) -> (MenuHookState, Seq<MenuHookAction>) {
    let msg = m.message;
    let seen_mouse_down = s.seen_mouse_down || msg == WM_LBUTTONDOWN || msg == WM_RBUTTONDOWN;
    let seen_key_down = s.seen_key_down || msg == WM_KEYDOWN;
    let a1: Seq<MenuHookAction> = if (msg == WM_LBUTTONUP || msg == WM_RBUTTONUP) && !seen_mouse_down {
        seq![MenuHookAction::Forward { message: msg, w_param: m.w_param, l_param: m.l_param }]
    } else {
        Seq::empty()
    };
    let a2: Seq<MenuHookAction> = if (msg == WM_KEYUP || msg == WM_SYSKEYUP) && !seen_key_down {
        seq![MenuHookAction::Forward { message: WM_KEYUP, w_param: m.w_param, l_param: m.l_param }]
    } else {
        Seq::empty()
    };
    let (mouse_in, a3): (bool, Seq<MenuHookAction>) = if WM_MOUSEFIRST <= msg <= WM_MOUSELAST {
        match m.inside_tracking {
            Some(true) => (
                true,
                seq![MenuHookAction::Forward { message: msg, w_param: m.w_param, l_param: m.local_l_param }],
            ),
            Some(false) => if s.mouse_in {
                (false, seq![MenuHookAction::MouseLeave])
            } else {
                (false, Seq::empty())
            },
            None => (s.mouse_in, Seq::empty()),
        }
    } else if msg == WM_KEYDOWN && m.has_delegate {
        let (prev, next) = if m.rtl { (VK_RIGHT, VK_LEFT) } else { (VK_LEFT, VK_RIGHT) };
        if m.w_param == prev && s.current_item_is_first {
            (s.mouse_in, seq![MenuHookAction::MoveToPreviousMenu])
        } else if m.w_param == next && s.current_item_is_last {
            (s.mouse_in, seq![MenuHookAction::MoveToNextMenu])
        } else {
            (s.mouse_in, Seq::empty())
        }
    } else {
        (s.mouse_in, Seq::empty())
    };
    (
        MenuHookState { seen_mouse_down, seen_key_down, mouse_in, ..s },
        a1 + a2 + a3,
    )
}

/// Handles a message seen while a popup menu is tracked (see
/// `menu_hook_step`).
pub fn on_menu_hook(state: &mut MenuHookState, m: &MenuHookMessage) -> (actions: Vec<MenuHookAction>)
    ensures
        (*final(state), actions@) == menu_hook_step(*old(state), *m),
{
    let msg = m.message;
    let mut actions: Vec<MenuHookAction> = Vec::new();
    if msg == WM_LBUTTONDOWN || msg == WM_RBUTTONDOWN {
        state.seen_mouse_down = true;
    }
    if msg == WM_KEYDOWN {
        state.seen_key_down = true;
    }
    if (msg == WM_LBUTTONUP || msg == WM_RBUTTONUP) && !state.seen_mouse_down {
        actions.push(MenuHookAction::Forward { message: msg, w_param: m.w_param, l_param: m.l_param });
    }
    if (msg == WM_KEYUP || msg == WM_SYSKEYUP) && !state.seen_key_down {
        actions.push(MenuHookAction::Forward { message: WM_KEYUP, w_param: m.w_param, l_param: m.l_param });
    }
    if WM_MOUSEFIRST <= msg && msg <= WM_MOUSELAST {
        match m.inside_tracking {
            Some(true) => {
                state.mouse_in = true;
                actions.push(
                    MenuHookAction::Forward { message: msg, w_param: m.w_param, l_param: m.local_l_param },
                );
            },
            Some(false) => {
                if state.mouse_in {
                    state.mouse_in = false;
                    actions.push(MenuHookAction::MouseLeave);
                }
            },
            None => {},
        }
    } else if msg == WM_KEYDOWN && m.has_delegate {
        let (prev, next) = if m.rtl { (VK_RIGHT, VK_LEFT) } else { (VK_LEFT, VK_RIGHT) };
        if m.w_param == prev && state.current_item_is_first {
            actions.push(MenuHookAction::MoveToPreviousMenu);
        } else if m.w_param == next && state.current_item_is_last {
            actions.push(MenuHookAction::MoveToNextMenu);
        }
    }
    proof {
        let (s2, acts) = menu_hook_step(*old(state), *m);
        assert(actions@ =~= acts);
    }
    actions
}

} // verus!

//! The integer side of display layout: moving the physical display rectangles
//! so that they start at the origin, ordering them by position, finding a
//! display by its monitor handle, and handing out stable screen ids.
use vstd::prelude::*;

verus! {

/// A rectangle in physical pixels.
#[derive(Clone, Copy, PartialEq, Eq, Structural, Debug)]
pub struct IRect {
    pub x: i32,
    pub y: i32,
    pub width: i32,
    pub height: i32,
}

/// The smallest left edge of the rectangles, or `i32::MAX` for none.
pub open spec fn min_x(rects: Seq<IRect>) -> i32
    decreases rects.len(),
{
    if rects.len() == 0 {
        i32::MAX
    } else {
        let m = min_x(rects.drop_last());
        if rects.last().x < m { rects.last().x } else { m }
    }
}

/// The smallest top edge of the rectangles, or `i32::MAX` for none.
pub open spec fn min_y(rects: Seq<IRect>) -> i32
    decreases rects.len(),
{
    if rects.len() == 0 {
        i32::MAX
    } else {
        let m = min_y(rects.drop_last());
        if rects.last().y < m { rects.last().y } else { m }
    }
}

proof fn lemma_min_bounds(rects: Seq<IRect>)
    ensures
        forall|i: int| 0 <= i < rects.len() ==> min_x(rects) <= #[trigger] rects[i].x,
        forall|i: int| 0 <= i < rects.len() ==> min_y(rects) <= #[trigger] rects[i].y,
        rects.len() > 0 ==> exists|i: int| 0 <= i < rects.len() && rects[i].x == min_x(rects),
        rects.len() > 0 ==> exists|i: int| 0 <= i < rects.len() && rects[i].y == min_y(rects),
    decreases rects.len(),
{
    if rects.len() > 0 {
        let p = rects.drop_last();
        lemma_min_bounds(p);
        assert forall|i: int| 0 <= i < rects.len() - 1 implies #[trigger] rects[i] == p[i] by {}
        let last = rects.len() - 1;
        if p.len() > 0 {
            let ix = choose|i: int| 0 <= i < p.len() && p[i].x == min_x(p);
            let iy = choose|i: int| 0 <= i < p.len() && p[i].y == min_y(p);
            assert(rects[ix] == p[ix]);
            assert(rects[iy] == p[iy]);
            if rects[last].x < min_x(p) {
                assert(rects[last].x == min_x(rects));
            } else {
                assert(rects[ix].x == min_x(rects));
            }
            if rects[last].y < min_y(p) {
                assert(rects[last].y == min_y(rects));
            } else {
                assert(rects[iy].y == min_y(rects));
            }
        } else {
            assert(rects[last].x == min_x(rects));
            assert(rects[last].y == min_y(rects));
        }
    }
}

/// `rects` moved so that the smallest left and top edges are 0.
pub open spec fn moved_to_origin(rects: Seq<IRect>) -> Seq<IRect> {
    Seq::new(
        rects.len(),
        |i: int|
            IRect {
                x: (rects[i].x - min_x(rects)) as i32,
                y: (rects[i].y - min_y(rects)) as i32,
                width: rects[i].width,
                height: rects[i].height,
            },
    )
}

/// Moves the rectangles so that the leftmost one starts at x 0 and the
/// topmost one at y 0; sizes and relative positions stay.
pub fn move_to_origin(rects: &[IRect]) -> (r: Vec<IRect>)
    requires
        forall|i: int, j: int|
            0 <= i < rects@.len() && 0 <= j < rects@.len() ==> #[trigger] rects@[i].x - #[trigger] rects@[j].x
                <= i32::MAX,
        forall|i: int, j: int|
            0 <= i < rects@.len() && 0 <= j < rects@.len() ==> #[trigger] rects@[i].y - #[trigger] rects@[j].y
                <= i32::MAX,
    ensures
        r@ == moved_to_origin(rects@),
        forall|i: int| 0 <= i < r@.len() ==> 0 <= #[trigger] r@[i].x && 0 <= r@[i].y,
        r@.len() > 0 ==> (exists|i: int| 0 <= i < r@.len() && #[trigger] r@[i].x == 0) && (exists|i: int|
            0 <= i < r@.len() && #[trigger] r@[i].y == 0),
{
    let mut mx: i32 = i32::MAX;
    let mut my: i32 = i32::MAX;
    let mut i: usize = 0;
    while i < rects.len()
        invariant
            0 <= i <= rects@.len(),
            mx == min_x(rects@.take(i as int)),
            my == min_y(rects@.take(i as int)),
        decreases rects@.len() - i,
    {
        proof {
            assert(rects@.take(i + 1).drop_last() =~= rects@.take(i as int));
        }
        if rects[i].x < mx {
            mx = rects[i].x;
        }
        if rects[i].y < my {
            my = rects[i].y;
        }
        i = i + 1;
    }
    proof {
        assert(rects@.take(rects@.len() as int) =~= rects@);
        lemma_min_bounds(rects@);
    }
    let mut r: Vec<IRect> = Vec::new();
    let mut j: usize = 0;
    while j < rects.len()
        invariant
            0 <= j <= rects@.len(),
            mx == min_x(rects@),
            my == min_y(rects@),
            forall|k: int| 0 <= k < rects@.len() ==> mx <= #[trigger] rects@[k].x && my <= rects@[k].y,
            rects@.len() > 0 ==> exists|k: int| 0 <= k < rects@.len() && rects@[k].x == mx,
            rects@.len() > 0 ==> exists|k: int| 0 <= k < rects@.len() && rects@[k].y == my,
            forall|a: int, b: int|
                0 <= a < rects@.len() && 0 <= b < rects@.len() ==> #[trigger] rects@[a].x - #[trigger] rects@[b].x
                    <= i32::MAX,
            forall|a: int, b: int|
                0 <= a < rects@.len() && 0 <= b < rects@.len() ==> #[trigger] rects@[a].y - #[trigger] rects@[b].y
                    <= i32::MAX,
            r@.len() == j,
            forall|k: int| 0 <= k < j ==> #[trigger] r@[k] == moved_to_origin(rects@)[k],
        decreases rects@.len() - j,
    {
        proof {
            let kx = choose|k: int| 0 <= k < rects@.len() && rects@[k].x == mx;
            let ky = choose|k: int| 0 <= k < rects@.len() && rects@[k].y == my;
            assert(rects@[j as int].x - rects@[kx].x <= i32::MAX);
            assert(rects@[j as int].y - rects@[ky].y <= i32::MAX);
        }
        let d = rects[j];
        r.push(IRect { x: d.x - mx, y: d.y - my, width: d.width, height: d.height });
        j = j + 1;
    }
    assert(r@ =~= moved_to_origin(rects@));
    assert forall|i: int| 0 <= i < r@.len() implies 0 <= #[trigger] r@[i].x && 0 <= r@[i].y by {
        assert(mx <= rects@[i].x && my <= rects@[i].y);
    }
    proof {
        if r@.len() > 0 {
            let kx = choose|k: int| 0 <= k < rects@.len() && rects@[k].x == mx;
            let ky = choose|k: int| 0 <= k < rects@.len() && rects@[k].y == my;
            assert(r@[kx].x == 0);
            assert(r@[ky].y == 0);
        }
    }
    r
}

/// `a` comes before `b` when ordered by left edge, then by top edge.
pub open spec fn position_le(a: IRect, b: IRect) -> bool {
    a.x < b.x || (a.x == b.x && a.y <= b.y)
}

/// The positions `order` name the rectangles of `rects` from left to right
/// (top to bottom among equal left edges), each exactly once.
pub open spec fn is_position_order(rects: Seq<IRect>, order: Seq<usize>) -> bool {
    &&& order.len() == rects.len()
    &&& forall|i: int| 0 <= i < order.len() ==> #[trigger] order[i] < rects.len()
    &&& order.no_duplicates()
    &&& forall|i: int, j: int|
        0 <= i < j < order.len() ==> position_le(
            rects[#[trigger] order[i] as int],
            rects[#[trigger] order[j] as int],
        )
}

/// Whether `a` comes before `b` (or stands at the same position) when
/// ordered by left edge, then by top edge.
pub fn is_position_le(a: &IRect, b: &IRect) -> (r: bool)
    ensures
        r == position_le(*a, *b),
{
    a.x < b.x || (a.x == b.x && a.y <= b.y)
}

/// The order in which the display layout visits the rectangles: by left
/// edge, then by top edge; rectangles at the same position keep their order.
pub fn position_order(rects: &[IRect]) -> (order: Vec<usize>)
    ensures
        is_position_order(rects@, order@),
        forall|i: int, j: int|
            0 <= i < j < order@.len() && rects@[#[trigger] order@[i] as int].x == rects@[#[trigger] order@[j] as int].x
                && rects@[order@[i] as int].y == rects@[order@[j] as int].y ==> order@[i] < order@[j],
{
    let mut order: Vec<usize> = Vec::new();
    let mut n: usize = 0;
    while n < rects.len()
        invariant
            0 <= n <= rects@.len(),
            order@.len() == n,
            forall|i: int| 0 <= i < n ==> #[trigger] order@[i] < n,
            order@.no_duplicates(),
            forall|i: int, j: int|
                0 <= i < j < n ==> position_le(
                    rects@[#[trigger] order@[i] as int],
                    rects@[#[trigger] order@[j] as int],
                ),
            forall|i: int, j: int|
                0 <= i < j < n && rects@[#[trigger] order@[i] as int].x == rects@[#[trigger] order@[j] as int].x
                    && rects@[order@[i] as int].y == rects@[order@[j] as int].y ==> order@[i] < order@[j],
        decreases rects@.len() - n,
    {
        let r = rects[n];
        let mut pos: usize = n;
        while pos > 0 && !is_position_le(&rects[order[pos - 1]], &r)
            invariant
                0 <= pos <= n,
                n < rects@.len(),
                order@.len() == n,
                r == rects@[n as int],
                forall|i: int| 0 <= i < n ==> #[trigger] order@[i] < n,
                forall|i: int| pos <= i < n ==> !position_le(rects@[#[trigger] order@[i] as int], r),
            decreases pos,
        {
            pos = pos - 1;
        }
        let ghost before = order@;
        order.insert(pos, n);
        proof {
            assert forall|i: int| 0 <= i < n + 1 implies #[trigger] order@[i] < n + 1 by {
                if i < pos {
                    assert(order@[i] == before[i]);
                } else if i > pos {
                    assert(order@[i] == before[i - 1]);
                }
            }
            assert forall|i: int, j: int| 0 <= i < j < n + 1 implies position_le(
                rects@[#[trigger] order@[i] as int],
                rects@[#[trigger] order@[j] as int],
            ) && (rects@[order@[i] as int].x == rects@[order@[j] as int].x
                && rects@[order@[i] as int].y == rects@[order@[j] as int].y ==> order@[i] < order@[j]) by {
                let oi = if i < pos { i } else { i - 1 };
                let oj = if j < pos { j } else { j - 1 };
                if i != pos && j != pos {
                    assert(order@[i] == before[oi]);
                    assert(order@[j] == before[oj]);
                } else if i == pos {
                    assert(order@[j] == before[j - 1]);
                    assert(!position_le(rects@[before[j - 1] as int], r));
                } else {
                    // j == pos: every element before `pos` is at or before `r`
                    assert(order@[i] == before[i]);
                    if pos > 0 {
                        assert(position_le(rects@[before[pos - 1] as int], r));
                        if i < pos - 1 {
                            assert(position_le(
                                rects@[before[i] as int],
                                rects@[before[pos - 1] as int],
                            ));
                        }
                    }
                }
            }
            assert forall|i: int, j: int| 0 <= i < n + 1 && 0 <= j < n + 1 && i != j implies order@[i]
                != order@[j] by {
                if i != pos && j != pos {
                    let oi = if i < pos { i } else { i - 1 };
                    let oj = if j < pos { j } else { j - 1 };
                    assert(order@[i] == before[oi]);
                    assert(order@[j] == before[oj]);
                } else if i == pos {
                    let oj = if j < pos { j } else { j - 1 };
                    assert(order@[j] == before[oj]);
                } else {
                    let oi = if i < pos { i } else { i - 1 };
                    assert(order@[i] == before[oi]);
                }
            }
        }
        n = n + 1;
    }
    order
}

/// Whether two names are equal, element by element.
pub fn same_name(a: &[u16], b: &[u16]) -> (r: bool)
    ensures
        r == (a@ == b@),
{
    if a.len() != b.len() {
        return false;
    }
    let mut i: usize = 0;
    while i < a.len()
        invariant
            0 <= i <= a@.len(),
            a@.len() == b@.len(),
            forall|k: int| 0 <= k < i ==> a@[k] == b@[k],
        decreases a@.len() - i,
    {
        if a[i] != b[i] {
            return false;
        }
        i = i + 1;
    }
    assert(a@ =~= b@);
    true
}

/// Screen ids by display device name: a display keeps its id for as long as
/// the process runs, and 0 is never handed out.
pub struct AuxState {
    names: Vec<Vec<u16>>,
    ids: Vec<i64>,
    next_screen_id: i64,
}

impl View for AuxState {
    type V = Map<Seq<u16>, i64>;

    /// The id of each device name seen so far.
    closed spec fn view(&self) -> Map<Seq<u16>, i64> {
        Map::new(
            |n: Seq<u16>| exists|i: int| 0 <= i < self.names@.len() && self.names@[i]@ == n,
            |n: Seq<u16>|
                self.ids@[choose|i: int| 0 <= i < self.names@.len() && self.names@[i]@ == n],
        )
    }
}

impl AuxState {
    /// The id that the next new device name gets.
    pub closed spec fn next_id(&self) -> i64 {
        self.next_screen_id
    }

    /// Names are stored once each, and every id is in `1..next_id()` and
    /// belongs to one name only.
    pub closed spec fn wf(&self) -> bool {
        &&& self.names@.len() == self.ids@.len()
        &&& 1 <= self.next_screen_id
        &&& forall|i: int| 0 <= i < self.ids@.len() ==> 1 <= #[trigger] self.ids@[i] < self.next_screen_id
        &&& forall|i: int, j: int|
            0 <= i < j < self.names@.len() ==> #[trigger] self.names@[i]@ != #[trigger] self.names@[j]@
        &&& forall|i: int, j: int|
            0 <= i < j < self.ids@.len() ==> #[trigger] self.ids@[i] != #[trigger] self.ids@[j]
    }

    /// What the well-formedness of the table says of its view: ids lie in
    /// `1..next_id()` and no two names share one.
    pub open spec fn ids_distinct(&self) -> bool {
        &&& forall|m: Seq<u16>| #[trigger] self@.contains_key(m) ==> 1 <= self@[m] < self.next_id()
        &&& forall|m1: Seq<u16>, m2: Seq<u16>|
            #[trigger] self@.contains_key(m1) && #[trigger] self@.contains_key(m2) && m1 != m2 ==> self@[m1]
                != self@[m2]
    }

    proof fn lemma_wf_ids(&self)
        requires
            self.wf(),
        ensures
            self.ids_distinct(),
    {
        assert forall|m: Seq<u16>| #[trigger] self@.contains_key(m) implies 1 <= self@[m] < self.next_id() by {
            let i = choose|i: int| 0 <= i < self.names@.len() && self.names@[i]@ == m;
            assert(1 <= self.ids@[i] < self.next_screen_id);
        }
        assert forall|m1: Seq<u16>, m2: Seq<u16>|
            #[trigger] self@.contains_key(m1) && #[trigger] self@.contains_key(m2) && m1 != m2 implies self@[m1]
                != self@[m2] by {
            let i = choose|i: int| 0 <= i < self.names@.len() && self.names@[i]@ == m1;
            let j = choose|j: int| 0 <= j < self.names@.len() && self.names@[j]@ == m2;
            assert(i != j);
            if i < j {
                assert(self.ids@[i] != self.ids@[j]);
            } else {
                assert(self.ids@[j] != self.ids@[i]);
            }
        }
    }

    /// No names seen; the first id is 1.
    pub fn new() -> (r: Self)
        ensures
            r.wf(),
            r@ == Map::<Seq<u16>, i64>::empty(),
            r.next_id() == 1,
            r.ids_distinct(),
    {
        let r = AuxState { names: Vec::new(), ids: Vec::new(), next_screen_id: 1 };
        assert(r@ =~= Map::<Seq<u16>, i64>::empty());
        r
    }

    /// The id of the display device `name`: the one it got before, or else
    /// the next free one.
    pub fn screen_id(&mut self, name: &[u16]) -> (id: i64)
        requires
            old(self).wf(),
            old(self).next_id() < i64::MAX,
        ensures
            final(self).wf(),
            old(self)@.contains_key(name@) ==> id == old(self)@[name@] && final(self)@ == old(self)@
                && final(self).next_id() == old(self).next_id(),
            !old(self)@.contains_key(name@) ==> id == old(self).next_id() && final(self)@ == old(
                self,
            )@.insert(name@, id) && final(self).next_id() == old(self).next_id() + 1,
            1 <= id < final(self).next_id(),
            final(self).ids_distinct(),
    {
        let mut i: usize = 0;
        while i < self.names.len()
            invariant
                self.wf(),
                0 <= i <= self.names@.len(),
                forall|k: int| 0 <= k < i ==> #[trigger] self.names@[k]@ != name@,
            decreases self.names@.len() - i,
        {
            if same_name(self.names[i].as_slice(), name) {
                let id = self.ids[i];
                proof {
                    let n = name@;
                    let k = choose|k: int| 0 <= k < self.names@.len() && self.names@[k]@ == n;
                    if k != i {
                        if k < i {
                            assert(self.names@[k]@ != self.names@[i as int]@);
                        } else {
                            assert(self.names@[i as int]@ != self.names@[k]@);
                        }
                    }
                    self.lemma_wf_ids();
                }
                return id;
            }
            i = i + 1;
        }
        let id = self.next_screen_id;
        let ghost old_view = self@;
        let ghost old_names = self.names@;
        let ghost old_ids = self.ids@;
        let mut stored: Vec<u16> = Vec::new();
        let mut k: usize = 0;
        while k < name.len()
            invariant
                0 <= k <= name@.len(),
                stored@ == name@.take(k as int),
            decreases name@.len() - k,
        {
            stored.push(name[k]);
            k = k + 1;
            proof {
                assert(stored@ =~= name@.take(k as int));
            }
        }
        assert(stored@ =~= name@);
        self.names.push(stored);
        self.ids.push(id);
        self.next_screen_id = self.next_screen_id + 1;
        proof {
            let n = name@;
            assert(!old_view.contains_key(n));
            assert forall|m: Seq<u16>| #[trigger] self@.contains_key(m) == old_view.insert(n, id).contains_key(m) by {
                if self@.contains_key(m) {
                    let j = choose|j: int| 0 <= j < self.names@.len() && self.names@[j]@ == m;
                    if j < old_names.len() {
                        assert(old_names[j]@ == m);
                    }
                }
                if old_view.contains_key(m) && m != n {
                    let j = choose|j: int| 0 <= j < old_names.len() && old_names[j]@ == m;
                    assert(self.names@[j]@ == m);
                }
                if m == n {
                    assert(self.names@[old_names.len() as int]@ == n);
                }
            }
            assert forall|m: Seq<u16>| #[trigger] self@.contains_key(m) implies self@[m] == old_view.insert(n, id)[m] by {
                let j = choose|j: int| 0 <= j < self.names@.len() && self.names@[j]@ == m;
                if m == n {
                    if j < old_names.len() {
                        assert(old_names[j]@ == n);
                        assert(false);
                    }
                } else {
                    assert(j < old_names.len());
                    let j2 = choose|j2: int| 0 <= j2 < old_names.len() && old_names[j2]@ == m;
                    if j != j2 {
                        if j < j2 {
                            assert(old_names[j]@ != old_names[j2]@);
                        } else {
                            assert(old_names[j2]@ != old_names[j]@);
                        }
                    }
                    assert(self.ids@[j] == old_ids[j]);
                }
            }
            assert(self@ =~= old_view.insert(n, id));
            assert forall|a: int, b: int| 0 <= a < b < self.names@.len() implies #[trigger] self.names@[a]@
                != #[trigger] self.names@[b]@ by {
                if b == old_names.len() {
                    assert(self.names@[a]@ == old_names[a]@);
                }
            }
            assert forall|a: int, b: int| 0 <= a < b < self.ids@.len() implies #[trigger] self.ids@[a]
                != #[trigger] self.ids@[b] by {
                if b == old_ids.len() {
                    assert(self.ids@[a] == old_ids[a]);
                }
            }
            self.lemma_wf_ids();
        }
        id
    }
}

/// The screen id of the display shown on `monitor`, given each display's
/// monitor handle and screen id; 0 when no display is on that monitor.
pub fn screen_id_for_monitor(handles: &[isize], ids: &[i64], monitor: isize) -> (id: i64)
    requires
        handles@.len() == ids@.len(),
    ensures
        (exists|i: int| 0 <= i < handles@.len() && handles@[i] == monitor) ==> exists|i: int|
            0 <= i < handles@.len() && handles@[i] == monitor && id == ids@[i] && forall|j: int|
                0 <= j < i ==> handles@[j] != monitor,
        (forall|i: int| 0 <= i < handles@.len() ==> handles@[i] != monitor) ==> id == 0,
{
    let mut i: usize = 0;
    while i < handles.len()
        invariant
            0 <= i <= handles@.len(),
            handles@.len() == ids@.len(),
            forall|j: int| 0 <= j < i ==> handles@[j] != monitor,
        decreases handles@.len() - i,
    {
        if handles[i] == monitor {
            return ids[i];
        }
        i = i + 1;
    }
    0
}

} // verus!

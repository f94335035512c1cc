//! Edit scripts between an old and a new list, in which the removal of an
//! element followed by the insertion of another may become an update.
use vstd::prelude::*;
use vstd::std_specs::cmp::PartialEqSpec;

verus! {

/// One step of a plain diff: an element of the old list only, one element of
/// each list, or an element of the new list only.
#[derive(Clone, Copy, Debug)]
pub enum DiffStep<T> {
    Left(T),
    Both(T, T),
    Right(T),
}

/// One step of an update diff.
#[derive(Debug)]
pub enum DiffResult<T> {
    Remove(T),
    Update(T, T),
    Keep(T, T),
    Insert(T),
}

/// The old list's element that a diff step stands for, if any.
pub open spec fn step_left<T>(s: DiffStep<&T>) -> Seq<T> {
    match s {
        DiffStep::Left(a) => seq![*a],
        DiffStep::Both(a, _) => seq![*a],
        DiffStep::Right(_) => Seq::empty(),
    }
}

/// The new list's element that a diff step stands for, if any.
pub open spec fn step_right<T>(s: DiffStep<&T>) -> Seq<T> {
    match s {
        DiffStep::Left(_) => Seq::empty(),
        DiffStep::Both(_, b) => seq![*b],
        DiffStep::Right(b) => seq![*b],
    }
}

/// The old list that a plain diff walks through.
pub open spec fn lefts<T>(d: Seq<DiffStep<&T>>) -> Seq<T>
    decreases d.len(),
{
    if d.len() == 0 {
        Seq::empty()
    } else {
        step_left(d[0]) + lefts(d.drop_first())
    }
}

/// The new list that a plain diff walks through.
pub open spec fn rights<T>(d: Seq<DiffStep<&T>>) -> Seq<T>
    decreases d.len(),
{
    if d.len() == 0 {
        Seq::empty()
    } else {
        step_right(d[0]) + rights(d.drop_first())
    }
}

/// The old list's element that an update step stands for, if any.
pub open spec fn result_old<T>(r: DiffResult<&T>) -> Seq<T> {
    match r {
        DiffResult::Remove(a) => seq![*a],
        DiffResult::Update(a, _) => seq![*a],
        DiffResult::Keep(a, _) => seq![*a],
        DiffResult::Insert(_) => Seq::empty(),
    }
}

/// The new list's element that an update step stands for, if any.
pub open spec fn result_new<T>(r: DiffResult<&T>) -> Seq<T> {
    match r {
        DiffResult::Remove(_) => Seq::empty(),
        DiffResult::Update(_, b) => seq![*b],
        DiffResult::Keep(_, b) => seq![*b],
        DiffResult::Insert(b) => seq![*b],
    }
}

/// The old list that an update diff walks through.
pub open spec fn olds<T>(r: Seq<DiffResult<&T>>) -> Seq<T>
    decreases r.len(),
{
    if r.len() == 0 {
        Seq::empty()
    } else {
        result_old(r[0]) + olds(r.drop_first())
    }
}

/// The new list that an update diff walks through.
pub open spec fn news<T>(r: Seq<DiffResult<&T>>) -> Seq<T>
    decreases r.len(),
{
    if r.len() == 0 {
        Seq::empty()
    } else {
        result_new(r[0]) + news(r.drop_first())
    }
}

/// The position of the first insertion at or after `k`, provided that only
/// removals come before it; `None` when an element of both lists or the end
/// comes first.
pub open spec fn next_right<T>(d: Seq<DiffStep<&T>>, k: int) -> Option<int>
    decreases d.len() - k,
{
    if k < 0 || k >= d.len() {
        None
    } else {
        match d[k] {
            DiffStep::Left(_) => next_right(d, k + 1),
            DiffStep::Both(_, _) => None,
            DiffStep::Right(_) => Some(k),
        }
    }
}

/// `r` is the update diff made from the plain diff `d`: elements of both lists
/// are kept, insertions stay insertions, and a removal becomes an update with
/// the insertion that follows it across removals only when `can_update`
/// answered `true` for the pair (that insertion then leaves the diff);
/// otherwise it stays a removal.
pub open spec fn merged<T, F: Fn(&T, &T) -> bool>(
    d: Seq<DiffStep<&T>>,
    r: Seq<DiffResult<&T>>,
    can_update: F,
) -> bool
    decreases d.len(),
{
    if d.len() == 0 {
        r.len() == 0
    } else if r.len() == 0 {
        false
    } else {
        match d[0] {
            DiffStep::Both(a, b) => r[0] == DiffResult::Keep(a, b) && merged(
                d.drop_first(),
                r.drop_first(),
                can_update,
            ),
            DiffStep::Right(b) => r[0] == DiffResult::<&T>::Insert(b) && merged(
                d.drop_first(),
                r.drop_first(),
                can_update,
            ),
            DiffStep::Left(a) => match next_right(d, 1) {
                Some(k) => if 1 <= k < d.len() {
                    match d[k] {
                        DiffStep::Right(b) => {
                            ||| (call_ensures(can_update, (a, b), true) && r[0] == DiffResult::Update(
                                a,
                                b,
                            ) && merged(d.remove(k).drop_first(), r.drop_first(), can_update))
                            ||| (call_ensures(can_update, (a, b), false) && r[0]
                                == DiffResult::<&T>::Remove(a) && merged(
                                d.drop_first(),
                                r.drop_first(),
                                can_update,
                            ))
                        },
                        _ => false,
                    }
                } else {
                    false
                },
                None => r[0] == DiffResult::<&T>::Remove(a) && merged(
                    d.drop_first(),
                    r.drop_first(),
                    can_update,
                ),
            },
        }
    }
}

/// A step that names an element of each list pairs elements that `==`
/// calls equal.
pub open spec fn step_paired<T: PartialEq>(s: DiffStep<&T>) -> bool {
    match s {
        DiffStep::Both(a, b) => (*a).eq_spec(b),
        _ => true,
    }
}

/// Every step of `d` that names an element of each list pairs equal elements.
pub open spec fn pairs_equal<T: PartialEq>(d: Seq<DiffStep<&T>>) -> bool {
    forall|k: int| 0 <= k < d.len() ==> step_paired(#[trigger] d[k])
}

/// How many steps of `d` name an element of each list.
pub open spec fn both_count<T>(d: Seq<DiffStep<&T>>) -> nat
    decreases d.len(),
{
    if d.len() == 0 {
        0
    } else {
        both_count(d.drop_first()) + match d[0] {
            DiffStep::Both(_, _) => 1nat,
            _ => 0nat,
        }
    }
}

/// The length of a longest common subsequence of `x` and `y`, elements
/// being matched when `==` calls them equal.
pub open spec fn lcs_len<T: PartialEq>(x: Seq<T>, y: Seq<T>) -> nat
    decreases x.len() + y.len(),
{
    if x.len() == 0 || y.len() == 0 {
        0
    } else if x.last().eq_spec(&y.last()) {
        lcs_len(x.drop_last(), y.drop_last()) + 1
    } else {
        let a = lcs_len(x.drop_last(), y);
        let b = lcs_len(x, y.drop_last());
        if a >= b {
            a
        } else {
            b
        }
    }
}

/// The plain diff of two slices, computed by the `diff` crate.
///
/// Claimed of `diff::slice`, as its source shows: its steps walk through
/// `old` and through `new` completely and in order; and where `==` on `T`
/// follows its specification, the steps that name an element of each list
/// pair elements that `==` calls equal, and there are as many of them as a
/// longest common subsequence has elements (the crate matches the common
/// prefix and suffix, and the rest by a longest-common-subsequence table).
/// Not claimed: which of several longest matchings it picks.
#[verifier::external_body]
fn diff_slice<'a, T: PartialEq>(old: &'a [T], new: &'a [T]) -> (d: Vec<DiffStep<&'a T>>)
    ensures
        lefts(d@) == old@,
        rights(d@) == new@,
        T::obeys_eq_spec() ==> pairs_equal(d@) && both_count(d@) == lcs_len(old@, new@),
{
    let mut d = Vec::new();
    for step in ::diff::slice(old, new) {
        d.push(
            match step {
                ::diff::Result::Left(a) => DiffStep::Left(a),
                ::diff::Result::Both(a, b) => DiffStep::Both(a, b),
                ::diff::Result::Right(b) => DiffStep::Right(b),
            },
        );
    }
    d
}

/// Turns a plain diff into an update diff: a removal becomes an update with
/// the next insertion, if only removals stand between them and `can_update`
/// allows it; that insertion then leaves the diff.
pub fn apply_updates<'a, T, F: Fn(&T, &T) -> bool>(diff: Vec<DiffStep<&'a T>>, can_update: F) -> (res:
    Vec<DiffResult<&'a T>>)
    requires
        forall|a: &T, b: &T| call_requires(can_update, (a, b)),
    ensures
        merged(diff@, res@, can_update),
{
    let mut diff = diff;
    let ghost orig = diff@;
    let mut res: Vec<DiffResult<&'a T>> = Vec::new();
    let mut i: usize = 0;
    proof {
        assert forall|rest: Seq<DiffResult<&'a T>>|
            merged(diff@.skip(0), rest, can_update) implies #[trigger] merged(
                orig,
                res@ + rest,
                can_update,
            ) by {
            assert(diff@.skip(0) =~= orig);
            assert(res@ + rest =~= rest);
        }
    }
    while i < diff.len()
        invariant
            0 <= i <= diff@.len(),
            forall|a: &T, b: &T| call_requires(can_update, (a, b)),
            forall|rest: Seq<DiffResult<&'a T>>|
                merged(diff@.skip(i as int), rest, can_update) ==> #[trigger] merged(
                    orig,
                    res@ + rest,
                    can_update,
                ),
        decreases diff@.len() - i,
    {
        let ghost d = diff@.skip(i as int);
        let ghost before = res@;
        let cur = diff[i];
        match cur {
            DiffStep::Left(remove) => {
                let mut next_add = i + 1;
                let mut found: Option<&'a T> = None;
                while next_add < diff.len()
                    invariant_except_break
                        found is None,
                    invariant
                        i < diff@.len(),
                        d == diff@.skip(i as int),
                        i + 1 <= next_add <= diff@.len(),
                        next_right(d, 1) == next_right(d, next_add - i),
                    ensures
                        found matches Some(b) ==> next_add < diff@.len() && next_right(d, 1) == Some(
                            next_add - i,
                        ) && diff@[next_add as int] == DiffStep::Right(b),
                        found is None ==> next_right(d, 1) is None,
                    decreases diff@.len() - next_add,
                {
                    match diff[next_add] {
                        DiffStep::Left(_) => {
                            next_add = next_add + 1;
                        },
                        DiffStep::Both(_, _) => {
                            next_add = diff.len();
                        },
                        DiffStep::Right(add) => {
                            found = Some(add);
                            break ;
                        },
                    }
                }
                let mut updated = false;
                if let Some(add) = found {
                    if can_update(remove, add) {
                        res.push(DiffResult::Update(remove, add));
                        let ghost pre = diff@;
                        diff.remove(next_add);
                        updated = true;
                        proof {
                            assert(diff@.skip(i + 1) =~= d.remove(next_add - i).drop_first());
                            assert forall|rest: Seq<DiffResult<&'a T>>|
                                merged(diff@.skip(i + 1), rest, can_update) implies #[trigger] merged(
                                    orig,
                                    res@ + rest,
                                    can_update,
                                ) by {
                                let r2 = seq![DiffResult::Update(remove, add)] + rest;
                                assert(r2.drop_first() =~= rest);
                                assert(merged(d, r2, can_update));
                                assert(before + r2 =~= res@ + rest);
                            }
                        }
                    }
                }
                if !updated {
                    res.push(DiffResult::Remove(remove));
                    proof {
                        assert forall|rest: Seq<DiffResult<&'a T>>|
                            merged(diff@.skip(i + 1), rest, can_update) implies #[trigger] merged(
                                orig,
                                res@ + rest,
                                can_update,
                            ) by {
                            let r2 = seq![DiffResult::<&'a T>::Remove(remove)] + rest;
                            assert(r2.drop_first() =~= rest);
                            assert(d.drop_first() =~= diff@.skip(i + 1));
                            assert(merged(d, r2, can_update));
                            assert(before + r2 =~= res@ + rest);
                        }
                    }
                }
            },
            DiffStep::Both(same1, same2) => {
                res.push(DiffResult::Keep(same1, same2));
                proof {
                    assert forall|rest: Seq<DiffResult<&'a T>>|
                        merged(diff@.skip(i + 1), rest, can_update) implies #[trigger] merged(
                            orig,
                            res@ + rest,
                            can_update,
                        ) by {
                        let r2 = seq![DiffResult::Keep(same1, same2)] + rest;
                        assert(r2.drop_first() =~= rest);
                        assert(d.drop_first() =~= diff@.skip(i + 1));
                        assert(merged(d, r2, can_update));
                        assert(before + r2 =~= res@ + rest);
                    }
                }
            },
            DiffStep::Right(added) => {
                res.push(DiffResult::Insert(added));
                proof {
                    assert forall|rest: Seq<DiffResult<&'a T>>|
                        merged(diff@.skip(i + 1), rest, can_update) implies #[trigger] merged(
                            orig,
                            res@ + rest,
                            can_update,
                        ) by {
                        let r2 = seq![DiffResult::<&'a T>::Insert(added)] + rest;
                        assert(r2.drop_first() =~= rest);
                        assert(d.drop_first() =~= diff@.skip(i + 1));
                        assert(merged(d, r2, can_update));
                        assert(before + r2 =~= res@ + rest);
                    }
                }
            },
        }
        i = i + 1;
    }
    proof {
        assert(res@ + Seq::<DiffResult<&'a T>>::empty() =~= res@);
        assert(diff@.skip(i as int).len() == 0);
        assert(merged(diff@.skip(i as int), Seq::<DiffResult<&'a T>>::empty(), can_update));
    }
    res
}

proof fn lemma_next_right<T>(d: Seq<DiffStep<&T>>, m: int)
    ensures
        next_right(d, m) matches Some(k) ==> {
            &&& 0 <= m <= k < d.len()
            &&& d[k] is Right
            &&& forall|t: int| m <= t < k ==> #[trigger] d[t] is Left
        },
    decreases d.len() - m,
{
    if 0 <= m < d.len() {
        lemma_next_right(d, m + 1);
    }
}

proof fn lemma_lefts_remove_right<T>(s: Seq<DiffStep<&T>>, j: int)
    requires
        0 <= j < s.len(),
        s[j] is Right,
    ensures
        lefts(s.remove(j)) == lefts(s),
    decreases j,
{
    if j == 0 {
        assert(s.remove(0) =~= s.drop_first());
    } else {
        lemma_lefts_remove_right(s.drop_first(), j - 1);
        assert(s.remove(j).drop_first() =~= s.drop_first().remove(j - 1));
        assert(s.remove(j)[0] == s[0]);
    }
}

proof fn lemma_rights_remove_right<T>(s: Seq<DiffStep<&T>>, j: int, b: &T)
    requires
        0 <= j < s.len(),
        s[j] == DiffStep::Right(b),
        forall|t: int| 0 <= t < j ==> #[trigger] s[t] is Left,
    ensures
        rights(s) == seq![*b] + rights(s.remove(j)),
    decreases j,
{
    if j == 0 {
        assert(s.remove(0) =~= s.drop_first());
    } else {
        assert(s[0] is Left);
        lemma_rights_remove_right(s.drop_first(), j - 1, b);
        assert(s.remove(j).drop_first() =~= s.drop_first().remove(j - 1));
        assert(s.remove(j)[0] == s[0]);
        assert(rights(s) =~= rights(s.drop_first()));
        assert(rights(s.remove(j)) =~= rights(s.remove(j).drop_first()));
    }
}

/// An update diff walks through the same old list and the same new list as
/// the plain diff it was made from: updates pair an old element with a new one
/// without reordering either list.
pub proof fn lemma_merged_sides<T, F: Fn(&T, &T) -> bool>(
    d: Seq<DiffStep<&T>>,
    r: Seq<DiffResult<&T>>,
    can_update: F,
)
    requires
        merged(d, r, can_update),
    ensures
        olds(r) == lefts(d),
        news(r) == rights(d),
    decreases d.len(),
{
    if d.len() > 0 {
        match d[0] {
            DiffStep::Left(a) => {
                match next_right(d, 1) {
                    Some(k) => {
                        lemma_next_right(d, 1);
                        let b = d[k]->Right_0;
                        if r[0] == DiffResult::Update(a, b) && merged(
                            d.remove(k).drop_first(),
                            r.drop_first(),
                            can_update,
                        ) {
                            let s = d.drop_first();
                            assert(d.remove(k).drop_first() =~= s.remove(k - 1));
                            lemma_merged_sides(s.remove(k - 1), r.drop_first(), can_update);
                            lemma_lefts_remove_right(s, k - 1);
                            assert forall|t: int| 0 <= t < k - 1 implies #[trigger] s[t] is Left by {
                                assert(s[t] == d[t + 1]);
                            }
                            lemma_rights_remove_right(s, k - 1, b);
                        } else {
                            lemma_merged_sides(d.drop_first(), r.drop_first(), can_update);
                        }
                    },
                    None => {
                        lemma_merged_sides(d.drop_first(), r.drop_first(), can_update);
                    },
                }
            },
            _ => {
                lemma_merged_sides(d.drop_first(), r.drop_first(), can_update);
            },
        }
    }
}

/// The update diff between `old` and `new`: the plain diff of the two lists,
/// in which a removal followed (across removals only) by an insertion becomes
/// an update wherever `can_update` allows it.
pub fn update_diff<'a, T: PartialEq, F: Fn(&T, &T) -> bool>(
    old: &'a [T],
    new: &'a [T],
    can_update: F,
) -> (res: Vec<DiffResult<&'a T>>)
    requires
        forall|a: &T, b: &T| call_requires(can_update, (a, b)),
    ensures
        exists|d: Seq<DiffStep<&'a T>>|
            lefts(d) == old@ && rights(d) == new@ && #[trigger] merged(d, res@, can_update) && (
            T::obeys_eq_spec() ==> pairs_equal(d) && both_count(d) == lcs_len(old@, new@)),
        olds(res@) == old@,
        news(res@) == new@,
{
    let diff = diff_slice(old, new);
    let ghost d = diff@;
    let res = apply_updates(diff, can_update);
    proof {
        lemma_merged_sides(d, res@, can_update);
    }
    res
}

} // verus!

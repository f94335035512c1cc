//! Maps from a handle to the engine that owns it.
use std::collections::HashMap;
use vstd::prelude::*;
use vstd::std_specs::hash::group_hash_axioms;
use vstd::std_specs::iter::IteratorSpec;

verus! {

broadcast use group_hash_axioms;

/// The handles that `engine` owns in `m`.
pub open spec fn owned_by(m: Map<i64, i64>, engine: i64) -> Set<i64> {
    m.dom().filter(|k: i64| m[k] == engine)
}

/// The handles that `engine` owns, each once, in the map's own order.
pub fn keys_owned_by(map: &HashMap<i64, i64>, engine: i64) -> (keys: Vec<i64>)
    ensures
        keys@.no_duplicates(),
        keys@.to_set() == owned_by(map@, engine),
{
    let mut keys: Vec<i64> = Vec::new();
    let ghost m = map@;
    let ghost s = vstd::std_specs::hash::spec_hash_map_iter(&map).remaining();
    for (k, e) in it: map.iter()
        invariant
            m == map@,
            it.seq() == s,
            it.index() <= s.len(),
            s.no_duplicates(),
            s.len() == m.dom().len(),
            forall|i: int| #![trigger s[i]] 0 <= i < s.len() ==>
                m.contains_key(*s[i].0) && m[*s[i].0] == *s[i].1,
            forall|k: i64| #[trigger] m.contains_key(k) ==> s.contains((&k, &m[k])),
            keys@.no_duplicates(),
            forall|h: i64| #[trigger] keys@.contains(h) <==>
                exists|i: int| #![trigger s[i]] 0 <= i < it.index() && *s[i].0 == h
                    && *s[i].1 == engine,
    {
        proof {
            assert forall|j: int| 0 <= j < keys@.len() implies keys@[j] != *k by {
                let h = keys@[j];
                assert(keys@.contains(h));
                let i = choose|i: int| #![trigger s[i]] 0 <= i < it.index() && *s[i].0 == h
                    && *s[i].1 == engine;
                if h == *k {
                    assert(m[h] == *s[i].1);
                    assert(s[i] == s[it.index() as int]);
                }
            }
        }
        let ghost before = keys@;
        if *e == engine {
            keys.push(*k);
        }
        proof {
            let idx = it.index() as int;
            assert forall|h: i64| #[trigger] keys@.contains(h) implies
                exists|i: int| #![trigger s[i]] 0 <= i < idx + 1 && *s[i].0 == h
                    && *s[i].1 == engine by {
                if before.contains(h) {
                } else {
                    assert(h == *k);
                    assert(s[idx] == (k, e));
                }
            }
            assert forall|h: i64|
                (exists|i: int| #![trigger s[i]] 0 <= i < idx + 1 && *s[i].0 == h
                    && *s[i].1 == engine) implies #[trigger] keys@.contains(h) by {
                let i = choose|i: int| #![trigger s[i]] 0 <= i < idx + 1 && *s[i].0 == h
                    && *s[i].1 == engine;
                if i < idx {
                    assert(before.contains(h));
                    let j = choose|j: int| 0 <= j < before.len() && before[j] == h;
                    assert(keys@[j] == h);
                } else {
                    assert(s[idx] == (k, e));
                    assert(keys@.last() == h);
                }
            }
        }
    }
    proof {
        let target = owned_by(m, engine);
        assert forall|h: i64| #[trigger] keys@.to_set().contains(h) == target.contains(h) by {
            if target.contains(h) {
                assert(s.contains((&h, &m[h])));
                let i = choose|i: int| 0 <= i < s.len() && s[i] == (&h, &m[h]);
                assert(*s[i].0 == h);
            }
            if keys@.contains(h) {
                let i = choose|i: int| #![trigger s[i]] 0 <= i < s.len() && *s[i].0 == h
                    && *s[i].1 == engine;
                assert(m.contains_key(h));
            }
        }
        assert(keys@.to_set() =~= target);
    }
    keys
}

} // verus!

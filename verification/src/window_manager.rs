//! The windows of the application: the handle each one gets, the engine
//! that runs it, its parent, and whether it has finished initializing.
//!
//! Creating the engine and the platform window of a new window is the
//! embedder's work: it takes a handle here, creates the engine for the
//! parent's engine, and records the window.
use crate::window::WindowHandle;
use std::collections::HashMap;
use vstd::prelude::*;
use vstd::std_specs::hash::group_hash_axioms;
use vstd::std_specs::iter::IteratorSpec;

verus! {

broadcast use group_hash_axioms;

/// What the manager keeps of a window.
#[derive(Clone, Copy, PartialEq, Eq, Structural, Debug)]
pub struct WindowRecord {
    pub engine: i64,
    pub parent: Option<WindowHandle>,
    pub initialized: bool,
}

/// What a window learns when it initializes: every window there is, itself
/// and its parent.
pub struct WindowInit {
    pub all_windows: Vec<i64>,
    pub current_window: WindowHandle,
    pub parent_window: Option<WindowHandle>,
}

/// The handles of `m`, all of them or only those of initialized windows.
pub open spec fn handles_of(m: Map<i64, WindowRecord>, only_initialized: bool) -> Set<i64> {
    m.dom().filter(|h: i64| !only_initialized || m[h].initialized)
}

/// The handles of `map`, each once, in the map's own order.
fn handles_where(map: &HashMap<i64, WindowRecord>, only_initialized: bool) -> (keys: Vec<i64>)
    ensures
        keys@.no_duplicates(),
        keys@.to_set() == handles_of(map@, only_initialized),
{
    let mut keys: Vec<i64> = Vec::new();
    let ghost m = map@;
    let ghost s = vstd::std_specs::hash::spec_hash_map_iter(&map).remaining();
    for (k, rec) in it: map.iter()
        invariant
            m == map@,
            it.seq() == s,
            it.index() <= s.len(),
            s.no_duplicates(),
            s.len() == m.dom().len(),
            forall|i: int| #![trigger s[i]] 0 <= i < s.len() ==>
                m.contains_key(*s[i].0) && m[*s[i].0] == *s[i].1,
            forall|k: i64| #[trigger] m.contains_key(k) ==> s.contains((&k, &m[k])),
            keys@.no_duplicates(),
            forall|h: i64| #[trigger] keys@.contains(h) <==>
                exists|i: int| #![trigger s[i]] 0 <= i < it.index() && *s[i].0 == h
                    && (!only_initialized || s[i].1.initialized),
    {
        proof {
            assert forall|j: int| 0 <= j < keys@.len() implies keys@[j] != *k by {
                let h = keys@[j];
                assert(keys@.contains(h));
                let i = choose|i: int| #![trigger s[i]] 0 <= i < it.index() && *s[i].0 == h
                    && (!only_initialized || s[i].1.initialized);
                if h == *k {
                    assert(m[h] == *s[i].1);
                    assert(s[i] == s[it.index() as int]);
                }
            }
        }
        let ghost before = keys@;
        if !only_initialized || rec.initialized {
            keys.push(*k);
        }
        proof {
            let idx = it.index() as int;
            assert forall|h: i64| #[trigger] keys@.contains(h) implies
                exists|i: int| #![trigger s[i]] 0 <= i < idx + 1 && *s[i].0 == h
                    && (!only_initialized || s[i].1.initialized) by {
                if before.contains(h) {
                } else {
                    assert(h == *k);
                    assert(s[idx] == (k, rec));
                }
            }
            assert forall|h: i64|
                (exists|i: int| #![trigger s[i]] 0 <= i < idx + 1 && *s[i].0 == h
                    && (!only_initialized || s[i].1.initialized)) implies #[trigger] keys@.contains(h) by {
                let i = choose|i: int| #![trigger s[i]] 0 <= i < idx + 1 && *s[i].0 == h
                    && (!only_initialized || s[i].1.initialized);
                if i < idx {
                    assert(before.contains(h));
                    let j = choose|j: int| 0 <= j < before.len() && before[j] == h;
                    assert(keys@[j] == h);
                } else {
                    assert(s[idx] == (k, rec));
                    assert(keys@.last() == h);
                }
            }
        }
    }
    proof {
        let target = handles_of(m, only_initialized);
        assert forall|h: i64| #[trigger] keys@.to_set().contains(h) == target.contains(h) by {
            if target.contains(h) {
                assert(s.contains((&h, &m[h])));
                let i = choose|i: int| 0 <= i < s.len() && s[i] == (&h, &m[h]);
                assert(*s[i].0 == h);
            }
            if keys@.contains(h) {
                let i = choose|i: int| #![trigger s[i]] 0 <= i < s.len() && *s[i].0 == h
                    && (!only_initialized || s[i].1.initialized);
                assert(m.contains_key(h));
            }
        }
        assert(keys@.to_set() =~= target);
    }
    keys
}

/// The windows of the application by handle, the window that each engine
/// runs, and the handle the next window gets.
pub struct WindowManager {
    windows: HashMap<i64, WindowRecord>,
    next_handle: i64,
    engine_to_window: HashMap<i64, i64>,
}

impl View for WindowManager {
    type V = Map<i64, WindowRecord>;

    /// The live windows, by handle.
    closed spec fn view(&self) -> Map<i64, WindowRecord> {
        self.windows@
    }
}

impl WindowManager {
    /// The handle that the next window gets.
    pub closed spec fn next_handle_spec(&self) -> i64 {
        self.next_handle
    }

    /// The window that each engine was created for.
    pub closed spec fn engine_windows(&self) -> Map<i64, i64> {
        self.engine_to_window@
    }

    /// Every handle in use was handed out before the next one.
    pub closed spec fn wf(&self) -> bool {
        &&& 1 <= self.next_handle
        &&& forall|h: i64| #[trigger] self@.contains_key(h) ==> 1 <= h < self.next_handle
        &&& forall|e: i64| #[trigger] self.engine_to_window@.contains_key(e)
            ==> 1 <= self.engine_to_window@[e] < self.next_handle
    }

    /// No windows; the first one gets handle 1.
    pub fn new() -> (r: Self)
        ensures
            r.wf(),
            r@ == Map::<i64, WindowRecord>::empty(),
            r.engine_windows() == Map::<i64, i64>::empty(),
            r.next_handle_spec() == 1,
    {
        WindowManager { windows: HashMap::new(), next_handle: 1, engine_to_window: HashMap::new() }
    }

    /// The engine of `parent`, when it names a live window: a new child
    /// window's engine is created for it.
    pub fn parent_engine(&self, parent: Option<WindowHandle>) -> (e: Option<i64>)
        ensures
            e == match parent {
                Some(p) => if self@.contains_key(p.0) {
                    Some(self@[p.0].engine)
                } else {
                    None
                },
                None => None,
            },
    {
        match parent {
            Some(p) => match self.windows.get(&p.0) {
                Some(rec) => Some(rec.engine),
                None => None,
            },
            None => None,
        }
    }

    /// Hands out the handle for a new window: the next one, which no window
    /// has.
    pub fn next_window_handle(&mut self) -> (h: WindowHandle)
        requires
            old(self).wf(),
            old(self).next_handle_spec() < i64::MAX,
        ensures
            final(self).wf(),
            h.0 == old(self).next_handle_spec(),
            !old(self)@.contains_key(h.0),
            final(self).next_handle_spec() == old(self).next_handle_spec() + 1,
            final(self)@ == old(self)@,
            final(self).engine_windows() == old(self).engine_windows(),
    {
        let h = WindowHandle(self.next_handle);
        self.next_handle = self.next_handle + 1;
        proof {
            assert forall|k: i64| #[trigger] self@.contains_key(k) implies 1 <= k < self.next_handle by {
                assert(old(self)@.contains_key(k));
            }
            assert forall|e: i64| #[trigger] self.engine_to_window@.contains_key(e) implies 1
                <= self.engine_to_window@[e] < self.next_handle by {
                assert(old(self).engine_to_window@.contains_key(e));
            }
        }
        h
    }

    /// Records the window `handle`, run by `engine`, with its parent; it
    /// has not initialized yet.
    pub fn add_window(&mut self, handle: WindowHandle, engine: i64, parent: Option<WindowHandle>)
        requires
            old(self).wf(),
            1 <= handle.0 < old(self).next_handle_spec(),
        ensures
            final(self).wf(),
            final(self).next_handle_spec() == old(self).next_handle_spec(),
            final(self)@ == old(self)@.insert(
                handle.0,
                WindowRecord { engine, parent, initialized: false },
            ),
            final(self).engine_windows() == old(self).engine_windows().insert(engine, handle.0),
    {
        self.engine_to_window.insert(engine, handle.0);
        self.windows.insert(handle.0, WindowRecord { engine, parent, initialized: false });
        proof {
            assert forall|k: i64| #[trigger] self@.contains_key(k) implies 1 <= k < self.next_handle by {
                if k != handle.0 {
                    assert(old(self)@.contains_key(k));
                }
            }
            assert forall|e: i64| #[trigger] self.engine_to_window@.contains_key(e) implies 1
                <= self.engine_to_window@[e] < self.next_handle by {
                if e != engine {
                    assert(old(self).engine_to_window@.contains_key(e));
                }
            }
        }
    }

    /// The engine that runs the window `handle`, if it is live.
    pub fn get_engine_for_window(&self, handle: WindowHandle) -> (e: Option<i64>)
        ensures
            e == if self@.contains_key(handle.0) {
                Some(self@[handle.0].engine)
            } else {
                None
            },
    {
        match self.windows.get(&handle.0) {
            Some(rec) => Some(rec.engine),
            None => None,
        }
    }

    /// The window that `engine` was created for, if any.
    pub fn window_for_engine(&self, engine: i64) -> (w: Option<WindowHandle>)
        ensures
            w == if self.engine_windows().contains_key(engine) {
                Some(WindowHandle(self.engine_windows()[engine]))
            } else {
                None
            },
    {
        match self.engine_to_window.get(&engine) {
            Some(h) => Some(WindowHandle(*h)),
            None => None,
        }
    }

    /// Marks the live window `window` as initialized and tells what it
    /// learns: every live window, itself and its parent.
    pub fn init_window(&mut self, window: WindowHandle) -> (init: WindowInit)
        requires
            old(self).wf(),
            old(self)@.contains_key(window.0),
        ensures
            final(self).wf(),
            final(self).next_handle_spec() == old(self).next_handle_spec(),
            final(self).engine_windows() == old(self).engine_windows(),
            final(self)@ == old(self)@.insert(
                window.0,
                WindowRecord { initialized: true, ..old(self)@[window.0] },
            ),
            init.all_windows@.no_duplicates(),
            init.all_windows@.to_set() == old(self)@.dom(),
            init.current_window == window,
            init.parent_window == old(self)@[window.0].parent,
    {
        let all_windows = handles_where(&self.windows, false);
        proof {
            assert(handles_of(self@, false) =~= self@.dom());
        }
        let rec = *self.windows.get(&window.0).unwrap();
        self.windows.insert(window.0, WindowRecord { initialized: true, ..rec });
        WindowInit { all_windows, current_window: window, parent_window: rec.parent }
    }

    /// Forgets the window `window`; gives the engine that ran it, for the
    /// embedder to shut down, when it was live.
    pub fn remove_window(&mut self, window: WindowHandle) -> (engine: Option<i64>)
        requires
            old(self).wf(),
        ensures
            final(self).wf(),
            final(self).next_handle_spec() == old(self).next_handle_spec(),
            final(self).engine_windows() == old(self).engine_windows(),
            final(self)@ == old(self)@.remove(window.0),
            engine == if old(self)@.contains_key(window.0) {
                Some(old(self)@[window.0].engine)
            } else {
                None
            },
    {
        let engine = match self.windows.get(&window.0) {
            Some(rec) => Some(rec.engine),
            None => None,
        };
        self.windows.remove(&window.0);
        engine
    }

    /// The windows that a broadcast message goes to: those that have
    /// initialized, each once.
    pub fn broadcast_targets(&self) -> (targets: Vec<i64>)
        ensures
            targets@.no_duplicates(),
            targets@.to_set() == handles_of(self@, true),
    {
        handles_where(&self.windows, true)
    }
}

/// Removing a window just recorded under a fresh handle leaves the windows
/// as they were before, and the window being removed is the one recorded.
pub proof fn lemma_remove_undoes_add(
    before: Map<i64, WindowRecord>,
    handle: WindowHandle,
    record: WindowRecord,
)
    requires
        !before.contains_key(handle.0),
    ensures
        before.insert(handle.0, record).remove(handle.0) == before,
        before.insert(handle.0, record)[handle.0] == record,
{
    assert(before.insert(handle.0, record).remove(handle.0) =~= before);
}

} // verus!

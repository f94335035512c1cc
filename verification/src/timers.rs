//! Timer bookkeeping of the platform run loop.
//!
//! The run loop keeps a table of pending timers keyed by handle. Time is a
//! count of nanoseconds on the loop's monotonic clock; the caller reads the
//! clock and hands the reading in, and runs the callbacks that belong to the
//! handles this module reports as due.
use std::collections::HashMap;
use vstd::prelude::*;
use vstd::std_specs::hash::group_hash_axioms;
use vstd::std_specs::iter::IteratorSpec;

verus! {

broadcast use group_hash_axioms;

/// Identifies a scheduled timer.
pub type HandleType = usize;

/// Never handed out as a timer handle.
pub const INVALID_HANDLE: HandleType = 0;

/// How long the loop sleeps when no timer is pending: one hour, in nanoseconds.
pub const IDLE_WAIT: u64 = 3_600_000_000_000;

/// Nanoseconds in a millisecond.
pub const NANOS_PER_MILLI: u64 = 1_000_000;

/// Abstract state of the timer table.
pub ghost struct TimersView {
    pub next_handle: nat,
    pub timers: Map<HandleType, u64>,
}

/// Pending timers of a run loop, each with the instant at which it fires.
pub struct State {
    next_handle: HandleType,
    timers: HashMap<HandleType, u64>,
}

/// The earliest instant among the given timers, if there is one.
pub open spec fn is_min_scheduled(timers: Map<HandleType, u64>, t: u64) -> bool {
    &&& exists|h: HandleType| timers.contains_key(h) && timers[h] == t
    &&& forall|h: HandleType| timers.contains_key(h) ==> t <= timers[h]
}

/// The instant at which the loop has to wake up next.
pub open spec fn next_wake(timers: Map<HandleType, u64>, now: u64, t: u64) -> bool {
    if timers.dom().len() == 0 {
        t == now + IDLE_WAIT
    } else {
        is_min_scheduled(timers, t)
    }
}

/// Handles whose timer is due at `now`.
pub open spec fn due_at(timers: Map<HandleType, u64>, now: u64) -> Set<HandleType> {
    timers.dom().filter(|h: HandleType| timers[h] <= now)
}

/// Delay in whole milliseconds until `time`, zero if it has passed, reduced to 32 bits.
pub open spec fn wait_millis(time: u64, now: u64) -> u32 {
    if time <= now {
        0
    } else {
        (((time - now) / NANOS_PER_MILLI as int) % 0x1_0000_0000) as u32
    }
}

impl View for State {
    type V = TimersView;

    closed spec fn view(&self) -> TimersView {
        TimersView { next_handle: self.next_handle as nat, timers: self.timers@ }
    }
}

impl State {
    /// Every pending handle was handed out before and is valid.
    pub closed spec fn wf(&self) -> bool {
        &&& self.next_handle >= 1
        &&& self.timers@.dom().finite()
        &&& forall|h: HandleType| #[trigger]
            self.timers@.contains_key(h) ==> INVALID_HANDLE < h < self.next_handle
    }

    /// No pending timer has the invalid handle: every pending handle is
    /// valid and was handed out before the next one. So unscheduling the
    /// invalid handle changes nothing.
    pub proof fn lemma_handles_valid(&self)
        requires
            self.wf(),
        ensures
            !self@.timers.contains_key(INVALID_HANDLE),
            forall|h: HandleType| #[trigger] self@.timers.contains_key(h) ==> INVALID_HANDLE < h
                < self@.next_handle,
            self@.timers.remove(INVALID_HANDLE) == self@.timers,
    {
        assert(self@.timers.remove(INVALID_HANDLE) =~= self@.timers);
    }

    /// True while another handle can be handed out.
    pub open spec fn can_schedule(&self) -> bool {
        self@.next_handle < usize::MAX
    }

    /// Whether another handle can be handed out.
    pub fn has_free_handle(&self) -> (r: bool)
        ensures
            r == self.can_schedule(),
    {
        self.next_handle < usize::MAX
    }

    /// An empty timer table; the first handle handed out is 1.
    pub fn new() -> (s: Self)
        ensures
            s.wf(),
            s@.next_handle == INVALID_HANDLE + 1,
            s@.timers == Map::<HandleType, u64>::empty(),
    {
        State { next_handle: INVALID_HANDLE + 1, timers: HashMap::new() }
    }

    /// Hands out a fresh handle.
    pub fn next_handle(&mut self) -> (r: HandleType)
        requires
            old(self).wf(),
            old(self).can_schedule(),
        ensures
            final(self).wf(),
            r == old(self)@.next_handle,
            final(self)@.next_handle == old(self)@.next_handle + 1,
            final(self)@.timers == old(self)@.timers,
    {
        let r = self.next_handle;
        self.next_handle = r + 1;
        r
    }

    /// Schedules a timer to fire `in_time` nanoseconds after `now`; returns its handle.
    pub fn schedule(&mut self, now: u64, in_time: u64) -> (handle: HandleType)
        requires
            old(self).wf(),
            old(self).can_schedule(),
            now + in_time <= u64::MAX,
        ensures
            final(self).wf(),
            handle == old(self)@.next_handle,
            handle != INVALID_HANDLE,
            !old(self)@.timers.contains_key(handle),
            final(self)@.next_handle == old(self)@.next_handle + 1,
            final(self)@.timers == old(self)@.timers.insert(handle, (now + in_time) as u64),
    {
        let handle = self.next_handle();
        self.timers.insert(handle, now + in_time);
        handle
    }

    /// Removes a timer; unknown handles are ignored.
    pub fn unschedule(&mut self, handle: HandleType)
        requires
            old(self).wf(),
        ensures
            final(self).wf(),
            final(self)@.next_handle == old(self)@.next_handle,
            final(self)@.timers == old(self)@.timers.remove(handle),
    {
        self.timers.remove(&handle);
    }

    /// Removes the timer of `handle` so that its callback can run; false if it was not pending.
    pub fn take_timer(&mut self, handle: HandleType) -> (found: bool)
        requires
            old(self).wf(),
        ensures
            final(self).wf(),
            found == old(self)@.timers.contains_key(handle),
            final(self)@.next_handle == old(self)@.next_handle,
            final(self)@.timers == old(self)@.timers.remove(handle),
    {
        let r = self.timers.remove(&handle);
        r.is_some()
    }

    /// Whether `handle` names a pending timer.
    pub fn is_scheduled(&self, handle: HandleType) -> (r: bool)
        ensures
            r == self@.timers.contains_key(handle),
    {
        self.timers.contains_key(&handle)
    }

    /// Number of pending timers.
    pub fn len(&self) -> (r: usize)
        ensures
            r == self@.timers.dom().len(),
    {
        self.timers.len()
    }

    /// The instant at which the loop has to wake up: the earliest pending
    /// timer, or one hour after `now` when nothing is pending.
    pub fn next_timer(&self, now: u64) -> (t: u64)
        requires
            self.wf(),
            now + IDLE_WAIT <= u64::MAX,
        ensures
            next_wake(self@.timers, now, t),
    {
        let mut min: Option<u64> = None;
        let ghost m = self.timers@;
        let ghost s = vstd::std_specs::hash::spec_hash_map_iter(&self.timers).remaining();
        for (k, v) in it: self.timers.iter()
            invariant
                m == self.timers@,
                it.seq() == s,
                it.index() <= s.len(),
                it.seq().len() == m.dom().len(),
                forall|i: int| #![trigger it.seq()[i]] 0 <= i < it.seq().len() ==>
                    m.contains_key(*it.seq()[i].0) && m[*it.seq()[i].0] == *it.seq()[i].1,
                forall|k: HandleType| #[trigger] m.contains_key(k) ==>
                    it.seq().contains((&k, &m[k])),
                match min {
                    None => it.index() == 0,
                    Some(t) => {
                        &&& it.index() > 0
                        &&& exists|h: HandleType| m.contains_key(h) && m[h] == t
                        &&& forall|i: int| #![trigger s[i]] 0 <= i < it.index() ==>
                            t <= *s[i].1
                    },
                },
                min is Some ==> it.index() > 0,
        {
            match min {
                None => { min = Some(*v); },
                Some(t) => {
                    if *v < t {
                        min = Some(*v);
                    }
                },
            }
        }
        match min {
            Some(t) => {
                assert forall|h: HandleType| m.contains_key(h) implies t <= m[h] by {
                    assert(s.contains((&h, &m[h])));
                    let i = choose|i: int| 0 <= i < s.len() && s[i] == (&h, &m[h]);
                    assert(s[i] == (&h, &m[h]));
                }
                t
            },
            None => {
                assert(m.dom().len() == 0);
                now + IDLE_WAIT
            },
        }
    }

    /// Handles of the timers due at `now`, each once, in the table's walk order.
    pub fn due_timers(&self, now: u64) -> (pending: Vec<HandleType>)
        requires
            self.wf(),
        ensures
            pending@.to_set() == due_at(self@.timers, now),
            pending@.no_duplicates(),
    {
        let mut pending: Vec<HandleType> = Vec::new();
        let ghost m = self.timers@;
        let ghost s = vstd::std_specs::hash::spec_hash_map_iter(&self.timers).remaining();
        for (k, v) in it: self.timers.iter()
            invariant
                m == self.timers@,
                it.seq() == s,
                it.index() <= s.len(),
                s.no_duplicates(),
                s.len() == m.dom().len(),
                forall|i: int| #![trigger s[i]] 0 <= i < s.len() ==>
                    m.contains_key(*s[i].0) && m[*s[i].0] == *s[i].1,
                forall|k: HandleType| #[trigger] m.contains_key(k) ==> s.contains((&k, &m[k])),
                pending@.no_duplicates(),
                forall|h: HandleType| #[trigger] pending@.contains(h) <==>
                    exists|i: int| #![trigger s[i]] 0 <= i < it.index() && *s[i].0 == h
                        && *s[i].1 <= now,
        {
            proof {
                assert forall|j: int| 0 <= j < pending@.len() implies pending@[j] != *k by {
                    let h = pending@[j];
                    assert(pending@.contains(h));
                    let i = choose|i: int| #![trigger s[i]] 0 <= i < it.index() && *s[i].0 == h
                        && *s[i].1 <= now;
                    if h == *k {
                        assert(m[h] == *s[i].1);
                        assert(s[i] == s[it.index() as int]);
                    }
                }
            }
            let ghost before = pending@;
            if *v <= now {
                pending.push(*k);
            }
            proof {
                let idx = it.index() as int;
                assert forall|h: HandleType| #[trigger] pending@.contains(h) implies
                    exists|i: int| #![trigger s[i]] 0 <= i < idx + 1 && *s[i].0 == h
                        && *s[i].1 <= now by {
                    if before.contains(h) {
                    } else {
                        assert(h == *k);
                        assert(s[idx] == (k, v));
                    }
                }
                assert forall|h: HandleType|
                    (exists|i: int| #![trigger s[i]] 0 <= i < idx + 1 && *s[i].0 == h
                        && *s[i].1 <= now) implies #[trigger] pending@.contains(h) by {
                    let i = choose|i: int| #![trigger s[i]] 0 <= i < idx + 1 && *s[i].0 == h
                        && *s[i].1 <= now;
                    if i < idx {
                        assert(before.contains(h));
                        let j = choose|j: int| 0 <= j < before.len() && before[j] == h;
                        assert(pending@[j] == h);
                    } else {
                        assert(s[idx] == (k, v));
                        assert(pending@.last() == h);
                    }
                }
            }
        }
        proof {
            assert forall|h: HandleType| #[trigger] pending@.to_set().contains(h)
                == due_at(m, now).contains(h) by {
                if due_at(m, now).contains(h) {
                    assert(s.contains((&h, &m[h])));
                    let i = choose|i: int| 0 <= i < s.len() && s[i] == (&h, &m[h]);
                    assert(*s[i].0 == h);
                }
                if pending@.contains(h) {
                    let i = choose|i: int| #![trigger s[i]] 0 <= i < s.len() && *s[i].0 == h
                        && *s[i].1 <= now;
                    assert(m.contains_key(h));
                }
            }
            assert(pending@.to_set() =~= due_at(m, now));
        }
        pending
    }

    /// Milliseconds to wait from `now` until `time`, as the system timer takes them.
    pub fn wake_up_delay(time: u64, now: u64) -> (ms: u32)
        ensures
            ms == wait_millis(time, now),
    {
        let wait = time.saturating_sub(now);
        let q = wait / NANOS_PER_MILLI;
        assert(q as u32 == (q % 0x1_0000_0000) as u32) by (bit_vector);
        q as u32
    }
}

} // verus!

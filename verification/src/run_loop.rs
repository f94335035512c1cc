//! The run loop: timers scheduled on it and callbacks sent to it from other threads.
//!
//! The loop itself (waiting for the system timer and for posted messages,
//! running the callbacks) is driven by the embedder; this module decides
//! which handle a timer gets, which timers are due and when to wake up.
use crate::timers::{due_at, next_wake, wait_millis, HandleType, State, IDLE_WAIT, INVALID_HANDLE};
use vstd::prelude::*;

verus! {

/// Identifies a callback that was sent to the run loop.
pub type CallbackId = u64;

/// Sends callbacks to a run loop from other threads. Every sender of a
/// loop feeds the loop's one queue, and wakes the loop through its message
/// window.
#[derive(Clone, Copy)]
pub struct PlatformRunLoopSender {
    target: usize,
}

impl PlatformRunLoopSender {
    /// The message window that a sent callback wakes.
    pub closed spec fn target_window(&self) -> usize {
        self.target
    }

    /// The message window that a sent callback wakes.
    pub fn target(&self) -> (t: usize)
        ensures
            t == self.target_window(),
    {
        self.target
    }

    /// A sender for the loop whose message window is `target`.
    pub fn new(target: usize) -> (s: Self)
        ensures
            s.target_window() == target,
    {
        PlatformRunLoopSender { target }
    }

    /// Queues a callback to run on the thread of `run_loop`, the loop this
    /// sender belongs to: it joins the loop's queue after every callback sent
    /// before, through this sender or another one.
    pub fn send(&self, run_loop: &mut PlatformRunLoop, callback: CallbackId)
        requires
            old(run_loop)@.window == self.target_window(),
        ensures
            final(run_loop)@ == (RunLoopView { sent: old(run_loop)@.sent.push(callback), ..old(run_loop)@ }),
            final(run_loop).wf() == old(run_loop).wf(),
    {
        run_loop.sent.push(callback);
    }
}

/// Abstract state of a platform run loop.
pub ghost struct RunLoopView {
    pub next_handle: nat,
    pub timers: Map<HandleType, u64>,
    pub quit_requested: bool,
    /// The message window that wakes the loop (0 until it is created).
    pub window: usize,
    /// The callbacks sent to the loop and not yet run, oldest first.
    pub sent: Seq<CallbackId>,
}

/// Timers of the run loop and whether it was asked to quit.
pub struct PlatformRunLoop {
    state: State,
    quit_requested: bool,
    window: usize,
    sent: Vec<CallbackId>,
}

impl View for PlatformRunLoop {
    type V = RunLoopView;

    closed spec fn view(&self) -> RunLoopView {
        RunLoopView {
            next_handle: self.state@.next_handle,
            timers: self.state@.timers,
            quit_requested: self.quit_requested,
            window: self.window,
            sent: self.sent@,
        }
    }
}

impl PlatformRunLoop {
    /// Holds whenever the loop is in use.
    pub closed spec fn wf(&self) -> bool {
        self.state.wf()
    }

    /// True while another timer handle can be handed out.
    pub open spec fn can_schedule(&self) -> bool {
        self@.next_handle < usize::MAX
    }

    /// Whether another timer handle can be handed out.
    pub fn has_free_handle(&self) -> (r: bool)
        ensures
            r == self.can_schedule(),
    {
        self.state.has_free_handle()
    }

    /// A run loop with no timers.
    pub fn new() -> (r: Self)
        ensures
            r.wf(),
            r@.next_handle == 1,
            r@.timers == Map::<HandleType, u64>::empty(),
            !r@.quit_requested,
            r@.window == 0,
            r@.sent == Seq::<CallbackId>::empty(),
    {
        PlatformRunLoop { state: State::new(), quit_requested: false, window: 0, sent: Vec::new() }
    }

    /// The message window that wakes the loop.
    pub fn window(&self) -> (w: usize)
        ensures
            w == self@.window,
    {
        self.window
    }

    /// Records the message window that the embedder created for the loop:
    /// timers and sent callbacks wake the loop through it.
    pub fn initialize(&mut self, window: usize)
        ensures
            final(self)@ == (RunLoopView { window, ..old(self)@ }),
            final(self).wf() == old(self).wf(),
    {
        self.window = window;
    }

    /// Removes a timer; unknown handles are ignored.
    pub fn unschedule(&mut self, handle: HandleType)
        requires
            old(self).wf(),
        ensures
            final(self).wf(),
            final(self)@ == (RunLoopView { timers: old(self)@.timers.remove(handle), ..old(self)@ }),
    {
        self.state.unschedule(handle);
    }

    /// Schedules a timer `in_time` nanoseconds after `now` and returns its handle.
    pub fn schedule(&mut self, now: u64, in_time: u64) -> (handle: HandleType)
        requires
            old(self).wf(),
            old(self).can_schedule(),
            now + in_time <= u64::MAX,
        ensures
            final(self).wf(),
            handle == old(self)@.next_handle,
            handle != 0,
            !old(self)@.timers.contains_key(handle),
            final(self)@ == (RunLoopView {
                next_handle: old(self)@.next_handle + 1,
                timers: old(self)@.timers.insert(handle, (now + in_time) as u64),
                ..old(self)@
            }),
    {
        self.state.schedule(now, in_time)
    }

    /// Asks the loop to quit once it gets back to waiting.
    pub fn stop(&mut self)
        ensures
            final(self)@ == (RunLoopView { quit_requested: true, ..old(self)@ }),
            final(self).wf() == old(self).wf(),
    {
        self.quit_requested = true;
    }

    /// Whether `stop` was called.
    pub fn is_quit_requested(&self) -> (r: bool)
        ensures
            r == self@.quit_requested,
    {
        self.quit_requested
    }

    /// A sender for callbacks from other threads: it feeds this loop's queue
    /// and wakes the loop through its message window.
    pub fn new_sender(&self) -> (s: PlatformRunLoopSender)
        ensures
            s.target_window() == self@.window,
    {
        PlatformRunLoopSender::new(self.window)
    }

    /// Takes every callback sent to the loop, oldest first, to run them;
    /// the queue is left empty.
    pub fn take_callbacks(&mut self) -> (callbacks: Vec<CallbackId>)
        ensures
            callbacks@ == old(self)@.sent,
            final(self)@ == (RunLoopView { sent: Seq::empty(), ..old(self)@ }),
            final(self).wf() == old(self).wf(),
    {
        let mut taken: Vec<CallbackId> = Vec::new();
        std::mem::swap(&mut taken, &mut self.sent);
        taken
    }

    /// No pending timer has the invalid handle: every pending handle is
    /// valid and was handed out before the next one. So unscheduling the
    /// invalid handle changes nothing.
    pub proof fn lemma_handles_valid(&self)
        requires
            self.wf(),
        ensures
            !self@.timers.contains_key(INVALID_HANDLE),
            forall|h: HandleType| #[trigger] self@.timers.contains_key(h) ==> INVALID_HANDLE < h
                < self@.next_handle,
            self@.timers.remove(INVALID_HANDLE) == self@.timers,
    {
        self.state.lemma_handles_valid();
    }

    /// Handles of the timers due at `now`.
    pub fn due_timers(&self, now: u64) -> (pending: Vec<HandleType>)
        requires
            self.wf(),
        ensures
            pending@.to_set() == due_at(self@.timers, now),
            pending@.no_duplicates(),
    {
        self.state.due_timers(now)
    }

    /// Removes a due timer before its callback runs; false if it was unscheduled meanwhile.
    pub fn take_timer(&mut self, handle: HandleType) -> (found: bool)
        requires
            old(self).wf(),
        ensures
            final(self).wf(),
            found == old(self)@.timers.contains_key(handle),
            final(self)@ == (RunLoopView { timers: old(self)@.timers.remove(handle), ..old(self)@ }),
    {
        self.state.take_timer(handle)
    }

    /// When the loop has to wake up next (see `State::next_timer`).
    pub fn next_timer(&self, now: u64) -> (t: u64)
        requires
            self.wf(),
            now + IDLE_WAIT <= u64::MAX,
        ensures
            next_wake(self@.timers, now, t),
    {
        self.state.next_timer(now)
    }

    /// Milliseconds to set the system timer to after the due timers ran.
    pub fn wake_up_delay(&self, now: u64) -> (ms: u32)
        requires
            self.wf(),
            now + IDLE_WAIT <= u64::MAX,
        ensures
            exists|t: u64| next_wake(self@.timers, now, t) && ms == wait_millis(t, now),
    {
        let t = self.state.next_timer(now);
        State::wake_up_delay(t, now)
    }
}

/// Sends callbacks to a run loop from other threads.
#[derive(Clone, Copy)]
pub struct RunLoopSender {
    platform_sender: PlatformRunLoopSender,
}

impl RunLoopSender {
    /// The message window of the loop that a sent callback wakes.
    pub closed spec fn target_window(&self) -> usize {
        self.platform_sender.target_window()
    }

    /// The message window of the loop that a sent callback wakes.
    pub fn target(&self) -> (t: usize)
        ensures
            t == self.target_window(),
    {
        self.platform_sender.target()
    }

    /// Queues a callback to run on the thread of `run_loop`, the loop this
    /// sender belongs to, after every callback sent to it before.
    pub fn send(&self, run_loop: &mut RunLoop, callback: CallbackId)
        requires
            old(run_loop)@.window == self.target_window(),
        ensures
            final(run_loop)@ == (RunLoopView { sent: old(run_loop)@.sent.push(callback), ..old(run_loop)@ }),
            final(run_loop).wf() == old(run_loop).wf(),
    {
        self.platform_sender.send(&mut run_loop.platform_run_loop, callback);
    }
}

/// The run loop of an embedder context.
pub struct RunLoop {
    platform_run_loop: PlatformRunLoop,
}

impl View for RunLoop {
    type V = RunLoopView;

    closed spec fn view(&self) -> RunLoopView {
        self.platform_run_loop@
    }
}

impl RunLoop {
    /// Holds whenever the loop is in use.
    pub closed spec fn wf(&self) -> bool {
        self.platform_run_loop.wf()
    }

    /// True while another timer handle can be handed out.
    pub open spec fn can_schedule(&self) -> bool {
        self@.next_handle < usize::MAX
    }

    /// Whether another timer handle can be handed out.
    pub fn has_free_handle(&self) -> (r: bool)
        ensures
            r == self.can_schedule(),
    {
        self.platform_run_loop.has_free_handle()
    }

    /// A run loop with no timers.
    pub fn new() -> (r: Self)
        ensures
            r.wf(),
            r@.next_handle == 1,
            r@.timers == Map::<HandleType, u64>::empty(),
            !r@.quit_requested,
            r@.window == 0,
            r@.sent == Seq::<CallbackId>::empty(),
    {
        RunLoop { platform_run_loop: PlatformRunLoop::new() }
    }

    /// Schedules a callback `in_time` nanoseconds after `now`; dropping the
    /// returned handle's timer is `unschedule`.
    pub fn schedule(&mut self, now: u64, in_time: u64) -> (handle: HandleType)
        requires
            old(self).wf(),
            old(self).can_schedule(),
            now + in_time <= u64::MAX,
        ensures
            final(self).wf(),
            handle == old(self)@.next_handle,
            handle != 0,
            !old(self)@.timers.contains_key(handle),
            final(self)@ == (RunLoopView {
                next_handle: old(self)@.next_handle + 1,
                timers: old(self)@.timers.insert(handle, (now + in_time) as u64),
                ..old(self)@
            }),
    {
        self.platform_run_loop.schedule(now, in_time)
    }

    /// Schedules a callback for the next turn of the loop.
    pub fn schedule_now(&mut self, now: u64) -> (handle: HandleType)
        requires
            old(self).wf(),
            old(self).can_schedule(),
        ensures
            final(self).wf(),
            handle == old(self)@.next_handle,
            final(self)@ == (RunLoopView {
                next_handle: old(self)@.next_handle + 1,
                timers: old(self)@.timers.insert(handle, now),
                ..old(self)@
            }),
    {
        self.schedule(now, 0)
    }

    /// Removes a timer; unknown handles are ignored.
    pub fn unschedule(&mut self, handle: HandleType)
        requires
            old(self).wf(),
        ensures
            final(self).wf(),
            final(self)@ == (RunLoopView { timers: old(self)@.timers.remove(handle), ..old(self)@ }),
    {
        self.platform_run_loop.unschedule(handle);
    }

    /// Asks the loop to quit.
    pub fn stop(&mut self)
        ensures
            final(self)@ == (RunLoopView { quit_requested: true, ..old(self)@ }),
            final(self).wf() == old(self).wf(),
    {
        self.platform_run_loop.stop();
    }

    /// A sender for callbacks from other threads: it feeds this loop's queue
    /// and wakes the loop through its message window.
    pub fn new_sender(&self) -> (s: RunLoopSender)
        ensures
            s.target_window() == self@.window,
    {
        RunLoopSender { platform_sender: self.platform_run_loop.new_sender() }
    }

    /// No pending timer has the invalid handle, so unscheduling it changes
    /// nothing (see `PlatformRunLoop::lemma_handles_valid`).
    pub proof fn lemma_handles_valid(&self)
        requires
            self.wf(),
        ensures
            !self@.timers.contains_key(INVALID_HANDLE),
            forall|h: HandleType| #[trigger] self@.timers.contains_key(h) ==> INVALID_HANDLE < h
                < self@.next_handle,
            self@.timers.remove(INVALID_HANDLE) == self@.timers,
    {
        self.platform_run_loop.lemma_handles_valid();
    }

    /// The platform part of the loop.
    pub fn platform(&mut self) -> (p: &mut PlatformRunLoop)
        ensures
            p@ == old(self)@,
            p.wf() == old(self).wf(),
            final(self)@ == final(p)@,
            final(self).wf() == final(p).wf(),
    {
        &mut self.platform_run_loop
    }
}

/// Two callbacks sent to a loop, through the same sender or through two of
/// its senders, join its one queue in the order they were sent, after every
/// callback that was waiting.
pub proof fn lemma_sends_keep_order(before: RunLoopView, middle: RunLoopView, after: RunLoopView, first: CallbackId, second: CallbackId)
    requires
        middle == (RunLoopView { sent: before.sent.push(first), ..before }),
        after == (RunLoopView { sent: middle.sent.push(second), ..middle }),
    ensures
        after.sent == before.sent + seq![first, second],
        after.timers == before.timers,
{
    assert(after.sent =~= before.sent + seq![first, second]);
}

/// A timer is reported due exactly when it is pending and its instant has
/// come: its callback never runs early, and a pending timer is due at every
/// instant from its own on.
pub proof fn lemma_due_exactly_when_time_came(timers: Map<HandleType, u64>, now: u64, h: HandleType)
    ensures
        due_at(timers, now).contains(h) <==> (timers.contains_key(h) && timers[h] <= now),
{
}

/// Once a timer was taken to run its callback, or unscheduled, it is never
/// due again, at any later instant and whatever else is taken: its callback
/// runs at most once, and never after unscheduling.
pub proof fn lemma_removed_timer_never_due(
    timers: Map<HandleType, u64>,
    h: HandleType,
    others: Set<HandleType>,
    later: u64,
)
    ensures
        !due_at(timers.remove(h), later).contains(h),
        !due_at(timers.remove(h).remove_keys(others), later).contains(h),
{
}

/// A handle that was pending is below the next handle, and every later
/// handle is at least the next one: scheduling never hands out a handle
/// again, so a taken or unscheduled timer cannot come back under its handle.
pub proof fn lemma_scheduled_handle_is_new(
    before: RunLoopView,
    after: RunLoopView,
    handle: HandleType,
    old_handle: HandleType,
)
    requires
        old_handle < before.next_handle,
        handle == before.next_handle,
        after.next_handle == before.next_handle + 1,
    ensures
        handle != old_handle,
        old_handle < after.next_handle,
{
}

/// Unscheduling a timer right after scheduling it leaves the timer table as it was.
pub proof fn lemma_unschedule_undoes_schedule(timers: Map<HandleType, u64>, handle: HandleType, at: u64)
    requires
        !timers.contains_key(handle),
    ensures
        timers.insert(handle, at).remove(handle) == timers,
{
    assert(timers.insert(handle, at).remove(handle) =~= timers);
}

/// Once every due timer was taken out, no timer is due any more at that instant.
pub proof fn lemma_no_timer_due_after_taking_due(timers: Map<HandleType, u64>, now: u64)
    ensures
        due_at(timers.remove_keys(due_at(timers, now)), now) == Set::<HandleType>::empty(),
{
    assert(due_at(timers.remove_keys(due_at(timers, now)), now) =~= Set::<HandleType>::empty());
}

/// The instant the loop wakes up at is never later than any pending timer.
pub proof fn lemma_wake_not_after_pending(timers: Map<HandleType, u64>, now: u64, t: u64, h: HandleType)
    requires
        next_wake(timers, now, t),
        timers.dom().finite(),
        timers.contains_key(h),
    ensures
        t <= timers[h],
{
    if timers.dom().len() == 0 {
        assert(timers.dom().contains(h));
    }
}

} // verus!

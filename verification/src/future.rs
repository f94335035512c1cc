//! The state shared by a completable future and its completer, on one
//! thread: the value, once given, and whether someone waits for it.
use vstd::prelude::*;

verus! {

/// The state of a completable future.
pub struct FutureState<T> {
    data: Option<T>,
    waiting: bool,
}

impl<T> FutureState<T> {
    /// The value given and not yet taken.
    pub closed spec fn data(&self) -> Option<T> {
        self.data
    }

    /// Whether a poll found no value and waits to be woken.
    pub closed spec fn is_waiting(&self) -> bool {
        self.waiting
    }

    /// No value, nobody waiting.
    pub fn new() -> (r: Self)
        ensures
            r.data() is None,
            !r.is_waiting(),
    {
        FutureState { data: None, waiting: false }
    }

    /// The completer gives the value; the result tells whether a waiting
    /// poll is to be woken (it waits no more).
    pub fn complete(&mut self, data: T) -> (wake: bool)
        ensures
            final(self).data() == Some(data),
            wake == old(self).is_waiting(),
            !final(self).is_waiting(),
    {
        self.data = Some(data);
        let wake = self.waiting;
        self.waiting = false;
        wake
    }

    /// The future is polled: the value if it was given (it is taken), else
    /// nothing, and the poll waits to be woken.
    pub fn poll(&mut self) -> (r: Option<T>)
        ensures
            r == old(self).data(),
            final(self).data() is None,
            final(self).is_waiting() == (old(self).data() is None || old(self).is_waiting()),
    {
        let data = self.data.take();
        if data.is_none() {
            self.waiting = true;
        }
        data
    }
}

} // verus!

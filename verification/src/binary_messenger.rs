//! The engine side of message channels: which channels have a handler, and
//! what a failed send is reported as.
use crate::error::{PlatformError, PlatformResult};
use vstd::prelude::*;

verus! {

/// Opaque engine object of the embedder's C interface.
pub struct FlutterDesktopEngine {
    _opaque: (),
}

/// Opaque messenger object of the embedder's C interface.
pub struct FlutterDesktopMessenger {
    _opaque: (),
}

/// Opaque plugin registrar object of the embedder's C interface.
pub struct FlutterDesktopPluginRegistrar {
    _opaque: (),
}

/// Opaque view controller state of the embedder's C interface.
pub struct FlutterDesktopViewControllerState {
    _opaque: (),
}

/// Opaque view object of the embedder's C interface.
pub struct FlutterDesktopView {
    _opaque: (),
}

/// The channels of an engine's messenger that have a message handler.
pub struct PlatformBinaryMessenger {
    handle: usize,
    channels: Vec<String>,
}

impl View for PlatformBinaryMessenger {
    type V = Seq<Seq<char>>;

    /// The channels with a handler, each once, in registration order.
    closed spec fn view(&self) -> Seq<Seq<char>> {
        channel_views(self.channels@)
    }
}

/// The names of a sequence of channels.
pub open spec fn channel_views(v: Seq<String>) -> Seq<Seq<char>>
    decreases v.len(),
{
    if v.len() == 0 {
        Seq::empty()
    } else {
        channel_views(v.drop_last()).push(v.last()@)
    }
}

proof fn lemma_channel_views(v: Seq<String>)
    ensures
        channel_views(v).len() == v.len(),
        forall|i: int| 0 <= i < v.len() ==> #[trigger] channel_views(v)[i] == v[i]@,
    decreases v.len(),
{
    if v.len() > 0 {
        lemma_channel_views(v.drop_last());
    }
}

impl PlatformBinaryMessenger {
    /// The engine messenger behind the opaque `handle`.
    pub closed spec fn messenger_handle(&self) -> usize {
        self.handle
    }

    /// A messenger for the engine messenger `handle`, with no handler yet.
    pub fn from_handle(handle: usize) -> (r: Self)
        ensures
            r.messenger_handle() == handle,
            r@ == Seq::<Seq<char>>::empty(),
    {
        PlatformBinaryMessenger { handle, channels: Vec::new() }
    }

    /// The engine messenger.
    pub fn handle(&self) -> (r: usize)
        ensures
            r == self.messenger_handle(),
    {
        self.handle
    }

    /// The position of `channel` among the channels with a handler.
    fn find(&self, channel: &str) -> (r: Option<usize>)
        ensures
            match r {
                Some(i) => i < self@.len() && self@[i as int] == channel@,
                None => !self@.contains(channel@),
            },
    {
        proof {
            lemma_channel_views(self.channels@);
        }
        let wanted = channel.to_owned();
        let mut i: usize = 0;
        while i < self.channels.len()
            invariant
                0 <= i <= self.channels@.len(),
                wanted@ == channel@,
                self@ == channel_views(self.channels@),
                self@.len() == self.channels@.len(),
                forall|k: int| 0 <= k < self.channels@.len() ==> #[trigger] self@[k] == self.channels@[k]@,
                forall|k: int| 0 <= k < i ==> self@[k] != channel@,
            decreases self.channels@.len() - i,
        {
            if self.channels[i] == wanted {
                return Some(i);
            }
            i = i + 1;
        }
        None
    }

    /// Whether `channel` has a handler.
    pub fn is_registered(&self, channel: &str) -> (r: bool)
        ensures
            r == self@.contains(channel@),
    {
        self.find(channel).is_some()
    }

    /// `channel` gets a handler (the application keeps the handler itself).
    pub fn register_channel_handler(&mut self, channel: &str)
        ensures
            final(self).messenger_handle() == old(self).messenger_handle(),
            final(self)@ == if old(self)@.contains(channel@) {
                old(self)@
            } else {
                old(self)@.push(channel@)
            },
    {
        if self.find(channel).is_none() {
            self.channels.push(channel.to_owned());
            proof {
                assert(self.channels@.drop_last() =~= old(self).channels@);
            }
        }
    }

    /// `channel` has no handler any more.
    pub fn unregister_channel_handler(&mut self, channel: &str)
        requires
            old(self)@.no_duplicates(),
        ensures
            final(self).messenger_handle() == old(self).messenger_handle(),
            !final(self)@.contains(channel@),
            final(self)@.no_duplicates(),
            forall|c: Seq<char>| c != channel@ ==> (#[trigger] final(self)@.contains(c) <==> old(self)@.contains(c)),
    {
        match self.find(channel) {
            Some(i) => {
                let ghost before = self@;
                proof {
                    lemma_channel_views(self.channels@);
                }
                self.channels.remove(i);
                proof {
                    lemma_channel_views(self.channels@);
                    assert(self@ =~= before.remove(i as int));
                    assert forall|c: Seq<char>| c != channel@ implies (#[trigger] self@.contains(c) <==> before.contains(c)) by {
                        if before.contains(c) {
                            let j = choose|j: int| 0 <= j < before.len() && before[j] == c;
                            if j < i {
                                assert(self@[j] == c);
                            } else {
                                assert(j != i);
                                assert(self@[j - 1] == c);
                            }
                        }
                    }
                    assert(!self@.contains(channel@)) by {
                        if self@.contains(channel@) {
                            let j = choose|j: int| 0 <= j < self@.len() && self@[j] == channel@;
                            if j < i {
                                assert(before[j] == before[i as int]);
                            } else {
                                assert(before[j + 1] == before[i as int]);
                            }
                        }
                    }
                }
            },
            None => {},
        }
    }

    /// The channels that still have a handler (all of them are to be
    /// unregistered when the messenger goes away).
    pub fn active_channels(&self) -> (r: Vec<String>)
        ensures
            channel_views(r@) == self@,
    {
        let mut r: Vec<String> = Vec::new();
        let mut i: usize = 0;
        while i < self.channels.len()
            invariant
                0 <= i <= self.channels@.len(),
                channel_views(r@) == channel_views(self.channels@.take(i as int)),
            decreases self.channels@.len() - i,
        {
            let ghost before = r@;
            r.push(self.channels[i].clone());
            proof {
                assert(r@.drop_last() =~= before);
                assert(self.channels@.take(i + 1).drop_last() =~= self.channels@.take(i as int));
            }
            i = i + 1;
        }
        assert(self.channels@.take(self.channels@.len() as int) =~= self.channels@);
        r
    }

    /// The result of sending on `channel`: an error naming the channel when
    /// the engine did not take the message.
    pub fn send_result(channel: &str, sent: bool) -> (r: PlatformResult<()>)
        ensures
            match r {
                Ok(()) => sent,
                Err(PlatformError::SendMessageFailure { channel: c }) => !sent && c@ == channel@,
                Err(_) => false,
            },
    {
        if sent {
            Ok(())
        } else {
            Err(PlatformError::SendMessageFailure { channel: channel.to_owned() })
        }
    }
}

/// A Flutter engine, reached through an opaque handle.
pub struct PlatformEngine {
    pub handle: usize,
}

impl PlatformEngine {
    /// The engine behind `handle`.
    pub fn new(handle: usize) -> (r: Self)
        ensures
            r.handle == handle,
    {
        PlatformEngine { handle }
    }

    /// A messenger for the engine's messenger `messenger`.
    pub fn new_binary_messenger(&self, messenger: usize) -> (r: PlatformBinaryMessenger)
        ensures
            r.messenger_handle() == messenger,
            r@ == Seq::<Seq<char>>::empty(),
    {
        PlatformBinaryMessenger::from_handle(messenger)
    }
}

} // verus!

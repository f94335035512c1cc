//! Which engines are told when the screen configuration changes.
use std::collections::HashSet;
use vstd::prelude::*;
use vstd::std_specs::hash::group_hash_axioms;
use vstd::std_specs::iter::IteratorSpec;

verus! {

broadcast use group_hash_axioms;

/// Told when displays are added, removed or rearranged.
pub trait ScreenManagerDelegate {
    /// The engines to tell that the screens changed.
    fn screen_configuration_changed(&self) -> Vec<i64>;
}

/// The engines that asked about screens and are still alive.
pub struct ScreenManager {
    engines: HashSet<i64>,
}

impl View for ScreenManager {
    type V = Set<i64>;

    closed spec fn view(&self) -> Set<i64> {
        self.engines@
    }
}

impl ScreenManager {
    /// No engine to tell yet.
    pub fn new() -> (r: Self)
        ensures
            r@ == Set::<i64>::empty(),
    {
        ScreenManager { engines: HashSet::new() }
    }

    /// An engine made a request about screens: it is told of later changes.
    pub fn on_method_call(&mut self, engine: i64)
        ensures
            final(self)@ == old(self)@.insert(engine),
    {
        self.engines.insert(engine);
    }

    /// A destroyed engine is told of nothing more.
    pub fn on_engine_destroyed(&mut self, engine: i64)
        ensures
            final(self)@ == old(self)@.remove(engine),
    {
        self.engines.remove(&engine);
    }
}

impl ScreenManagerDelegate for ScreenManager {
    /// Every engine that asked about screens and is alive, each once.
    fn screen_configuration_changed(&self) -> (engines: Vec<i64>)
        ensures
            engines@.no_duplicates(),
            engines@.to_set() == self@,
    {
        let mut engines: Vec<i64> = Vec::new();
        let ghost s = vstd::std_specs::hash::spec_hash_keys_iter(&self.engines).remaining();
        proof {
            assert forall|x: i64| #[trigger] self@.contains(x) <==> s.contains(&x) by {
                assert(s.unref().to_set() == self@);
                if s.contains(&x) {
                    let i = choose|i: int| 0 <= i < s.len() && s[i] == &x;
                    assert(s.unref()[i] == x);
                }
                if self@.contains(x) {
                    assert(s.unref().contains(x));
                    let i = choose|i: int| 0 <= i < s.unref().len() && s.unref()[i] == x;
                    assert(s[i] == &x);
                }
            }
        }
        for e in it: self.engines.iter()
            invariant
                it.seq() == s,
                it.index() <= s.len(),
                s.no_duplicates(),
                forall|x: i64| #[trigger] self@.contains(x) <==> s.contains(&x),
                engines@.len() == it.index(),
                forall|i: int| 0 <= i < it.index() ==> #[trigger] engines@[i] == *s[i],
        {
            engines.push(*e);
        }
        proof {
            assert forall|i: int, j: int| 0 <= i < j < engines@.len() implies engines@[i] != engines@[j] by {
                assert(s[i] != s[j]);
            }
            assert forall|x: i64| #[trigger] engines@.to_set().contains(x) == self@.contains(x) by {
                if self@.contains(x) {
                    let i = choose|i: int| 0 <= i < s.len() && s[i] == &x;
                    assert(engines@[i] == x);
                }
                if engines@.contains(x) {
                    let i = choose|i: int| 0 <= i < engines@.len() && engines@[i] == x;
                    assert(s.contains(s[i]));
                }
            }
            assert(engines@.to_set() =~= self@);
        }
        engines
    }
}

/// The platform side of the screen manager: it is told of display changes by
/// the system and passes them on to its delegate.
pub struct PlatformScreenManager {}

impl PlatformScreenManager {
    /// A platform screen manager.
    pub fn new() -> (r: Self) {
        PlatformScreenManager {}
    }

    /// The main screen's id: that of the screen of the foreground window, or
    /// 0 when there is no foreground window; `screen_of_window` is the id of
    /// that window's screen.
    pub fn main_screen(foreground_window: isize, screen_of_window: i64) -> (id: i64)
        ensures
            id == if foreground_window == 0 { 0 } else { screen_of_window },
    {
        if foreground_window == 0 {
            return 0;
        }
        screen_of_window
    }
}

} // verus!

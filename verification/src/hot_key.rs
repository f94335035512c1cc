//! Global hot keys: which engine registered which key, and the modifier
//! bits the system is given.
use crate::engine_map::{keys_owned_by, owned_by};
use crate::menu::Accelerator;
use std::collections::HashMap;
use vstd::prelude::*;
use vstd::std_specs::hash::group_hash_axioms;

verus! {

broadcast use group_hash_axioms;

pub const MOD_ALT: u32 = 0x0001;
pub const MOD_CONTROL: u32 = 0x0002;
pub const MOD_SHIFT: u32 = 0x0004;
pub const MOD_WIN: u32 = 0x0008;

/// The system modifier bits of an accelerator.
pub open spec fn modifiers_of(a: &Accelerator) -> u32 {
    (if a.alt { MOD_ALT } else { 0 }) | (if a.control { MOD_CONTROL } else { 0 }) | (if a.shift {
        MOD_SHIFT
    } else {
        0
    }) | (if a.meta { MOD_WIN } else { 0 })
}

/// The system modifier bits of an accelerator.
pub fn hot_key_modifiers(accelerator: &Accelerator) -> (m: u32)
    ensures
        m == modifiers_of(accelerator),
{
    let alt = if accelerator.alt { MOD_ALT } else { 0 };
    let control = if accelerator.control { MOD_CONTROL } else { 0 };
    let shift = if accelerator.shift { MOD_SHIFT } else { 0 };
    let win = if accelerator.meta { MOD_WIN } else { 0 };
    let modifiers = alt | control | shift | win;
    modifiers
}

/// The hot keys of all engines, by hot key handle.
pub struct PlatformHotKeyManager {
    hot_keys: HashMap<i64, i64>,
}

impl View for PlatformHotKeyManager {
    type V = Map<i64, i64>;

    closed spec fn view(&self) -> Map<i64, i64> {
        self.hot_keys@
    }
}

impl PlatformHotKeyManager {
    /// A manager with no hot keys.
    pub fn new() -> (r: Self)
        ensures
            r@ == Map::<i64, i64>::empty(),
    {
        PlatformHotKeyManager { hot_keys: HashMap::new() }
    }

    /// Records that `engine` owns hot key `handle`; returns the modifier bits
    /// to register the key with.
    pub fn create_hot_key(&mut self, accelerator: &Accelerator, handle: i64, engine: i64) -> (m:
        u32)
        ensures
            final(self)@ == old(self)@.insert(handle, engine),
            m == modifiers_of(accelerator),
    {
        let m = hot_key_modifiers(accelerator);
        self.hot_keys.insert(handle, engine);
        m
    }

    /// The engine to notify of a pressed hot key, if the key is known.
    pub fn on_hot_key(&self, hot_key: i32) -> (engine: Option<i64>)
        ensures
            engine == if self@.contains_key(hot_key as i64) {
                Some(self@[hot_key as i64])
            } else {
                None
            },
    {
        match self.hot_keys.get(&(hot_key as i64)) {
            Some(e) => Some(*e),
            None => None,
        }
    }

    /// The hot keys owned by a destroyed engine, each once; they are to be
    /// unregistered from the system.
    pub fn engine_destroyed(&self, engine: i64) -> (keys: Vec<i64>)
        ensures
            keys@.no_duplicates(),
            keys@.to_set() == owned_by(self@, engine),
    {
        keys_owned_by(&self.hot_keys, engine)
    }
}

} // verus!

//! Keyboard maps: which layout to read characters from, which characters a
//! key produces, and the maps already built for each layout.
use std::collections::HashMap;
use vstd::prelude::*;
use vstd::std_specs::hash::group_hash_axioms;

verus! {

broadcast use group_hash_axioms;

/// A key of the keyboard: its codes and the characters it produces alone,
/// with shift, with alt (AltGr) and with both.
#[derive(Clone, Copy, PartialEq, Eq, Structural, Debug)]
pub struct Key {
    pub platform: i64,
    pub physical: i64,
    pub logical: Option<i64>,
    pub logical_shift: Option<i64>,
    pub logical_alt: Option<i64>,
    pub logical_alt_shift: Option<i64>,
    pub logical_meta: Option<i64>,
}

/// The keys of a keyboard layout.
pub struct KeyboardMap {
    pub keys: Vec<Key>,
}

/// A key's scan code and its codes independent of the layout.
#[derive(Clone, Copy, PartialEq, Eq, Structural, Debug)]
pub struct KeyMapEntry {
    pub platform: i64,
    pub physical: i64,
    pub logical: Option<i64>,
}

/// Virtual key code of the letter A; the letters checked are A up to, but not including, Z.
pub const VK_A: u32 = 0x41;
/// Virtual key code of the digit 0; the digits checked are 0 up to, but not including, 9.
pub const VK_0: u32 = 0x30;
/// How many letter keys a layout is checked on.
pub const LETTER_KEYS: usize = 25;
/// How many digit keys a layout is checked on.
pub const DIGIT_KEYS: usize = 9;

/// The character that a key press produced, if it is a printable one: the
/// first unit written, when something was written and it is not a control
/// character.
pub open spec fn printable(written: i32, first: u16) -> Option<u16> {
    if written > 0 && first >= 0x20 {
        Some(first)
    } else {
        None
    }
}

/// The character that a key press produced, if it is a printable one.
pub fn character_from(written: i32, first: u16) -> (c: Option<u16>)
    ensures
        c == printable(written, first),
{
    if written > 0 && first >= 0x20 {
        Some(first)
    } else {
        None
    }
}

/// Every key of `chars` produced a character in `lo..=hi`.
pub open spec fn all_in_range(chars: Seq<Option<u16>>, lo: u16, hi: u16) -> bool {
    forall|i: int| 0 <= i < chars.len() ==> (#[trigger] chars[i] matches Some(c) && lo <= c <= hi)
}

fn all_chars_in_range(chars: &[Option<u16>], lo: u16, hi: u16) -> (r: bool)
    ensures
        r == all_in_range(chars@, lo, hi),
{
    let mut i: usize = 0;
    while i < chars.len()
        invariant
            0 <= i <= chars@.len(),
            forall|k: int| 0 <= k < i ==> (#[trigger] chars@[k] matches Some(c) && lo <= c <= hi),
        decreases chars@.len() - i,
    {
        match chars[i] {
            Some(c) => {
                if c < lo || c > hi {
                    return false;
                }
            },
            None => {
                return false;
            },
        }
        i = i + 1;
    }
    true
}

/// A layout can type ASCII when the letter keys give the lower case letters
/// (and, if asked, the digit keys give the digits); `letters[i]` and
/// `digits[i]` are the characters of the virtual keys `VK_A + i` and `VK_0 + i`.
pub open spec fn ascii_capable(
    letters: Seq<Option<u16>>,
    digits: Seq<Option<u16>>,
    including_numbers: bool,
) -> bool {
    &&& all_in_range(letters, 0x61, 0x7a)
    &&& including_numbers ==> all_in_range(digits, 0x30, 0x39)
}

/// Whether a layout can type ASCII (see `ascii_capable`).
pub fn is_ascii_capable(letters: &[Option<u16>], digits: &[Option<u16>], including_numbers: bool) -> (r:
    bool)
    ensures
        r == ascii_capable(letters@, digits@, including_numbers),
{
    if !all_chars_in_range(letters, 0x61, 0x7a) {
        return false;
    }
    if including_numbers {
        return all_chars_in_range(digits, 0x30, 0x39);
    }
    true
}

/// The layout to read characters from: the current one if it can type
/// letters; else the first installed one that can type letters and digits;
/// else the first installed one that can type letters; else the current one.
pub open spec fn chosen_layout(
    current: isize,
    current_capable: bool,
    layouts: Seq<isize>,
    capable_with_numbers: Seq<bool>,
    capable: Seq<bool>,
) -> isize {
    if current_capable {
        current
    } else if exists|i: int| 0 <= i < layouts.len() && capable_with_numbers[i] {
        layouts[choose|i: int|
            0 <= i < layouts.len() && capable_with_numbers[i] && forall|j: int|
                0 <= j < i ==> !capable_with_numbers[j]]
    } else if exists|i: int| 0 <= i < layouts.len() && capable[i] {
        layouts[choose|i: int|
            0 <= i < layouts.len() && capable[i] && forall|j: int| 0 <= j < i ==> !capable[j]]
    } else {
        current
    }
}

fn first_flagged(flags: &[bool]) -> (r: Option<usize>)
    ensures
        match r {
            Some(i) => i < flags@.len() && flags@[i as int] && forall|j: int| 0 <= j < i ==> !flags@[j],
            None => forall|j: int| 0 <= j < flags@.len() ==> !flags@[j],
        },
{
    let mut i: usize = 0;
    while i < flags.len()
        invariant
            0 <= i <= flags@.len(),
            forall|j: int| 0 <= j < i ==> !flags@[j],
        decreases flags@.len() - i,
    {
        if flags[i] {
            return Some(i);
        }
        i = i + 1;
    }
    None
}

proof fn lemma_first_unique(flags: Seq<bool>, i: int, k: int)
    requires
        0 <= i < flags.len() && flags[i] && forall|j: int| 0 <= j < i ==> !flags[j],
        0 <= k < flags.len() && flags[k] && forall|j: int| 0 <= j < k ==> !flags[j],
    ensures
        i == k,
{
    if i < k {
        assert(!flags[i]);
    } else if k < i {
        assert(!flags[k]);
    }
}

/// The layout to read characters from (see `chosen_layout`);
/// `capable_with_numbers[i]` and `capable[i]` tell whether `layouts[i]` can
/// type letters and digits, and letters.
pub fn choose_keyboard_layout(
    current: isize,
    current_capable: bool,
    layouts: &[isize],
    capable_with_numbers: &[bool],
    capable: &[bool],
) -> (r: isize)
    requires
        capable_with_numbers@.len() == layouts@.len(),
        capable@.len() == layouts@.len(),
    ensures
        r == chosen_layout(current, current_capable, layouts@, capable_with_numbers@, capable@),
{
    if current_capable {
        return current;
    }
    match first_flagged(capable_with_numbers) {
        Some(i) => {
            proof {
                let k = choose|k: int|
                    0 <= k < layouts@.len() && capable_with_numbers@[k] && forall|j: int|
                        0 <= j < k ==> !capable_with_numbers@[j];
                lemma_first_unique(capable_with_numbers@, i as int, k);
            }
            return layouts[i];
        },
        None => {},
    }
    match first_flagged(capable) {
        Some(i) => {
            proof {
                let k = choose|k: int|
                    0 <= k < layouts@.len() && capable@[k] && forall|j: int| 0 <= j < k ==> !capable@[j];
                lemma_first_unique(capable@, i as int, k);
            }
            layouts[i]
        },
        None => current,
    }
}

/// The key of `entry`: when the key alone produces a printable character,
/// that character is its logical code and the characters with shift, alt and
/// both are recorded too; otherwise the entry's own codes stay.
pub open spec fn key_for_entry(
    entry: KeyMapEntry,
    plain: Option<u16>,
    shift: Option<u16>,
    alt: Option<u16>,
    alt_shift: Option<u16>,
) -> Key {
    match plain {
        Some(c) => Key {
            platform: entry.platform,
            physical: entry.physical,
            logical: Some(c as i64),
            logical_shift: match shift {
                Some(s) => Some(s as i64),
                None => None,
            },
            logical_alt: match alt {
                Some(s) => Some(s as i64),
                None => None,
            },
            logical_alt_shift: match alt_shift {
                Some(s) => Some(s as i64),
                None => None,
            },
            logical_meta: None,
        },
        None => Key {
            platform: entry.platform,
            physical: entry.physical,
            logical: entry.logical,
            logical_shift: None,
            logical_alt: None,
            logical_alt_shift: None,
            logical_meta: None,
        },
    }
}

fn widen(c: Option<u16>) -> (r: Option<i64>)
    ensures
        r == match c {
            Some(s) => Some(s as i64),
            None => None::<i64>,
        },
{
    match c {
        Some(s) => Some(s as i64),
        None => None,
    }
}

/// The key of `entry`, given the characters that the key produces alone,
/// with shift, with alt and with both (see `key_for_entry`).
pub fn key_from_entry(
    entry: &KeyMapEntry,
    plain: Option<u16>,
    shift: Option<u16>,
    alt: Option<u16>,
    alt_shift: Option<u16>,
) -> (key: Key)
    ensures
        key == key_for_entry(*entry, plain, shift, alt, alt_shift),
{
    let mut key = Key {
        platform: entry.platform,
        physical: entry.physical,
        logical: entry.logical,
        logical_shift: None,
        logical_alt: None,
        logical_alt_shift: None,
        logical_meta: None,
    };
    if let Some(character) = plain {
        key.logical = Some(character as i64);
        key.logical_shift = widen(shift);
        key.logical_alt = widen(alt);
        key.logical_alt_shift = widen(alt_shift);
    }
    key
}

/// The keyboard maps built so far, by keyboard layout.
pub struct PlatformKeyboardMap {
    cached_layout: HashMap<isize, KeyboardMap>,
}

impl PlatformKeyboardMap {
    /// The map built for each layout so far.
    pub closed spec fn cache(&self) -> Map<isize, KeyboardMap> {
        self.cached_layout@
    }

    /// No map built yet.
    pub fn new() -> (r: Self)
        ensures
            r.cache() == Map::<isize, KeyboardMap>::empty(),
    {
        PlatformKeyboardMap { cached_layout: HashMap::new() }
    }

    /// The map built for `layout`, if there is one.
    pub fn cached_map(&self, layout: isize) -> (r: Option<&KeyboardMap>)
        ensures
            match r {
                Some(m) => self.cache().contains_key(layout) && *m == self.cache()[layout],
                None => !self.cache().contains_key(layout),
            },
    {
        self.cached_layout.get(&layout)
    }

    /// Keeps the map built for `layout`.
    pub fn cache_map(&mut self, layout: isize, map: KeyboardMap)
        ensures
            final(self).cache() == old(self).cache().insert(layout, map),
    {
        self.cached_layout.insert(layout, map);
    }
}

pub const VK_SHIFT: usize = 0x10;
pub const VK_CONTROL: usize = 0x11;
pub const VK_MENU: usize = 0x12;

/// The keyboard state a character is read with: shift pressed when asked,
/// control and alt (AltGr) pressed when asked, nothing else.
pub open spec fn key_state_byte(i: int, shift: bool, alt: bool) -> u8 {
    if (i == VK_SHIFT && shift) || ((i == VK_CONTROL || i == VK_MENU) && alt) {
        128
    } else {
        0
    }
}

/// The 256 byte keyboard state to read a character with (see `key_state_byte`).
pub fn key_state_for(shift: bool, alt: bool) -> (r: Vec<u8>)
    ensures
        r@.len() == 256,
        forall|i: int| 0 <= i < 256 ==> #[trigger] r@[i] == key_state_byte(i, shift, alt),
{
    let mut r: Vec<u8> = Vec::new();
    let mut i: usize = 0;
    while i < 256
        invariant
            0 <= i <= 256,
            r@.len() == i,
            forall|k: int| 0 <= k < i ==> #[trigger] r@[k] == key_state_byte(k, shift, alt),
        decreases 256 - i,
    {
        let pressed = (i == VK_SHIFT && shift) || ((i == VK_CONTROL || i == VK_MENU) && alt);
        r.push(if pressed { 128 } else { 0 });
        i = i + 1;
    }
    r
}

} // verus!

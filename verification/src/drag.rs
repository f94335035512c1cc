//! Data exchange of drag and drop: the data object handed to the system,
//! the enumerator of its formats, the drop source and drop effect masks.
//!
//! Results are COM status codes (`HRESULT` bit patterns as `u32`).
use std::collections::HashMap;
use vstd::prelude::*;
use vstd::string::StringExecFns;
use vstd::std_specs::hash::group_hash_axioms;
use vstd::std_specs::iter::IteratorSpec;

verus! {

broadcast use group_hash_axioms;

/// Success.
pub const S_OK: u32 = 0;
/// Success, with less done than asked.
pub const S_FALSE: u32 = 1;
/// The method is not implemented.
pub const E_NOTIMPL: u32 = 0x8000_4001;
/// The data object does not offer the format asked for.
pub const DATA_E_FORMATETC: u32 = 0x8004_0065;
/// Drop now.
pub const DRAGDROP_S_DROP: u32 = 0x0004_0100;
/// Cancel the drag.
pub const DRAGDROP_S_CANCEL: u32 = 0x0004_0101;
/// Let the system pick the cursors.
pub const DRAGDROP_S_USEDEFAULTCURSORS: u32 = 0x0004_0102;
/// The left mouse button in a key state mask.
pub const MK_LBUTTON: u32 = 0x0001;
/// Data passed in global memory.
pub const TYMED_HGLOBAL: u32 = 1;
/// Data passed in a stream.
pub const TYMED_ISTREAM: u32 = 4;
/// Enumerate the formats that can be read.
pub const DATADIR_GET: u32 = 1;
/// The content aspect of data.
pub const DVASPECT_CONTENT: u32 = 1;
/// Drop effect bits.
pub const DROPEFFECT_NONE: u32 = 0;
pub const DROPEFFECT_COPY: u32 = 1;
pub const DROPEFFECT_MOVE: u32 = 2;
pub const DROPEFFECT_LINK: u32 = 4;

/// A clipboard format with the medium it travels in.
#[derive(Clone, Copy, PartialEq, Eq, Structural, Debug)]
pub struct FormatEtc {
    pub cf_format: u16,
    pub aspect: u32,
    pub lindex: i32,
    pub tymed: u32,
}

/// The format descriptor for `format` in the given medium.
pub fn get_format_with_tymed(format: u32, tymed: u32) -> (f: FormatEtc)
    ensures
        f == (FormatEtc {
            cf_format: (format % 0x10000) as u16,
            aspect: DVASPECT_CONTENT,
            lindex: -1i32,
            tymed: tymed,
        }),
{
    assert((format as u16) == (format % 0x10000) as u16) by (bit_vector);
    FormatEtc { cf_format: format as u16, aspect: DVASPECT_CONTENT, lindex: -1, tymed: tymed }
}

/// The format descriptor for `format` in global memory.
pub fn get_format(format: u32) -> (f: FormatEtc)
    ensures
        f == (FormatEtc {
            cf_format: (format % 0x10000) as u16,
            aspect: DVASPECT_CONTENT,
            lindex: -1i32,
            tymed: TYMED_HGLOBAL,
        }),
{
    get_format_with_tymed(format, TYMED_HGLOBAL)
}

/// Enumerates a list of formats from a cursor.
pub struct EnumFORMATETC {
    formats: Vec<FormatEtc>,
    index: usize,
}

impl View for EnumFORMATETC {
    type V = (Seq<FormatEtc>, nat);

    closed spec fn view(&self) -> (Seq<FormatEtc>, nat) {
        (self.formats@, self.index as nat)
    }
}

#[allow(non_snake_case)]
impl EnumFORMATETC {
    /// The cursor never passes the end of the list.
    pub open spec fn wf(&self) -> bool {
        self@.1 <= self@.0.len()
    }

    fn new_(formats: Vec<FormatEtc>, index: usize) -> (r: Self)
        requires
            index <= formats@.len(),
        ensures
            r.wf(),
            r@ == (formats@, index as nat),
    {
        EnumFORMATETC { formats, index }
    }

    /// An enumerator at the start of `formats`.
    pub fn new(formats: Vec<FormatEtc>) -> (r: Self)
        ensures
            r.wf(),
            r@ == (formats@, 0nat),
    {
        Self::new_(formats, 0)
    }

    /// Formats not yet enumerated.
    pub fn remaining(&self) -> (r: usize)
        requires
            self.wf(),
        ensures
            r == self@.0.len() - self@.1,
    {
        self.formats.len() - self.index
    }

    /// Fetches up to `celt` formats; `S_FALSE` when fewer were left.
    pub fn Next(&mut self, celt: u32) -> (r: (u32, Vec<FormatEtc>))
        requires
            old(self).wf(),
        ensures
            final(self).wf(),
            ({
                let (list, idx) = old(self)@;
                let n = if celt <= list.len() - idx { celt as int } else { list.len() - idx };
                &&& r.1@ == list.subrange(idx as int, idx + n)
                &&& final(self)@ == (list, (idx + n) as nat)
                &&& r.0 == if celt as int > list.len() - idx { S_FALSE } else { S_OK }
            }),
    {
        let requested = celt;
        let mut celt = celt;
        let mut fetched: Vec<FormatEtc> = Vec::new();
        let ghost start = self.index as int;
        while celt > 0 && self.index < self.formats.len()
            invariant
                self.wf(),
                self.formats@ == old(self).formats@,
                start == old(self)@.1,
                start <= self.index,
                fetched@ == self.formats@.subrange(start, self.index as int),
                celt + (self.index - start) == requested,
            decreases celt,
        {
            fetched.push(self.formats[self.index]);
            celt = celt - 1;
            self.index = self.index + 1;
            assert(fetched@ =~= self.formats@.subrange(start, self.index as int));
        }
        let hr = if celt > 0 { S_FALSE } else { S_OK };
        (hr, fetched)
    }

    /// Skips up to `celt` formats; `S_FALSE` when fewer were left.
    pub fn Skip(&mut self, celt: u32) -> (hr: u32)
        requires
            old(self).wf(),
        ensures
            final(self).wf(),
            ({
                let (list, idx) = old(self)@;
                let n = if celt <= list.len() - idx { celt as int } else { list.len() - idx };
                &&& final(self)@ == (list, (idx + n) as nat)
                &&& hr == if celt as int > list.len() - idx { S_FALSE } else { S_OK }
            }),
    {
        let requested = celt;
        let mut celt = celt;
        while celt > 0 && self.index < self.formats.len()
            invariant
                self.wf(),
                self.formats@ == old(self).formats@,
                old(self)@.1 <= self.index,
                celt + (self.index - old(self)@.1) == requested,
            decreases celt,
        {
            celt = celt - 1;
            self.index = self.index + 1;
        }
        if celt > 0 {
            S_FALSE
        } else {
            S_OK
        }
    }

    /// Moves the cursor back to the start.
    pub fn Reset(&mut self) -> (hr: u32)
        ensures
            final(self)@ == (old(self)@.0, 0nat),
            hr == S_OK,
    {
        self.index = 0;
        S_OK
    }

    /// An independent enumerator at the same position.
    pub fn Clone(&self) -> (r: Result<EnumFORMATETC, u32>)
        requires
            self.wf(),
        ensures
            r matches Ok(e) && e@ == self@ && e.wf(),
    {
        Ok(Self::new_(self.formats.clone(), self.index))
    }
}

/// A storage medium as exchanged with the system: its kind and its bytes.
pub struct StgMedium {
    pub tymed: u32,
    pub data: Vec<u8>,
}

/// Data offered by a drag session, by clipboard format. The data lives as
/// long as the session; once it ended, every request fails.
pub struct DataObject {
    data: Option<HashMap<u32, Vec<u8>>>,
}

/// The bytes stored under each format.
pub open spec fn data_view(m: Map<u32, Vec<u8>>) -> Map<u32, Seq<u8>> {
    m.map_values(|v: Vec<u8>| v@)
}

/// The media in which a data object hands out data.
pub open spec fn medium_supported(tymed: u32) -> bool {
    tymed == TYMED_HGLOBAL || tymed == TYMED_ISTREAM
}

impl View for DataObject {
    type V = Option<Map<u32, Seq<u8>>>;

    closed spec fn view(&self) -> Option<Map<u32, Seq<u8>>> {
        match self.data {
            Some(m) => Some(data_view(m@)),
            None => None,
        }
    }
}

#[allow(non_snake_case)]
impl DataObject {
    /// A data object over the data of a live drag session.
    pub fn new(data: HashMap<u32, Vec<u8>>) -> (r: Self)
        ensures
            r@ == Some(data_view(data@)),
    {
        DataObject { data: Some(data) }
    }

    /// A data object whose drag session has ended.
    pub fn detached() -> (r: Self)
        ensures
            r@ is None,
    {
        DataObject { data: None }
    }

    /// Marks the session as ended.
    pub fn detach(&mut self)
        ensures
            final(self)@ is None,
    {
        self.data = None;
    }

    /// Runs a lookup on the session data, or answers `or` once the session ended.
    pub fn with_data_or(&self, format: u32, or: Option<Vec<u8>>) -> (r: Option<Vec<u8>>)
        ensures
            self@ is None ==> r == or,
            self@ matches Some(m) ==> (r is Some <==> m.contains_key(format)),
            self@ matches Some(m) ==> (m.contains_key(format) ==> r->0@ == m[format]),
    {
        match &self.data {
            Some(m) => match m.get(&format) {
                Some(v) => Some(v.clone()),
                None => None,
            },
            None => or,
        }
    }

    /// The data of `format` in the medium it asks for.
    pub fn GetData(&self, format: &FormatEtc) -> (r: Result<StgMedium, u32>)
        ensures
            match self@ {
                Some(m) if medium_supported(format.tymed) && m.contains_key(
                    format.cf_format as u32,
                ) => r matches Ok(s) && s.tymed == format.tymed && s.data@ == m[
                    format.cf_format as u32],
                _ => r == Err::<StgMedium, u32>(DATA_E_FORMATETC),
            },
    {
        if !(format.tymed == TYMED_HGLOBAL || format.tymed == TYMED_ISTREAM) {
            return Err(DATA_E_FORMATETC);
        }
        match self.with_data_or(format.cf_format as u32, None) {
            Some(data) => Ok(StgMedium { tymed: format.tymed, data }),
            None => Err(DATA_E_FORMATETC),
        }
    }

    /// Not supported: always `DATA_E_FORMATETC`.
    pub fn GetDataHere(&self, _format: &FormatEtc) -> (r: Result<(), u32>)
        ensures
            r == Err::<(), u32>(DATA_E_FORMATETC),
    {
        Err(DATA_E_FORMATETC)
    }

    /// Whether `GetData` would succeed for `format`; `S_FALSE` if not.
    pub fn QueryGetData(&self, format: &FormatEtc) -> (r: Result<(), u32>)
        ensures
            (r is Ok) == (self@ matches Some(m) && medium_supported(format.tymed)
                && m.contains_key(format.cf_format as u32)),
            r is Err ==> r == Err::<(), u32>(S_FALSE),
    {
        match &self.data {
            Some(m) => {
                if (format.tymed == TYMED_HGLOBAL || format.tymed == TYMED_ISTREAM)
                    && m.contains_key(&(format.cf_format as u32)) {
                    Ok(())
                } else {
                    Err(S_FALSE)
                }
            },
            None => Err(S_FALSE),
        }
    }

    /// Not implemented: always `E_NOTIMPL`.
    pub fn GetCanonicalFormatEtc(&self, _format: &FormatEtc) -> (r: Result<FormatEtc, u32>)
        ensures
            r == Err::<FormatEtc, u32>(E_NOTIMPL),
    {
        Err(E_NOTIMPL)
    }

    /// Stores `medium`'s bytes under `format`; only global memory and streams are accepted.
    pub fn SetData(&mut self, format: &FormatEtc, medium: StgMedium) -> (r: Result<(), u32>)
        ensures
            match old(self)@ {
                Some(m) if medium_supported(format.tymed) => {
                    &&& r is Ok
                    &&& final(self)@ == Some(m.insert(format.cf_format as u32, medium.data@))
                },
                _ => r == Err::<(), u32>(DATA_E_FORMATETC) && final(self)@ == old(self)@,
            },
    {
        if !(format.tymed == TYMED_HGLOBAL || format.tymed == TYMED_ISTREAM) {
            return Err(DATA_E_FORMATETC);
        }
        match &mut self.data {
            Some(m) => {
                let ghost before = m@;
                m.insert(format.cf_format as u32, medium.data);
                proof {
                    assert(data_view(m@) =~= data_view(before).insert(format.cf_format as u32, medium.data@));
                }
                Ok(())
            },
            None => Err(DATA_E_FORMATETC),
        }
    }

    /// Enumerates the readable formats: every stored format in global memory
    /// and as a stream; nothing for other directions.
    pub fn EnumFormatEtc(&self, direction: u32) -> (r: Result<EnumFORMATETC, u32>)
        ensures
            match self@ {
                None => r == Err::<EnumFORMATETC, u32>(S_FALSE),
                Some(m) => r matches Ok(e) && e.wf() && e@.1 == 0 && {
                    let list = e@.0;
                    if direction == DATADIR_GET {
                        exists|keys: Seq<u32>| {
                            &&& keys.no_duplicates()
                            &&& keys.to_set() == m.dom()
                            &&& #[trigger] formats_for_keys(keys) == list
                        }
                    } else {
                        list.len() == 0
                    }
                },
            },
    {
        match &self.data {
            None => Err(S_FALSE),
            Some(m) => {
                let mut formats: Vec<FormatEtc> = Vec::new();
                if direction == DATADIR_GET {
                    let ghost mm = m@;
                    let ghost s = vstd::std_specs::hash::spec_keys_iter(m).remaining();
                    for f in it: m.keys()
                        invariant
                            mm == m@,
                            it.seq() == s,
                            it.index() <= s.len(),
                            s.no_duplicates(),
                            s.len() == mm.dom().len(),
                            s.unref().to_set() == mm.dom(),
                            formats@.len() == 2 * it.index(),
                            forall|i: int| #![trigger formats@[2 * i]] 0 <= i < it.index() ==> {
                                &&& formats@[2 * i] == get_format_spec(*s[i], TYMED_HGLOBAL)
                                &&& formats@[2 * i + 1] == get_format_spec(*s[i], TYMED_ISTREAM)
                            },
                    {
                        let ghost before = formats@;
                        formats.push(get_format_with_tymed(*f, TYMED_HGLOBAL));
                        formats.push(get_format_with_tymed(*f, TYMED_ISTREAM));
                        proof {
                            let idx = it.index() as int;
                            assert(s[idx] == f);
                            assert forall|i: int| #![trigger formats@[2 * i]] 0 <= i < idx + 1
                                implies {
                                &&& formats@[2 * i] == get_format_spec(*s[i], TYMED_HGLOBAL)
                                &&& formats@[2 * i + 1] == get_format_spec(*s[i], TYMED_ISTREAM)
                            } by {
                                if i < idx {
                                    assert(formats@[2 * i] == before[2 * i]);
                                    assert(formats@[2 * i + 1] == before[2 * i + 1]);
                                }
                            }
                        }
                    }
                    let e = EnumFORMATETC::new(formats);
                    proof {
                        let keys = s.unref();
                        let fl = e@.0;
                        assert(fl.len() == 2 * keys.len());
                        assert forall|j: int| 0 <= j < fl.len() implies #[trigger] fl[j]
                            == formats_for_keys(keys)[j] by {
                            let i = j / 2;
                            assert(keys[i] == *s[i]);
                            if j % 2 == 0 {
                                assert(j == 2 * i);
                                assert(fl[2 * i] == get_format_spec(*s[i], TYMED_HGLOBAL));
                            } else {
                                assert(j == 2 * i + 1);
                                assert(fl[2 * i + 1] == get_format_spec(*s[i], TYMED_ISTREAM));
                            }
                        }
                        assert(formats_for_keys(keys) =~= fl);
                        assert(keys.no_duplicates()) by {
                            assert forall|i: int, j: int| 0 <= i < keys.len() && 0 <= j < keys.len()
                                && i != j implies keys[i] != keys[j] by {
                                assert(keys[i] == *s[i] && keys[j] == *s[j]);
                            }
                        }
                        assert(data_view(mm).dom() =~= mm.dom());
                    }
                    return Ok(e);
                }
                proof {
                    assert(data_view(m@).dom() =~= m@.dom());
                }
                Ok(EnumFORMATETC::new(formats))
            },
        }
    }

    /// Not supported: always `DATA_E_FORMATETC`.
    pub fn DAdvise(&self, _format: &FormatEtc, _advf: u32) -> (r: Result<u32, u32>)
        ensures
            r == Err::<u32, u32>(DATA_E_FORMATETC),
    {
        Err(DATA_E_FORMATETC)
    }

    /// Not supported: always `DATA_E_FORMATETC`.
    pub fn DUnadvise(&self, _connection: u32) -> (r: Result<(), u32>)
        ensures
            r == Err::<(), u32>(DATA_E_FORMATETC),
    {
        Err(DATA_E_FORMATETC)
    }

    /// Not supported: always `DATA_E_FORMATETC`.
    pub fn EnumDAdvise(&self) -> (r: Result<(), u32>)
        ensures
            r == Err::<(), u32>(DATA_E_FORMATETC),
    {
        Err(DATA_E_FORMATETC)
    }
}

/// The formats offered for the given keys: each key in global memory, then as a stream.
pub open spec fn formats_for_keys(keys: Seq<u32>) -> Seq<FormatEtc> {
    Seq::new(
        2 * keys.len(),
        |j: int|
            get_format_spec(keys[j / 2], if j % 2 == 0 { TYMED_HGLOBAL } else { TYMED_ISTREAM }),
    )
}

/// The format descriptor that `get_format_with_tymed` builds.
pub open spec fn get_format_spec(format: u32, tymed: u32) -> FormatEtc {
    FormatEtc {
        cf_format: (format % 0x10000) as u16,
        aspect: DVASPECT_CONTENT,
        lindex: -1i32,
        tymed: tymed,
    }
}

/// The drop source: decides whether a drag goes on, drops or is cancelled.
pub struct DropSource {}

#[allow(non_snake_case)]
impl DropSource {
    /// A drop source.
    pub fn new() -> (r: Self) {
        DropSource {}
    }

    /// Escape cancels the drag; releasing the left button drops; otherwise go on.
    pub fn QueryContinueDrag(&self, escape_pressed: bool, key_state: u32) -> (hr: u32)
        ensures
            hr == if escape_pressed {
                DRAGDROP_S_CANCEL
            } else if key_state & MK_LBUTTON == 0 {
                DRAGDROP_S_DROP
            } else {
                S_OK
            },
    {
        if escape_pressed {
            DRAGDROP_S_CANCEL
        } else if key_state & MK_LBUTTON == 0 {
            DRAGDROP_S_DROP
        } else {
            S_OK
        }
    }

    /// The system's default cursors are used for every effect.
    pub fn GiveFeedback(&self, _effect: u32) -> (hr: u32)
        ensures
            hr == DRAGDROP_S_USEDEFAULTCURSORS,
    {
        DRAGDROP_S_USEDEFAULTCURSORS
    }
}

/// What a drop does to the dragged data.
#[derive(Clone, Copy, PartialEq, Eq, Structural, Debug)]
pub enum DragEffect {
    NoEffect,
    Copy,
    Link,
    Move,
}

/// The effects allowed by a drop effect mask, in the order copy, move, link.
pub open spec fn effects_of_mask(mask: u32) -> Seq<DragEffect> {
    let c = if mask & DROPEFFECT_COPY == DROPEFFECT_COPY { seq![DragEffect::Copy] } else {
        Seq::empty()
    };
    let m = if mask & DROPEFFECT_MOVE == DROPEFFECT_MOVE { seq![DragEffect::Move] } else {
        Seq::empty()
    };
    let l = if mask & DROPEFFECT_LINK == DROPEFFECT_LINK { seq![DragEffect::Link] } else {
        Seq::empty()
    };
    c + m + l
}

/// The drop effect bit of an effect.
pub open spec fn effect_bit(effect: DragEffect) -> u32 {
    match effect {
        DragEffect::NoEffect => DROPEFFECT_NONE,
        DragEffect::Copy => DROPEFFECT_COPY,
        DragEffect::Link => DROPEFFECT_LINK,
        DragEffect::Move => DROPEFFECT_MOVE,
    }
}

/// The mask made of the bits of the given effects.
pub open spec fn mask_of_effects(effects: Seq<DragEffect>) -> u32
    decreases effects.len(),
{
    if effects.len() == 0 {
        0
    } else {
        mask_of_effects(effects.drop_last()) | effect_bit(effects.last())
    }
}

/// Effects allowed by a system drop effect mask.
pub fn convert_drop_effect_mask(mask: u32) -> (res: Vec<DragEffect>)
    ensures
        res@ == effects_of_mask(mask),
{
    let mut res: Vec<DragEffect> = Vec::new();
    if mask & DROPEFFECT_COPY == DROPEFFECT_COPY {
        res.push(DragEffect::Copy);
    }
    if mask & DROPEFFECT_MOVE == DROPEFFECT_MOVE {
        res.push(DragEffect::Move);
    }
    if mask & DROPEFFECT_LINK == DROPEFFECT_LINK {
        res.push(DragEffect::Link);
    }
    assert(res@ =~= effects_of_mask(mask));
    res
}

/// The system drop effect of an effect.
pub fn convert_drag_effect(effect: &DragEffect) -> (r: u32)
    ensures
        r == effect_bit(*effect),
{
    match effect {
        DragEffect::NoEffect => DROPEFFECT_NONE,
        DragEffect::Copy => DROPEFFECT_COPY,
        DragEffect::Link => DROPEFFECT_LINK,
        DragEffect::Move => DROPEFFECT_MOVE,
    }
}

/// The system drop effect mask allowing the given effects.
pub fn convert_drag_effects(effects: &[DragEffect]) -> (r: u32)
    ensures
        r == mask_of_effects(effects@),
{
    let mut res: u32 = 0;
    let mut i: usize = 0;
    while i < effects.len()
        invariant
            0 <= i <= effects@.len(),
            res == mask_of_effects(effects@.take(i as int)),
        decreases effects@.len() - i,
    {
        assert(effects@.take(i + 1).drop_last() =~= effects@.take(i as int));
        res = res | convert_drag_effect(&effects[i]);
        i = i + 1;
    }
    assert(effects@.take(effects@.len() as int) =~= effects@);
    res
}

proof fn lemma_mask_of_three(a: DragEffect, b: DragEffect, c: DragEffect)
    ensures
        mask_of_effects(seq![a]) == 0u32 | effect_bit(a),
        mask_of_effects(seq![a, b]) == (0u32 | effect_bit(a)) | effect_bit(b),
        mask_of_effects(seq![a, b, c]) == ((0u32 | effect_bit(a)) | effect_bit(b)) | effect_bit(c),
{
    reveal_with_fuel(mask_of_effects, 4);
    assert(seq![a, b, c].drop_last() =~= seq![a, b]);
    assert(seq![a, b].drop_last() =~= seq![a]);
    assert(seq![a].drop_last() =~= Seq::<DragEffect>::empty());
}

/// Converting a mask to effects and back keeps exactly the copy, move and link bits.
pub proof fn lemma_mask_roundtrip(mask: u32)
    ensures
        mask_of_effects(effects_of_mask(mask)) == mask & 7,
{
    let c = mask & 1 == 1;
    let m = mask & 2 == 2;
    let l = mask & 4 == 4;
    let e = effects_of_mask(mask);
    let (co, mo, li) = (DragEffect::Copy, DragEffect::Move, DragEffect::Link);
    lemma_mask_of_three(co, mo, li);
    lemma_mask_of_three(co, li, li);
    lemma_mask_of_three(mo, li, li);
    lemma_mask_of_three(li, li, li);
    lemma_mask_of_three(mo, mo, mo);
    reveal_with_fuel(mask_of_effects, 1);
    assert(mask & 7 == (if c { 1u32 } else { 0u32 }) | (if m { 2u32 } else { 0u32 }) | (if l {
        4u32
    } else {
        0u32
    })) by (bit_vector)
        requires
            c == (mask & 1 == 1),
            m == (mask & 2 == 2),
            l == (mask & 4 == 4),
    ;
    assert(((0u32 | 1u32) | 2u32) | 4u32 == 7u32) by (bit_vector);
    assert((0u32 | 1u32) | 2u32 == 3u32) by (bit_vector);
    assert((0u32 | 1u32) | 4u32 == 5u32) by (bit_vector);
    assert((0u32 | 2u32) | 4u32 == 6u32) by (bit_vector);
    assert(0u32 | 1u32 == 1u32 && 0u32 | 2u32 == 2u32 && 0u32 | 4u32 == 4u32) by (bit_vector);
    assert((0u32 | 0u32) | 0u32 == 0u32 && (1u32 | 2u32) | 0u32 == 3u32) by (bit_vector);
    assert((1u32 | 0u32) | 4u32 == 5u32 && (0u32 | 2u32) | 4u32 == 6u32) by (bit_vector);
    assert((1u32 | 0u32) | 0u32 == 1u32 && (0u32 | 2u32) | 0u32 == 2u32) by (bit_vector);
    assert((0u32 | 0u32) | 4u32 == 4u32 && (1u32 | 2u32) | 4u32 == 7u32) by (bit_vector);
    if c && m && l {
        assert(e =~= seq![co, mo, li]);
    } else if c && m {
        assert(e =~= seq![co, mo]);
    } else if c && l {
        assert(e =~= seq![co, li]);
    } else if m && l {
        assert(e =~= seq![mo, li]);
    } else if c {
        assert(e =~= seq![co]);
    } else if m {
        assert(e =~= seq![mo]);
    } else if l {
        assert(e =~= seq![li]);
    } else {
        assert(e =~= Seq::<DragEffect>::empty());
    }
}

/// Data stored under a format in a live session is what reading it gives back.
pub proof fn lemma_get_returns_set(m: Map<u32, Seq<u8>>, format: u32, data: Seq<u8>)
    ensures
        m.insert(format, data).contains_key(format),
        m.insert(format, data)[format] == data,
{
}

/// Moves files between the application and drag data.
pub struct FilesDragDataAdapter {}

impl FilesDragDataAdapter {
    /// The adapter for dragged files (`CF_HDROP`).
    pub fn new() -> (r: Self) {
        FilesDragDataAdapter {}
    }
}

/// Moves URLs between the application and drag data, in the formats that
/// the system registered for them.
pub struct UrlsDragDataAdapter {
    pub format_inet_url: u32,
    pub format_inet_url_w: u32,
}

impl UrlsDragDataAdapter {
    /// The adapter for URLs, given the formats registered as
    /// `UniformResourceLocator` and `UniformResourceLocatorW`.
    pub fn new(format_inet_url: u32, format_inet_url_w: u32) -> (r: Self)
        ensures
            r.format_inet_url == format_inet_url,
            r.format_inet_url_w == format_inet_url_w,
    {
        UrlsDragDataAdapter { format_inet_url, format_inet_url_w }
    }

    /// The formats to read a dropped URL from, in order of preference: the
    /// wide one first.
    pub fn url_formats(&self) -> (r: (u32, u32))
        ensures
            r == (self.format_inet_url_w, self.format_inet_url),
    {
        (self.format_inet_url_w, self.format_inet_url)
    }
}

/// The name of the private drag format of an application: the application's
/// namespace after `FlutterInternal:`.
pub open spec fn fall_through_format_name_of(app_namespace: Seq<char>) -> Seq<char> {
    "FlutterInternal:"@ + app_namespace
}

/// Carries all drag data that no other adapter took, in a private format.
pub struct FallThroughDragDataAdapter {
    pub format: u32,
}

impl FallThroughDragDataAdapter {
    /// The adapter for the private format `format`, registered under
    /// `format_name` of the application's namespace.
    pub fn new(format: u32) -> (r: Self)
        ensures
            r.format == format,
    {
        FallThroughDragDataAdapter { format }
    }

    /// The name to register the private format under.
    pub fn format_name(app_namespace: &str) -> (r: String)
        ensures
            r@ == fall_through_format_name_of(app_namespace@),
    {
        let mut r = String::from_str("FlutterInternal:");
        r.append(app_namespace);
        r
    }
}

} // verus!

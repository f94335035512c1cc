//! Clipboard encodings of dragged files and links.
//!
//! A list of files travels as a `DROPFILES` block: a 20 byte header whose
//! first field is the offset of the names and whose last field tells wide
//! (UTF-16) names from byte names, then the names, each ended by a nul, and
//! one more nul after the last. A link travels as one nul-ended string.
//! Numbers are little-endian, the byte order of Windows.
use crate::text::{chars_of, views};
use vstd::prelude::*;
use vstd::utf8::{decode_utf8, valid_utf8};
use widestring::{U16CStr, U16CString};

verus! {

/// A UTF-16 unit that opens a surrogate pair.
pub open spec fn is_high_surrogate(u: u16) -> bool {
    0xD800 <= u && u < 0xDC00
}

/// A UTF-16 unit that closes a surrogate pair.
pub open spec fn is_low_surrogate(u: u16) -> bool {
    0xDC00 <= u && u < 0xE000
}

/// The UTF-16 units of one character: the character itself below
/// `0x10000`, a surrogate pair above.
pub open spec fn utf16_of_char(c: char) -> Seq<u16> {
    let v = c as u32;
    if v < 0x10000 {
        seq![v as u16]
    } else {
        seq![(0xD800 + (v - 0x10000) / 0x400) as u16, (0xDC00 + (v - 0x10000) % 0x400) as u16]
    }
}

/// The UTF-16 encoding of `s`.
pub open spec fn utf16_of(s: Seq<char>) -> Seq<u16>
    decreases s.len(),
{
    if s.len() == 0 {
        Seq::empty()
    } else {
        utf16_of(s.drop_last()) + utf16_of_char(s.last())
    }
}

/// UTF-16 units decoded to characters, each surrogate without its partner
/// turned into the replacement character U+FFFD.
pub open spec fn decode_utf16_lossy(u: Seq<u16>) -> Seq<char>
    decreases u.len(),
{
    if u.len() == 0 {
        Seq::empty()
    } else if u.len() >= 2 && is_high_surrogate(u[0]) && is_low_surrogate(u[1]) {
        seq![(0x10000 + (u[0] - 0xD800) * 0x400 + (u[1] - 0xDC00)) as char] + decode_utf16_lossy(
            u.skip(2),
        )
    } else if is_high_surrogate(u[0]) || is_low_surrogate(u[0]) {
        seq!['\u{FFFD}'] + decode_utf16_lossy(u.skip(1))
    } else {
        seq![u[0] as char] + decode_utf16_lossy(u.skip(1))
    }
}

/// `s` has no nul character.
pub open spec fn no_nul(s: Seq<char>) -> bool {
    forall|i: int| 0 <= i < s.len() ==> s[i] != '\0'
}

proof fn lemma_utf16_first(s: Seq<char>)
    requires
        s.len() > 0,
    ensures
        utf16_of(s) == utf16_of_char(s[0]) + utf16_of(s.skip(1)),
    decreases s.len(),
{
    if s.len() == 1 {
        assert(s.drop_last() =~= Seq::<char>::empty());
        assert(s.skip(1) =~= Seq::<char>::empty());
        assert(utf16_of(s) =~= utf16_of_char(s[0]) + utf16_of(s.skip(1)));
    } else {
        lemma_utf16_first(s.drop_last());
        assert(s.drop_last().skip(1) =~= s.skip(1).drop_last());
        assert(s.skip(1).last() == s.last());
        assert(utf16_of(s) =~= utf16_of_char(s[0]) + utf16_of(s.skip(1)));
    }
}

/// Decoding the UTF-16 encoding of a string gives the string back.
pub proof fn lemma_utf16_roundtrip(s: Seq<char>)
    ensures
        decode_utf16_lossy(utf16_of(s)) == s,
    decreases s.len(),
{
    if s.len() > 0 {
        lemma_utf16_first(s);
        lemma_utf16_roundtrip(s.skip(1));
        let c = s[0];
        let v = c as u32;
        let u = utf16_of(s);
        vstd::utf8::char_is_scalar(c);
        vstd::utf8::char_u32_cast(c, v);
        if v < 0x10000 {
            assert(u.skip(1) =~= utf16_of(s.skip(1)));
            assert(u[0] == v);
        } else {
            let w = v - 0x10000;
            assert(u.skip(2) =~= utf16_of(s.skip(1)));
            assert(0x10000 + (w / 0x400) * 0x400 + w % 0x400 == v) by (nonlinear_arith)
                requires
                    w == v - 0x10000,
            ;
        }
        assert(decode_utf16_lossy(u) =~= s);
    }
}

/// The UTF-16 encoding of a string without nul characters has no nul
/// unit, and is empty only for the empty string.
pub proof fn lemma_utf16_no_nul(s: Seq<char>)
    requires
        no_nul(s),
    ensures
        forall|j: int| 0 <= j < utf16_of(s).len() ==> utf16_of(s)[j] != 0,
        utf16_of(s).len() >= s.len(),
    decreases s.len(),
{
    if s.len() > 0 {
        lemma_utf16_no_nul(s.drop_last());
        let c = s.last();
        vstd::utf8::char_u32_cast(c, c as u32);
        assert(c != '\0');
        assert((c as u32) != 0);
    }
}

/// Index of the first nul unit of `u`, or its length when it has none.
pub open spec fn first_nul(u: Seq<u16>) -> nat
    decreases u.len(),
{
    if u.len() == 0 || u[0] == 0 {
        0
    } else {
        1 + first_nul(u.skip(1))
    }
}

/// `n` is the index of the first nul unit of `u`.
pub open spec fn first_nul_is(u: Seq<u16>, n: int) -> bool {
    0 <= n < u.len() && u[n] == 0 && forall|i: int| 0 <= i < n ==> u[i] != 0
}

proof fn lemma_first_nul_is(u: Seq<u16>, n: int)
    requires
        first_nul_is(u, n),
    ensures
        first_nul(u) == n,
    decreases n,
{
    if n > 0 {
        assert(first_nul_is(u.skip(1), n - 1));
        lemma_first_nul_is(u.skip(1), n - 1);
    }
}

proof fn lemma_first_nul_none(u: Seq<u16>)
    requires
        forall|i: int| 0 <= i < u.len() ==> u[i] != 0,
    ensures
        first_nul(u) == u.len(),
    decreases u.len(),
{
    if u.len() > 0 {
        lemma_first_nul_none(u.skip(1));
    }
}

/// The names of a wide file list: the strings between nuls, up to the
/// first empty one.
pub open spec fn wide_file_list(u: Seq<u16>) -> Seq<Seq<char>>
    decreases u.len(),
{
    let n = first_nul(u);
    if n == 0 || n >= u.len() {
        Seq::empty()
    } else {
        seq![decode_utf16_lossy(u.take(n as int))] + wide_file_list(u.skip(n + 1int))
    }
}

/// A wide file list ends: reading names from the start reaches an empty
/// one before the units run out.
pub open spec fn wide_list_terminated(u: Seq<u16>) -> bool
    decreases u.len(),
{
    let n = first_nul(u);
    if n >= u.len() {
        false
    } else if n == 0 {
        true
    } else {
        wide_list_terminated(u.skip(n + 1int))
    }
}

/// The units of `files`, each followed by a nul.
pub open spec fn names_units(files: Seq<Seq<char>>) -> Seq<u16>
    decreases files.len(),
{
    if files.len() == 0 {
        Seq::empty()
    } else {
        names_units(files.drop_last()) + utf16_of(files.last()) + seq![0u16]
    }
}

proof fn lemma_names_units_first(files: Seq<Seq<char>>)
    requires
        files.len() > 0,
    ensures
        names_units(files) == utf16_of(files[0]) + seq![0u16] + names_units(files.skip(1)),
    decreases files.len(),
{
    if files.len() == 1 {
        assert(files.drop_last() =~= Seq::<Seq<char>>::empty());
        assert(files.skip(1) =~= Seq::<Seq<char>>::empty());
        assert(names_units(files) =~= utf16_of(files[0]) + seq![0u16] + names_units(files.skip(1)));
    } else {
        lemma_names_units_first(files.drop_last());
        assert(files.drop_last().skip(1) =~= files.skip(1).drop_last());
        assert(files.skip(1).last() == files.last());
        assert(names_units(files) =~= utf16_of(files[0]) + seq![0u16] + names_units(files.skip(1)));
    }
}

/// The names of non-empty files without nul characters, each followed by a
/// nul, and one nul more, read back as a wide file list give the files.
pub proof fn lemma_wide_file_list_roundtrip(files: Seq<Seq<char>>)
    requires
        forall|i: int| 0 <= i < files.len() ==> files[i].len() > 0 && no_nul(#[trigger] files[i]),
    ensures
        wide_list_terminated(names_units(files).push(0)),
        wide_file_list(names_units(files).push(0)) == files,
    decreases files.len(),
{
    let u = names_units(files).push(0);
    if files.len() == 0 {
        assert(u[0] == 0);
        assert(wide_file_list(u) =~= files);
    } else {
        lemma_names_units_first(files);
        let f = files[0];
        let e = utf16_of(f);
        let rest = names_units(files.skip(1)).push(0);
        assert(u =~= e + seq![0u16] + rest);
        lemma_utf16_no_nul(f);
        assert(first_nul_is(u, e.len() as int));
        lemma_first_nul_is(u, e.len() as int);
        assert(u.take(e.len() as int) =~= e);
        assert(u.skip(e.len() + 1int) =~= rest);
        lemma_utf16_roundtrip(f);
        assert forall|i: int| 0 <= i < files.skip(1).len() implies files.skip(1)[i].len() > 0
            && no_nul(#[trigger] files.skip(1)[i]) by {
            assert(files.skip(1)[i] == files[i + 1]);
        }
        lemma_wide_file_list_roundtrip(files.skip(1));
        assert(wide_file_list(u) =~= files);
    }
}

/// `units` as bytes, each unit low byte first.
pub open spec fn le_bytes(units: Seq<u16>) -> Seq<u8> {
    Seq::new(
        2 * units.len(),
        |i: int|
            if i % 2 == 0 {
                (units[i / 2] % 256) as u8
            } else {
                (units[i / 2] / 256) as u8
            },
    )
}

/// `bytes` read as units, each from two bytes low byte first.
pub open spec fn le_units(bytes: Seq<u8>) -> Seq<u16> {
    Seq::new(bytes.len() / 2, |i: int| (bytes[2 * i] + 256 * bytes[2 * i + 1]) as u16)
}

/// Reading units back from their bytes gives the units.
pub proof fn lemma_le_units_of_bytes(units: Seq<u16>)
    ensures
        le_units(le_bytes(units)) == units,
{
    let b = le_bytes(units);
    assert forall|i: int| 0 <= i < units.len() implies #[trigger] le_units(b)[i] == units[i] by {
        assert((2 * i) % 2 == 0 && (2 * i) / 2 == i);
        assert((2 * i + 1) % 2 == 1 && (2 * i + 1) / 2 == i);
        assert(units[i] % 256 + 256 * (units[i] / 256) == units[i]);
    }
    assert(le_units(b) =~= units);
}

/// Appends the bytes of `units` to `out`.
fn push_le_bytes(out: &mut Vec<u8>, units: &[u16])
    ensures
        final(out)@ == old(out)@ + le_bytes(units@),
{
    let mut i: usize = 0;
    while i < units.len()
        invariant
            0 <= i <= units@.len(),
            out@ == old(out)@ + le_bytes(units@.take(i as int)),
        decreases units@.len() - i,
    {
        let u = units[i];
        out.push((u % 256) as u8);
        out.push((u / 256) as u8);
        i = i + 1;
        proof {
            let t = units@.take(i as int);
            assert forall|k: int| 0 <= k < le_bytes(t).len() implies #[trigger] le_bytes(t)[k] == (
            le_bytes(units@.take(i - 1)) + seq![(u % 256) as u8, (u / 256) as u8])[k] by {
                if k < 2 * (i - 1) {
                    assert(k / 2 < i - 1);
                } else {
                    assert(k / 2 == i - 1);
                }
            }
            assert(le_bytes(t) =~= le_bytes(units@.take(i - 1)) + seq![(u % 256) as u8, (u / 256) as u8]);
            assert(out@ =~= old(out)@ + le_bytes(t));
        }
    }
    assert(units@.take(units@.len() as int) =~= units@);
}

/// The units that the bytes of `bytes` from `start` on make.
fn le_units_from(bytes: &[u8], start: usize) -> (units: Vec<u16>)
    requires
        start <= bytes@.len(),
        (bytes@.len() - start) % 2 == 0,
    ensures
        units@ == le_units(bytes@.skip(start as int)),
{
    let ghost all = le_units(bytes@.skip(start as int));
    let mut units: Vec<u16> = Vec::new();
    let mut pos: usize = start;
    while pos < bytes.len()
        invariant
            start <= pos <= bytes@.len(),
            (bytes@.len() - pos) % 2 == 0,
            (bytes@.len() - start) % 2 == 0,
            all == le_units(bytes@.skip(start as int)),
            units@.len() * 2 == pos - start,
            units@ == all.take(units@.len() as int),
        decreases bytes@.len() - pos,
    {
        let lo = bytes[pos] as u16;
        let hi = bytes[pos + 1] as u16;
        units.push(lo + 256 * hi);
        pos = pos + 2;
        proof {
            assert(units@ =~= all.take(units@.len() as int));
        }
    }
    assert(all.take(units@.len() as int) =~= all);
    units
}

/// Appends the UTF-16 units of `s` to `out`.
fn push_utf16(out: &mut Vec<u16>, s: &str)
    ensures
        final(out)@ == old(out)@ + utf16_of(s@),
{
    let chars = chars_of(s);
    let mut i: usize = 0;
    while i < chars.len()
        invariant
            0 <= i <= chars@.len(),
            chars@ == s@,
            out@ == old(out)@ + utf16_of(chars@.take(i as int)),
        decreases chars@.len() - i,
    {
        let c = chars[i];
        let v = c as u32;
        proof {
            vstd::utf8::char_is_scalar(c);
        }
        if v < 0x10000 {
            out.push(v as u16);
        } else {
            let w = v - 0x10000;
            out.push((0xD800 + w / 0x400) as u16);
            out.push((0xDC00 + w % 0x400) as u16);
        }
        i = i + 1;
        proof {
            let t = chars@.take(i as int);
            assert(t.drop_last() =~= chars@.take(i - 1));
            assert(t.last() == c);
            assert(out@ =~= old(out)@ + utf16_of(t));
        }
    }
    assert(chars@.take(chars@.len() as int) =~= s@);
}

/// What `String::from_utf8_lossy` makes of `bytes`.
pub uninterp spec fn utf8_lossy_text(bytes: Seq<u8>) -> Seq<char>;

/// `String::from_utf8_lossy` on `bytes[start..end]`, as an owned string.
///
/// Claimed of std: the text depends on the bytes alone, and bytes that are
/// valid UTF-8 give the characters they encode, since only invalid
/// sequences are replaced. How an invalid sequence is replaced is left to
/// the name.
#[verifier::external_body]
fn utf8_lossy(bytes: &[u8], start: usize, end: usize) -> (s: String)
    requires
        start <= end <= bytes@.len(),
    ensures
        s@ == utf8_lossy_text(bytes@.subrange(start as int, end as int)),
        valid_utf8(bytes@.subrange(start as int, end as int)) ==> s@ == decode_utf8(
            bytes@.subrange(start as int, end as int),
        ),
{
    String::from_utf8_lossy(&bytes[start..end]).into_owned()
}

/// The nul-terminated wide string at `start` in `units`:
/// `U16CStr::from_slice_with_nul` (the `WideCStr` of Windows) on the units
/// from `start`, then that string's `to_string_lossy` and `len`.
///
/// Claimed of widestring, as its source shows: the string ends at the
/// first nul unit, and there is none when no unit is nul; `len` counts the
/// units before that nul; `to_string_lossy` is `String::from_utf16_lossy`
/// of them, which decodes surrogate pairs and turns each surrogate without
/// its partner into U+FFFD.
#[verifier::external_body]
fn wide_c_str_at(units: &[u16], start: usize) -> (r: Option<(String, usize)>)
    requires
        start <= units@.len(),
    ensures
        match r {
            None => forall|i: int| start <= i < units@.len() ==> units@[i] != 0,
            Some((s, n)) => first_nul_is(units@.skip(start as int), n as int) && s@
                == decode_utf16_lossy(units@.skip(start as int).take(n as int)),
        },
{
    match U16CStr::from_slice_with_nul(&units[start..]) {
        Ok(s) => Some((s.to_string_lossy(), s.len())),
        Err(_) => None,
    }
}

/// `U16CString::from_str` (the `WideCString` of Windows) on `s`, as its
/// units without the closing nul.
///
/// Claimed of widestring, as its source shows: the string is `s` encoded
/// as UTF-16, and it is refused when a unit of that encoding is nul.
#[verifier::external_body]
fn wide_c_string(s: &str) -> (r: Option<Vec<u16>>)
    ensures
        match r {
            None => exists|i: int| 0 <= i < utf16_of(s@).len() && utf16_of(s@)[i] == 0,
            Some(units) => units@ == utf16_of(s@) && forall|i: int|
                0 <= i < units@.len() ==> units@[i] != 0,
        },
{
    match U16CString::from_str(s) {
        Ok(w) => Some(w.as_slice().to_vec()),
        Err(_) => None,
    }
}

/// The offset of the names in a `DROPFILES` block: its `pFiles` field.
pub open spec fn names_offset(b: Seq<u8>) -> int {
    b[0] + 256 * b[1] + 65536 * b[2] + 16777216 * b[3]
}

/// The names of a `DROPFILES` block are wide: its `fWide` field is not zero.
pub open spec fn names_wide(b: Seq<u8>) -> bool {
    b[16] != 0 || b[17] != 0 || b[18] != 0 || b[19] != 0
}

/// Bytes whose only nul is the last one.
pub open spec fn nul_ended(d: Seq<u8>) -> bool {
    d.len() >= 1 && d.last() == 0 && forall|i: int| 0 <= i < d.len() - 1 ==> d[i] != 0
}

/// `b` is a `DROPFILES` block that `extract_files` can read: it holds its
/// header and the names' offset; wide names fill a whole count of units
/// and end with an empty name; byte names are one string that ends with its
/// only nul.
pub open spec fn drop_files_valid(b: Seq<u8>) -> bool {
    &&& b.len() >= 20
    &&& names_offset(b) <= b.len()
    &&& if names_wide(b) {
        &&& (b.len() - names_offset(b)) % 2 == 0
        &&& wide_list_terminated(le_units(b.skip(names_offset(b))))
    } else {
        nul_ended(b.skip(names_offset(b)))
    }
}

/// The file names of a `DROPFILES` block: wide names up to the first
/// empty one; of byte names, the one string unless it is empty.
pub open spec fn dropped_files(b: Seq<u8>) -> Seq<Seq<char>> {
    let d = b.skip(names_offset(b));
    if names_wide(b) {
        wide_file_list(le_units(d))
    } else if d.len() <= 1 {
        Seq::empty()
    } else {
        seq![utf8_lossy_text(d.drop_last())]
    }
}

/// The header `bundle_files` writes: names at offset 20, no drop point,
/// wide names.
pub open spec fn bundle_header() -> Seq<u8> {
    seq![20u8, 0, 0, 0, 0, 0, 0, 0, 0, 0, 0, 0, 0, 0, 0, 0, 1, 0, 0, 0]
}

/// The `DROPFILES` block of `files`: the header, then each name in UTF-16
/// followed by a nul, then one nul more.
pub open spec fn bundled_files(files: Seq<Seq<char>>) -> Seq<u8> {
    bundle_header() + le_bytes(names_units(files).push(0))
}

/// The link in wide clipboard bytes: the units before the first nul.
pub open spec fn wide_url(b: Seq<u8>) -> Seq<char> {
    let u = le_units(b);
    decode_utf16_lossy(u.take(first_nul(u) as int))
}

/// The wide clipboard bytes of a link: its units, then a nul unit.
pub open spec fn bundled_url(url: Seq<char>) -> Seq<u8> {
    le_bytes(utf16_of(url)) + seq![0u8, 0u8]
}

/// Reading the names back from the block that `bundle_files` makes gives
/// the files, each not empty and without a nul character.
pub proof fn lemma_extract_files_undoes_bundle(files: Seq<Seq<char>>)
    requires
        forall|i: int| 0 <= i < files.len() ==> files[i].len() > 0 && no_nul(#[trigger] files[i]),
    ensures
        drop_files_valid(bundled_files(files)),
        dropped_files(bundled_files(files)) == files,
{
    let u = names_units(files).push(0);
    let b = bundled_files(files);
    assert(b.skip(20) =~= le_bytes(u));
    assert(names_offset(b) == 20);
    assert(names_wide(b));
    lemma_le_units_of_bytes(u);
    lemma_wide_file_list_roundtrip(files);
}

/// Reading the link back from the bytes that `bundle_url_w` makes gives the
/// link, when it has no nul character.
pub proof fn lemma_extract_url_w_undoes_bundle(url: Seq<char>)
    requires
        no_nul(url),
    ensures
        bundled_url(url).len() % 2 == 0,
        exists|i: int|
            0 <= i < le_units(bundled_url(url)).len() && le_units(bundled_url(url))[i] == 0,
        wide_url(bundled_url(url)) == url,
{
    let e = utf16_of(url);
    let u = e.push(0);
    assert(bundled_url(url) =~= le_bytes(u));
    lemma_le_units_of_bytes(u);
    lemma_utf16_no_nul(url);
    assert(first_nul_is(u, e.len() as int));
    lemma_first_nul_is(u, e.len() as int);
    assert(u.take(e.len() as int) =~= e);
    lemma_utf16_roundtrip(url);
    assert(le_units(bundled_url(url))[e.len() as int] == 0);
}

/// Reading and writing the clipboard forms of dragged files and links.
pub struct DataUtil {}

impl DataUtil {
    /// The file names in the `DROPFILES` block `buffer`.
    pub fn extract_files(buffer: Vec<u8>) -> (files: Vec<String>)
        requires
            drop_files_valid(buffer@),
        ensures
            views(files@) == dropped_files(buffer@),
    {
        let p64: u64 = buffer[0] as u64 + 256 * (buffer[1] as u64) + 65536 * (buffer[2] as u64)
            + 16777216 * (buffer[3] as u64);
        let p = p64 as usize;
        let wide = buffer[16] != 0 || buffer[17] != 0 || buffer[18] != 0 || buffer[19] != 0;
        let mut res: Vec<String> = Vec::new();
        if wide {
            let units = le_units_from(buffer.as_slice(), p);
            let ghost all = units@;
            let total = units.len();
            let mut offset: usize = 0;
            assert(all.skip(0) =~= all);
            assert(views(res@) =~= Seq::<Seq<char>>::empty());
            assert(views(res@) + wide_file_list(all) =~= wide_file_list(all));
            loop
                invariant
                    units@ == all,
                    all.len() == total,
                    all == le_units(buffer@.skip(p as int)),
                    offset <= all.len(),
                    wide_list_terminated(all.skip(offset as int)),
                    views(res@) + wide_file_list(all.skip(offset as int)) == wide_file_list(all),
                ensures
                    views(res@) == wide_file_list(all),
                decreases all.len() - offset,
            {
                let ghost rest = all.skip(offset as int);
                let found = wide_c_str_at(units.as_slice(), offset);
                match found {
                    None => {
                        proof {
                            lemma_first_nul_none(rest);
                            assert(views(res@) =~= wide_file_list(all));
                        }
                        break ;
                    },
                    Some((name, n)) => {
                        proof {
                            lemma_first_nul_is(rest, n as int);
                            assert(units@.skip(offset as int) == rest);
                            assert(n < rest.len());
                        }
                        if n == 0 {
                            proof {
                                assert(views(res@) =~= wide_file_list(all));
                            }
                            break ;
                        }
                        let ghost before = res@;
                        let ghost name_view = name@;
                        res.push(name);
                        offset = offset + n + 1;
                        proof {
                            assert(res@.drop_last() =~= before);
                            assert(views(res@) == views(before).push(name_view));
                            assert(wide_file_list(rest) == seq![name_view] + wide_file_list(rest.skip(n + 1int)));
                            assert(all.skip(offset as int) =~= rest.skip(n + 1int));
                            assert(views(res@) + wide_file_list(all.skip(offset as int)) =~= wide_file_list(all));
                        }
                    },
                }
            }
        } else {
            let n = buffer.len();
            if n - p > 1 {
                let name = utf8_lossy(buffer.as_slice(), p, n - 1);
                let ghost name_view = name@;
                res.push(name);
                proof {
                    assert(p == names_offset(buffer@));
                    crate::text::lemma_views(res@);
                    assert(views(res@) =~= seq![name_view]);
                    assert(names_wide(buffer@) == false);
                    assert(buffer@.skip(p as int).drop_last() =~= buffer@.subrange(p as int, n - 1));
                    assert(views(res@) =~= dropped_files(buffer@));
                }
            } else {
                proof {
                    assert(p == names_offset(buffer@));
                    assert(!names_wide(buffer@));
                    assert(buffer@.skip(p as int).len() <= 1);
                    assert(res@.len() == 0);
                    assert(views(res@) =~= dropped_files(buffer@));
                }
            }
        }
        res
    }

    /// The link in the wide clipboard bytes `buffer`: the units before the
    /// first nul.
    pub fn extract_url_w(buffer: &[u8]) -> (url: String)
        requires
            buffer@.len() % 2 == 0,
            exists|i: int| 0 <= i < le_units(buffer@).len() && le_units(buffer@)[i] == 0,
        ensures
            url@ == wide_url(buffer@),
    {
        let units = le_units_from(buffer, 0);
        assert(buffer@.skip(0) =~= buffer@);
        match wide_c_str_at(units.as_slice(), 0) {
            Some((url, n)) => {
                proof {
                    assert(units@.skip(0) =~= units@);
                    lemma_first_nul_is(units@, n as int);
                }
                url
            },
            None => {
                proof {
                    assert(false);
                }
                String::new()
            },
        }
    }

    /// The link in the byte clipboard data `buffer`, which ends with its
    /// only nul.
    pub fn extract_url(buffer: &[u8]) -> (url: String)
        requires
            nul_ended(buffer@),
        ensures
            url@ == utf8_lossy_text(buffer@.drop_last()),
    {
        let url = utf8_lossy(buffer, 0, buffer.len() - 1);
        assert(buffer@.subrange(0, buffer@.len() - 1) =~= buffer@.drop_last());
        url
    }

    /// The `DROPFILES` block of `files`: a header that marks the names as
    /// wide and puts them right after it, each name in UTF-16 followed by a
    /// nul, and one nul more after the last.
    pub fn bundle_files(files: &[String]) -> (block: Vec<u8>)
        ensures
            block@ == bundled_files(views(files@)),
    {
        let mut units: Vec<u16> = Vec::new();
        let mut i: usize = 0;
        while i < files.len()
            invariant
                0 <= i <= files@.len(),
                units@ == names_units(views(files@.take(i as int))),
            decreases files@.len() - i,
        {
            push_utf16(&mut units, files[i].as_str());
            units.push(0);
            i = i + 1;
            proof {
                let t = files@.take(i as int);
                assert(t.drop_last() =~= files@.take(i - 1));
                assert(views(t).drop_last() == views(t.drop_last()));
                assert(views(t).last() == files@[i - 1]@);
                assert(views(t).len() > 0);
                assert(units@ =~= names_units(views(t)));
            }
        }
        assert(files@.take(files@.len() as int) =~= files@);
        units.push(0);
        let mut block: Vec<u8> = vec![20u8, 0, 0, 0, 0, 0, 0, 0, 0, 0, 0, 0, 0, 0, 0, 0, 1, 0, 0, 0];
        assert(block@ =~= bundle_header());
        push_le_bytes(&mut block, units.as_slice());
        block
    }

    /// The wide clipboard bytes of the link `url`: its UTF-16 units, then a
    /// nul unit.
    pub fn bundle_url_w(url: &str) -> (data: Vec<u8>)
        requires
            no_nul(url@),
        ensures
            data@ == bundled_url(url@),
    {
        proof {
            lemma_utf16_no_nul(url@);
        }
        match wide_c_string(url) {
            Some(units) => {
                let mut data: Vec<u8> = Vec::new();
                push_le_bytes(&mut data, units.as_slice());
                data.push(0);
                data.push(0);
                assert(data@ =~= bundled_url(url@));
                data
            },
            None => {
                proof {
                    assert(false);
                }
                Vec::new()
            },
        }
    }
}

} // verus!

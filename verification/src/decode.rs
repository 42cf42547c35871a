//! Charset-aware decoding of EXIF `UserComment` payloads.
//!
//! A payload starts with an 8-byte charset identifier followed by the text
//! bytes. `UNICODE\0` text is UTF-16 with heuristically inferred byte order;
//! `ASCII\0\0\0` and `JIS\0\0\0\0\0` are decoded as UTF-8 after trimming
//! trailing NUL padding; an all-zero identifier is tried as UTF-8 and kept
//! only if non-empty; any other identifier yields nothing.

use vstd::arithmetic::div_mod::lemma_fundamental_div_mod;
use vstd::prelude::*;
use vstd::slice::slice_subrange;
use vstd::utf8::decode_utf8;
use vstd::utf8::valid_utf8;

use crate::bytes::be16;
use crate::bytes::le16;
use crate::bytes::trim_trailing_zeros;
use crate::bytes::trim_zeros;

verus! {

/// The characters that `String::from_utf16` yields for a unit sequence, when
/// it succeeds; `None` where the units contain an unpaired surrogate.
pub uninterp spec fn utf16_of(units: Seq<u16>) -> Option<Seq<char>>;

/// Relies on `alloc::string::String::from_utf16`: it succeeds exactly when
/// the units contain no unpaired surrogate, and the result is a function of
/// the units alone.
#[verifier::external_body]
fn utf16_to_string(units: &Vec<u16>) -> (r: Option<String>)
    ensures
        r is Some <==> utf16_of(units@) is Some,
        r matches Some(s) ==> utf16_of(units@) == Some(s@),
{
    String::from_utf16(units.as_slice()).ok()
}

/// Relies on `core::str::from_utf8`: it succeeds exactly on valid UTF-8, and
/// the returned string reads those same bytes.
#[verifier::external_body]
pub(crate) fn utf8_to_str(b: &[u8]) -> (r: Option<&str>)
    ensures
        r is Some <==> valid_utf8(b@),
        r matches Some(s) ==> s@ == decode_utf8(b@),
{
    core::str::from_utf8(b).ok()
}

/// Charset identifier `UNICODE\0`.
pub open spec fn is_unicode_id(c: Seq<u8>) -> bool {
    &&& c.len() == 8
    &&& c[0] == 0x55u8
    &&& c[1] == 0x4eu8
    &&& c[2] == 0x49u8
    &&& c[3] == 0x43u8
    &&& c[4] == 0x4fu8
    &&& c[5] == 0x44u8
    &&& c[6] == 0x45u8
    &&& c[7] == 0x00u8
}

/// Charset identifier `ASCII\0\0\0`.
pub open spec fn is_ascii_id(c: Seq<u8>) -> bool {
    &&& c.len() == 8
    &&& c[0] == 0x41u8
    &&& c[1] == 0x53u8
    &&& c[2] == 0x43u8
    &&& c[3] == 0x49u8
    &&& c[4] == 0x49u8
    &&& c[5] == 0x00u8
    &&& c[6] == 0x00u8
    &&& c[7] == 0x00u8
}

/// Charset identifier `JIS\0\0\0\0\0`.
pub open spec fn is_jis_id(c: Seq<u8>) -> bool {
    &&& c.len() == 8
    &&& c[0] == 0x4au8
    &&& c[1] == 0x49u8
    &&& c[2] == 0x53u8
    &&& c[3] == 0x00u8
    &&& c[4] == 0x00u8
    &&& c[5] == 0x00u8
    &&& c[6] == 0x00u8
    &&& c[7] == 0x00u8
}

/// The undefined (all-zero) charset identifier.
pub open spec fn is_zero_id(c: Seq<u8>) -> bool {
    c.len() == 8 && forall|i: int| 0 <= i < 8 ==> c[i] == 0u8
}

/// A UTF-16 unit that terminates decoding: a NUL or an embedded byte-order
/// mark.
pub open spec fn is_terminator(u: u16) -> bool {
    u == 0u16 || u == 0xfeffu16
}

/// The UTF-16 code units read from `b` under the given byte order; a trailing
/// odd byte is dropped.
pub open spec fn units_of(b: Seq<u8>, le: bool) -> Seq<u16> {
    Seq::new(
        (b.len() / 2) as nat,
        |i: int|
            if le {
                le16(b[2 * i], b[2 * i + 1]) as u16
            } else {
                be16(b[2 * i], b[2 * i + 1]) as u16
            },
    )
}

/// Byte-order inference for UTF-16 text: a byte-order mark decides; without
/// one, little-endian is assumed exactly when the little-endian reading of
/// the first unit is printable ASCII.
pub open spec fn infer_little_endian(b: Seq<u8>) -> bool
    recommends
        b.len() >= 2,
{
    if le16(b[0], b[1]) == 0xfeff {
        true
    } else if be16(b[0], b[1]) == 0xfeff {
        false
    } else {
        0x20 <= le16(b[0], b[1]) <= 0x7e
    }
}

/// The longest prefix of `us` holding no terminator unit.
pub open spec fn until_terminator(us: Seq<u16>) -> Seq<u16>
    decreases us.len(),
{
    if us.len() == 0 {
        Seq::empty()
    } else if is_terminator(us[0]) {
        Seq::empty()
    } else {
        seq![us[0]] + until_terminator(us.drop_first())
    }
}

/// The hard cap on decoded UTF-16 units per record.
pub open spec fn unit_cap() -> int {
    5000
}

/// The UTF-16 units selected from raw text bytes: byte order is inferred, a
/// leading byte-order mark is consumed, decoding stops at the first
/// terminator unit, and at most `unit_cap()` units are kept.
pub open spec fn utf16_units(b: Seq<u8>) -> Seq<u16>
    recommends
        b.len() >= 2,
{
    let us = units_of(b, infer_little_endian(b));
    let body = if us.len() > 0 && us[0] == 0xfeffu16 {
        us.drop_first()
    } else {
        us
    };
    let t = until_terminator(body);
    if t.len() > unit_cap() {
        t.take(unit_cap())
    } else {
        t
    }
}

/// What decoding `UNICODE\0` text yields: nothing for fewer than two bytes,
/// else the string the selected units form, if they form one.
pub open spec fn decoded_utf16_text(b: Seq<u8>) -> Option<Seq<char>> {
    if b.len() < 2 {
        None
    } else {
        utf16_of(utf16_units(b))
    }
}

/// What decoding NUL-padded UTF-8 text yields: the decoded trimmed bytes, or
/// nothing where they are not valid UTF-8.
pub open spec fn decoded_trimmed_utf8(b: Seq<u8>) -> Option<Seq<char>> {
    if valid_utf8(trim_trailing_zeros(b)) {
        Some(decode_utf8(trim_trailing_zeros(b)))
    } else {
        None
    }
}

/// The charset identifier of a `UserComment` payload. Payloads whose first
/// four bytes are zero carry the identifier at offset 4 (a known encoder
/// quirk); otherwise it sits at offset 0.
pub open spec fn comment_charset(p: Seq<u8>) -> Seq<u8>
    recommends
        p.len() >= 8,
{
    if p.len() >= 12 && p[0] == 0u8 && p[1] == 0u8 && p[2] == 0u8 && p[3] == 0u8 {
        p.subrange(4, 12)
    } else {
        p.subrange(0, 8)
    }
}

/// The text bytes of a `UserComment` payload, following its charset
/// identifier.
pub open spec fn comment_text(p: Seq<u8>) -> Seq<u8>
    recommends
        p.len() >= 8,
{
    if p.len() >= 12 && p[0] == 0u8 && p[1] == 0u8 && p[2] == 0u8 && p[3] == 0u8 {
        p.skip(12)
    } else {
        p.skip(8)
    }
}

/// What a whole `UserComment` payload decodes to, dispatching on its charset
/// identifier; `None` for short payloads, unrecognized charsets and decode
/// failures, and for an undefined charset whose trimmed text is empty.
pub open spec fn decoded_comment(p: Seq<u8>) -> Option<Seq<char>> {
    if p.len() < 8 {
        None
    } else {
        let cs = comment_charset(p);
        let text = comment_text(p);
        if is_unicode_id(cs) {
            decoded_utf16_text(text)
        } else if is_ascii_id(cs) || is_jis_id(cs) {
            decoded_trimmed_utf8(text)
        } else if is_zero_id(cs) {
            if trim_trailing_zeros(text).len() > 0 {
                decoded_trimmed_utf8(text)
            } else {
                None
            }
        } else {
            None
        }
    }
}

/// If the first `k` units are not terminators and the prefix ends there (at
/// the end of `us` or at a terminator), decoding selects exactly those `k`.
proof fn lemma_until_terminator_stops(us: Seq<u16>, k: int)
    requires
        0 <= k <= us.len(),
        forall|j: int| 0 <= j < k ==> !is_terminator(us[j]),
        k == us.len() || is_terminator(us[k]),
    ensures
        until_terminator(us) == us.take(k),
    decreases k,
{
    if k == 0 {
        assert(us.take(0) =~= Seq::<u16>::empty());
    } else {
        lemma_until_terminator_stops(us.drop_first(), k - 1);
        assert(us.take(k) =~= seq![us[0]] + us.drop_first().take(k - 1));
    }
}

/// If the first `k` units are not terminators, decoding keeps at least `k`
/// units and agrees with `us` on them.
proof fn lemma_until_terminator_all(us: Seq<u16>, k: int)
    requires
        0 <= k <= us.len(),
        forall|j: int| 0 <= j < k ==> !is_terminator(us[j]),
    ensures
        until_terminator(us).len() >= k,
        until_terminator(us).take(k) == us.take(k),
    decreases k,
{
    if k == 0 {
        assert(until_terminator(us).take(0) =~= us.take(0));
    } else {
        lemma_until_terminator_all(us.drop_first(), k - 1);
        assert(until_terminator(us).take(k) =~= seq![us[0]] + until_terminator(
            us.drop_first(),
        ).take(k - 1));
        assert(us.take(k) =~= seq![us[0]] + us.drop_first().take(k - 1));
    }
}

/// Reads the UTF-16 units of `text` as `utf16_units` selects them.
fn collect_utf16_units(text: &[u8]) -> (units: Vec<u16>)
    requires
        text@.len() >= 2,
    ensures
        units@ == utf16_units(text@),
{
    let len = text.len();
    let first_le: u16 = text[0] as u16 + 256 * (text[1] as u16);
    let first_be: u16 = 256 * (text[0] as u16) + text[1] as u16;
    let is_le: bool = if first_le == 0xfeff {
        true
    } else if first_be == 0xfeff {
        false
    } else {
        0x20 <= first_le && first_le <= 0x7e
    };
    proof {
        assert(is_le == infer_little_endian(text@));
    }
    let ghost us = units_of(text@, is_le);
    let n_units = len / 2;
    proof {
        assert(us.len() == n_units);
        assert(2 * (len / 2) <= len < 2 * (len / 2) + 2) by {
            lemma_fundamental_div_mod(len as int, 2);
        };
    }
    let first: u16 = if is_le {
        first_le
    } else {
        first_be
    };
    proof {
        assert(us[0] == first);
    }
    let start: usize = if first == 0xfeff {
        1
    } else {
        0
    };
    let ghost body = if us.len() > 0 && us[0] == 0xfeffu16 {
        us.drop_first()
    } else {
        us
    };
    proof {
        assert(body.len() == n_units - start);
        assert(forall|j: int| 0 <= j < body.len() ==> body[j] == us[j + start]);
    }
    let mut out: Vec<u16> = Vec::new();
    let mut i: usize = start;
    loop
        invariant
            text@.len() == len,
            us == units_of(text@, is_le),
            n_units == len / 2,
            us.len() == n_units,
            2 * n_units <= len,
            start <= i <= n_units,
            i - start <= unit_cap(),
            body.len() == n_units - start,
            forall|j: int| 0 <= j < body.len() ==> body[j] == us[j + start],
            out@ == body.take(i - start),
            forall|j: int| 0 <= j < i - start ==> !is_terminator(body[j]),
        ensures
            start <= i <= n_units,
            i - start <= unit_cap(),
            out@ == body.take(i - start),
            forall|j: int| 0 <= j < i - start ==> !is_terminator(body[j]),
            i == n_units || i - start == unit_cap() || is_terminator(body[i - start]),
        decreases n_units - i,
    {
        if i >= n_units || i - start >= 5000 {
            break;
        }
        let lo = text[2 * i];
        let hi = text[2 * i + 1];
        let u: u16 = if is_le {
            lo as u16 + 256 * (hi as u16)
        } else {
            256 * (lo as u16) + hi as u16
        };
        proof {
            assert(u == us[i as int]);
        }
        if u == 0 || u == 0xfeff {
            break;
        }
        out.push(u);
        proof {
            assert(body.take(i + 1 - start) =~= body.take(i - start).push(body[i - start]));
        }
        i += 1;
    }
    proof {
        let k = i - start;
        if i < n_units && k < unit_cap() {
            // stopped at a terminator unit
            lemma_until_terminator_stops(body, k);
            assert(out@ =~= body.take(k));
        } else if k == unit_cap() {
            lemma_until_terminator_all(body, k);
            let t = until_terminator(body);
            if t.len() > unit_cap() {
                assert(utf16_units(text@) == t.take(k));
            } else {
                assert(t =~= t.take(k));
            }
        } else {
            // consumed every unit without meeting a terminator
            lemma_until_terminator_stops(body, body.len() as int);
            assert(body.take(body.len() as int) =~= body);
        }
    }
    out
}

/// The byte encoding of UTF-16 units under the given byte order.
pub open spec fn utf16_bytes(units: Seq<u16>, le: bool) -> Seq<u8> {
    Seq::new(
        2 * units.len(),
        |j: int|
            if (j % 2 == 0) == le {
                (units[j / 2] as int % 256) as u8
            } else {
                (units[j / 2] as int / 256) as u8
            },
    )
}

/// Reading bytes back under the byte order they were encoded with yields the
/// original units.
pub proof fn lemma_units_round_trip(units: Seq<u16>, le: bool)
    ensures
        units_of(utf16_bytes(units, le), le) == units,
{
    let b = utf16_bytes(units, le);
    let us2 = units_of(b, le);
    assert(b.len() / 2 == units.len());
    assert forall|i: int| 0 <= i < units.len() implies us2[i] == units[i] by {
        assert((2 * i) % 2 == 0 && (2 * i) / 2 == i && (2 * i + 1) % 2 == 1 && (2 * i + 1) / 2
            == i) by (nonlinear_arith);
        let u = units[i] as int;
        lemma_fundamental_div_mod(u, 256);
    };
    assert(us2 =~= units);
}

/// A byte-order mark decides the byte order and is consumed: terminator-free
/// text of at most `unit_cap()` units encoded big-endian behind a `FE FF`
/// mark, or little-endian behind a `FF FE` mark, selects exactly the original
/// units, so both decode to the same string.
pub proof fn lemma_utf16_bom_round_trip(units: Seq<u16>)
    requires
        units.len() <= unit_cap(),
        forall|i: int| 0 <= i < units.len() ==> !is_terminator(units[i]),
    ensures
        utf16_units(utf16_bytes(seq![0xfeffu16] + units, false)) == units,
        utf16_units(utf16_bytes(seq![0xfeffu16] + units, true)) == units,
        decoded_utf16_text(utf16_bytes(seq![0xfeffu16] + units, false)) == utf16_of(units),
        decoded_utf16_text(utf16_bytes(seq![0xfeffu16] + units, true)) == utf16_of(units),
{
    let fu = seq![0xfeffu16] + units;
    assert(fu[0] == 0xfeffu16);
    lemma_until_terminator_stops(units, units.len() as int);
    assert(units.take(units.len() as int) =~= units);
    let bb = utf16_bytes(fu, false);
    assert(bb[0] == 0xfeu8 && bb[1] == 0xffu8);
    assert(!infer_little_endian(bb));
    lemma_units_round_trip(fu, false);
    assert(fu.drop_first() =~= units);
    assert(utf16_units(bb) == units);
    let bl = utf16_bytes(fu, true);
    assert(bl[0] == 0xffu8 && bl[1] == 0xfeu8);
    assert(infer_little_endian(bl));
    lemma_units_round_trip(fu, true);
    assert(utf16_units(bl) == units);
}

/// Without a byte-order mark, the byte order under which the first unit
/// reads as printable ASCII is chosen: little-endian exactly when the
/// little-endian reading is printable.
pub proof fn lemma_utf16_no_bom_inference(b: Seq<u8>)
    requires
        b.len() >= 2,
        le16(b[0], b[1]) != 0xfeff,
        be16(b[0], b[1]) != 0xfeff,
    ensures
        infer_little_endian(b) == (0x20 <= le16(b[0], b[1]) <= 0x7e),
{
}

/// A printable little-endian first unit always selects little-endian: no
/// byte pair is a big-endian byte-order mark while its little-endian reading
/// is printable.
pub proof fn lemma_utf16_printable_selects_le(b: Seq<u8>)
    requires
        b.len() >= 2,
        0x20 <= le16(b[0], b[1]) <= 0x7e,
    ensures
        infer_little_endian(b),
{
}

/// Decodes a whole `UserComment` payload: splits off the charset identifier
/// and dispatches on it, as `decoded_comment` states.
pub fn decode_user_comment(payload: &[u8]) -> (r: Option<String>)
    ensures
        r is Some <==> decoded_comment(payload@) is Some,
        r matches Some(s) ==> decoded_comment(payload@) == Some(s@),
{
    let len = payload.len();
    if len < 8 {
        return None;
    }
    let zero_head = len >= 12 && payload[0] == 0 && payload[1] == 0 && payload[2] == 0
        && payload[3] == 0;
    let cs: &[u8] = if zero_head {
        slice_subrange(payload, 4, 12)
    } else {
        slice_subrange(payload, 0, 8)
    };
    let text: &[u8] = if zero_head {
        slice_subrange(payload, 12, len)
    } else {
        slice_subrange(payload, 8, len)
    };
    proof {
        assert(cs@ == comment_charset(payload@));
        assert(text@ == comment_text(payload@));
    }
    if cs[0] == 0x55 && cs[1] == 0x4e && cs[2] == 0x49 && cs[3] == 0x43 && cs[4] == 0x4f
        && cs[5] == 0x44 && cs[6] == 0x45 && cs[7] == 0x00 {
        if text.len() < 2 {
            return None;
        }
        let units = collect_utf16_units(text);
        utf16_to_string(&units)
    } else if (cs[0] == 0x41 && cs[1] == 0x53 && cs[2] == 0x43 && cs[3] == 0x49 && cs[4] == 0x49
        && cs[5] == 0x00 && cs[6] == 0x00 && cs[7] == 0x00) || (cs[0] == 0x4a && cs[1] == 0x49
        && cs[2] == 0x53 && cs[3] == 0x00 && cs[4] == 0x00 && cs[5] == 0x00 && cs[6] == 0x00
        && cs[7] == 0x00) {
        let trimmed = trim_zeros(text);
        match utf8_to_str(trimmed.as_slice()) {
            Some(s) => Some(s.to_owned()),
            None => None,
        }
    } else if cs[0] == 0 && cs[1] == 0 && cs[2] == 0 && cs[3] == 0 && cs[4] == 0 && cs[5] == 0
        && cs[6] == 0 && cs[7] == 0 {
        let trimmed = trim_zeros(text);
        if trimmed.len() == 0 {
            return None;
        }
        match utf8_to_str(trimmed.as_slice()) {
            Some(s) => Some(s.to_owned()),
            None => None,
        }
    } else {
        proof {
            assert(!is_zero_id(cs@));
        }
        None
    }
}

} // verus!

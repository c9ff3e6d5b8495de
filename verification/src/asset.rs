use crate::state::{unique_keys, State, StateValue, ValueView};
use vstd::bytes::{
    lemma_auto_spec_u32_to_from_le_bytes, lemma_auto_spec_u64_to_from_le_bytes,
    spec_u32_from_le_bytes, spec_u32_to_le_bytes, spec_u64_from_le_bytes, spec_u64_to_le_bytes,
    u32_from_le_bytes, u32_to_le_bytes, u64_from_le_bytes, u64_to_le_bytes,
};
use vstd::prelude::*;
use vstd::slice::slice_subrange;
use vstd::string::{StrSliceExecFns, StringExecFns, StringSliceAdditionalSpecFns};
use vstd::utf8::{
    decode_utf8, encode_utf8, encode_utf8_decode_utf8, encode_utf8_valid_utf8, valid_utf8,
};

verus! {

/// The two interchangeable serialization backends of the persisted state:
/// a compact binary encoding for production builds, and a line-oriented
/// readable encoding for development builds. Round-tripping through either
/// reproduces the mapping exactly.
#[derive(Clone, Copy, Debug, PartialEq, Eq, Structural)]
pub enum Backend {
    Binary,
    Text,
}

/// Why a serialized state failed to decode.
#[derive(Clone, Copy, Debug, PartialEq, Eq, Structural)]
pub enum AssetError {
    /// The input ended inside a record or a record is malformed.
    Truncated,
    /// A value carries an unknown type tag.
    UnknownTag,
    /// A key or text value is not valid UTF-8.
    InvalidUtf8,
    /// Two entries share a key: the input denotes no mapping.
    DuplicateKey,
}

impl AssetError {
    /// A human-readable description of the error.
    pub fn message(&self) -> (s: String)
        ensures
            *self is Truncated ==> s@ == "the serialized state is truncated or malformed"@,
            *self is UnknownTag ==> s@ == "a value carries an unknown type tag"@,
            *self is InvalidUtf8 ==> s@ == "a key or text value is not valid UTF-8"@,
            *self is DuplicateKey ==> s@ == "two entries share a key"@,
    {
        match self {
            AssetError::Truncated => String::from_str("the serialized state is truncated or malformed"),
            AssetError::UnknownTag => String::from_str("a value carries an unknown type tag"),
            AssetError::InvalidUtf8 => String::from_str("a key or text value is not valid UTF-8"),
            AssetError::DuplicateKey => String::from_str("two entries share a key"),
        }
    }
}

/// Type tag of a float value record.
pub const TAG_FLOAT: u8 = 1;

/// Type tag of an integer value record.
pub const TAG_INT: u8 = 2;

/// Type tag of a text value record.
pub const TAG_TEXT: u8 = 3;

#[verifier::external_type_specification]
#[verifier::external_body]
pub struct ExUtf8Error(core::str::Utf8Error);

/// Relies on str::from_utf8: it succeeds exactly on valid UTF-8 input, and
/// the returned string slice views the same bytes.
pub assume_specification<'a>[ core::str::from_utf8 ](v: &'a [u8]) -> (r: Result<
    &'a str,
    core::str::Utf8Error,
>)
    ensures
        r is Ok <==> valid_utf8(v@),
        r matches Ok(s) ==> s.spec_bytes() == v@,
;

/// A string on the wire: its UTF-8 byte length as a 32-bit little-endian
/// word, then its UTF-8 bytes.
pub open spec fn spec_encode_str(s: Seq<char>) -> Seq<u8> {
    spec_u32_to_le_bytes(encode_utf8(s).len() as u32) + encode_utf8(s)
}

/// A value on the wire: a one-byte type tag, then the payload. Floats and
/// integers travel as their 64-bit patterns, little-endian; text travels as
/// a wire string.
pub open spec fn spec_encode_value(v: ValueView) -> Seq<u8> {
    match v {
        ValueView::Float(bits) => seq![TAG_FLOAT] + spec_u64_to_le_bytes(bits),
        ValueView::Int(i) => seq![TAG_INT] + spec_u64_to_le_bytes(i as u64),
        ValueView::Text(t) => seq![TAG_TEXT] + spec_encode_str(t),
    }
}

/// An entry on the wire: the key, then the value.
pub open spec fn spec_encode_entry(key: Seq<char>, v: ValueView) -> Seq<u8> {
    spec_encode_str(key) + spec_encode_value(v)
}

/// The compact binary encoding: the entries, in order, nothing else.
pub open spec fn spec_encode_binary(entries: Seq<(Seq<char>, ValueView)>) -> Seq<u8>
    decreases entries.len(),
{
    if entries.len() == 0 {
        Seq::empty()
    } else {
        spec_encode_entry(entries[0].0, entries[0].1) + spec_encode_binary(entries.drop_first())
    }
}

/// A value can be put on the wire when its text payload's length fits the
/// 32-bit length word.
pub open spec fn value_encodable(v: ValueView) -> bool {
    match v {
        ValueView::Text(t) => encode_utf8(t).len() <= u32::MAX,
        _ => true,
    }
}

pub open spec fn entry_encodable(e: (Seq<char>, ValueView)) -> bool {
    &&& encode_utf8(e.0).len() <= u32::MAX
    &&& value_encodable(e.1)
}

/// Machine limit on encoding: every key and text value fits its length word.
pub open spec fn spec_encodable(entries: Seq<(Seq<char>, ValueView)>) -> bool {
    forall|i: int| 0 <= i < entries.len() ==> entry_encodable(#[trigger] entries[i])
}

/// Decodes one wire string at the front; `None` on truncation or invalid
/// UTF-8, else the characters and the bytes consumed.
pub open spec fn spec_decode_str(bytes: Seq<u8>) -> Option<(Seq<char>, int)> {
    if bytes.len() < 4 {
        None
    } else {
        let n = spec_u32_from_le_bytes(bytes.subrange(0, 4)) as int;
        if 4 + n > bytes.len() {
            None
        } else {
            let data = bytes.subrange(4, 4 + n);
            if valid_utf8(data) {
                Some((decode_utf8(data), 4 + n))
            } else {
                None
            }
        }
    }
}

/// Decodes one value at the front; `None` on truncation, an unknown tag, or
/// invalid UTF-8.
pub open spec fn spec_decode_value(bytes: Seq<u8>) -> Option<(ValueView, int)> {
    if bytes.len() < 1 {
        None
    } else if bytes[0] == TAG_FLOAT {
        if bytes.len() < 9 {
            None
        } else {
            Some((ValueView::Float(spec_u64_from_le_bytes(bytes.subrange(1, 9))), 9))
        }
    } else if bytes[0] == TAG_INT {
        if bytes.len() < 9 {
            None
        } else {
            Some((ValueView::Int(spec_u64_from_le_bytes(bytes.subrange(1, 9)) as i64), 9))
        }
    } else if bytes[0] == TAG_TEXT {
        match spec_decode_str(bytes.skip(1)) {
            None => None,
            Some(p) => Some((ValueView::Text(p.0), 1 + p.1)),
        }
    } else {
        None
    }
}

/// Decodes one entry at the front: key, then value.
pub open spec fn spec_decode_entry(bytes: Seq<u8>) -> Option<(Seq<char>, ValueView, int)> {
    match spec_decode_str(bytes) {
        None => None,
        Some(k) => match spec_decode_value(bytes.skip(k.1)) {
            None => None,
            Some(v) => Some((k.0, v.0, k.1 + v.1)),
        },
    }
}

/// Decodes a whole binary-encoded entry list: entries back to back until the
/// input is exhausted; any leftover or malformed record fails the decode.
pub open spec fn spec_decode_binary(bytes: Seq<u8>) -> Option<Seq<(Seq<char>, ValueView)>>
    decreases bytes.len(),
{
    if bytes.len() == 0 {
        Some(Seq::empty())
    } else {
        match spec_decode_entry(bytes) {
            None => None,
            Some(e) => {
                if 1 <= e.2 <= bytes.len() {
                    match spec_decode_binary(bytes.skip(e.2)) {
                        None => None,
                        Some(rest) => Some(seq![(e.0, e.1)] + rest),
                    }
                } else {
                    None
                }
            },
        }
    }
}

/// A wire string decodes back to the characters it was encoded from,
/// whatever follows it.
pub proof fn lemma_decode_str_prefix(s: Seq<char>, rest: Seq<u8>)
    requires
        encode_utf8(s).len() <= u32::MAX,
    ensures
        spec_decode_str(spec_encode_str(s) + rest) == Some((s, spec_encode_str(s).len() as int)),
{
    let eb = encode_utf8(s);
    let n = eb.len() as u32;
    let full = spec_encode_str(s) + rest;
    lemma_auto_spec_u32_to_from_le_bytes();
    assert(spec_u32_to_le_bytes(n).len() == 4);
    assert(full.subrange(0, 4) =~= spec_u32_to_le_bytes(n));
    assert(spec_u32_from_le_bytes(full.subrange(0, 4)) == n);
    assert(full.subrange(4, 4 + n as int) =~= eb);
    encode_utf8_valid_utf8(s);
    encode_utf8_decode_utf8(s);
    assert(spec_encode_str(s).len() == 4 + n);
}

/// A wire value decodes back to the value it was encoded from, whatever
/// follows it.
pub proof fn lemma_decode_value_prefix(v: ValueView, rest: Seq<u8>)
    requires
        value_encodable(v),
    ensures
        spec_decode_value(spec_encode_value(v) + rest) == Some(
            (v, spec_encode_value(v).len() as int),
        ),
{
    let full = spec_encode_value(v) + rest;
    lemma_auto_spec_u64_to_from_le_bytes();
    match v {
        ValueView::Float(bits) => {
            assert(full[0] == TAG_FLOAT);
            assert(full.subrange(1, 9) =~= spec_u64_to_le_bytes(bits));
            assert(spec_encode_value(v).len() == 9);
        },
        ValueView::Int(i) => {
            assert(full[0] == TAG_INT);
            assert(full.subrange(1, 9) =~= spec_u64_to_le_bytes(i as u64));
            assert(((i as u64) as i64) == i) by (bit_vector);
            assert(spec_encode_value(v).len() == 9);
        },
        ValueView::Text(t) => {
            assert(full[0] == TAG_TEXT);
            assert(full.skip(1) =~= spec_encode_str(t) + rest);
            lemma_decode_str_prefix(t, rest);
            assert(spec_encode_value(v).len() == 1 + spec_encode_str(t).len());
        },
    }
}

/// A wire entry decodes back to the pair it was encoded from, whatever
/// follows it; it always occupies at least one byte.
pub proof fn lemma_decode_entry_prefix(key: Seq<char>, v: ValueView, rest: Seq<u8>)
    requires
        entry_encodable((key, v)),
    ensures
        spec_decode_entry(spec_encode_entry(key, v) + rest) == Some(
            (key, v, spec_encode_entry(key, v).len() as int),
        ),
        spec_encode_entry(key, v).len() >= 5,
{
    let full = spec_encode_entry(key, v) + rest;
    let ks = spec_encode_str(key);
    assert(full =~= ks + (spec_encode_value(v) + rest));
    lemma_decode_str_prefix(key, spec_encode_value(v) + rest);
    assert(full.skip(ks.len() as int) =~= spec_encode_value(v) + rest);
    lemma_decode_value_prefix(v, rest);
    lemma_auto_spec_u32_to_from_le_bytes();
    assert(ks.len() >= 4);
    assert(spec_encode_value(v).len() >= 1);
}

/// The binary backend round-trips: decoding what was encoded yields exactly
/// the original entry list.
pub proof fn lemma_binary_round_trip(entries: Seq<(Seq<char>, ValueView)>)
    requires
        spec_encodable(entries),
    ensures
        spec_decode_binary(spec_encode_binary(entries)) == Some(entries),
    decreases entries.len(),
{
    if entries.len() == 0 {
        assert(spec_encode_binary(entries).len() == 0);
        assert(spec_decode_binary(spec_encode_binary(entries)) == Some(Seq::<(
            Seq<char>,
            ValueView,
        )>::empty()));
        assert(entries =~= Seq::<(Seq<char>, ValueView)>::empty());
    } else {
        let e0 = entries[0];
        let enc_rest = spec_encode_binary(entries.drop_first());
        let enc = spec_encode_binary(entries);
        assert(entry_encodable(e0));
        lemma_decode_entry_prefix(e0.0, e0.1, enc_rest);
        let n = spec_encode_entry(e0.0, e0.1).len() as int;
        assert(enc =~= spec_encode_entry(e0.0, e0.1) + enc_rest);
        assert(spec_decode_entry(enc) == Some((e0.0, e0.1, n)));
        assert(enc.skip(n) =~= enc_rest);
        assert(spec_encodable(entries.drop_first())) by {
            assert(forall|i: int|
                0 <= i < entries.drop_first().len() ==> #[trigger] entries.drop_first()[i]
                    == entries[i + 1]);
        }
        lemma_binary_round_trip(entries.drop_first());
        assert(spec_decode_binary(enc) == Some(seq![(e0.0, e0.1)] + entries.drop_first()));
        assert(seq![(e0.0, e0.1)] + entries.drop_first() =~= entries);
    }
}

/// The line separator of the text backend.
pub const LINE_END: u8 = 10;

/// The lower-case hexadecimal digit for `n`.
pub open spec fn spec_hex_digit(n: int) -> u8 {
    if n < 10 {
        (0x30 + n) as u8
    } else {
        (0x57 + n) as u8
    }
}

/// The value of a lower-case hexadecimal digit, or a negative number for
/// anything else.
pub open spec fn spec_unhex_digit(c: u8) -> int {
    if 0x30 <= c <= 0x39 {
        c - 0x30
    } else if 0x61 <= c <= 0x66 {
        c - 0x61 + 10
    } else {
        -1
    }
}

/// Bytes rendered as lower-case hexadecimal, two digits per byte.
pub open spec fn spec_hex_bytes(bs: Seq<u8>) -> Seq<u8>
    decreases bs.len(),
{
    if bs.len() == 0 {
        Seq::empty()
    } else {
        seq![
            spec_hex_digit(bs[0] as int / 16),
            spec_hex_digit(bs[0] as int % 16),
        ] + spec_hex_bytes(bs.drop_first())
    }
}

/// Hexadecimal back to bytes; `None` on an odd length or a non-digit.
pub open spec fn spec_unhex_bytes(hs: Seq<u8>) -> Option<Seq<u8>>
    decreases hs.len(),
{
    if hs.len() == 0 {
        Some(Seq::empty())
    } else if hs.len() == 1 {
        None
    } else {
        let d1 = spec_unhex_digit(hs[0]);
        let d2 = spec_unhex_digit(hs[1]);
        if d1 < 0 || d2 < 0 {
            None
        } else {
            match spec_unhex_bytes(hs.skip(2)) {
                None => None,
                Some(rest) => Some(seq![(d1 * 16 + d2) as u8] + rest),
            }
        }
    }
}

/// Hexadecimal digits are printable and never the line separator.
pub proof fn lemma_hex_bytes_no_line_end(bs: Seq<u8>)
    ensures
        spec_hex_bytes(bs).len() == 2 * bs.len(),
        forall|i: int|
            0 <= i < spec_hex_bytes(bs).len() ==> #[trigger] spec_hex_bytes(bs)[i] != LINE_END,
    decreases bs.len(),
{
    if bs.len() > 0 {
        lemma_hex_bytes_no_line_end(bs.drop_first());
    }
}

/// Un-hexing what was hexed yields the original bytes.
pub proof fn lemma_unhex_hex(bs: Seq<u8>)
    ensures
        spec_unhex_bytes(spec_hex_bytes(bs)) == Some(bs),
    decreases bs.len(),
{
    if bs.len() == 0 {
        assert(bs =~= Seq::<u8>::empty());
    } else {
        let b = bs[0];
        let hs = spec_hex_bytes(bs);
        lemma_hex_bytes_no_line_end(bs);
        assert(b as int / 16 < 16 && b as int % 16 < 16 && b as int == 16 * (b as int / 16) + b as int % 16) by (nonlinear_arith);
        assert(spec_unhex_digit(spec_hex_digit(b as int / 16)) == b as int / 16);
        assert(spec_unhex_digit(spec_hex_digit(b as int % 16)) == b as int % 16);
        assert(hs.skip(2) =~= spec_hex_bytes(bs.drop_first()));
        lemma_unhex_hex(bs.drop_first());
        assert(spec_unhex_digit(hs[0]) * 16 + spec_unhex_digit(hs[1]) == b);
        assert(seq![b] + bs.drop_first() =~= bs);
    }
}

/// The position of the first line separator.
pub open spec fn spec_find_line_end(bytes: Seq<u8>) -> Option<int>
    decreases bytes.len(),
{
    if bytes.len() == 0 {
        None
    } else if bytes[0] == LINE_END {
        Some(0)
    } else {
        match spec_find_line_end(bytes.drop_first()) {
            None => None,
            Some(i) => Some(i + 1),
        }
    }
}

/// What `spec_find_line_end` finds is the first separator; when it finds
/// nothing there is none.
pub proof fn lemma_find_line_end(bytes: Seq<u8>)
    ensures
        match spec_find_line_end(bytes) {
            Some(i) => {
                &&& 0 <= i < bytes.len()
                &&& bytes[i] == LINE_END
                &&& forall|m: int| 0 <= m < i ==> bytes[m] != LINE_END
            },
            None => forall|m: int| 0 <= m < bytes.len() ==> bytes[m] != LINE_END,
        },
    decreases bytes.len(),
{
    if bytes.len() > 0 && bytes[0] != LINE_END {
        let rest = bytes.drop_first();
        lemma_find_line_end(rest);
        assert(forall|m: int| 0 <= m < rest.len() ==> rest[m] == bytes[m + 1]);
        match spec_find_line_end(rest) {
            Some(i) => {
                assert(spec_find_line_end(bytes) == Some(i + 1));
                assert(bytes[i + 1] == rest[i]);
                assert forall|m: int| 0 <= m < i + 1 implies bytes[m] != LINE_END by {
                    if m > 0 {
                        assert(bytes[m] == rest[m - 1]);
                    }
                }
            },
            None => {
                assert forall|m: int| 0 <= m < bytes.len() implies bytes[m] != LINE_END by {
                    if m > 0 {
                        assert(bytes[m] == rest[m - 1]);
                    }
                }
            },
        }
    }
}

/// The first separator position determines the search result.
pub proof fn lemma_find_line_end_at(bytes: Seq<u8>, i: int)
    requires
        0 <= i < bytes.len(),
        bytes[i] == LINE_END,
        forall|m: int| 0 <= m < i ==> bytes[m] != LINE_END,
    ensures
        spec_find_line_end(bytes) == Some(i),
    decreases bytes.len(),
{
    if i > 0 {
        lemma_find_line_end_at(bytes.drop_first(), i - 1);
    }
}

/// The readable text encoding: one record per line, each the hexadecimal
/// rendering of that entry's wire bytes.
pub open spec fn spec_encode_text(entries: Seq<(Seq<char>, ValueView)>) -> Seq<u8>
    decreases entries.len(),
{
    if entries.len() == 0 {
        Seq::empty()
    } else {
        spec_hex_bytes(spec_encode_entry(entries[0].0, entries[0].1)) + seq![LINE_END]
            + spec_encode_text(entries.drop_first())
    }
}

/// Decodes the text encoding: line by line, each line un-hexed and read as
/// exactly one entry; a missing separator, stray digit, or leftover byte
/// fails the decode.
pub open spec fn spec_decode_text(bytes: Seq<u8>) -> Option<Seq<(Seq<char>, ValueView)>>
    decreases bytes.len(),
{
    if bytes.len() == 0 {
        Some(Seq::empty())
    } else {
        match spec_find_line_end(bytes) {
            None => None,
            Some(e) => {
                if 0 <= e < bytes.len() {
                    match spec_unhex_bytes(bytes.subrange(0, e)) {
                        None => None,
                        Some(raw) => match spec_decode_entry(raw) {
                            None => None,
                            Some(ent) => {
                                if ent.2 == raw.len() {
                                    match spec_decode_text(bytes.skip(e + 1)) {
                                        None => None,
                                        Some(rest) => Some(seq![(ent.0, ent.1)] + rest),
                                    }
                                } else {
                                    None
                                }
                            },
                        },
                    }
                } else {
                    None
                }
            },
        }
    }
}

/// The text backend round-trips: decoding what was encoded yields exactly
/// the original entry list.
pub proof fn lemma_text_round_trip(entries: Seq<(Seq<char>, ValueView)>)
    requires
        spec_encodable(entries),
    ensures
        spec_decode_text(spec_encode_text(entries)) == Some(entries),
    decreases entries.len(),
{
    if entries.len() == 0 {
        assert(spec_encode_text(entries).len() == 0);
        assert(entries =~= Seq::<(Seq<char>, ValueView)>::empty());
    } else {
        let e0 = entries[0];
        assert(entry_encodable(e0));
        let raw = spec_encode_entry(e0.0, e0.1);
        let hexed = spec_hex_bytes(raw);
        let enc_rest = spec_encode_text(entries.drop_first());
        let enc = spec_encode_text(entries);
        lemma_hex_bytes_no_line_end(raw);
        let e = hexed.len() as int;
        assert(enc[e] == LINE_END);
        assert(forall|m: int| 0 <= m < e ==> enc[m] == hexed[m] && enc[m] != LINE_END);
        lemma_find_line_end_at(enc, e);
        assert(enc.subrange(0, e) =~= hexed);
        lemma_unhex_hex(raw);
        lemma_decode_entry_prefix(e0.0, e0.1, Seq::empty());
        assert(raw + Seq::<u8>::empty() =~= raw);
        assert(spec_decode_entry(raw) == Some((e0.0, e0.1, raw.len() as int)));
        assert(enc.skip(e + 1) =~= enc_rest);
        assert(spec_encodable(entries.drop_first())) by {
            assert(forall|i: int|
                0 <= i < entries.drop_first().len() ==> #[trigger] entries.drop_first()[i]
                    == entries[i + 1]);
        }
        lemma_text_round_trip(entries.drop_first());
        assert(seq![(e0.0, e0.1)] + entries.drop_first() =~= entries);
    }
}

/// Appends one wire string.
fn encode_str_into(out: &mut Vec<u8>, s: &str)
    requires
        encode_utf8(s@).len() <= u32::MAX,
    ensures
        final(out)@ == old(out)@ + spec_encode_str(s@),
{
    let mut data = s.as_bytes_vec();
    let n = data.len() as u32;
    let mut len_bytes = u32_to_le_bytes(n);
    out.append(&mut len_bytes);
    out.append(&mut data);
    proof {
        assert(final(out)@ =~= old(out)@ + spec_encode_str(s@));
    }
}

/// Appends one wire entry.
fn encode_entry_into(out: &mut Vec<u8>, key: &String, value: &StateValue)
    requires
        entry_encodable((key@, value@)),
    ensures
        final(out)@ == old(out)@ + spec_encode_entry(key@, value@),
{
    encode_str_into(out, key.as_str());
    match value {
        StateValue::Float(bits) => {
            out.push(TAG_FLOAT);
            let mut payload = u64_to_le_bytes(*bits);
            out.append(&mut payload);
        },
        StateValue::Int(i) => {
            out.push(TAG_INT);
            let mut payload = u64_to_le_bytes(*i as u64);
            out.append(&mut payload);
        },
        StateValue::Text(t) => {
            out.push(TAG_TEXT);
            encode_str_into(out, t.as_str());
        },
    }
    proof {
        assert(final(out)@ =~= old(out)@ + spec_encode_entry(key@, value@));
    }
}

/// Encodes a state with the binary backend.
fn encode_binary(state: &State) -> (out: Vec<u8>)
    requires
        spec_encodable(state@),
    ensures
        out@ == spec_encode_binary(state@),
{
    let mut out: Vec<u8> = Vec::new();
    let n = state.0.len();
    proof {
        assert(state@.skip(0) =~= state@);
    }
    for i in 0..n
        invariant
            n == state.0.len(),
            spec_encodable(state@),
            out@ + spec_encode_binary(state@.skip(i as int)) == spec_encode_binary(state@),
    {
        proof {
            assert(state@.skip(i as int).drop_first() =~= state@.skip(i + 1));
            assert(state@.skip(i as int)[0] == state@[i as int]);
            assert(state@[i as int] == (state.0@[i as int].0@, state.0@[i as int].1@));
        }
        let entry = &state.0[i];
        encode_entry_into(&mut out, &entry.0, &entry.1);
    }
    proof {
        assert(state@.skip(n as int) =~= Seq::<(Seq<char>, ValueView)>::empty());
        assert(spec_encode_binary(state@.skip(n as int)) =~= Seq::<u8>::empty());
        assert(out@ =~= spec_encode_binary(state@));
    }
    out
}

/// The mathematical entry list a vector of decoded entries denotes.
pub open spec fn entries_view(entries: Seq<(String, StateValue)>) -> Seq<(Seq<char>, ValueView)> {
    entries.map_values(|p: (String, StateValue)| (p.0@, p.1@))
}

/// The two hexadecimal digits of one byte.
fn hex_digits(b: u8) -> (r: (u8, u8))
    ensures
        r.0 == spec_hex_digit(b as int / 16),
        r.1 == spec_hex_digit(b as int % 16),
{
    let hi = b / 16;
    let lo = b % 16;
    proof {
        assert(b as int / 16 < 16 && b as int % 16 < 16) by (nonlinear_arith)
            requires
                b < 256,
        ;
    }
    let hid = if hi < 10 {
        0x30 + hi
    } else {
        0x57 + hi
    };
    let lod = if lo < 10 {
        0x30 + lo
    } else {
        0x57 + lo
    };
    (hid, lod)
}

/// The value of one hexadecimal digit, or `None` for any other byte.
fn unhex_digit(c: u8) -> (r: Option<u8>)
    ensures
        match r {
            Some(d) => spec_unhex_digit(c) == d as int && d < 16,
            None => spec_unhex_digit(c) < 0,
        },
{
    if 0x30 <= c && c <= 0x39 {
        Some(c - 0x30)
    } else if 0x61 <= c && c <= 0x66 {
        Some(c - 0x61 + 10)
    } else {
        None
    }
}

/// Encodes a state with the text backend: one record per line.
fn encode_text(state: &State) -> (out: Vec<u8>)
    requires
        spec_encodable(state@),
    ensures
        out@ == spec_encode_text(state@),
{
    let mut out: Vec<u8> = Vec::new();
    let n = state.0.len();
    proof {
        assert(state@.skip(0) =~= state@);
    }
    for i in 0..n
        invariant
            n == state.0.len(),
            spec_encodable(state@),
            out@ + spec_encode_text(state@.skip(i as int)) == spec_encode_text(state@),
    {
        proof {
            assert(state@.skip(i as int).drop_first() =~= state@.skip(i + 1));
            assert(state@.skip(i as int)[0] == state@[i as int]);
            assert(state@[i as int] == (state.0@[i as int].0@, state.0@[i as int].1@));
        }
        let entry = &state.0[i];
        let mut raw: Vec<u8> = Vec::new();
        encode_entry_into(&mut raw, &entry.0, &entry.1);
        let m = raw.len();
        let ghost out_base = out@;
        proof {
            assert(raw@.skip(0) =~= raw@);
        }
        for k in 0..m
            invariant
                m == raw@.len(),
                out@ + spec_hex_bytes(raw@.skip(k as int)) == out_base + spec_hex_bytes(raw@),
        {
            proof {
                assert(raw@.skip(k as int)[0] == raw@[k as int]);
                assert(raw@.skip(k as int).drop_first() =~= raw@.skip(k + 1));
            }
            let digits = hex_digits(raw[k]);
            out.push(digits.0);
            out.push(digits.1);
            proof {
                assert(out@ + spec_hex_bytes(raw@.skip(k + 1)) =~= out_base + spec_hex_bytes(
                    raw@,
                ));
            }
        }
        proof {
            assert(raw@.skip(m as int) =~= Seq::<u8>::empty());
            assert(out@ =~= out_base + spec_hex_bytes(raw@));
        }
        out.push(LINE_END);
        proof {
            assert(out@ + spec_encode_text(state@.skip(i + 1)) =~= out_base + spec_hex_bytes(
                spec_encode_entry(state@[i as int].0, state@[i as int].1),
            ) + seq![LINE_END] + spec_encode_text(state@.skip(i + 1)));
            assert(out@ + spec_encode_text(state@.skip(i + 1)) =~= out_base + spec_encode_text(
                state@.skip(i as int),
            ));
        }
    }
    proof {
        assert(state@.skip(n as int) =~= Seq::<(Seq<char>, ValueView)>::empty());
        assert(spec_encode_text(state@.skip(n as int)) =~= Seq::<u8>::empty());
        assert(out@ =~= spec_encode_text(state@));
    }
    out
}

/// Reads one wire string at `pos`.
fn decode_str_at(bytes: &Vec<u8>, pos: usize) -> (r: Result<(String, usize), AssetError>)
    requires
        pos <= bytes@.len(),
    ensures
        match r {
            Ok(p) => {
                &&& spec_decode_str(bytes@.skip(pos as int)) matches Some(sp)
                &&& sp.0 == p.0@
                &&& pos + sp.1 == p.1
                &&& p.1 <= bytes@.len()
            },
            Err(e) => {
                &&& spec_decode_str(bytes@.skip(pos as int)) is None
                &&& (e == AssetError::Truncated || e == AssetError::InvalidUtf8)
            },
        },
{
    let total = bytes.len();
    if total - pos < 4 {
        return Err(AssetError::Truncated);
    }
    let len_slice = slice_subrange(bytes.as_slice(), pos, pos + 4);
    proof {
        assert(len_slice@ =~= bytes@.skip(pos as int).subrange(0, 4));
    }
    let n32 = u32_from_le_bytes(len_slice);
    let n = n32 as usize;
    if n > total - pos - 4 {
        return Err(AssetError::Truncated);
    }
    let data = slice_subrange(bytes.as_slice(), pos + 4, pos + 4 + n);
    proof {
        assert(data@ =~= bytes@.skip(pos as int).subrange(4, 4 + n as int));
    }
    match core::str::from_utf8(data) {
        Ok(s) => {
            let owned = String::from_str(s);
            proof {
                encode_utf8_decode_utf8(s@);
                assert(decode_utf8(data@) == s@);
            }
            Ok((owned, pos + 4 + n))
        },
        Err(_) => Err(AssetError::InvalidUtf8),
    }
}

/// Reads one value at `pos`.
fn decode_value_at(bytes: &Vec<u8>, pos: usize) -> (r: Result<(StateValue, usize), AssetError>)
    requires
        pos <= bytes@.len(),
    ensures
        match r {
            Ok(p) => {
                &&& spec_decode_value(bytes@.skip(pos as int)) matches Some(sp)
                &&& sp.0 == p.0@
                &&& pos + sp.1 == p.1
                &&& p.1 <= bytes@.len()
            },
            Err(_) => spec_decode_value(bytes@.skip(pos as int)) is None,
        },
{
    let total = bytes.len();
    if total - pos < 1 {
        return Err(AssetError::Truncated);
    }
    let tag = bytes[pos];
    proof {
        assert(bytes@.skip(pos as int)[0] == bytes@[pos as int]);
    }
    if tag == TAG_FLOAT {
        if total - pos < 9 {
            return Err(AssetError::Truncated);
        }
        let payload = slice_subrange(bytes.as_slice(), pos + 1, pos + 9);
        proof {
            assert(payload@ =~= bytes@.skip(pos as int).subrange(1, 9));
        }
        let bits = u64_from_le_bytes(payload);
        Ok((StateValue::Float(bits), pos + 9))
    } else if tag == TAG_INT {
        if total - pos < 9 {
            return Err(AssetError::Truncated);
        }
        let payload = slice_subrange(bytes.as_slice(), pos + 1, pos + 9);
        proof {
            assert(payload@ =~= bytes@.skip(pos as int).subrange(1, 9));
        }
        let word = u64_from_le_bytes(payload);
        Ok((StateValue::Int(#[verifier::truncate] (word as i64)), pos + 9))
    } else if tag == TAG_TEXT {
        proof {
            assert(bytes@.skip(pos as int).skip(1) =~= bytes@.skip(pos + 1));
        }
        let (text, end) = decode_str_at(bytes, pos + 1)?;
        Ok((StateValue::Text(text), end))
    } else {
        Err(AssetError::UnknownTag)
    }
}

/// Reads one entry at `pos`.
fn decode_entry_at(bytes: &Vec<u8>, pos: usize) -> (r: Result<
    (String, StateValue, usize),
    AssetError,
>)
    requires
        pos <= bytes@.len(),
    ensures
        match r {
            Ok(p) => {
                &&& spec_decode_entry(bytes@.skip(pos as int)) matches Some(sp)
                &&& sp.0 == p.0@
                &&& sp.1 == p.1@
                &&& pos + sp.2 == p.2
                &&& p.2 <= bytes@.len()
            },
            Err(_) => spec_decode_entry(bytes@.skip(pos as int)) is None,
        },
{
    let (key, key_end) = decode_str_at(bytes, pos)?;
    proof {
        let sp = spec_decode_str(bytes@.skip(pos as int)).unwrap();
        assert(bytes@.skip(pos as int).skip(sp.1) =~= bytes@.skip(key_end as int));
    }
    let (value, end) = decode_value_at(bytes, key_end)?;
    Ok((key, value, end))
}

/// An entry never occupies less than its key's length word plus a tag.
proof fn lemma_decoded_entry_min_len(bytes: Seq<u8>)
    requires
        spec_decode_entry(bytes) is Some,
    ensures
        spec_decode_entry(bytes).unwrap().2 >= 5,
        spec_decode_entry(bytes).unwrap().2 <= bytes.len(),
{
    let k = spec_decode_str(bytes).unwrap();
    let v = spec_decode_value(bytes.skip(k.1)).unwrap();
    assert(k.1 >= 4);
    assert(v.1 >= 1);
    assert(v.1 <= bytes.skip(k.1).len());
}

/// Decodes a binary-encoded entry list.
fn decode_binary_entries(bytes: &Vec<u8>) -> (r: Result<Vec<(String, StateValue)>, AssetError>)
    ensures
        match r {
            Ok(es) => spec_decode_binary(bytes@) == Some(entries_view(es@)),
            Err(_) => spec_decode_binary(bytes@) is None,
        },
{
    let mut entries: Vec<(String, StateValue)> = Vec::new();
    let mut pos: usize = 0;
    let total = bytes.len();
    proof {
        assert(bytes@.skip(0) =~= bytes@);
    }
    while pos < total
        invariant
            total == bytes@.len(),
            pos <= total,
            match spec_decode_binary(bytes@.skip(pos as int)) {
                Some(rest) => spec_decode_binary(bytes@) == Some(entries_view(entries@) + rest),
                None => spec_decode_binary(bytes@) is None,
            },
        decreases total - pos,
    {
        match decode_entry_at(bytes, pos) {
            Err(e) => {
                return Err(e);
            },
            Ok((key, value, end)) => {
                proof {
                    lemma_decoded_entry_min_len(bytes@.skip(pos as int));
                    assert(bytes@.skip(pos as int).skip((end - pos) as int) =~= bytes@.skip(
                        end as int,
                    ));
                    let ghost es_old = entries@;
                    assert(entries_view(es_old.push((key, value))) =~= entries_view(
                        es_old,
                    ).push((key@, value@)));
                }
                let ghost es_old = entries@;
                let ghost kv = (key@, value@);
                entries.push((key, value));
                proof {
                    assert(entries_view(entries@) =~= entries_view(es_old).push(kv));
                    match spec_decode_binary(bytes@.skip(end as int)) {
                        Some(rest) => {
                            assert(entries_view(es_old) + (seq![kv] + rest) =~= entries_view(
                                entries@,
                            ) + rest);
                        },
                        None => {},
                    }
                }
                pos = end;
            },
        }
    }
    proof {
        assert(bytes@.skip(total as int) =~= Seq::<u8>::empty());
        assert(entries_view(entries@) + Seq::<(Seq<char>, ValueView)>::empty() =~= entries_view(
            entries@,
        ));
    }
    Ok(entries)
}

/// The position of the next line separator at or after `pos`, or the end of
/// the input.
fn find_line_end_from(bytes: &Vec<u8>, pos: usize) -> (j: usize)
    requires
        pos <= bytes@.len(),
    ensures
        pos <= j <= bytes@.len(),
        forall|m: int| pos <= m < j ==> bytes@[m] != LINE_END,
        j < bytes@.len() ==> bytes@[j as int] == LINE_END,
{
    let total = bytes.len();
    let mut j = pos;
    while j < total
        invariant
            pos <= j <= total,
            total == bytes@.len(),
            forall|m: int| pos <= m < j ==> bytes@[m] != LINE_END,
        decreases total - j,
    {
        if bytes[j] == LINE_END {
            return j;
        }
        j = j + 1;
    }
    j
}

/// Decodes a text-encoded entry list, line by line.
fn decode_text_entries(bytes: &Vec<u8>) -> (r: Result<Vec<(String, StateValue)>, AssetError>)
    ensures
        match r {
            Ok(es) => spec_decode_text(bytes@) == Some(entries_view(es@)),
            Err(_) => spec_decode_text(bytes@) is None,
        },
{
    let mut entries: Vec<(String, StateValue)> = Vec::new();
    let mut pos: usize = 0;
    let total = bytes.len();
    proof {
        assert(bytes@.skip(0) =~= bytes@);
    }
    while pos < total
        invariant
            total == bytes@.len(),
            pos <= total,
            match spec_decode_text(bytes@.skip(pos as int)) {
                Some(rest) => spec_decode_text(bytes@) == Some(entries_view(entries@) + rest),
                None => spec_decode_text(bytes@) is None,
            },
        decreases total - pos,
    {
        let ghost line_start = bytes@.skip(pos as int);
        let j = find_line_end_from(bytes, pos);
        if j == total {
            proof {
                lemma_find_line_end(line_start);
                match spec_find_line_end(line_start) {
                    Some(i) => {
                        assert(line_start[i] == bytes@[pos + i]);
                        assert(false);
                    },
                    None => {},
                }
            }
            return Err(AssetError::Truncated);
        }
        proof {
            assert(line_start[(j - pos) as int] == bytes@[j as int]);
            assert(forall|m: int|
                0 <= m < j - pos ==> line_start[m] == bytes@[pos + m] && line_start[m] != LINE_END);
            lemma_find_line_end_at(line_start, (j - pos) as int);
        }
        let ghost hexseq = line_start.subrange(0, (j - pos) as int);
        proof {
            assert(hexseq =~= bytes@.subrange(pos as int, j as int));
            assert(hexseq.skip(0) =~= hexseq);
        }
        let mut raw: Vec<u8> = Vec::new();
        let mut k = pos;
        while k + 1 < j
            invariant
                pos <= k <= j,
                j < total,
                total == bytes@.len(),
                (k - pos) % 2 == 0,
                line_start == bytes@.skip(pos as int),
                spec_find_line_end(line_start) == Some((j - pos) as int),
                hexseq == bytes@.subrange(pos as int, j as int),
                hexseq == line_start.subrange(0, (j - pos) as int),
                match spec_unhex_bytes(hexseq.skip((k - pos) as int)) {
                    Some(rest) => spec_unhex_bytes(hexseq) == Some(raw@ + rest),
                    None => spec_unhex_bytes(hexseq) is None,
                },
                match spec_decode_text(bytes@.skip(pos as int)) {
                    Some(rest) => spec_decode_text(bytes@) == Some(entries_view(entries@) + rest),
                    None => spec_decode_text(bytes@) is None,
                },
            decreases j - k,
        {
            proof {
                assert(hexseq.skip((k - pos) as int)[0] == hexseq[(k - pos) as int]);
                assert(hexseq.skip((k - pos) as int)[1] == hexseq[(k - pos) + 1]);
                assert(hexseq[(k - pos) as int] == bytes@[k as int]);
                assert(hexseq[(k - pos) + 1] == bytes@[k + 1]);
                assert(hexseq.skip((k - pos) as int).skip(2) =~= hexseq.skip((k - pos) + 2));
            }
            let d1o = unhex_digit(bytes[k]);
            let d2o = unhex_digit(bytes[k + 1]);
            match (d1o, d2o) {
                (Some(d1), Some(d2)) => {
                    let ghost raw_old = raw@;
                    raw.push(d1 * 16 + d2);
                    proof {
                        match spec_unhex_bytes(hexseq.skip((k - pos) + 2)) {
                            Some(rest) => {
                                assert(raw_old + (seq![(d1 * 16 + d2) as u8] + rest) =~= raw@
                                    + rest);
                            },
                            None => {},
                        }
                    }
                    k = k + 2;
                },
                _ => {
                    return Err(AssetError::Truncated);
                },
            }
        }
        if k != j {
            proof {
                assert(hexseq.skip((k - pos) as int).len() == 1);
            }
            return Err(AssetError::Truncated);
        }
        proof {
            assert(hexseq.skip((j - pos) as int) =~= Seq::<u8>::empty());
            assert(raw@ + Seq::<u8>::empty() =~= raw@);
            assert(spec_unhex_bytes(hexseq) == Some(raw@));
            assert(raw@.skip(0) =~= raw@);
        }
        match decode_entry_at(&raw, 0) {
            Err(e) => {
                return Err(e);
            },
            Ok((key, value, end)) => {
                if end != raw.len() {
                    return Err(AssetError::Truncated);
                }
                proof {
                    assert(line_start.skip((j - pos) + 1) =~= bytes@.skip(j + 1));
                    let ghost es_old = entries@;
                    assert(entries_view(es_old.push((key, value))) =~= entries_view(
                        es_old,
                    ).push((key@, value@)));
                }
                let ghost es_old = entries@;
                let ghost kv = (key@, value@);
                entries.push((key, value));
                proof {
                    assert(entries_view(entries@) =~= entries_view(es_old).push(kv));
                    match spec_decode_text(bytes@.skip(j + 1)) {
                        Some(rest) => {
                            assert(entries_view(es_old) + (seq![kv] + rest) =~= entries_view(
                                entries@,
                            ) + rest);
                        },
                        None => {},
                    }
                }
                pos = j + 1;
            },
        }
    }
    proof {
        assert(bytes@.skip(total as int) =~= Seq::<u8>::empty());
        assert(entries_view(entries@) + Seq::<(Seq<char>, ValueView)>::empty() =~= entries_view(
            entries@,
        ));
    }
    Ok(entries)
}

/// Reports whether every key occurs once.
fn check_unique(entries: &Vec<(String, StateValue)>) -> (ok: bool)
    ensures
        ok == unique_keys(entries_view(entries@)),
{
    let n = entries.len();
    for i in 0..n
        invariant
            n == entries@.len(),
            forall|a: int, b: int|
                0 <= a < b < entries@.len() && a < i ==> entries_view(entries@)[a].0
                    != entries_view(entries@)[b].0,
    {
        for j in i + 1..n
            invariant
                n == entries@.len(),
                i < n,
                forall|a: int, b: int|
                    0 <= a < b < entries@.len() && a < i ==> entries_view(entries@)[a].0
                        != entries_view(entries@)[b].0,
                forall|b: int|
                    i < b < j ==> entries_view(entries@)[i as int].0 != entries_view(
                        entries@,
                    )[b].0,
        {
            if entries[i].0 == entries[j].0 {
                proof {
                    assert(entries_view(entries@)[i as int].0 == entries@[i as int].0@);
                    assert(entries_view(entries@)[j as int].0 == entries@[j as int].0@);
                }
                return false;
            }
        }
    }
    true
}

/// The serialized form of an entry list under the chosen backend.
pub open spec fn spec_encode_state(entries: Seq<(Seq<char>, ValueView)>, backend: Backend) -> Seq<
    u8,
> {
    match backend {
        Backend::Binary => spec_encode_binary(entries),
        Backend::Text => spec_encode_text(entries),
    }
}

/// The entry list a serialized state denotes under the chosen backend,
/// before the uniqueness check.
pub open spec fn spec_decode_entries(bytes: Seq<u8>, backend: Backend) -> Option<
    Seq<(Seq<char>, ValueView)>,
> {
    match backend {
        Backend::Binary => spec_decode_binary(bytes),
        Backend::Text => spec_decode_text(bytes),
    }
}

/// The state a serialized input denotes: its entry list, if it parses and
/// its keys are unique.
pub open spec fn spec_decode_state(bytes: Seq<u8>, backend: Backend) -> Option<
    Seq<(Seq<char>, ValueView)>,
> {
    match spec_decode_entries(bytes, backend) {
        None => None,
        Some(es) => {
            if unique_keys(es) {
                Some(es)
            } else {
                None
            }
        },
    }
}

/// Serializes a state with the chosen backend.
pub fn encode_state(state: &State, backend: Backend) -> (out: Vec<u8>)
    requires
        spec_encodable(state@),
    ensures
        out@ == spec_encode_state(state@, backend),
{
    match backend {
        Backend::Binary => encode_binary(state),
        Backend::Text => encode_text(state),
    }
}

/// Deserializes a state with the chosen backend.
///
/// Succeeds exactly when the input parses under that backend and its keys
/// are unique; a parsed input with a repeated key is rejected as
/// `DuplicateKey`, so no decoded state ever violates the mapping invariant.
pub fn decode_state(bytes: &Vec<u8>, backend: Backend) -> (r: Result<State, AssetError>)
    ensures
        match r {
            Ok(s) => spec_decode_state(bytes@, backend) == Some(s@) && s.wf(),
            Err(_) => spec_decode_state(bytes@, backend) is None,
        },
        (spec_decode_entries(bytes@, backend) matches Some(es) && !unique_keys(es)) ==> r
            == Err::<State, AssetError>(AssetError::DuplicateKey),
{
    let parsed = match backend {
        Backend::Binary => decode_binary_entries(bytes),
        Backend::Text => decode_text_entries(bytes),
    };
    let entries = match parsed {
        Ok(entries) => entries,
        Err(e) => {
            return Err(e);
        },
    };
    if check_unique(&entries) {
        Ok(State(entries))
    } else {
        Err(AssetError::DuplicateKey)
    }
}

/// Round-trip: encoding any well-formed, encodable entry list through
/// either backend and decoding it reproduces the identical mapping — the
/// same keys, the same variant tags, the same values, in the same order.
pub proof fn lemma_state_round_trip(entries: Seq<(Seq<char>, ValueView)>, backend: Backend)
    requires
        unique_keys(entries),
        spec_encodable(entries),
    ensures
        spec_decode_state(spec_encode_state(entries, backend), backend) == Some(entries),
{
    match backend {
        Backend::Binary => lemma_binary_round_trip(entries),
        Backend::Text => lemma_text_round_trip(entries),
    }
}

} // verus!

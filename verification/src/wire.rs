//! The tag/value wire format: varints, field keys and length-delimited
//! payloads, as mathematical functions on bytes and as executable code.

use vstd::prelude::*;
use vstd::slice::slice_subrange;
use vstd::slice::slice_to_vec;
use vstd::utf8::decode_utf8;
use vstd::utf8::encode_utf8;
use vstd::utf8::valid_utf8;
use prost::encoding::WireType;
use prost::DecodeError;
use crate::error::DecodeFailure;

verus! {

/// `prost::encoding::WireType`: the six wire types, known by their variants.
#[verifier::external_type_specification]
pub struct ExWireType(WireType);

/// `prost::DecodeError`: what the outside decoder reports; nothing is known
/// of what it holds.
#[verifier::external_type_specification]
#[verifier::external_body]
pub struct ExDecodeError(DecodeError);

/// The smallest field number of a key.
pub const MIN_TAG: u32 = 1;

/// The largest field number of a key.
pub const MAX_TAG: u32 = 0x1FFF_FFFF;

/// The number by which a wire type stands in a key.
pub open spec fn wire_number(wire: WireType) -> u8 {
    match wire {
        WireType::Varint => 0,
        WireType::SixtyFourBit => 1,
        WireType::LengthDelimited => 2,
        WireType::StartGroup => 3,
        WireType::EndGroup => 4,
        WireType::ThirtyTwoBit => 5,
    }
}

/// The base-128 encoding of `v`, least significant group first; every byte
/// but the last has its high bit set.
pub open spec fn varint(v: nat) -> Seq<u8>
    decreases v,
{
    if v < 128 {
        seq![v as u8]
    } else {
        seq![(v % 128 + 128) as u8] + varint(v / 128)
    }
}

/// The number that a varint at the start of `bytes` stands for, and its
/// length, when at most `budget` bytes may be read. The last byte that the
/// budget allows must be 0 or 1.
pub open spec fn varint_prefix(bytes: Seq<u8>, budget: nat) -> Option<(int, int)>
    decreases budget,
{
    if budget == 0 || bytes.len() == 0 {
        None
    } else if bytes[0] < 128 {
        if budget == 1 && bytes[0] >= 2 {
            None
        } else {
            Some((bytes[0] as int, 1))
        }
    } else {
        match varint_prefix(bytes.skip(1), (budget - 1) as nat) {
            Some((high, n)) => Some((bytes[0] - 128 + 128 * high, n + 1)),
            None => None,
        }
    }
}

/// The varint at the start of `bytes`: its value and its length. A varint
/// has at most ten bytes, and its value fits 64 bits.
pub open spec fn read_varint(bytes: Seq<u8>) -> Option<(u64, int)> {
    match varint_prefix(bytes, 10) {
        Some((v, n)) => Some((v as u64, n)),
        None => None,
    }
}

/// 128 to the power `k`.
pub open spec fn pow128(k: nat) -> nat
    decreases k,
{
    if k == 0 {
        1
    } else {
        128 * pow128((k - 1) as nat)
    }
}

/// Powers of 128 are positive.
pub proof fn lemma_pow128_positive(k: nat)
    ensures
        pow128(k) >= 1,
        k >= 1 ==> pow128(k) >= 128,
    decreases k,
{
    if k >= 1 {
        lemma_pow128_positive((k - 1) as nat);
    }
}

/// A varint that was read is at least one byte long, lies within the bytes,
/// and its value is below 2 * 128^(budget - 1).
pub proof fn lemma_varint_prefix_bounds(bytes: Seq<u8>, budget: nat)
    ensures
        varint_prefix(bytes, budget) matches Some((v, n)) ==> 1 <= n <= bytes.len() && n <= budget
            && 0 <= v < 2 * pow128((budget - 1) as nat),
    decreases budget,
{
    if budget == 0 || bytes.len() == 0 {
    } else if bytes[0] < 128 {
        lemma_pow128_positive((budget - 1) as nat);
    } else {
        lemma_varint_prefix_bounds(bytes.skip(1), (budget - 1) as nat);
        if budget >= 2 {
            assert(pow128((budget - 1) as nat) == 128 * pow128((budget - 2) as nat));
        }
    }
}

/// What `read_varint` finds fits 64 bits and lies within the bytes.
pub proof fn lemma_read_varint_bounds(bytes: Seq<u8>)
    ensures
        read_varint(bytes) matches Some((v, n)) ==> 1 <= n <= bytes.len() && n <= 10
            && varint_prefix(bytes, 10) == Some((v as int, n)),
{
    lemma_varint_prefix_bounds(bytes, 10);
    assert(2 * pow128(9) == 0x1_0000_0000_0000_0000) by {
        reveal_with_fuel(pow128, 10);
    }
}

/// Reading undoes writing: a varint written by `varint`, whatever follows
/// it, is read back with its value and its length.
pub proof fn lemma_varint_prefix_of_varint(v: nat, rest: Seq<u8>, budget: nat)
    requires
        budget >= 1,
        v < 2 * pow128((budget - 1) as nat),
    ensures
        varint_prefix(varint(v) + rest, budget) == Some((v as int, varint(v).len() as int)),
    decreases v,
{
    let bytes = varint(v) + rest;
    if v < 128 {
        assert(bytes[0] == v as u8);
    } else {
        assert(budget >= 2) by {
            if budget == 1 {
                assert(pow128(0) == 1);
            }
        }
        assert(pow128((budget - 1) as nat) == 128 * pow128((budget - 2) as nat));
        lemma_varint_prefix_of_varint(v / 128, rest, (budget - 1) as nat);
        assert(v % 128 + 128 < 256);
        assert(bytes[0] == (v % 128 + 128) as u8);
        assert(bytes.skip(1) =~= varint(v / 128) + rest);
    }
}

/// Reading undoes writing, for the full budget of ten bytes.
pub proof fn lemma_read_varint_of_varint(v: u64, rest: Seq<u8>)
    ensures
        read_varint(varint(v as nat) + rest) == Some((v, varint(v as nat).len() as int)),
        1 <= varint(v as nat).len() <= 10,
{
    assert(2 * pow128(9) == 0x1_0000_0000_0000_0000) by {
        reveal_with_fuel(pow128, 10);
    }
    lemma_varint_prefix_of_varint(v as nat, rest, 10);
    lemma_varint_prefix_bounds(varint(v as nat) + rest, 10);
}

/// The key of a field: its number and its wire type, as one varint.
pub open spec fn key(tag: u32, wire: WireType) -> Seq<u8> {
    varint((tag * 8 + wire_number(wire)) as nat)
}

/// The wire type that a number below 8 stands for.
pub open spec fn wire_of_number(n: int) -> Option<WireType> {
    if n == 0 {
        Some(WireType::Varint)
    } else if n == 1 {
        Some(WireType::SixtyFourBit)
    } else if n == 2 {
        Some(WireType::LengthDelimited)
    } else if n == 3 {
        Some(WireType::StartGroup)
    } else if n == 4 {
        Some(WireType::EndGroup)
    } else if n == 5 {
        Some(WireType::ThirtyTwoBit)
    } else {
        None
    }
}

/// The key at the start of `bytes`: field number, wire type and length. The
/// varint must fit 32 bits, name one of the six wire types, and hold a field
/// number of at least 1.
pub open spec fn read_key(bytes: Seq<u8>) -> Option<(u32, WireType, int)> {
    match read_varint(bytes) {
        Some((k, n)) => {
            if k <= u32::MAX && k / 8 >= 1 {
                match wire_of_number((k % 8) as int) {
                    Some(wire) => Some(((k / 8) as u32, wire, n)),
                    None => None,
                }
            } else {
                None
            }
        },
        None => None,
    }
}

/// A key that was read is at least one byte long and lies within the bytes.
pub proof fn lemma_read_key_bounds(bytes: Seq<u8>)
    ensures
        read_key(bytes) matches Some((tag, wire, n)) ==> 1 <= n <= bytes.len() && tag >= MIN_TAG,
{
    lemma_read_varint_bounds(bytes);
}

/// Reading undoes writing: a key, whatever follows it, is read back.
pub proof fn lemma_read_key_of_key(tag: u32, wire: WireType, rest: Seq<u8>)
    requires
        MIN_TAG <= tag <= MAX_TAG,
    ensures
        read_key(key(tag, wire) + rest) == Some((tag, wire, key(tag, wire).len() as int)),
        key(tag, wire).len() >= 1,
{
    let k: u64 = (tag * 8 + wire_number(wire)) as u64;
    lemma_read_varint_of_varint(k, rest);
}

/// What a payload looks like on the wire: its length as a varint, then the
/// payload.
pub open spec fn length_delimited(payload: Seq<u8>) -> Seq<u8> {
    varint(payload.len()) + payload
}

/// The length-delimited payload at the start of `bytes`, and how many bytes
/// it and its length take together. The length must not exceed what follows
/// it.
pub open spec fn read_length_delimited(bytes: Seq<u8>) -> Option<(Seq<u8>, int)> {
    match read_varint(bytes) {
        Some((len, n)) => {
            if len <= bytes.len() - n {
                Some((bytes.subrange(n, n + len), n + len))
            } else {
                None
            }
        },
        None => None,
    }
}

/// Reading undoes writing: a payload shorter than 2^64 bytes, whatever
/// follows it, is read back.
pub proof fn lemma_read_length_delimited_of(payload: Seq<u8>, rest: Seq<u8>)
    requires
        payload.len() <= u64::MAX,
    ensures
        read_length_delimited(length_delimited(payload) + rest) == Some(
            (payload, length_delimited(payload).len() as int),
        ),
{
    let len: u64 = payload.len() as u64;
    let head = varint(payload.len());
    lemma_read_varint_of_varint(len, payload + rest);
    let bytes = length_delimited(payload) + rest;
    assert(bytes =~= head + (payload + rest));
    assert(bytes.subrange(head.len() as int, (head.len() + payload.len()) as int) =~= payload);
}

/// Where `prost::encoding::skip_field`, called with a fresh decode context,
/// succeeds on `bytes` for a field of the given wire type and number: the
/// count of bytes that it passes over. `None` where it fails.
pub uninterp spec fn skipped(wire: u8, tag: u32, bytes: Seq<u8>) -> Option<int>;

/// `prost::encoding::encode_varint` on a vector: appends the base-128 form of
/// `value`, low group first, with the high bit set on all bytes but the last.
#[verifier::external_body]
pub(crate) fn put_varint(value: u64, buf: &mut Vec<u8>)
    ensures
        final(buf)@ == old(buf)@ + varint(value as nat),
{
    prost::encoding::encode_varint(value, buf)
}

/// `prost::encoding::decode_varint` on a slice: reads at most ten bytes up to
/// the first one without the high bit, fails where the slice ends before
/// that or the tenth byte is above 1, and hands back the value and what
/// follows the varint.
#[verifier::external_body]
pub(crate) fn take_varint<'a>(buf: &'a [u8]) -> (r: Result<(u64, &'a [u8]), DecodeError>)
    ensures
        match r {
            Ok((v, rest)) => read_varint(buf@) matches Some((value, n)) && v == value && rest@
                == buf@.skip(n),
            Err(_) => read_varint(buf@) is None,
        },
{
    let mut rest = buf;
    let v = prost::encoding::decode_varint(&mut rest)?;
    Ok((v, rest))
}

/// `prost::encoding::encode_key` on a vector: appends the varint of
/// `tag * 8 + wire type`. The outside function asserts the range of `tag`.
#[verifier::external_body]
pub(crate) fn put_key(tag: u32, wire: WireType, buf: &mut Vec<u8>)
    requires
        MIN_TAG <= tag <= MAX_TAG,
    ensures
        final(buf)@ == old(buf)@ + key(tag, wire),
{
    prost::encoding::encode_key(tag, wire, buf)
}

/// `prost::encoding::decode_key` on a slice: reads a varint, fails where it
/// is above 32 bits, names no wire type or holds field number 0, and hands
/// back field number, wire type and what follows the key.
#[verifier::external_body]
pub(crate) fn take_key<'a>(buf: &'a [u8]) -> (r: Result<(u32, WireType, &'a [u8]), DecodeError>)
    ensures
        match r {
            Ok((tag, wire, rest)) => read_key(buf@) matches Some((t, w, n)) && tag == t && wire
                == w && rest@ == buf@.skip(n),
            Err(_) => read_key(buf@) is None,
        },
{
    let mut rest = buf;
    let (tag, wire) = prost::encoding::decode_key(&mut rest)?;
    Ok((tag, wire, rest))
}

/// `prost::encoding::skip_field` on a slice, with a fresh decode context:
/// passes over one field of a number that the schema does not know, and
/// hands back what follows it.
#[verifier::external_body]
pub(crate) fn skip_field<'a>(wire: WireType, tag: u32, buf: &'a [u8]) -> (r: Result<
    &'a [u8],
    DecodeError,
>)
    ensures
        match r {
            Ok(rest) => skipped(wire_number(wire), tag, buf@) matches Some(n) && 0 <= n
                <= buf@.len() && rest@ == buf@.skip(n),
            Err(_) => skipped(wire_number(wire), tag, buf@) is None,
        },
{
    let mut rest = buf;
    prost::encoding::skip_field(wire, tag, &mut rest, prost::encoding::DecodeContext::default())?;
    Ok(rest)
}

/// `String::from_utf8`: the text that well-formed UTF-8 bytes stand for;
/// nothing where they are not well-formed.
#[verifier::external_body]
pub(crate) fn text_from_utf8(bytes: Vec<u8>) -> (r: Option<String>)
    ensures
        match r {
            Some(text) => vstd::utf8::valid_utf8(bytes@) && text@ == vstd::utf8::decode_utf8(
                bytes@,
            ),
            None => !vstd::utf8::valid_utf8(bytes@),
        },
{
    String::from_utf8(bytes).ok()
}

/// A failure of the outside decoder becomes this crate's failure.
pub(crate) fn take_varint_checked<'a>(buf: &'a [u8]) -> (r: Result<
    (u64, &'a [u8]),
    DecodeFailure,
>)
    ensures
        match r {
            Ok((v, rest)) => read_varint(buf@) matches Some((value, n)) && v == value && 1 <= n
                <= buf@.len() && rest@ == buf@.skip(n),
            Err(_) => read_varint(buf@) is None,
        },
{
    proof {
        lemma_read_varint_bounds(buf@);
    }
    match take_varint(buf) {
        Ok(found) => Ok(found),
        Err(_) => Err(DecodeFailure),
    }
}

/// Reads the key of the next field.
pub fn read_field_key<'a>(buf: &'a [u8]) -> (r: Result<(u32, WireType, &'a [u8]), DecodeFailure>)
    ensures
        match r {
            Ok((tag, wire, rest)) => read_key(buf@) matches Some((t, w, n)) && tag == t && wire
                == w && 1 <= n <= buf@.len() && rest@ == buf@.skip(n),
            Err(_) => read_key(buf@) is None,
        },
{
    proof {
        lemma_read_key_bounds(buf@);
    }
    match take_key(buf) {
        Ok(found) => Ok(found),
        Err(_) => Err(DecodeFailure),
    }
}

/// Passes over a field that the schema at hand does not know. Groups may be
/// nested in it as deeply as the outside decoder allows in a field at the top
/// of a message; in a nested record they are counted from the field too.
pub fn skip_unknown<'a>(wire: WireType, tag: u32, buf: &'a [u8]) -> (r: Result<
    &'a [u8],
    DecodeFailure,
>)
    ensures
        match r {
            Ok(rest) => skipped(wire_number(wire), tag, buf@) matches Some(n) && 0 <= n
                <= buf@.len() && rest@ == buf@.skip(n),
            Err(_) => skipped(wire_number(wire), tag, buf@) is None,
        },
{
    match skip_field(wire, tag, buf) {
        Ok(rest) => Ok(rest),
        Err(_) => Err(DecodeFailure),
    }
}

/// Appends a payload with its length in front.
pub fn write_length_delimited(payload: &[u8], buf: &mut Vec<u8>)
    ensures
        final(buf)@ == old(buf)@ + length_delimited(payload@),
{
    put_varint(payload.len() as u64, buf);
    buf.extend_from_slice(payload);
    assert(final(buf)@ =~= old(buf)@ + length_delimited(payload@));
}

/// Reads a payload with its length in front, and hands back the payload and
/// what follows it.
pub fn take_length_delimited<'a>(buf: &'a [u8]) -> (r: Result<
    (&'a [u8], &'a [u8]),
    DecodeFailure,
>)
    ensures
        match r {
            Ok((payload, rest)) => read_length_delimited(buf@) matches Some((p, n)) && payload@
                == p && 0 <= n <= buf@.len() && rest@ == buf@.skip(n),
            Err(_) => read_length_delimited(buf@) is None,
        },
{
    let (len, after) = take_varint_checked(buf)?;
    if len > after.len() as u64 {
        return Err(DecodeFailure);
    }
    let n: usize = len as usize;
    let payload = slice_subrange(after, 0, n);
    let rest = slice_subrange(after, n, after.len());
    proof {
        let found = read_varint(buf@)->0;
        let k = found.1;
        assert(payload@ =~= buf@.subrange(k, k + len));
        assert(rest@ =~= buf@.skip(k + len));
    }
    Ok((payload, rest))
}

/// A text field on the wire: key, length, UTF-8 bytes.
pub open spec fn text_field(tag: u32, text: Seq<char>) -> Seq<u8> {
    key(tag, WireType::LengthDelimited) + length_delimited(encode_utf8(text))
}

/// A text field that is left out where the text is empty.
pub open spec fn plain_text_field(tag: u32, text: Seq<char>) -> Seq<u8> {
    if text.len() == 0 {
        Seq::empty()
    } else {
        text_field(tag, text)
    }
}

/// The text that a field holds, found after its key, and the bytes it takes.
/// The wire type must be length-delimited and the payload well-formed UTF-8.
pub open spec fn read_text(wire: WireType, bytes: Seq<u8>) -> Option<(Seq<char>, int)> {
    if wire != WireType::LengthDelimited {
        None
    } else {
        match read_length_delimited(bytes) {
            Some((payload, n)) => {
                if valid_utf8(payload) {
                    Some((decode_utf8(payload), n))
                } else {
                    None
                }
            },
            None => None,
        }
    }
}

/// Reading undoes writing: the payload of a text field, whatever follows it,
/// is read back as the text.
pub proof fn lemma_read_text_of(text: Seq<char>, rest: Seq<u8>)
    requires
        encode_utf8(text).len() <= u64::MAX,
    ensures
        read_text(WireType::LengthDelimited, length_delimited(encode_utf8(text)) + rest) == Some(
            (text, length_delimited(encode_utf8(text)).len() as int),
        ),
{
    vstd::utf8::encode_utf8_valid_utf8(text);
    vstd::utf8::encode_utf8_decode_utf8(text);
    lemma_read_length_delimited_of(encode_utf8(text), rest);
}

/// Appends a text field.
pub fn write_text(tag: u32, text: &str, buf: &mut Vec<u8>)
    requires
        MIN_TAG <= tag <= MAX_TAG,
    ensures
        final(buf)@ == old(buf)@ + text_field(tag, text@),
{
    put_key(tag, WireType::LengthDelimited, buf);
    write_length_delimited(text.as_bytes(), buf);
    assert(final(buf)@ =~= old(buf)@ + text_field(tag, text@));
}

/// Appends a text field, unless the text is empty.
pub fn write_plain_text(tag: u32, text: &str, buf: &mut Vec<u8>)
    requires
        MIN_TAG <= tag <= MAX_TAG,
    ensures
        final(buf)@ == old(buf)@ + plain_text_field(tag, text@),
{
    if !text.is_empty() {
        write_text(tag, text, buf);
    } else {
        assert(final(buf)@ =~= old(buf)@ + plain_text_field(tag, text@));
    }
}

/// Reads the text of a field, found after its key.
pub fn take_text<'a>(wire: WireType, buf: &'a [u8]) -> (r: Result<
    (String, &'a [u8]),
    DecodeFailure,
>)
    ensures
        match r {
            Ok((text, rest)) => read_text(wire, buf@) matches Some((t, n)) && text@ == t && 0 <= n
                <= buf@.len() && rest@ == buf@.skip(n),
            Err(_) => read_text(wire, buf@) is None,
        },
{
    match wire {
        WireType::LengthDelimited => {
            let (payload, rest) = take_length_delimited(buf)?;
            match text_from_utf8(slice_to_vec(payload)) {
                Some(text) => Ok((text, rest)),
                None => Err(DecodeFailure),
            }
        },
        _ => Err(DecodeFailure),
    }
}

/// A field of raw bytes on the wire: key, length, bytes.
pub open spec fn bytes_field(tag: u32, payload: Seq<u8>) -> Seq<u8> {
    key(tag, WireType::LengthDelimited) + length_delimited(payload)
}

/// A field of raw bytes that is left out where there are none.
pub open spec fn plain_bytes_field(tag: u32, payload: Seq<u8>) -> Seq<u8> {
    if payload.len() == 0 {
        Seq::empty()
    } else {
        bytes_field(tag, payload)
    }
}

/// The raw bytes that a field holds, found after its key, and the bytes it
/// takes. The wire type must be length-delimited.
pub open spec fn read_bytes(wire: WireType, bytes: Seq<u8>) -> Option<(Seq<u8>, int)> {
    if wire != WireType::LengthDelimited {
        None
    } else {
        read_length_delimited(bytes)
    }
}

/// Appends a field of raw bytes, unless there are none.
pub fn write_plain_bytes(tag: u32, payload: &[u8], buf: &mut Vec<u8>)
    requires
        MIN_TAG <= tag <= MAX_TAG,
    ensures
        final(buf)@ == old(buf)@ + plain_bytes_field(tag, payload@),
{
    if payload.len() != 0 {
        put_key(tag, WireType::LengthDelimited, buf);
        write_length_delimited(payload, buf);
    }
    assert(final(buf)@ =~= old(buf)@ + plain_bytes_field(tag, payload@));
}

/// Reads the raw bytes of a field, found after its key.
pub fn take_bytes<'a>(wire: WireType, buf: &'a [u8]) -> (r: Result<
    (Vec<u8>, &'a [u8]),
    DecodeFailure,
>)
    ensures
        match r {
            Ok((payload, rest)) => read_bytes(wire, buf@) matches Some((p, n)) && payload@ == p
                && 0 <= n <= buf@.len() && rest@ == buf@.skip(n),
            Err(_) => read_bytes(wire, buf@) is None,
        },
{
    match wire {
        WireType::LengthDelimited => {
            let (payload, rest) = take_length_delimited(buf)?;
            Ok((slice_to_vec(payload), rest))
        },
        _ => Err(DecodeFailure),
    }
}

/// A number field on the wire: key and varint.
pub open spec fn number_field(tag: u32, v: u64) -> Seq<u8> {
    key(tag, WireType::Varint) + varint(v as nat)
}

/// A number field that is left out where the number is 0.
pub open spec fn plain_number_field(tag: u32, v: u64) -> Seq<u8> {
    if v == 0 {
        Seq::empty()
    } else {
        number_field(tag, v)
    }
}

/// The number that a field holds, found after its key, and the bytes it
/// takes. The wire type must be varint.
pub open spec fn read_number(wire: WireType, bytes: Seq<u8>) -> Option<(u64, int)> {
    if wire != WireType::Varint {
        None
    } else {
        read_varint(bytes)
    }
}

/// Appends a number field, unless the number is 0.
pub fn write_plain_number(tag: u32, v: u64, buf: &mut Vec<u8>)
    requires
        MIN_TAG <= tag <= MAX_TAG,
    ensures
        final(buf)@ == old(buf)@ + plain_number_field(tag, v),
{
    if v != 0 {
        put_key(tag, WireType::Varint, buf);
        put_varint(v, buf);
    }
    assert(final(buf)@ =~= old(buf)@ + plain_number_field(tag, v));
}

/// Reads the number of a field, found after its key.
pub fn take_number<'a>(wire: WireType, buf: &'a [u8]) -> (r: Result<(u64, &'a [u8]), DecodeFailure>)
    ensures
        match r {
            Ok((v, rest)) => read_number(wire, buf@) matches Some((value, n)) && v == value
                && 0 <= n <= buf@.len() && rest@ == buf@.skip(n),
            Err(_) => read_number(wire, buf@) is None,
        },
{
    match wire {
        WireType::Varint => take_varint_checked(buf),
        _ => Err(DecodeFailure),
    }
}

/// One step of reading a varint back, for callers that hold the number as
/// a 64-bit value.
pub proof fn lemma_read_number_of(v: u64, rest: Seq<u8>)
    ensures
        read_number(WireType::Varint, varint(v as nat) + rest) == Some(
            (v, varint(v as nat).len() as int),
        ),
{
    lemma_read_varint_of_varint(v, rest);
}

/// Reading undoes writing: the payload of a field of raw bytes, whatever
/// follows it, is read back.
pub proof fn lemma_read_bytes_of(payload: Seq<u8>, rest: Seq<u8>)
    requires
        payload.len() <= u64::MAX,
    ensures
        read_bytes(WireType::LengthDelimited, length_delimited(payload) + rest) == Some(
            (payload, length_delimited(payload).len() as int),
        ),
{
    lemma_read_length_delimited_of(payload, rest);
}

/// Whether two texts are the same, character by character.
pub fn same_text(a: &str, b: &str) -> (r: bool)
    ensures
        r == (a@ == b@),
{
    let x = a.as_bytes();
    let y = b.as_bytes();
    if x.len() != y.len() {
        return false;
    }
    let mut i: usize = 0;
    while i < x.len()
        invariant
            i <= x.len(),
            x.len() == y.len(),
            x@ == encode_utf8(a@),
            y@ == encode_utf8(b@),
            forall|j: int| 0 <= j < i ==> x@[j] == y@[j],
        decreases x.len() - i,
    {
        if x[i] != y[i] {
            return false;
        }
        i += 1;
    }
    proof {
        assert(x@ =~= y@);
        vstd::utf8::encode_utf8_decode_utf8(a@);
        vstd::utf8::encode_utf8_decode_utf8(b@);
    }
    true
}

} // verus!

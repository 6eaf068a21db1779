//! Messages: records whose fields stand on the wire one after another, each
//! behind its key, in any order.

use vstd::prelude::*;
use vstd::utf8::encode_utf8;
use prost::encoding::WireType;
use prost_types::Any;
use crate::error::DecodeFailure;
use crate::wire::key;
use crate::wire::lemma_read_key_of_key;
use crate::wire::lemma_read_length_delimited_of;
use crate::wire::length_delimited;
use crate::wire::plain_bytes_field;
use crate::wire::plain_number_field;
use crate::wire::plain_text_field;
use crate::wire::put_key;
use crate::wire::read_field_key;
use crate::wire::read_key;
use crate::wire::read_length_delimited;
use crate::wire::take_length_delimited;
use crate::wire::text_field;
use crate::wire::varint;
use crate::wire::write_text;
use crate::wire::write_length_delimited;
use crate::wire::MAX_TAG;
use crate::wire::MIN_TAG;

verus! {

/// `prost_types::Any`: a tagged blob, known by its two fields, the type
/// identifier `type_url` and the payload `value`.
#[verifier::external_type_specification]
pub struct ExAny(Any);

/// A record with a wire schema.
///
/// `merged` says what one field does to a value that is being decoded;
/// `encoded` says which bytes a value is written as.
pub trait Message: Sized {
    /// What a record stands for, as a mathematical value.
    type Model;

    /// The value of this record.
    spec fn model(&self) -> Self::Model;

    /// The value that decoding starts from: every field at its default.
    spec fn blank() -> Self::Model;

    /// The value after one more field, and the count of bytes that the
    /// field takes after its key. `None` where the field is malformed.
    spec fn merged(m: Self::Model, tag: u32, wire: WireType, bytes: Seq<u8>) -> Option<
        (Self::Model, int),
    >;

    /// The bytes of a value: its fields in the order of their numbers, those
    /// at their default left out.
    spec fn encoded(m: Self::Model) -> Seq<u8>;

    /// A record with every field at its default.
    fn new_blank() -> (r: Self)
        ensures
            r.model() == Self::blank(),
    ;

    /// Takes one field, whose key has been read, from the start of `buf`
    /// into this record, and hands back what follows the field.
    fn merge_field<'a>(&mut self, tag: u32, wire: WireType, buf: &'a [u8]) -> (r: Result<
        &'a [u8],
        DecodeFailure,
    >)
        ensures
            match r {
                Ok(rest) => Self::merged(old(self).model(), tag, wire, buf@) matches Some((m, n))
                    && final(self).model() == m && 0 <= n <= buf@.len() && rest@ == buf@.skip(n),
                Err(_) => Self::merged(old(self).model(), tag, wire, buf@) is None,
            },
    ;

    /// Appends the bytes of this record.
    fn encode_raw(&self, buf: &mut Vec<u8>)
        ensures
            final(buf)@ == old(buf)@ + Self::encoded(self.model()),
    ;
}

/// The value that `m` becomes when the fields in `bytes` are merged into it
/// one after another. `None` where a key or a field is malformed.
pub open spec fn parsed<M: Message>(bytes: Seq<u8>, m: M::Model) -> Option<M::Model>
    decreases bytes.len(),
{
    if bytes.len() == 0 {
        Some(m)
    } else {
        match read_key(bytes) {
            Some((tag, wire, k)) => match M::merged(m, tag, wire, bytes.skip(k)) {
                Some((next, n)) => {
                    if 1 <= k && 0 <= n && k + n <= bytes.len() {
                        parsed::<M>(bytes.skip(k + n), next)
                    } else {
                        None
                    }
                },
                None => None,
            },
            None => None,
        }
    }
}

/// The value that `bytes` decode to.
pub open spec fn decoded<M: Message>(bytes: Seq<u8>) -> Option<M::Model> {
    parsed::<M>(bytes, M::blank())
}

/// The law of a schema: decoding undoes encoding.
pub trait RoundTrip: Message {
    /// Every value whose bytes are fewer than 2^64 decodes, from its bytes,
    /// to itself.
    proof fn lemma_round_trip(m: Self::Model)
        requires
            Self::encoded(m).len() <= u64::MAX,
        ensures
            decoded::<Self>(Self::encoded(m)) == Some(m),
    ;
}

/// One step of decoding: where a field with key and payload stands in front
/// of `rest` and merges into `m` as `next`, what remains to decode is `rest`
/// into `next`.
pub proof fn lemma_parsed_field<M: Message>(
    tag: u32,
    wire: WireType,
    field: Seq<u8>,
    rest: Seq<u8>,
    m: M::Model,
    next: M::Model,
)
    requires
        MIN_TAG <= tag <= MAX_TAG,
        M::merged(m, tag, wire, field + rest) == Some((next, field.len() as int)),
    ensures
        parsed::<M>(key(tag, wire) + field + rest, m) == parsed::<M>(rest, next),
{
    let head = key(tag, wire);
    let bytes = head + field + rest;
    lemma_read_key_of_key(tag, wire, field + rest);
    assert(bytes =~= head + (field + rest));
    assert(bytes.skip(head.len() as int) =~= field + rest);
    assert(bytes.skip((head.len() + field.len()) as int) =~= rest);
}

/// One step of decoding, for a text field that is left out where the text is
/// empty: where the field, if it is there, merges into `before` as `after`,
/// what remains to decode is `rest` into `after`.
pub proof fn lemma_parsed_plain_text<M: Message>(
    tag: u32,
    text: Seq<char>,
    rest: Seq<u8>,
    before: M::Model,
    after: M::Model,
)
    requires
        MIN_TAG <= tag <= MAX_TAG,
        text.len() == 0 ==> after == before,
        text.len() > 0 ==> M::merged(
            before,
            tag,
            WireType::LengthDelimited,
            length_delimited(encode_utf8(text)) + rest,
        ) == Some((after, length_delimited(encode_utf8(text)).len() as int)),
    ensures
        parsed::<M>(plain_text_field(tag, text) + rest, before) == parsed::<M>(rest, after),
{
    if text.len() > 0 {
        let payload = length_delimited(encode_utf8(text));
        lemma_parsed_field::<M>(tag, WireType::LengthDelimited, payload, rest, before, after);
        assert(plain_text_field(tag, text) + rest =~= key(tag, WireType::LengthDelimited) + payload
            + rest);
    } else {
        assert(plain_text_field(tag, text) + rest =~= rest);
    }
}

/// One step of decoding, for a field of raw bytes that is left out where
/// there are none.
pub proof fn lemma_parsed_plain_bytes<M: Message>(
    tag: u32,
    payload: Seq<u8>,
    rest: Seq<u8>,
    before: M::Model,
    after: M::Model,
)
    requires
        MIN_TAG <= tag <= MAX_TAG,
        payload.len() == 0 ==> after == before,
        payload.len() > 0 ==> M::merged(
            before,
            tag,
            WireType::LengthDelimited,
            length_delimited(payload) + rest,
        ) == Some((after, length_delimited(payload).len() as int)),
    ensures
        parsed::<M>(plain_bytes_field(tag, payload) + rest, before) == parsed::<M>(rest, after),
{
    if payload.len() > 0 {
        let field = length_delimited(payload);
        lemma_parsed_field::<M>(tag, WireType::LengthDelimited, field, rest, before, after);
        assert(plain_bytes_field(tag, payload) + rest =~= key(tag, WireType::LengthDelimited)
            + field + rest);
    } else {
        assert(plain_bytes_field(tag, payload) + rest =~= rest);
    }
}

/// One step of decoding, for a number field that is left out where the
/// number is 0.
pub proof fn lemma_parsed_plain_number<M: Message>(
    tag: u32,
    v: u64,
    rest: Seq<u8>,
    before: M::Model,
    after: M::Model,
)
    requires
        MIN_TAG <= tag <= MAX_TAG,
        v == 0 ==> after == before,
        v != 0 ==> M::merged(before, tag, WireType::Varint, varint(v as nat) + rest) == Some(
            (after, varint(v as nat).len() as int),
        ),
    ensures
        parsed::<M>(plain_number_field(tag, v) + rest, before) == parsed::<M>(rest, after),
{
    if v != 0 {
        lemma_parsed_field::<M>(tag, WireType::Varint, varint(v as nat), rest, before, after);
        assert(plain_number_field(tag, v) + rest =~= key(tag, WireType::Varint) + varint(v as nat)
            + rest);
    } else {
        assert(plain_number_field(tag, v) + rest =~= rest);
    }
}

/// Merges every field in `buf` into `msg`.
pub fn merge_all<M: Message>(msg: &mut M, buf: &[u8]) -> (r: Result<(), DecodeFailure>)
    ensures
        match r {
            Ok(_) => parsed::<M>(buf@, old(msg).model()) == Some(final(msg).model()),
            Err(_) => parsed::<M>(buf@, old(msg).model()) is None,
        },
{
    let mut rest = buf;
    while rest.len() > 0
        invariant
            parsed::<M>(buf@, old(msg).model()) == parsed::<M>(rest@, msg.model()),
        decreases rest.len(),
    {
        let (tag, wire, after_key) = read_field_key(rest)?;
        let after_field = msg.merge_field(tag, wire, after_key)?;
        proof {
            let k = rest@.len() - after_key@.len();
            let n = after_key@.len() - after_field@.len();
            assert(after_field@ =~= rest@.skip(k + n));
        }
        rest = after_field;
    }
    Ok(())
}

/// Decodes a record from `buf`.
pub fn decode<M: Message>(buf: &[u8]) -> (r: Result<M, DecodeFailure>)
    ensures
        match r {
            Ok(msg) => decoded::<M>(buf@) == Some(msg.model()),
            Err(_) => decoded::<M>(buf@) is None,
        },
{
    let mut msg = M::new_blank();
    match merge_all(&mut msg, buf) {
        Ok(_) => Ok(msg),
        Err(e) => Err(e),
    }
}

/// Encodes a record into a fresh vector.
pub fn encode<M: Message>(msg: &M) -> (r: Vec<u8>)
    ensures
        r@ == M::encoded(msg.model()),
{
    let mut buf: Vec<u8> = Vec::new();
    msg.encode_raw(&mut buf);
    assert(buf@ =~= M::encoded(msg.model()));
    buf
}

/// A nested record on the wire: key, length, the record's bytes.
pub open spec fn nested_field<M: Message>(tag: u32, m: M::Model) -> Seq<u8> {
    key(tag, WireType::LengthDelimited) + length_delimited(M::encoded(m))
}

/// The record that a nested field, found after its key, makes of `start`,
/// and the bytes that the field takes. The wire type must be
/// length-delimited.
pub open spec fn read_nested<M: Message>(wire: WireType, bytes: Seq<u8>, start: M::Model) -> Option<
    (M::Model, int),
> {
    if wire != WireType::LengthDelimited {
        None
    } else {
        match read_length_delimited(bytes) {
            Some((payload, n)) => match parsed::<M>(payload, start) {
                Some(m) => Some((m, n)),
                None => None,
            },
            None => None,
        }
    }
}

/// Reading undoes writing: the payload of a nested field, whatever follows
/// it, is read back as the record.
pub proof fn lemma_read_nested_of<M: RoundTrip>(m: M::Model, rest: Seq<u8>)
    requires
        M::encoded(m).len() <= u64::MAX,
    ensures
        read_nested::<M>(
            WireType::LengthDelimited,
            length_delimited(M::encoded(m)) + rest,
            M::blank(),
        ) == Some((m, length_delimited(M::encoded(m)).len() as int)),
{
    M::lemma_round_trip(m);
    lemma_read_length_delimited_of(M::encoded(m), rest);
}

/// Appends a nested record.
pub fn write_nested<M: Message>(tag: u32, msg: &M, buf: &mut Vec<u8>)
    requires
        MIN_TAG <= tag <= MAX_TAG,
    ensures
        final(buf)@ == old(buf)@ + nested_field::<M>(tag, msg.model()),
{
    let payload = encode(msg);
    put_key(tag, WireType::LengthDelimited, buf);
    write_length_delimited(payload.as_slice(), buf);
    assert(final(buf)@ =~= old(buf)@ + nested_field::<M>(tag, msg.model()));
}

/// Merges a nested field, found after its key, into `msg`.
pub fn merge_nested<'a, M: Message>(wire: WireType, msg: &mut M, buf: &'a [u8]) -> (r: Result<
    &'a [u8],
    DecodeFailure,
>)
    ensures
        match r {
            Ok(rest) => read_nested::<M>(wire, buf@, old(msg).model()) matches Some((m, n))
                && final(msg).model() == m && 0 <= n <= buf@.len() && rest@ == buf@.skip(n),
            Err(_) => read_nested::<M>(wire, buf@, old(msg).model()) is None,
        },
{
    match wire {
        WireType::LengthDelimited => {
            let (payload, rest) = take_length_delimited(buf)?;
            merge_all(msg, payload)?;
            Ok(rest)
        },
        _ => Err(DecodeFailure),
    }
}

/// A repeated field on the wire: for each item in turn, the key and the
/// item's payload.
pub open spec fn repeated<A>(
    tag: u32,
    wire: WireType,
    items: Seq<A>,
    payload: spec_fn(A) -> Seq<u8>,
) -> Seq<u8>
    decreases items.len(),
{
    if items.len() == 0 {
        Seq::empty()
    } else {
        repeated(tag, wire, items.drop_last(), payload) + (key(tag, wire) + payload(items.last()))
    }
}

/// No item of a repeated field is longer than the field.
pub proof fn lemma_repeated_item_len<A>(
    tag: u32,
    wire: WireType,
    items: Seq<A>,
    payload: spec_fn(A) -> Seq<u8>,
    i: int,
)
    requires
        0 <= i < items.len(),
    ensures
        payload(items[i]).len() <= repeated(tag, wire, items, payload).len(),
    decreases items.len(),
{
    if i < items.len() - 1 {
        lemma_repeated_item_len(tag, wire, items.drop_last(), payload, i);
    }
}

/// Decoding a repeated field: where each item's payload, found after its
/// key, merges into any value `m` as `step(m, item)`, what remains to decode
/// after the whole field is `rest` into the value that the items, taken in
/// turn, make of `start`.
pub proof fn lemma_parsed_repeated<M: Message, A>(
    tag: u32,
    wire: WireType,
    items: Seq<A>,
    payload: spec_fn(A) -> Seq<u8>,
    step: spec_fn(M::Model, A) -> M::Model,
    rest: Seq<u8>,
    start: M::Model,
)
    requires
        MIN_TAG <= tag <= MAX_TAG,
        forall|m: M::Model, i: int, suffix: Seq<u8>|
            0 <= i < items.len() ==> #[trigger] M::merged(
                m,
                tag,
                wire,
                payload(items[i]) + suffix,
            ) == Some((step(m, items[i]), payload(items[i]).len() as int)),
    ensures
        parsed::<M>(repeated(tag, wire, items, payload) + rest, start) == parsed::<M>(
            rest,
            items.fold_left(start, step),
        ),
    decreases items.len(),
{
    if items.len() == 0 {
        assert(repeated(tag, wire, items, payload) + rest =~= rest);
    } else {
        let init = items.drop_last();
        let last = items.last();
        let tail = key(tag, wire) + payload(last) + rest;
        let mid = init.fold_left(start, step);
        assert forall|m: M::Model, i: int, suffix: Seq<u8>| 0 <= i < init.len() implies #[trigger]
            M::merged(m, tag, wire, payload(init[i]) + suffix) == Some(
            (step(m, init[i]), payload(init[i]).len() as int),
        ) by {
            assert(init[i] == items[i]);
        }
        lemma_parsed_repeated::<M, A>(tag, wire, init, payload, step, tail, start);
        assert(items[items.len() - 1] == last);
        lemma_parsed_field::<M>(tag, wire, payload(last), rest, mid, step(mid, last));
        assert(repeated(tag, wire, items, payload) + rest =~= repeated(tag, wire, init, payload)
            + tail);
    }
}

/// Items that are appended one after another to a list make the list longer
/// by the items.
pub proof fn lemma_fold_push<A>(items: Seq<A>, start: Seq<A>)
    ensures
        items.fold_left(start, |list: Seq<A>, item: A| list.push(item)) == start + items,
    decreases items.len(),
{
    if items.len() == 0 {
        assert(start + items =~= start);
    } else {
        lemma_fold_push(items.drop_last(), start);
        assert(start + items =~= (start + items.drop_last()).push(items.last()));
    }
}

/// The values of the records in a list.
pub open spec fn models<M: Message>(items: Seq<M>) -> Seq<M::Model> {
    items.map_values(|item: M| item.model())
}

/// The payload of a nested record: its length, then its bytes.
pub open spec fn nested_payload<M: Message>() -> spec_fn(M::Model) -> Seq<u8> {
    |m: M::Model| length_delimited(M::encoded(m))
}

/// A repeated field of nested records.
pub open spec fn repeated_nested<M: Message>(tag: u32, items: Seq<M::Model>) -> Seq<u8> {
    repeated(tag, WireType::LengthDelimited, items, nested_payload::<M>())
}

/// Appends a repeated field of nested records.
pub fn write_repeated_nested<M: Message>(tag: u32, items: &Vec<M>, buf: &mut Vec<u8>)
    requires
        MIN_TAG <= tag <= MAX_TAG,
    ensures
        final(buf)@ == old(buf)@ + repeated_nested::<M>(tag, models(items@)),
{
    let ghost all = models(items@);
    let mut i: usize = 0;
    assert(buf@ =~= old(buf)@ + repeated_nested::<M>(tag, all.take(0)));
    while i < items.len()
        invariant
            MIN_TAG <= tag <= MAX_TAG,
            i <= items.len(),
            all == models(items@),
            buf@ == old(buf)@ + repeated_nested::<M>(tag, all.take(i as int)),
        decreases items.len() - i,
    {
        write_nested(tag, &items[i], buf);
        proof {
            let done = all.take(i + 1);
            assert(done.drop_last() =~= all.take(i as int));
            assert(done.last() == items@[i as int].model());
            assert(nested_field::<M>(tag, done.last()) == key(tag, WireType::LengthDelimited)
                + nested_payload::<M>()(done.last()));
            assert(buf@ =~= old(buf)@ + repeated_nested::<M>(tag, done));
        }
        i += 1;
    }
    assert(all.take(items.len() as int) =~= all);
}

/// The texts of the strings in a list.
pub open spec fn texts(items: Seq<String>) -> Seq<Seq<char>> {
    items.map_values(|item: String| item@)
}

/// The payload of a text: its length, then its UTF-8 bytes.
pub open spec fn text_payload() -> spec_fn(Seq<char>) -> Seq<u8> {
    |text: Seq<char>| length_delimited(encode_utf8(text))
}

/// A repeated field of texts. Empty texts are written like the others.
pub open spec fn repeated_text(tag: u32, items: Seq<Seq<char>>) -> Seq<u8> {
    repeated(tag, WireType::LengthDelimited, items, text_payload())
}

/// Appends a repeated field of texts.
pub fn write_repeated_text(tag: u32, items: &Vec<String>, buf: &mut Vec<u8>)
    requires
        MIN_TAG <= tag <= MAX_TAG,
    ensures
        final(buf)@ == old(buf)@ + repeated_text(tag, texts(items@)),
{
    let ghost all = texts(items@);
    let mut i: usize = 0;
    assert(buf@ =~= old(buf)@ + repeated_text(tag, all.take(0)));
    while i < items.len()
        invariant
            MIN_TAG <= tag <= MAX_TAG,
            i <= items.len(),
            all == texts(items@),
            buf@ == old(buf)@ + repeated_text(tag, all.take(i as int)),
        decreases items.len() - i,
    {
        write_text(tag, items[i].as_str(), buf);
        proof {
            let done = all.take(i + 1);
            assert(done.drop_last() =~= all.take(i as int));
            assert(done.last() == items@[i as int]@);
            assert(text_field(tag, done.last()) == key(tag, WireType::LengthDelimited)
                + text_payload()(done.last()));
            assert(buf@ =~= old(buf)@ + repeated_text(tag, done));
        }
        i += 1;
    }
    assert(all.take(items.len() as int) =~= all);
}

/// Wraps the bytes of a record into a blob tagged with the type identifier
/// of its kind. The payload decodes to the record again.
pub fn pack<M: RoundTrip>(type_url: &str, msg: &M) -> (any: Any)
    ensures
        any.type_url@ == type_url@,
        any.value@ == M::encoded(msg.model()),
        decoded::<M>(any.value@) == Some(msg.model()),
{
    let value = encode(msg);
    let size: usize = value.len();
    proof {
        assert(value@.len() == size);
        M::lemma_round_trip(msg.model());
    }
    Any { type_url: type_url.to_owned(), value }
}

/// Decodes the payload of a blob as a record of kind `M`. The type
/// identifier is not looked at.
pub fn unpack<M: Message>(any: &Any) -> (r: Result<M, DecodeFailure>)
    ensures
        match r {
            Ok(msg) => decoded::<M>(any.value@) == Some(msg.model()),
            Err(_) => decoded::<M>(any.value@) is None,
        },
{
    decode(any.value.as_slice())
}

} // verus!

//! The payload of a status: a code, a message and a list of tagged blobs.

use vstd::prelude::*;
use prost::encoding::WireType;
use prost_types::Any;
use crate::error::DecodeFailure;
use crate::message::lemma_parsed_plain_bytes;
use crate::message::lemma_parsed_plain_number;
use crate::message::lemma_parsed_plain_text;
use crate::message::lemma_parsed_repeated;
use crate::message::lemma_read_nested_of;
use crate::message::lemma_repeated_item_len;
use crate::message::merge_nested;
use crate::message::models;
use crate::message::nested_payload;
use crate::message::read_nested;
use crate::message::repeated_nested;
use crate::message::write_repeated_nested;
use crate::message::Message;
use crate::message::RoundTrip;
use crate::wire::lemma_read_bytes_of;
use crate::wire::lemma_read_number_of;
use crate::wire::lemma_read_text_of;
use crate::wire::plain_bytes_field;
use crate::wire::plain_number_field;
use crate::wire::plain_text_field;
use crate::wire::read_bytes;
use crate::wire::read_number;
use crate::wire::read_text;
use crate::wire::skip_unknown;
use crate::wire::skipped;
use crate::wire::take_bytes;
use crate::wire::take_number;
use crate::wire::take_text;
use crate::wire::wire_number;
use crate::wire::write_plain_bytes;
use crate::wire::write_plain_number;
use crate::wire::write_plain_text;

verus! {

/// What a tagged blob stands for: a type identifier and a payload.
pub struct AnyView {
    pub type_url: Seq<char>,
    pub value: Seq<u8>,
}

impl Message for Any {
    type Model = AnyView;

    open spec fn model(&self) -> AnyView {
        AnyView { type_url: self.type_url@, value: self.value@ }
    }

    open spec fn blank() -> AnyView {
        AnyView { type_url: Seq::empty(), value: Seq::empty() }
    }

    open spec fn merged(m: AnyView, tag: u32, wire: WireType, bytes: Seq<u8>) -> Option<
        (AnyView, int),
    > {
        if tag == 1 {
            match read_text(wire, bytes) {
                Some((text, n)) => Some((AnyView { type_url: text, ..m }, n)),
                None => None,
            }
        } else if tag == 2 {
            match read_bytes(wire, bytes) {
                Some((payload, n)) => Some((AnyView { value: payload, ..m }, n)),
                None => None,
            }
        } else {
            match skipped(wire_number(wire), tag, bytes) {
                Some(n) => Some((m, n)),
                None => None,
            }
        }
    }

    open spec fn encoded(m: AnyView) -> Seq<u8> {
        plain_text_field(1, m.type_url) + plain_bytes_field(2, m.value)
    }

    fn new_blank() -> (r: Self) {
        Any { type_url: String::new(), value: Vec::new() }
    }

    fn merge_field<'a>(&mut self, tag: u32, wire: WireType, buf: &'a [u8]) -> (r: Result<
        &'a [u8],
        DecodeFailure,
    >) {
        if tag == 1 {
            let (text, rest) = take_text(wire, buf)?;
            self.type_url = text;
            Ok(rest)
        } else if tag == 2 {
            let (payload, rest) = take_bytes(wire, buf)?;
            self.value = payload;
            Ok(rest)
        } else {
            skip_unknown(wire, tag, buf)
        }
    }

    fn encode_raw(&self, buf: &mut Vec<u8>) {
        write_plain_text(1, self.type_url.as_str(), buf);
        write_plain_bytes(2, self.value.as_slice(), buf);
        assert(final(buf)@ =~= old(buf)@ + Self::encoded(self.model()));
    }
}

impl RoundTrip for Any {
    proof fn lemma_round_trip(m: AnyView) {
        let end = Seq::<u8>::empty();
        let rest = plain_bytes_field(2, m.value) + end;
        let m0 = Self::blank();
        let m1 = AnyView { type_url: m.type_url, ..m0 };
        if m.type_url.len() > 0 {
            lemma_read_text_of(m.type_url, rest);
        } else {
            assert(m.type_url =~= Seq::empty());
        }
        lemma_parsed_plain_text::<Self>(1, m.type_url, rest, m0, m1);
        if m.value.len() > 0 {
            lemma_read_bytes_of(m.value, end);
        } else {
            assert(m.value =~= Seq::empty());
        }
        lemma_parsed_plain_bytes::<Self>(2, m.value, end, m1, m);
        assert(Self::encoded(m) =~= plain_text_field(1, m.type_url) + rest);
    }
}

/// The payload of a status.
pub struct StatusMessage {
    /// The status code.
    pub code: i32,
    /// The error message.
    pub message: String,
    /// The details, one tagged blob each.
    pub details: Vec<Any>,
}

/// What a `StatusMessage` stands for.
pub struct StatusView {
    pub code: i32,
    pub message: Seq<char>,
    pub details: Seq<AnyView>,
}

impl View for StatusMessage {
    type V = StatusView;

    open spec fn view(&self) -> StatusView {
        StatusView {
            code: self.code,
            message: self.message@,
            details: models::<Any>(self.details@),
        }
    }
}

/// The value with one more blob at the end.
pub open spec fn with_blob(m: StatusView, blob: AnyView) -> StatusView {
    StatusView { details: m.details.push(blob), ..m }
}

impl Message for StatusMessage {
    type Model = StatusView;

    open spec fn model(&self) -> StatusView {
        self@
    }

    open spec fn blank() -> StatusView {
        StatusView { code: 0, message: Seq::empty(), details: Seq::empty() }
    }

    open spec fn merged(m: StatusView, tag: u32, wire: WireType, bytes: Seq<u8>) -> Option<
        (StatusView, int),
    > {
        if tag == 1 {
            match read_number(wire, bytes) {
                Some((v, n)) => Some((StatusView { code: v as i32, ..m }, n)),
                None => None,
            }
        } else if tag == 2 {
            match read_text(wire, bytes) {
                Some((text, n)) => Some((StatusView { message: text, ..m }, n)),
                None => None,
            }
        } else if tag == 3 {
            match read_nested::<Any>(wire, bytes, Any::blank()) {
                Some((blob, n)) => Some((with_blob(m, blob), n)),
                None => None,
            }
        } else {
            match skipped(wire_number(wire), tag, bytes) {
                Some(n) => Some((m, n)),
                None => None,
            }
        }
    }

    open spec fn encoded(m: StatusView) -> Seq<u8> {
        plain_number_field(1, m.code as u64) + plain_text_field(2, m.message) + repeated_nested::<
            Any,
        >(3, m.details)
    }

    fn new_blank() -> (r: Self) {
        let r = StatusMessage { code: 0, message: String::new(), details: Vec::new() };
        assert(r@.details =~= Seq::empty());
        r
    }

    fn merge_field<'a>(&mut self, tag: u32, wire: WireType, buf: &'a [u8]) -> (r: Result<
        &'a [u8],
        DecodeFailure,
    >) {
        if tag == 1 {
            let (v, rest) = take_number(wire, buf)?;
            self.code = #[verifier::truncate]
            (v as i32);
            Ok(rest)
        } else if tag == 2 {
            let (text, rest) = take_text(wire, buf)?;
            self.message = text;
            Ok(rest)
        } else if tag == 3 {
            let mut blob = Any::new_blank();
            let rest = merge_nested(wire, &mut blob, buf)?;
            self.details.push(blob);
            assert(self@.details =~= old(self)@.details.push(blob.model()));
            Ok(rest)
        } else {
            skip_unknown(wire, tag, buf)
        }
    }

    fn encode_raw(&self, buf: &mut Vec<u8>) {
        write_plain_number(1, self.code as u64, buf);
        write_plain_text(2, self.message.as_str(), buf);
        write_repeated_nested(3, &self.details, buf);
        assert(final(buf)@ =~= old(buf)@ + Self::encoded(self@));
    }
}

/// Blobs that are added one after another to a value make its details
/// longer by the blobs.
proof fn lemma_fold_blobs(blobs: Seq<AnyView>, start: StatusView)
    ensures
        blobs.fold_left(start, |m: StatusView, blob: AnyView| with_blob(m, blob)) == (StatusView {
            details: start.details + blobs,
            ..start
        }),
    decreases blobs.len(),
{
    if blobs.len() == 0 {
        assert(start.details + blobs =~= start.details);
    } else {
        lemma_fold_blobs(blobs.drop_last(), start);
        assert(start.details + blobs =~= (start.details + blobs.drop_last()).push(blobs.last()));
    }
}

impl RoundTrip for StatusMessage {
    proof fn lemma_round_trip(m: StatusView) {
        let end = Seq::<u8>::empty();
        let payload = nested_payload::<Any>();
        let step = |before: StatusView, blob: AnyView| with_blob(before, blob);
        let code: i32 = m.code;
        let c: u64 = code as u64;
        let rest2 = repeated_nested::<Any>(3, m.details) + end;
        let rest1 = plain_text_field(2, m.message) + rest2;
        let m0 = Self::blank();
        let m1 = StatusView { code: m.code, ..m0 };
        let m2 = StatusView { message: m.message, ..m1 };
        assert(c as i32 == code) by (bit_vector)
            requires
                c == code as u64,
        ;
        lemma_read_number_of(c, rest1);
        lemma_parsed_plain_number::<Self>(1, c, rest1, m0, m1);
        if m.message.len() > 0 {
            lemma_read_text_of(m.message, rest2);
        } else {
            assert(m.message =~= Seq::empty());
        }
        lemma_parsed_plain_text::<Self>(2, m.message, rest2, m1, m2);
        assert forall|before: StatusView, i: int, suffix: Seq<u8>|
            0 <= i < m.details.len() implies #[trigger] Self::merged(
            before,
            3,
            WireType::LengthDelimited,
            payload(m.details[i]) + suffix,
        ) == Some((step(before, m.details[i]), payload(m.details[i]).len() as int)) by {
            lemma_repeated_item_len(3, WireType::LengthDelimited, m.details, payload, i);
            lemma_read_nested_of::<Any>(m.details[i], suffix);
        }
        lemma_parsed_repeated::<Self, AnyView>(
            3,
            WireType::LengthDelimited,
            m.details,
            payload,
            step,
            end,
            m2,
        );
        lemma_fold_blobs(m.details, m2);
        assert(m2.details + m.details =~= m.details);
        assert(Self::encoded(m) =~= plain_number_field(1, c) + rest1);
    }
}

} // verus!

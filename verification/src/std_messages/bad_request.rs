//! `BadRequest`: violations in a client request.

use vstd::prelude::*;
use prost::encoding::WireType;
use prost_types::Any;
use crate::error::DecodeFailure;
use crate::error::EncodeFailure;
use crate::message::decoded;
use crate::message::lemma_fold_push;
use crate::message::lemma_parsed_plain_text;
use crate::message::lemma_parsed_repeated;
use crate::message::lemma_read_nested_of;
use crate::message::lemma_repeated_item_len;
use crate::message::merge_nested;
use crate::message::models;
use crate::message::nested_payload;
use crate::message::pack;
use crate::message::read_nested;
use crate::message::repeated_nested;
use crate::message::unpack;
use crate::message::write_repeated_nested;
use crate::message::Message;
use crate::message::RoundTrip;
use crate::wire::lemma_read_text_of;
use crate::wire::plain_text_field;
use crate::wire::read_text;
use crate::wire::skip_unknown;
use crate::wire::skipped;
use crate::wire::take_text;
use crate::wire::wire_number;
use crate::wire::write_plain_text;

verus! {

/// One violation: a field of the request and why it is bad.
#[derive(Clone, Debug)]
pub struct FieldViolation {
    /// A path leading to a field in the request body.
    pub field: String,
    /// A description of why the request element is bad.
    pub description: String,
}

/// What a `FieldViolation` stands for.
pub struct FieldViolationView {
    pub field: Seq<char>,
    pub description: Seq<char>,
}

impl View for FieldViolation {
    type V = FieldViolationView;

    open spec fn view(&self) -> FieldViolationView {
        FieldViolationView {
            field: self.field@,
            description: self.description@,
        }
    }
}

impl Message for FieldViolation {
    type Model = FieldViolationView;

    open spec fn model(&self) -> FieldViolationView {
        self@
    }

    open spec fn blank() -> FieldViolationView {
        FieldViolationView {
            field: Seq::empty(),
            description: Seq::empty(),
        }
    }

    open spec fn merged(m: FieldViolationView, tag: u32, wire: WireType, bytes: Seq<u8>) -> Option<
        (FieldViolationView, int),
    > {
        if tag == 1 {
            match read_text(wire, bytes) {
                Some((text, n)) => Some((FieldViolationView { field: text, ..m }, n)),
                None => None,
            }
        } else if tag == 2 {
            match read_text(wire, bytes) {
                Some((text, n)) => Some((FieldViolationView { description: text, ..m }, n)),
                None => None,
            }
        } else {
            match skipped(wire_number(wire), tag, bytes) {
                Some(n) => Some((m, n)),
                None => None,
            }
        }
    }

    open spec fn encoded(m: FieldViolationView) -> Seq<u8> {
        plain_text_field(1, m.field) + plain_text_field(2, m.description)
    }

    fn new_blank() -> (r: Self) {
        FieldViolation {
            field: String::new(),
            description: String::new(),
        }
    }

    fn merge_field<'a>(&mut self, tag: u32, wire: WireType, buf: &'a [u8]) -> (r: Result<
        &'a [u8],
        DecodeFailure,
    >) {
        if tag == 1 {
            let (text, rest) = take_text(wire, buf)?;
            self.field = text;
            Ok(rest)
        } else if tag == 2 {
            let (text, rest) = take_text(wire, buf)?;
            self.description = text;
            Ok(rest)
        } else {
            skip_unknown(wire, tag, buf)
        }
    }

    fn encode_raw(&self, buf: &mut Vec<u8>) {
        write_plain_text(1, self.field.as_str(), buf);
        write_plain_text(2, self.description.as_str(), buf);
        assert(final(buf)@ =~= old(buf)@ + Self::encoded(self@));
    }
}

impl RoundTrip for FieldViolation {
    proof fn lemma_round_trip(m: FieldViolationView) {
        let end = Seq::<u8>::empty();
        let rest1 = plain_text_field(2, m.description) + end;
        let m0 = Self::blank();
        let m1 = FieldViolationView { field: m.field, ..m0 };
        if m.field.len() > 0 {
            lemma_read_text_of(m.field, rest1);
        } else {
            assert(m.field =~= Seq::empty());
        }
        lemma_parsed_plain_text::<Self>(1, m.field, rest1, m0, m1);
        if m.description.len() > 0 {
            lemma_read_text_of(m.description, end);
        } else {
            assert(m.description =~= Seq::empty());
        }
        lemma_parsed_plain_text::<Self>(2, m.description, end, m1, m);
        assert(Self::encoded(m) =~= plain_text_field(1, m.field) + rest1);
    }
}

impl FieldViolation {
    /// A violation of the given texts.
    pub fn new(field: &str, description: &str) -> (r: Self)
        ensures
            r@ == (FieldViolationView { field: field@, description: description@ }),
    {
        FieldViolation {
            field: field.to_owned(),
            description: description.to_owned(),
        }
    }
}

/// Violations in a client request, in the order in which they were added.
#[derive(Clone, Debug)]
pub struct BadRequest {
    /// The violations.
    pub field_violations: Vec<FieldViolation>,
}

impl View for BadRequest {
    type V = Seq<FieldViolationView>;

    open spec fn view(&self) -> Seq<FieldViolationView> {
        models::<FieldViolation>(self.field_violations@)
    }
}

impl Message for BadRequest {
    type Model = Seq<FieldViolationView>;

    open spec fn model(&self) -> Seq<FieldViolationView> {
        self@
    }

    open spec fn blank() -> Seq<FieldViolationView> {
        Seq::empty()
    }

    open spec fn merged(
        m: Seq<FieldViolationView>,
        tag: u32,
        wire: WireType,
        bytes: Seq<u8>,
    ) -> Option<(Seq<FieldViolationView>, int)> {
        if tag == 1 {
            match read_nested::<FieldViolation>(wire, bytes, FieldViolation::blank()) {
                Some((item, n)) => Some((m.push(item), n)),
                None => None,
            }
        } else {
            match skipped(wire_number(wire), tag, bytes) {
                Some(n) => Some((m, n)),
                None => None,
            }
        }
    }

    open spec fn encoded(m: Seq<FieldViolationView>) -> Seq<u8> {
        repeated_nested::<FieldViolation>(1, m)
    }

    fn new_blank() -> (r: Self) {
        let r = BadRequest { field_violations: Vec::new() };
        assert(r@ =~= Seq::empty());
        r
    }

    fn merge_field<'a>(&mut self, tag: u32, wire: WireType, buf: &'a [u8]) -> (r: Result<
        &'a [u8],
        DecodeFailure,
    >) {
        if tag == 1 {
            let mut item = FieldViolation::new_blank();
            let rest = merge_nested(wire, &mut item, buf)?;
            self.field_violations.push(item);
            assert(self@ =~= old(self)@.push(item@));
            Ok(rest)
        } else {
            skip_unknown(wire, tag, buf)
        }
    }

    fn encode_raw(&self, buf: &mut Vec<u8>) {
        write_repeated_nested(1, &self.field_violations, buf);
    }
}

impl RoundTrip for BadRequest {
    proof fn lemma_round_trip(m: Seq<FieldViolationView>) {
        let payload = nested_payload::<FieldViolation>();
        let step = |list: Seq<FieldViolationView>, item: FieldViolationView| list.push(item);
        assert forall|before: Seq<FieldViolationView>, i: int, suffix: Seq<u8>|
            0 <= i < m.len() implies #[trigger] Self::merged(
            before,
            1,
            WireType::LengthDelimited,
            payload(m[i]) + suffix,
        ) == Some((step(before, m[i]), payload(m[i]).len() as int)) by {
            lemma_repeated_item_len(1, WireType::LengthDelimited, m, payload, i);
            lemma_read_nested_of::<FieldViolation>(m[i], suffix);
        }
        lemma_parsed_repeated::<Self, FieldViolationView>(
            1,
            WireType::LengthDelimited,
            m,
            payload,
            step,
            Seq::empty(),
            Seq::empty(),
        );
        lemma_fold_push(m, Seq::empty());
        assert(Self::encoded(m) + Seq::empty() =~= Self::encoded(m));
        assert(Seq::empty() + m =~= m);
    }
}

impl BadRequest {
    /// The type identifier of this kind.
    pub const TYPE_URL: &'static str = "type.googleapis.com/google.rpc.BadRequest";

    /// A record of the given violations.
    pub fn new(field_violations: Vec<FieldViolation>) -> (r: Self)
        ensures
            r@ == models::<FieldViolation>(field_violations@),
    {
        BadRequest { field_violations }
    }

    /// A record of one violation.
    pub fn with_violation(field: &str, description: &str) -> (r: Self)
        ensures
            r@ == seq![FieldViolationView { field: field@, description: description@ }],
    {
        let mut field_violations = Vec::new();
        field_violations.push(FieldViolation::new(field, description));
        let r = BadRequest { field_violations };
        assert(r@ =~= seq![FieldViolationView { field: field@, description: description@ }]);
        r
    }

    /// Adds a violation behind those that are there.
    pub fn add_violation(&mut self, field: &str, description: &str) -> (ret: &mut Self)
        ensures
            ret@ == old(self)@.push(
                FieldViolationView { field: field@, description: description@ },
            ),
            *final(self) == *final(ret),
    {
        self.field_violations.push(FieldViolation::new(field, description));
        assert(self@ =~= old(self)@.push(
            FieldViolationView { field: field@, description: description@ },
        ));
        self
    }

    /// Whether there is no violation.
    pub fn is_empty(&self) -> (r: bool)
        ensures
            r == (self@.len() == 0),
    {
        self.field_violations.is_empty()
    }

    /// A record without violations.
    pub fn empty() -> (r: Self)
        ensures
            r@ == Seq::<FieldViolationView>::empty(),
    {
        Self::new_blank()
    }

    /// A record of one violation.
    pub fn from_violation(field: &str, violation: &str) -> (r: Self)
        ensures
            r@ == seq![FieldViolationView { field: field@, description: violation@ }],
    {
        Self::with_violation(field, violation)
    }

    /// Whether there is a violation.
    pub fn has_violations(&self) -> (r: bool)
        ensures
            r == (self@.len() > 0),
    {
        !self.field_violations.is_empty()
    }

    /// The blob of this record: the type identifier of the kind and the
    /// record's bytes. The payload decodes to the record again.
    pub fn to_any(&self) -> (any: Any)
        ensures
            any.type_url@ == Self::TYPE_URL@,
            any.value@ == Self::encoded(self@),
            decoded::<Self>(any.value@) == Some(self@),
    {
        pack(Self::TYPE_URL, self)
    }

    /// The blob of this record, as `to_any` gives it. It never fails.
    pub fn into_any(self) -> (r: Result<Any, EncodeFailure>)
        ensures
            r matches Ok(any) && any.type_url@ == Self::TYPE_URL@ && any.value@ == Self::encoded(
                self@,
            ) && decoded::<Self>(any.value@) == Some(self@),
    {
        Ok(self.to_any())
    }

    /// The record that the payload of a blob decodes to. The type identifier
    /// of the blob is not looked at.
    pub fn from_any(any: Any) -> (r: Result<Self, DecodeFailure>)
        ensures
            match r {
                Ok(found) => decoded::<Self>(any.value@) == Some(found@),
                Err(_) => decoded::<Self>(any.value@) is None,
            },
    {
        unpack(&any)
    }
}

} // verus!

//! `PreconditionFailure`: which preconditions have failed.

use vstd::prelude::*;
use prost::encoding::WireType;
use prost_types::Any;
use crate::error::DecodeFailure;
use crate::error::EncodeFailure;
use crate::message::decoded;
use crate::message::lemma_fold_push;
use crate::message::lemma_parsed_plain_text;
use crate::message::lemma_parsed_repeated;
use crate::message::lemma_read_nested_of;
use crate::message::lemma_repeated_item_len;
use crate::message::merge_nested;
use crate::message::models;
use crate::message::nested_payload;
use crate::message::pack;
use crate::message::read_nested;
use crate::message::repeated_nested;
use crate::message::unpack;
use crate::message::write_repeated_nested;
use crate::message::Message;
use crate::message::RoundTrip;
use crate::wire::lemma_read_text_of;
use crate::wire::plain_text_field;
use crate::wire::read_text;
use crate::wire::skip_unknown;
use crate::wire::skipped;
use crate::wire::take_text;
use crate::wire::wire_number;
use crate::wire::write_plain_text;

verus! {

/// One violation: the type of a precondition, its subject and how it failed.
#[derive(Clone)]
pub struct PreconditionViolation {
    /// The type of the precondition failure.
    pub violation_type: String,
    /// The subject, relative to the type, that failed.
    pub subject: String,
    /// A description of how the precondition failed.
    pub description: String,
}

/// What a `PreconditionViolation` stands for.
pub struct PreconditionViolationView {
    pub violation_type: Seq<char>,
    pub subject: Seq<char>,
    pub description: Seq<char>,
}

impl View for PreconditionViolation {
    type V = PreconditionViolationView;

    open spec fn view(&self) -> PreconditionViolationView {
        PreconditionViolationView {
            violation_type: self.violation_type@,
            subject: self.subject@,
            description: self.description@,
        }
    }
}

impl Message for PreconditionViolation {
    type Model = PreconditionViolationView;

    open spec fn model(&self) -> PreconditionViolationView {
        self@
    }

    open spec fn blank() -> PreconditionViolationView {
        PreconditionViolationView {
            violation_type: Seq::empty(),
            subject: Seq::empty(),
            description: Seq::empty(),
        }
    }

    open spec fn merged(
        m: PreconditionViolationView,
        tag: u32,
        wire: WireType,
        bytes: Seq<u8>,
    ) -> Option<(PreconditionViolationView, int)> {
        if tag == 1 {
            match read_text(wire, bytes) {
                Some((text, n)) => Some(
                    (PreconditionViolationView { violation_type: text, ..m }, n),
                ),
                None => None,
            }
        } else if tag == 2 {
            match read_text(wire, bytes) {
                Some((text, n)) => Some((PreconditionViolationView { subject: text, ..m }, n)),
                None => None,
            }
        } else if tag == 3 {
            match read_text(wire, bytes) {
                Some((text, n)) => Some((PreconditionViolationView { description: text, ..m }, n)),
                None => None,
            }
        } else {
            match skipped(wire_number(wire), tag, bytes) {
                Some(n) => Some((m, n)),
                None => None,
            }
        }
    }

    open spec fn encoded(m: PreconditionViolationView) -> Seq<u8> {
        plain_text_field(1, m.violation_type)
            + plain_text_field(2, m.subject)
            + plain_text_field(3, m.description)
    }

    fn new_blank() -> (r: Self) {
        PreconditionViolation {
            violation_type: String::new(),
            subject: String::new(),
            description: String::new(),
        }
    }

    fn merge_field<'a>(&mut self, tag: u32, wire: WireType, buf: &'a [u8]) -> (r: Result<
        &'a [u8],
        DecodeFailure,
    >) {
        if tag == 1 {
            let (text, rest) = take_text(wire, buf)?;
            self.violation_type = text;
            Ok(rest)
        } else if tag == 2 {
            let (text, rest) = take_text(wire, buf)?;
            self.subject = text;
            Ok(rest)
        } else if tag == 3 {
            let (text, rest) = take_text(wire, buf)?;
            self.description = text;
            Ok(rest)
        } else {
            skip_unknown(wire, tag, buf)
        }
    }

    fn encode_raw(&self, buf: &mut Vec<u8>) {
        write_plain_text(1, self.violation_type.as_str(), buf);
        write_plain_text(2, self.subject.as_str(), buf);
        write_plain_text(3, self.description.as_str(), buf);
        assert(final(buf)@ =~= old(buf)@ + Self::encoded(self@));
    }
}

impl RoundTrip for PreconditionViolation {
    proof fn lemma_round_trip(m: PreconditionViolationView) {
        let end = Seq::<u8>::empty();
        let rest2 = plain_text_field(3, m.description) + end;
        let rest1 = plain_text_field(2, m.subject) + rest2;
        let m0 = Self::blank();
        let m1 = PreconditionViolationView { violation_type: m.violation_type, ..m0 };
        let m2 = PreconditionViolationView { subject: m.subject, ..m1 };
        if m.violation_type.len() > 0 {
            lemma_read_text_of(m.violation_type, rest1);
        } else {
            assert(m.violation_type =~= Seq::empty());
        }
        lemma_parsed_plain_text::<Self>(1, m.violation_type, rest1, m0, m1);
        if m.subject.len() > 0 {
            lemma_read_text_of(m.subject, rest2);
        } else {
            assert(m.subject =~= Seq::empty());
        }
        lemma_parsed_plain_text::<Self>(2, m.subject, rest2, m1, m2);
        if m.description.len() > 0 {
            lemma_read_text_of(m.description, end);
        } else {
            assert(m.description =~= Seq::empty());
        }
        lemma_parsed_plain_text::<Self>(3, m.description, end, m2, m);
        assert(Self::encoded(m) =~= plain_text_field(1, m.violation_type) + rest1);
    }
}

/// `core::fmt::Formatter`: carried through to the outside printer.
#[verifier::external_type_specification]
#[verifier::external_body]
pub struct ExFormatter<'a>(core::fmt::Formatter<'a>);

/// `core::fmt::Error`: what the outside printer reports.
#[verifier::external_type_specification]
#[verifier::external_body]
pub struct ExFmtError(core::fmt::Error);

impl core::fmt::Debug for PreconditionViolation {
    /// `Formatter::debug_struct`: prints the three texts under the names
    /// `type`, `subject` and `description`, the names that the fields have
    /// in the schema. Nothing is claimed of what is printed.
    #[verifier::external_body]
    fn fmt(&self, f: &mut core::fmt::Formatter<'_>) -> Result<(), core::fmt::Error> {
        f.debug_struct("PreconditionViolation")
            .field("type", &self.violation_type)
            .field("subject", &self.subject)
            .field("description", &self.description)
            .finish()
    }
}

impl PreconditionViolation {
    /// A violation of the given texts.
    pub fn new(violation_type: &str, subject: &str, description: &str) -> (r: Self)
        ensures
            r@ == (PreconditionViolationView {
                    violation_type: violation_type@,
                    subject: subject@,
                    description: description@,
                }),
    {
        PreconditionViolation {
            violation_type: violation_type.to_owned(),
            subject: subject.to_owned(),
            description: description.to_owned(),
        }
    }
}

/// Precondition violations, in the order in which they were added.
#[derive(Clone, Debug)]
pub struct PreconditionFailure {
    /// The violations.
    pub violations: Vec<PreconditionViolation>,
}

impl View for PreconditionFailure {
    type V = Seq<PreconditionViolationView>;

    open spec fn view(&self) -> Seq<PreconditionViolationView> {
        models::<PreconditionViolation>(self.violations@)
    }
}

impl Message for PreconditionFailure {
    type Model = Seq<PreconditionViolationView>;

    open spec fn model(&self) -> Seq<PreconditionViolationView> {
        self@
    }

    open spec fn blank() -> Seq<PreconditionViolationView> {
        Seq::empty()
    }

    open spec fn merged(
        m: Seq<PreconditionViolationView>,
        tag: u32,
        wire: WireType,
        bytes: Seq<u8>,
    ) -> Option<(Seq<PreconditionViolationView>, int)> {
        if tag == 1 {
            match read_nested::<PreconditionViolation>(
                wire,
                bytes,
                PreconditionViolation::blank(),
            ) {
                Some((item, n)) => Some((m.push(item), n)),
                None => None,
            }
        } else {
            match skipped(wire_number(wire), tag, bytes) {
                Some(n) => Some((m, n)),
                None => None,
            }
        }
    }

    open spec fn encoded(m: Seq<PreconditionViolationView>) -> Seq<u8> {
        repeated_nested::<PreconditionViolation>(1, m)
    }

    fn new_blank() -> (r: Self) {
        let r = PreconditionFailure { violations: Vec::new() };
        assert(r@ =~= Seq::empty());
        r
    }

    fn merge_field<'a>(&mut self, tag: u32, wire: WireType, buf: &'a [u8]) -> (r: Result<
        &'a [u8],
        DecodeFailure,
    >) {
        if tag == 1 {
            let mut item = PreconditionViolation::new_blank();
            let rest = merge_nested(wire, &mut item, buf)?;
            self.violations.push(item);
            assert(self@ =~= old(self)@.push(item@));
            Ok(rest)
        } else {
            skip_unknown(wire, tag, buf)
        }
    }

    fn encode_raw(&self, buf: &mut Vec<u8>) {
        write_repeated_nested(1, &self.violations, buf);
    }
}

impl RoundTrip for PreconditionFailure {
    proof fn lemma_round_trip(m: Seq<PreconditionViolationView>) {
        let payload = nested_payload::<PreconditionViolation>();
        let step = |list: Seq<PreconditionViolationView>, item: PreconditionViolationView|
            list.push(item);
        assert forall|before: Seq<PreconditionViolationView>, i: int, suffix: Seq<u8>|
            0 <= i < m.len() implies #[trigger] Self::merged(
            before,
            1,
            WireType::LengthDelimited,
            payload(m[i]) + suffix,
        ) == Some((step(before, m[i]), payload(m[i]).len() as int)) by {
            lemma_repeated_item_len(1, WireType::LengthDelimited, m, payload, i);
            lemma_read_nested_of::<PreconditionViolation>(m[i], suffix);
        }
        lemma_parsed_repeated::<Self, PreconditionViolationView>(
            1,
            WireType::LengthDelimited,
            m,
            payload,
            step,
            Seq::empty(),
            Seq::empty(),
        );
        lemma_fold_push(m, Seq::empty());
        assert(Self::encoded(m) + Seq::empty() =~= Self::encoded(m));
        assert(Seq::empty() + m =~= m);
    }
}

impl PreconditionFailure {
    /// The type identifier of this kind.
    pub const TYPE_URL: &'static str = "type.googleapis.com/google.rpc.PreconditionFailure";

    /// A record of the given violations.
    pub fn new(violations: Vec<PreconditionViolation>) -> (r: Self)
        ensures
            r@ == models::<PreconditionViolation>(violations@),
    {
        PreconditionFailure { violations }
    }

    /// A record of one violation.
    pub fn with_violation(violation_type: &str, subject: &str, description: &str) -> (r: Self)
        ensures
            r@ == seq![PreconditionViolationView {
                    violation_type: violation_type@,
                    subject: subject@,
                    description: description@,
                }],
    {
        let mut violations = Vec::new();
        violations.push(PreconditionViolation::new(violation_type, subject, description));
        let r = PreconditionFailure { violations };
        assert(r@ =~= seq![PreconditionViolationView {
                    violation_type: violation_type@,
                    subject: subject@,
                    description: description@,
                }]);
        r
    }

    /// Adds a violation behind those that are there.
    pub fn add_violation(
        &mut self,
        violation_type: &str,
        subject: &str,
        description: &str,
    ) -> (ret: &mut Self)
        ensures
            ret@ == old(self)@.push(PreconditionViolationView {
                    violation_type: violation_type@,
                    subject: subject@,
                    description: description@,
                }),
            *final(self) == *final(ret),
    {
        self.violations.push(PreconditionViolation::new(violation_type, subject, description));
        assert(self@ =~= old(self)@.push(PreconditionViolationView {
                    violation_type: violation_type@,
                    subject: subject@,
                    description: description@,
                }));
        self
    }

    /// Whether there is no violation.
    pub fn is_empty(&self) -> (r: bool)
        ensures
            r == (self@.len() == 0),
    {
        self.violations.is_empty()
    }

    /// The blob of this record: the type identifier of the kind and the
    /// record's bytes. The payload decodes to the record again.
    pub fn to_any(&self) -> (any: Any)
        ensures
            any.type_url@ == Self::TYPE_URL@,
            any.value@ == Self::encoded(self@),
            decoded::<Self>(any.value@) == Some(self@),
    {
        pack(Self::TYPE_URL, self)
    }

    /// The blob of this record, as `to_any` gives it. It never fails.
    pub fn into_any(self) -> (r: Result<Any, EncodeFailure>)
        ensures
            r matches Ok(any) && any.type_url@ == Self::TYPE_URL@ && any.value@ == Self::encoded(
                self@,
            ) && decoded::<Self>(any.value@) == Some(self@),
    {
        Ok(self.to_any())
    }

    /// The record that the payload of a blob decodes to. The type identifier
    /// of the blob is not looked at.
    pub fn from_any(any: Any) -> (r: Result<Self, DecodeFailure>)
        ensures
            match r {
                Ok(found) => decoded::<Self>(any.value@) == Some(found@),
                Err(_) => decoded::<Self>(any.value@) is None,
            },
    {
        unpack(&any)
    }
}

} // verus!

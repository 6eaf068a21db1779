//! `QuotaFailure`: how a quota check failed.

use vstd::prelude::*;
use prost::encoding::WireType;
use prost_types::Any;
use crate::error::DecodeFailure;
use crate::error::EncodeFailure;
use crate::message::decoded;
use crate::message::lemma_fold_push;
use crate::message::lemma_parsed_plain_text;
use crate::message::lemma_parsed_repeated;
use crate::message::lemma_read_nested_of;
use crate::message::lemma_repeated_item_len;
use crate::message::merge_nested;
use crate::message::models;
use crate::message::nested_payload;
use crate::message::pack;
use crate::message::read_nested;
use crate::message::repeated_nested;
use crate::message::unpack;
use crate::message::write_repeated_nested;
use crate::message::Message;
use crate::message::RoundTrip;
use crate::wire::lemma_read_text_of;
use crate::wire::plain_text_field;
use crate::wire::read_text;
use crate::wire::skip_unknown;
use crate::wire::skipped;
use crate::wire::take_text;
use crate::wire::wire_number;
use crate::wire::write_plain_text;

verus! {

/// One violation: the subject of a quota check and how it failed.
#[derive(Clone, Debug)]
pub struct QuotaViolation {
    /// The subject on which the quota check failed.
    pub subject: String,
    /// A description of how the quota check failed.
    pub description: String,
}

/// What a `QuotaViolation` stands for.
pub struct QuotaViolationView {
    pub subject: Seq<char>,
    pub description: Seq<char>,
}

impl View for QuotaViolation {
    type V = QuotaViolationView;

    open spec fn view(&self) -> QuotaViolationView {
        QuotaViolationView {
            subject: self.subject@,
            description: self.description@,
        }
    }
}

impl Message for QuotaViolation {
    type Model = QuotaViolationView;

    open spec fn model(&self) -> QuotaViolationView {
        self@
    }

    open spec fn blank() -> QuotaViolationView {
        QuotaViolationView {
            subject: Seq::empty(),
            description: Seq::empty(),
        }
    }

    open spec fn merged(m: QuotaViolationView, tag: u32, wire: WireType, bytes: Seq<u8>) -> Option<
        (QuotaViolationView, int),
    > {
        if tag == 1 {
            match read_text(wire, bytes) {
                Some((text, n)) => Some((QuotaViolationView { subject: text, ..m }, n)),
                None => None,
            }
        } else if tag == 2 {
            match read_text(wire, bytes) {
                Some((text, n)) => Some((QuotaViolationView { description: text, ..m }, n)),
                None => None,
            }
        } else {
            match skipped(wire_number(wire), tag, bytes) {
                Some(n) => Some((m, n)),
                None => None,
            }
        }
    }

    open spec fn encoded(m: QuotaViolationView) -> Seq<u8> {
        plain_text_field(1, m.subject) + plain_text_field(2, m.description)
    }

    fn new_blank() -> (r: Self) {
        QuotaViolation {
            subject: String::new(),
            description: String::new(),
        }
    }

    fn merge_field<'a>(&mut self, tag: u32, wire: WireType, buf: &'a [u8]) -> (r: Result<
        &'a [u8],
        DecodeFailure,
    >) {
        if tag == 1 {
            let (text, rest) = take_text(wire, buf)?;
            self.subject = text;
            Ok(rest)
        } else if tag == 2 {
            let (text, rest) = take_text(wire, buf)?;
            self.description = text;
            Ok(rest)
        } else {
            skip_unknown(wire, tag, buf)
        }
    }

    fn encode_raw(&self, buf: &mut Vec<u8>) {
        write_plain_text(1, self.subject.as_str(), buf);
        write_plain_text(2, self.description.as_str(), buf);
        assert(final(buf)@ =~= old(buf)@ + Self::encoded(self@));
    }
}

impl RoundTrip for QuotaViolation {
    proof fn lemma_round_trip(m: QuotaViolationView) {
        let end = Seq::<u8>::empty();
        let rest1 = plain_text_field(2, m.description) + end;
        let m0 = Self::blank();
        let m1 = QuotaViolationView { subject: m.subject, ..m0 };
        if m.subject.len() > 0 {
            lemma_read_text_of(m.subject, rest1);
        } else {
            assert(m.subject =~= Seq::empty());
        }
        lemma_parsed_plain_text::<Self>(1, m.subject, rest1, m0, m1);
        if m.description.len() > 0 {
            lemma_read_text_of(m.description, end);
        } else {
            assert(m.description =~= Seq::empty());
        }
        lemma_parsed_plain_text::<Self>(2, m.description, end, m1, m);
        assert(Self::encoded(m) =~= plain_text_field(1, m.subject) + rest1);
    }
}

impl QuotaViolation {
    /// A violation of the given texts.
    pub fn new(subject: &str, description: &str) -> (r: Self)
        ensures
            r@ == (QuotaViolationView { subject: subject@, description: description@ }),
    {
        QuotaViolation {
            subject: subject.to_owned(),
            description: description.to_owned(),
        }
    }
}

/// Quota violations, in the order in which they were added.
#[derive(Clone, Debug)]
pub struct QuotaFailure {
    /// The violations.
    pub violations: Vec<QuotaViolation>,
}

impl View for QuotaFailure {
    type V = Seq<QuotaViolationView>;

    open spec fn view(&self) -> Seq<QuotaViolationView> {
        models::<QuotaViolation>(self.violations@)
    }
}

impl Message for QuotaFailure {
    type Model = Seq<QuotaViolationView>;

    open spec fn model(&self) -> Seq<QuotaViolationView> {
        self@
    }

    open spec fn blank() -> Seq<QuotaViolationView> {
        Seq::empty()
    }

    open spec fn merged(
        m: Seq<QuotaViolationView>,
        tag: u32,
        wire: WireType,
        bytes: Seq<u8>,
    ) -> Option<(Seq<QuotaViolationView>, int)> {
        if tag == 1 {
            match read_nested::<QuotaViolation>(wire, bytes, QuotaViolation::blank()) {
                Some((item, n)) => Some((m.push(item), n)),
                None => None,
            }
        } else {
            match skipped(wire_number(wire), tag, bytes) {
                Some(n) => Some((m, n)),
                None => None,
            }
        }
    }

    open spec fn encoded(m: Seq<QuotaViolationView>) -> Seq<u8> {
        repeated_nested::<QuotaViolation>(1, m)
    }

    fn new_blank() -> (r: Self) {
        let r = QuotaFailure { violations: Vec::new() };
        assert(r@ =~= Seq::empty());
        r
    }

    fn merge_field<'a>(&mut self, tag: u32, wire: WireType, buf: &'a [u8]) -> (r: Result<
        &'a [u8],
        DecodeFailure,
    >) {
        if tag == 1 {
            let mut item = QuotaViolation::new_blank();
            let rest = merge_nested(wire, &mut item, buf)?;
            self.violations.push(item);
            assert(self@ =~= old(self)@.push(item@));
            Ok(rest)
        } else {
            skip_unknown(wire, tag, buf)
        }
    }

    fn encode_raw(&self, buf: &mut Vec<u8>) {
        write_repeated_nested(1, &self.violations, buf);
    }
}

impl RoundTrip for QuotaFailure {
    proof fn lemma_round_trip(m: Seq<QuotaViolationView>) {
        let payload = nested_payload::<QuotaViolation>();
        let step = |list: Seq<QuotaViolationView>, item: QuotaViolationView| list.push(item);
        assert forall|before: Seq<QuotaViolationView>, i: int, suffix: Seq<u8>|
            0 <= i < m.len() implies #[trigger] Self::merged(
            before,
            1,
            WireType::LengthDelimited,
            payload(m[i]) + suffix,
        ) == Some((step(before, m[i]), payload(m[i]).len() as int)) by {
            lemma_repeated_item_len(1, WireType::LengthDelimited, m, payload, i);
            lemma_read_nested_of::<QuotaViolation>(m[i], suffix);
        }
        lemma_parsed_repeated::<Self, QuotaViolationView>(
            1,
            WireType::LengthDelimited,
            m,
            payload,
            step,
            Seq::empty(),
            Seq::empty(),
        );
        lemma_fold_push(m, Seq::empty());
        assert(Self::encoded(m) + Seq::empty() =~= Self::encoded(m));
        assert(Seq::empty() + m =~= m);
    }
}

impl QuotaFailure {
    /// The type identifier of this kind.
    pub const TYPE_URL: &'static str = "type.googleapis.com/google.rpc.QuotaFailure";

    /// A record of the given violations.
    pub fn new(violations: Vec<QuotaViolation>) -> (r: Self)
        ensures
            r@ == models::<QuotaViolation>(violations@),
    {
        QuotaFailure { violations }
    }

    /// A record of one violation.
    pub fn with_violation(subject: &str, description: &str) -> (r: Self)
        ensures
            r@ == seq![QuotaViolationView { subject: subject@, description: description@ }],
    {
        let mut violations = Vec::new();
        violations.push(QuotaViolation::new(subject, description));
        let r = QuotaFailure { violations };
        assert(r@ =~= seq![QuotaViolationView { subject: subject@, description: description@ }]);
        r
    }

    /// Adds a violation behind those that are there.
    pub fn add_violation(&mut self, subject: &str, description: &str) -> (ret: &mut Self)
        ensures
            ret@ == old(self)@.push(
                QuotaViolationView { subject: subject@, description: description@ },
            ),
            *final(self) == *final(ret),
    {
        self.violations.push(QuotaViolation::new(subject, description));
        assert(self@ =~= old(self)@.push(
            QuotaViolationView { subject: subject@, description: description@ },
        ));
        self
    }

    /// Whether there is no violation.
    pub fn is_empty(&self) -> (r: bool)
        ensures
            r == (self@.len() == 0),
    {
        self.violations.is_empty()
    }

    /// The blob of this record: the type identifier of the kind and the
    /// record's bytes. The payload decodes to the record again.
    pub fn to_any(&self) -> (any: Any)
        ensures
            any.type_url@ == Self::TYPE_URL@,
            any.value@ == Self::encoded(self@),
            decoded::<Self>(any.value@) == Some(self@),
    {
        pack(Self::TYPE_URL, self)
    }

    /// The blob of this record, as `to_any` gives it. It never fails.
    pub fn into_any(self) -> (r: Result<Any, EncodeFailure>)
        ensures
            r matches Ok(any) && any.type_url@ == Self::TYPE_URL@ && any.value@ == Self::encoded(
                self@,
            ) && decoded::<Self>(any.value@) == Some(self@),
    {
        Ok(self.to_any())
    }

    /// The record that the payload of a blob decodes to. The type identifier
    /// of the blob is not looked at.
    pub fn from_any(any: Any) -> (r: Result<Self, DecodeFailure>)
        ensures
            match r {
                Ok(found) => decoded::<Self>(any.value@) == Some(found@),
                Err(_) => decoded::<Self>(any.value@) is None,
            },
    {
        unpack(&any)
    }
}

} // verus!

//! `DebugInfo`: additional debugging information.

use vstd::prelude::*;
use prost::encoding::WireType;
use prost_types::Any;
use crate::error::DecodeFailure;
use crate::error::EncodeFailure;
use crate::message::decoded;
use crate::message::lemma_parsed_plain_text;
use crate::message::lemma_parsed_repeated;
use crate::message::lemma_repeated_item_len;
use crate::message::pack;
use crate::message::repeated_text;
use crate::message::text_payload;
use crate::message::texts;
use crate::message::unpack;
use crate::message::write_repeated_text;
use crate::message::Message;
use crate::message::RoundTrip;
use crate::wire::lemma_read_text_of;
use crate::wire::plain_text_field;
use crate::wire::read_text;
use crate::wire::skip_unknown;
use crate::wire::skipped;
use crate::wire::take_text;
use crate::wire::wire_number;
use crate::wire::write_plain_text;

verus! {

/// Additional debugging information: the entries of a stack trace and a
/// free text.
#[derive(Clone, Debug)]
pub struct DebugInfo {
    /// The stack trace entries indicating where the error occurred.
    pub stack_entries: Vec<String>,
    /// Additional debugging information provided by the server.
    pub detail: String,
}

/// What a `DebugInfo` stands for.
pub struct DebugInfoView {
    pub stack_entries: Seq<Seq<char>>,
    pub detail: Seq<char>,
}

impl View for DebugInfo {
    type V = DebugInfoView;

    open spec fn view(&self) -> DebugInfoView {
        DebugInfoView { stack_entries: texts(self.stack_entries@), detail: self.detail@ }
    }
}

impl DebugInfoView {
    /// Whether there is no stack entry and the text is empty.
    pub open spec fn is_empty(self) -> bool {
        self.stack_entries.len() == 0 && self.detail.len() == 0
    }
}

/// The value with one more stack entry at the end.
pub open spec fn with_entry(m: DebugInfoView, entry: Seq<char>) -> DebugInfoView {
    DebugInfoView { stack_entries: m.stack_entries.push(entry), ..m }
}

impl Message for DebugInfo {
    type Model = DebugInfoView;

    open spec fn model(&self) -> DebugInfoView {
        self@
    }

    open spec fn blank() -> DebugInfoView {
        DebugInfoView { stack_entries: Seq::empty(), detail: Seq::empty() }
    }

    open spec fn merged(m: DebugInfoView, tag: u32, wire: WireType, bytes: Seq<u8>) -> Option<
        (DebugInfoView, int),
    > {
        if tag == 1 {
            match read_text(wire, bytes) {
                Some((text, n)) => Some((with_entry(m, text), n)),
                None => None,
            }
        } else if tag == 2 {
            match read_text(wire, bytes) {
                Some((text, n)) => Some((DebugInfoView { detail: text, ..m }, n)),
                None => None,
            }
        } else {
            match skipped(wire_number(wire), tag, bytes) {
                Some(n) => Some((m, n)),
                None => None,
            }
        }
    }

    open spec fn encoded(m: DebugInfoView) -> Seq<u8> {
        repeated_text(1, m.stack_entries) + plain_text_field(2, m.detail)
    }

    fn new_blank() -> (r: Self) {
        let r = DebugInfo { stack_entries: Vec::new(), detail: String::new() };
        assert(r@.stack_entries =~= Seq::empty());
        r
    }

    fn merge_field<'a>(&mut self, tag: u32, wire: WireType, buf: &'a [u8]) -> (r: Result<
        &'a [u8],
        DecodeFailure,
    >) {
        if tag == 1 {
            let (text, rest) = take_text(wire, buf)?;
            self.stack_entries.push(text);
            assert(self@.stack_entries =~= old(self)@.stack_entries.push(text@));
            Ok(rest)
        } else if tag == 2 {
            let (text, rest) = take_text(wire, buf)?;
            self.detail = text;
            Ok(rest)
        } else {
            skip_unknown(wire, tag, buf)
        }
    }

    fn encode_raw(&self, buf: &mut Vec<u8>) {
        write_repeated_text(1, &self.stack_entries, buf);
        write_plain_text(2, self.detail.as_str(), buf);
        assert(final(buf)@ =~= old(buf)@ + Self::encoded(self@));
    }
}

/// Entries that are added one after another to a value make its stack
/// longer by the entries.
proof fn lemma_fold_entries(entries: Seq<Seq<char>>, start: DebugInfoView)
    ensures
        entries.fold_left(start, |m: DebugInfoView, entry: Seq<char>| with_entry(m, entry))
            == (DebugInfoView { stack_entries: start.stack_entries + entries, ..start }),
    decreases entries.len(),
{
    if entries.len() == 0 {
        assert(start.stack_entries + entries =~= start.stack_entries);
    } else {
        lemma_fold_entries(entries.drop_last(), start);
        assert(start.stack_entries + entries =~= (start.stack_entries
            + entries.drop_last()).push(entries.last()));
    }
}

impl RoundTrip for DebugInfo {
    proof fn lemma_round_trip(m: DebugInfoView) {
        let end = Seq::<u8>::empty();
        let rest = plain_text_field(2, m.detail) + end;
        let step = |before: DebugInfoView, entry: Seq<char>| with_entry(before, entry);
        let m0 = Self::blank();
        let m1 = DebugInfoView { stack_entries: m.stack_entries, ..m0 };
        assert forall|before: DebugInfoView, i: int, suffix: Seq<u8>|
            0 <= i < m.stack_entries.len() implies #[trigger] Self::merged(
            before,
            1,
            WireType::LengthDelimited,
            text_payload()(m.stack_entries[i]) + suffix,
        ) == Some(
            (step(before, m.stack_entries[i]), text_payload()(m.stack_entries[i]).len() as int),
        ) by {
            lemma_repeated_item_len(
                1,
                WireType::LengthDelimited,
                m.stack_entries,
                text_payload(),
                i,
            );
            lemma_read_text_of(m.stack_entries[i], suffix);
        }
        lemma_parsed_repeated::<Self, Seq<char>>(
            1,
            WireType::LengthDelimited,
            m.stack_entries,
            text_payload(),
            step,
            rest,
            m0,
        );
        lemma_fold_entries(m.stack_entries, m0);
        assert(m0.stack_entries + m.stack_entries =~= m.stack_entries);
        if m.detail.len() > 0 {
            lemma_read_text_of(m.detail, end);
        } else {
            assert(m.detail =~= Seq::empty());
        }
        lemma_parsed_plain_text::<Self>(2, m.detail, end, m1, m);
        assert(Self::encoded(m) =~= repeated_text(1, m.stack_entries) + rest);
    }
}

impl DebugInfo {
    /// The type identifier of this kind.
    pub const TYPE_URL: &'static str = "type.googleapis.com/google.rpc.DebugInfo";

    /// A record of the given stack entries and text.
    pub fn new(stack_entries: Vec<String>, detail: &str) -> (r: Self)
        ensures
            r@ == (DebugInfoView { stack_entries: texts(stack_entries@), detail: detail@ }),
    {
        DebugInfo { stack_entries, detail: detail.to_owned() }
    }

    /// A record without stack entries and with an empty text.
    pub fn empty() -> (r: Self)
        ensures
            r@ == Self::blank(),
    {
        Self::new_blank()
    }

    /// A record of the given stack entries and text.
    pub fn with_stack(stack_entries: Vec<&str>, detail: &str) -> (r: Self)
        ensures
            r@ == (DebugInfoView {
                stack_entries: stack_entries@.map_values(|entry: &str| entry@),
                detail: detail@,
            }),
    {
        let mut entries: Vec<String> = Vec::new();
        let mut i: usize = 0;
        while i < stack_entries.len()
            invariant
                i <= stack_entries.len(),
                entries@.len() == i,
                forall|j: int| 0 <= j < i ==> entries@[j]@ == stack_entries@[j]@,
            decreases stack_entries.len() - i,
        {
            entries.push(stack_entries[i].to_owned());
            i += 1;
        }
        assert(texts(entries@) =~= stack_entries@.map_values(|entry: &str| entry@));
        DebugInfo { stack_entries: entries, detail: detail.to_owned() }
    }

    /// Whether there is no stack entry and the text is empty.
    pub fn is_empty(&self) -> (r: bool)
        ensures
            r == self@.is_empty(),
    {
        self.stack_entries.is_empty() && self.detail.as_str().is_empty()
    }

    /// The blob of this record: the type identifier of the kind and the
    /// record's bytes. The payload decodes to the record again.
    pub fn to_any(&self) -> (any: Any)
        ensures
            any.type_url@ == Self::TYPE_URL@,
            any.value@ == Self::encoded(self@),
            decoded::<Self>(any.value@) == Some(self@),
    {
        pack(Self::TYPE_URL, self)
    }

    /// The blob of this record, as `to_any` gives it. It never fails.
    pub fn into_any(self) -> (r: Result<Any, EncodeFailure>)
        ensures
            r matches Ok(any) && any.type_url@ == Self::TYPE_URL@ && any.value@ == Self::encoded(
                self@,
            ) && decoded::<Self>(any.value@) == Some(self@),
    {
        Ok(self.to_any())
    }

    /// The record that the payload of a blob decodes to. The type identifier
    /// of the blob is not looked at.
    pub fn from_any(any: Any) -> (r: Result<Self, DecodeFailure>)
        ensures
            match r {
                Ok(found) => decoded::<Self>(any.value@) == Some(found@),
                Err(_) => decoded::<Self>(any.value@) is None,
            },
    {
        unpack(&any)
    }
}

} // verus!

//! `LocalizedMessage`: an error message in a given locale.

use vstd::prelude::*;
use prost::encoding::WireType;
use prost_types::Any;
use crate::error::DecodeFailure;
use crate::error::EncodeFailure;
use crate::message::decoded;
use crate::message::lemma_parsed_plain_text;
use crate::message::pack;
use crate::message::unpack;
use crate::message::Message;
use crate::message::RoundTrip;
use crate::wire::lemma_read_text_of;
use crate::wire::plain_text_field;
use crate::wire::read_text;
use crate::wire::skip_unknown;
use crate::wire::skipped;
use crate::wire::take_text;
use crate::wire::wire_number;
use crate::wire::write_plain_text;

verus! {

/// A localized error message that is safe to return to the user.
#[derive(Clone, Debug)]
pub struct LocalizedMessage {
    /// The locale used, such as "en-US" or "fr-CH".
    pub locale: String,
    /// The localized error message in that locale.
    pub message: String,
}

/// What a `LocalizedMessage` stands for.
pub struct LocalizedMessageView {
    pub locale: Seq<char>,
    pub message: Seq<char>,
}

impl View for LocalizedMessage {
    type V = LocalizedMessageView;

    open spec fn view(&self) -> LocalizedMessageView {
        LocalizedMessageView {
            locale: self.locale@,
            message: self.message@,
        }
    }
}

impl Message for LocalizedMessage {
    type Model = LocalizedMessageView;

    open spec fn model(&self) -> LocalizedMessageView {
        self@
    }

    open spec fn blank() -> LocalizedMessageView {
        LocalizedMessageView {
            locale: Seq::empty(),
            message: Seq::empty(),
        }
    }

    open spec fn merged(
        m: LocalizedMessageView,
        tag: u32,
        wire: WireType,
        bytes: Seq<u8>,
    ) -> Option<(LocalizedMessageView, int)> {
        if tag == 1 {
            match read_text(wire, bytes) {
                Some((text, n)) => Some((LocalizedMessageView { locale: text, ..m }, n)),
                None => None,
            }
        } else if tag == 2 {
            match read_text(wire, bytes) {
                Some((text, n)) => Some((LocalizedMessageView { message: text, ..m }, n)),
                None => None,
            }
        } else {
            match skipped(wire_number(wire), tag, bytes) {
                Some(n) => Some((m, n)),
                None => None,
            }
        }
    }

    open spec fn encoded(m: LocalizedMessageView) -> Seq<u8> {
        plain_text_field(1, m.locale) + plain_text_field(2, m.message)
    }

    fn new_blank() -> (r: Self) {
        LocalizedMessage {
            locale: String::new(),
            message: String::new(),
        }
    }

    fn merge_field<'a>(&mut self, tag: u32, wire: WireType, buf: &'a [u8]) -> (r: Result<
        &'a [u8],
        DecodeFailure,
    >) {
        if tag == 1 {
            let (text, rest) = take_text(wire, buf)?;
            self.locale = text;
            Ok(rest)
        } else if tag == 2 {
            let (text, rest) = take_text(wire, buf)?;
            self.message = text;
            Ok(rest)
        } else {
            skip_unknown(wire, tag, buf)
        }
    }

    fn encode_raw(&self, buf: &mut Vec<u8>) {
        write_plain_text(1, self.locale.as_str(), buf);
        write_plain_text(2, self.message.as_str(), buf);
        assert(final(buf)@ =~= old(buf)@ + Self::encoded(self@));
    }
}

impl RoundTrip for LocalizedMessage {
    proof fn lemma_round_trip(m: LocalizedMessageView) {
        let end = Seq::<u8>::empty();
        let rest1 = plain_text_field(2, m.message) + end;
        let m0 = Self::blank();
        let m1 = LocalizedMessageView { locale: m.locale, ..m0 };
        if m.locale.len() > 0 {
            lemma_read_text_of(m.locale, rest1);
        } else {
            assert(m.locale =~= Seq::empty());
        }
        lemma_parsed_plain_text::<Self>(1, m.locale, rest1, m0, m1);
        if m.message.len() > 0 {
            lemma_read_text_of(m.message, end);
        } else {
            assert(m.message =~= Seq::empty());
        }
        lemma_parsed_plain_text::<Self>(2, m.message, end, m1, m);
        assert(Self::encoded(m) =~= plain_text_field(1, m.locale) + rest1);
    }
}

impl LocalizedMessageView {
    /// Whether every text is empty.
    pub open spec fn is_empty(self) -> bool {
        self.locale.len() == 0 && self.message.len() == 0
    }
}

impl LocalizedMessage {
    /// The type identifier of this kind.
    pub const TYPE_URL: &'static str = "type.googleapis.com/google.rpc.LocalizedMessage";

    /// A record of the two given texts.
    pub fn new(locale: &str, message: &str) -> (r: Self)
        ensures
            r@ == (LocalizedMessageView { locale: locale@, message: message@ }),
    {
        LocalizedMessage {
            locale: locale.to_owned(),
            message: message.to_owned(),
        }
    }

    /// A record whose texts are all empty.
    pub fn empty() -> (r: Self)
        ensures
            r@ == Self::blank(),
    {
        Self::new_blank()
    }

    /// A record of the two given texts.
    pub fn with_data(locale: &str, message: &str) -> (r: Self)
        ensures
            r@ == (LocalizedMessageView { locale: locale@, message: message@ }),
    {
        LocalizedMessage {
            locale: locale.to_owned(),
            message: message.to_owned(),
        }
    }

    /// Whether every text is empty.
    pub fn is_empty(&self) -> (r: bool)
        ensures
            r == self@.is_empty(),
    {
        self.locale.as_str().is_empty() && self.message.as_str().is_empty()
    }

    /// The blob of this record: the type identifier of the kind and the
    /// record's bytes. The payload decodes to the record again.
    pub fn to_any(&self) -> (any: Any)
        ensures
            any.type_url@ == Self::TYPE_URL@,
            any.value@ == Self::encoded(self@),
            decoded::<Self>(any.value@) == Some(self@),
    {
        pack(Self::TYPE_URL, self)
    }

    /// The blob of this record, as `to_any` gives it. It never fails.
    pub fn into_any(self) -> (r: Result<Any, EncodeFailure>)
        ensures
            r matches Ok(any) && any.type_url@ == Self::TYPE_URL@ && any.value@ == Self::encoded(
                self@,
            ) && decoded::<Self>(any.value@) == Some(self@),
    {
        Ok(self.to_any())
    }

    /// The record that the payload of a blob decodes to. The type identifier
    /// of the blob is not looked at.
    pub fn from_any(any: Any) -> (r: Result<Self, DecodeFailure>)
        ensures
            match r {
                Ok(found) => decoded::<Self>(any.value@) == Some(found@),
                Err(_) => decoded::<Self>(any.value@) is None,
            },
    {
        unpack(&any)
    }
}

} // verus!

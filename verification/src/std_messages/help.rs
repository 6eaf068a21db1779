//! `Help`: links to documentation or for out-of-band action.

use vstd::prelude::*;
use prost::encoding::WireType;
use prost_types::Any;
use crate::error::DecodeFailure;
use crate::error::EncodeFailure;
use crate::message::decoded;
use crate::message::lemma_fold_push;
use crate::message::lemma_parsed_plain_text;
use crate::message::lemma_parsed_repeated;
use crate::message::lemma_read_nested_of;
use crate::message::lemma_repeated_item_len;
use crate::message::merge_nested;
use crate::message::models;
use crate::message::nested_payload;
use crate::message::pack;
use crate::message::read_nested;
use crate::message::repeated_nested;
use crate::message::unpack;
use crate::message::write_repeated_nested;
use crate::message::Message;
use crate::message::RoundTrip;
use crate::wire::lemma_read_text_of;
use crate::wire::plain_text_field;
use crate::wire::read_text;
use crate::wire::skip_unknown;
use crate::wire::skipped;
use crate::wire::take_text;
use crate::wire::wire_number;
use crate::wire::write_plain_text;

verus! {

/// One link: what it offers and where it leads.
#[derive(Clone, Debug)]
pub struct HelpLink {
    /// What the link offers.
    pub description: String,
    /// The URL of the link.
    pub url: String,
}

/// What a `HelpLink` stands for.
pub struct HelpLinkView {
    pub description: Seq<char>,
    pub url: Seq<char>,
}

impl View for HelpLink {
    type V = HelpLinkView;

    open spec fn view(&self) -> HelpLinkView {
        HelpLinkView {
            description: self.description@,
            url: self.url@,
        }
    }
}

impl Message for HelpLink {
    type Model = HelpLinkView;

    open spec fn model(&self) -> HelpLinkView {
        self@
    }

    open spec fn blank() -> HelpLinkView {
        HelpLinkView {
            description: Seq::empty(),
            url: Seq::empty(),
        }
    }

    open spec fn merged(m: HelpLinkView, tag: u32, wire: WireType, bytes: Seq<u8>) -> Option<
        (HelpLinkView, int),
    > {
        if tag == 1 {
            match read_text(wire, bytes) {
                Some((text, n)) => Some((HelpLinkView { description: text, ..m }, n)),
                None => None,
            }
        } else if tag == 2 {
            match read_text(wire, bytes) {
                Some((text, n)) => Some((HelpLinkView { url: text, ..m }, n)),
                None => None,
            }
        } else {
            match skipped(wire_number(wire), tag, bytes) {
                Some(n) => Some((m, n)),
                None => None,
            }
        }
    }

    open spec fn encoded(m: HelpLinkView) -> Seq<u8> {
        plain_text_field(1, m.description) + plain_text_field(2, m.url)
    }

    fn new_blank() -> (r: Self) {
        HelpLink {
            description: String::new(),
            url: String::new(),
        }
    }

    fn merge_field<'a>(&mut self, tag: u32, wire: WireType, buf: &'a [u8]) -> (r: Result<
        &'a [u8],
        DecodeFailure,
    >) {
        if tag == 1 {
            let (text, rest) = take_text(wire, buf)?;
            self.description = text;
            Ok(rest)
        } else if tag == 2 {
            let (text, rest) = take_text(wire, buf)?;
            self.url = text;
            Ok(rest)
        } else {
            skip_unknown(wire, tag, buf)
        }
    }

    fn encode_raw(&self, buf: &mut Vec<u8>) {
        write_plain_text(1, self.description.as_str(), buf);
        write_plain_text(2, self.url.as_str(), buf);
        assert(final(buf)@ =~= old(buf)@ + Self::encoded(self@));
    }
}

impl RoundTrip for HelpLink {
    proof fn lemma_round_trip(m: HelpLinkView) {
        let end = Seq::<u8>::empty();
        let rest1 = plain_text_field(2, m.url) + end;
        let m0 = Self::blank();
        let m1 = HelpLinkView { description: m.description, ..m0 };
        if m.description.len() > 0 {
            lemma_read_text_of(m.description, rest1);
        } else {
            assert(m.description =~= Seq::empty());
        }
        lemma_parsed_plain_text::<Self>(1, m.description, rest1, m0, m1);
        if m.url.len() > 0 {
            lemma_read_text_of(m.url, end);
        } else {
            assert(m.url =~= Seq::empty());
        }
        lemma_parsed_plain_text::<Self>(2, m.url, end, m1, m);
        assert(Self::encoded(m) =~= plain_text_field(1, m.description) + rest1);
    }
}

impl HelpLink {
    /// A link of the given texts.
    pub fn new(description: &str, url: &str) -> (r: Self)
        ensures
            r@ == (HelpLinkView { description: description@, url: url@ }),
    {
        HelpLink {
            description: description.to_owned(),
            url: url.to_owned(),
        }
    }
}

/// Links to documentation, in the order in which they were added.
#[derive(Clone, Debug)]
pub struct Help {
    /// The links.
    pub links: Vec<HelpLink>,
}

impl View for Help {
    type V = Seq<HelpLinkView>;

    open spec fn view(&self) -> Seq<HelpLinkView> {
        models::<HelpLink>(self.links@)
    }
}

impl Message for Help {
    type Model = Seq<HelpLinkView>;

    open spec fn model(&self) -> Seq<HelpLinkView> {
        self@
    }

    open spec fn blank() -> Seq<HelpLinkView> {
        Seq::empty()
    }

    open spec fn merged(m: Seq<HelpLinkView>, tag: u32, wire: WireType, bytes: Seq<u8>) -> Option<
        (Seq<HelpLinkView>, int),
    > {
        if tag == 1 {
            match read_nested::<HelpLink>(wire, bytes, HelpLink::blank()) {
                Some((item, n)) => Some((m.push(item), n)),
                None => None,
            }
        } else {
            match skipped(wire_number(wire), tag, bytes) {
                Some(n) => Some((m, n)),
                None => None,
            }
        }
    }

    open spec fn encoded(m: Seq<HelpLinkView>) -> Seq<u8> {
        repeated_nested::<HelpLink>(1, m)
    }

    fn new_blank() -> (r: Self) {
        let r = Help { links: Vec::new() };
        assert(r@ =~= Seq::empty());
        r
    }

    fn merge_field<'a>(&mut self, tag: u32, wire: WireType, buf: &'a [u8]) -> (r: Result<
        &'a [u8],
        DecodeFailure,
    >) {
        if tag == 1 {
            let mut item = HelpLink::new_blank();
            let rest = merge_nested(wire, &mut item, buf)?;
            self.links.push(item);
            assert(self@ =~= old(self)@.push(item@));
            Ok(rest)
        } else {
            skip_unknown(wire, tag, buf)
        }
    }

    fn encode_raw(&self, buf: &mut Vec<u8>) {
        write_repeated_nested(1, &self.links, buf);
    }
}

impl RoundTrip for Help {
    proof fn lemma_round_trip(m: Seq<HelpLinkView>) {
        let payload = nested_payload::<HelpLink>();
        let step = |list: Seq<HelpLinkView>, item: HelpLinkView| list.push(item);
        assert forall|before: Seq<HelpLinkView>, i: int, suffix: Seq<u8>|
            0 <= i < m.len() implies #[trigger] Self::merged(
            before,
            1,
            WireType::LengthDelimited,
            payload(m[i]) + suffix,
        ) == Some((step(before, m[i]), payload(m[i]).len() as int)) by {
            lemma_repeated_item_len(1, WireType::LengthDelimited, m, payload, i);
            lemma_read_nested_of::<HelpLink>(m[i], suffix);
        }
        lemma_parsed_repeated::<Self, HelpLinkView>(
            1,
            WireType::LengthDelimited,
            m,
            payload,
            step,
            Seq::empty(),
            Seq::empty(),
        );
        lemma_fold_push(m, Seq::empty());
        assert(Self::encoded(m) + Seq::empty() =~= Self::encoded(m));
        assert(Seq::empty() + m =~= m);
    }
}

impl Help {
    /// The type identifier of this kind.
    pub const TYPE_URL: &'static str = "type.googleapis.com/google.rpc.Help";

    /// A record of the given links.
    pub fn new(links: Vec<HelpLink>) -> (r: Self)
        ensures
            r@ == models::<HelpLink>(links@),
    {
        Help { links }
    }

    /// A record of one link.
    pub fn with_link(description: &str, url: &str) -> (r: Self)
        ensures
            r@ == seq![HelpLinkView { description: description@, url: url@ }],
    {
        let mut links = Vec::new();
        links.push(HelpLink::new(description, url));
        let r = Help { links };
        assert(r@ =~= seq![HelpLinkView { description: description@, url: url@ }]);
        r
    }

    /// Adds a link behind those that are there.
    pub fn add_link(&mut self, description: &str, url: &str) -> (ret: &mut Self)
        ensures
            ret@ == old(self)@.push(HelpLinkView { description: description@, url: url@ }),
            *final(self) == *final(ret),
    {
        self.links.push(HelpLink::new(description, url));
        assert(self@ =~= old(self)@.push(HelpLinkView { description: description@, url: url@ }));
        self
    }

    /// Whether there is no link.
    pub fn is_empty(&self) -> (r: bool)
        ensures
            r == (self@.len() == 0),
    {
        self.links.is_empty()
    }

    /// The blob of this record: the type identifier of the kind and the
    /// record's bytes. The payload decodes to the record again.
    pub fn to_any(&self) -> (any: Any)
        ensures
            any.type_url@ == Self::TYPE_URL@,
            any.value@ == Self::encoded(self@),
            decoded::<Self>(any.value@) == Some(self@),
    {
        pack(Self::TYPE_URL, self)
    }

    /// The blob of this record, as `to_any` gives it. It never fails.
    pub fn into_any(self) -> (r: Result<Any, EncodeFailure>)
        ensures
            r matches Ok(any) && any.type_url@ == Self::TYPE_URL@ && any.value@ == Self::encoded(
                self@,
            ) && decoded::<Self>(any.value@) == Some(self@),
    {
        Ok(self.to_any())
    }

    /// The record that the payload of a blob decodes to. The type identifier
    /// of the blob is not looked at.
    pub fn from_any(any: Any) -> (r: Result<Self, DecodeFailure>)
        ensures
            match r {
                Ok(found) => decoded::<Self>(any.value@) == Some(found@),
                Err(_) => decoded::<Self>(any.value@) is None,
            },
    {
        unpack(&any)
    }
}

} // verus!

//! `ResourceInfo`: the resource that is being accessed.

use vstd::prelude::*;
use prost::encoding::WireType;
use prost_types::Any;
use crate::error::DecodeFailure;
use crate::error::EncodeFailure;
use crate::message::decoded;
use crate::message::lemma_parsed_plain_text;
use crate::message::pack;
use crate::message::unpack;
use crate::message::Message;
use crate::message::RoundTrip;
use crate::wire::lemma_read_text_of;
use crate::wire::plain_text_field;
use crate::wire::read_text;
use crate::wire::skip_unknown;
use crate::wire::skipped;
use crate::wire::take_text;
use crate::wire::wire_number;
use crate::wire::write_plain_text;

verus! {

/// The resource that is being accessed.
#[derive(Clone, Debug)]
pub struct ResourceInfo {
    /// A name for the type of resource being accessed.
    pub resource_type: String,
    /// The name of the resource being accessed.
    pub resource_name: String,
    /// The owner of the resource (optional).
    pub owner: String,
    /// What error is encountered when accessing this resource.
    pub description: String,
}

/// What a `ResourceInfo` stands for.
pub struct ResourceInfoView {
    pub resource_type: Seq<char>,
    pub resource_name: Seq<char>,
    pub owner: Seq<char>,
    pub description: Seq<char>,
}

impl View for ResourceInfo {
    type V = ResourceInfoView;

    open spec fn view(&self) -> ResourceInfoView {
        ResourceInfoView {
            resource_type: self.resource_type@,
            resource_name: self.resource_name@,
            owner: self.owner@,
            description: self.description@,
        }
    }
}

impl Message for ResourceInfo {
    type Model = ResourceInfoView;

    open spec fn model(&self) -> ResourceInfoView {
        self@
    }

    open spec fn blank() -> ResourceInfoView {
        ResourceInfoView {
            resource_type: Seq::empty(),
            resource_name: Seq::empty(),
            owner: Seq::empty(),
            description: Seq::empty(),
        }
    }

    open spec fn merged(m: ResourceInfoView, tag: u32, wire: WireType, bytes: Seq<u8>) -> Option<
        (ResourceInfoView, int),
    > {
        if tag == 1 {
            match read_text(wire, bytes) {
                Some((text, n)) => Some((ResourceInfoView { resource_type: text, ..m }, n)),
                None => None,
            }
        } else if tag == 2 {
            match read_text(wire, bytes) {
                Some((text, n)) => Some((ResourceInfoView { resource_name: text, ..m }, n)),
                None => None,
            }
        } else if tag == 3 {
            match read_text(wire, bytes) {
                Some((text, n)) => Some((ResourceInfoView { owner: text, ..m }, n)),
                None => None,
            }
        } else if tag == 4 {
            match read_text(wire, bytes) {
                Some((text, n)) => Some((ResourceInfoView { description: text, ..m }, n)),
                None => None,
            }
        } else {
            match skipped(wire_number(wire), tag, bytes) {
                Some(n) => Some((m, n)),
                None => None,
            }
        }
    }

    open spec fn encoded(m: ResourceInfoView) -> Seq<u8> {
        plain_text_field(1, m.resource_type)
            + plain_text_field(2, m.resource_name)
            + plain_text_field(3, m.owner)
            + plain_text_field(4, m.description)
    }

    fn new_blank() -> (r: Self) {
        ResourceInfo {
            resource_type: String::new(),
            resource_name: String::new(),
            owner: String::new(),
            description: String::new(),
        }
    }

    fn merge_field<'a>(&mut self, tag: u32, wire: WireType, buf: &'a [u8]) -> (r: Result<
        &'a [u8],
        DecodeFailure,
    >) {
        if tag == 1 {
            let (text, rest) = take_text(wire, buf)?;
            self.resource_type = text;
            Ok(rest)
        } else if tag == 2 {
            let (text, rest) = take_text(wire, buf)?;
            self.resource_name = text;
            Ok(rest)
        } else if tag == 3 {
            let (text, rest) = take_text(wire, buf)?;
            self.owner = text;
            Ok(rest)
        } else if tag == 4 {
            let (text, rest) = take_text(wire, buf)?;
            self.description = text;
            Ok(rest)
        } else {
            skip_unknown(wire, tag, buf)
        }
    }

    fn encode_raw(&self, buf: &mut Vec<u8>) {
        write_plain_text(1, self.resource_type.as_str(), buf);
        write_plain_text(2, self.resource_name.as_str(), buf);
        write_plain_text(3, self.owner.as_str(), buf);
        write_plain_text(4, self.description.as_str(), buf);
        assert(final(buf)@ =~= old(buf)@ + Self::encoded(self@));
    }
}

impl RoundTrip for ResourceInfo {
    proof fn lemma_round_trip(m: ResourceInfoView) {
        let end = Seq::<u8>::empty();
        let rest3 = plain_text_field(4, m.description) + end;
        let rest2 = plain_text_field(3, m.owner) + rest3;
        let rest1 = plain_text_field(2, m.resource_name) + rest2;
        let m0 = Self::blank();
        let m1 = ResourceInfoView { resource_type: m.resource_type, ..m0 };
        let m2 = ResourceInfoView { resource_name: m.resource_name, ..m1 };
        let m3 = ResourceInfoView { owner: m.owner, ..m2 };
        if m.resource_type.len() > 0 {
            lemma_read_text_of(m.resource_type, rest1);
        } else {
            assert(m.resource_type =~= Seq::empty());
        }
        lemma_parsed_plain_text::<Self>(1, m.resource_type, rest1, m0, m1);
        if m.resource_name.len() > 0 {
            lemma_read_text_of(m.resource_name, rest2);
        } else {
            assert(m.resource_name =~= Seq::empty());
        }
        lemma_parsed_plain_text::<Self>(2, m.resource_name, rest2, m1, m2);
        if m.owner.len() > 0 {
            lemma_read_text_of(m.owner, rest3);
        } else {
            assert(m.owner =~= Seq::empty());
        }
        lemma_parsed_plain_text::<Self>(3, m.owner, rest3, m2, m3);
        if m.description.len() > 0 {
            lemma_read_text_of(m.description, end);
        } else {
            assert(m.description =~= Seq::empty());
        }
        lemma_parsed_plain_text::<Self>(4, m.description, end, m3, m);
        assert(Self::encoded(m) =~= plain_text_field(1, m.resource_type) + rest1);
    }
}

impl ResourceInfoView {
    /// Whether every text is empty.
    pub open spec fn is_empty(self) -> bool {
        self.resource_type.len() == 0
            && self.resource_name.len() == 0
            && self.owner.len() == 0
            && self.description.len() == 0
    }
}

impl ResourceInfo {
    /// The type identifier of this kind.
    pub const TYPE_URL: &'static str = "type.googleapis.com/google.rpc.ResourceInfo";

    /// A record of the four given texts.
    pub fn new(
        resource_type: &str,
        resource_name: &str,
        owner: &str,
        description: &str,
    ) -> (r: Self)
        ensures
            r@ == (ResourceInfoView {
                    resource_type: resource_type@,
                    resource_name: resource_name@,
                    owner: owner@,
                    description: description@,
                }),
    {
        ResourceInfo {
            resource_type: resource_type.to_owned(),
            resource_name: resource_name.to_owned(),
            owner: owner.to_owned(),
            description: description.to_owned(),
        }
    }

    /// A record whose texts are all empty.
    pub fn empty() -> (r: Self)
        ensures
            r@ == Self::blank(),
    {
        Self::new_blank()
    }

    /// A record of the four given texts.
    pub fn with_data(
        resource_type: &str,
        resource_name: &str,
        owner: &str,
        description: &str,
    ) -> (r: Self)
        ensures
            r@ == (ResourceInfoView {
                    resource_type: resource_type@,
                    resource_name: resource_name@,
                    owner: owner@,
                    description: description@,
                }),
    {
        ResourceInfo {
            resource_type: resource_type.to_owned(),
            resource_name: resource_name.to_owned(),
            owner: owner.to_owned(),
            description: description.to_owned(),
        }
    }

    /// Whether every text is empty.
    pub fn is_empty(&self) -> (r: bool)
        ensures
            r == self@.is_empty(),
    {
        self.resource_type.as_str().is_empty()
            && self.resource_name.as_str().is_empty()
            && self.owner.as_str().is_empty()
            && self.description.as_str().is_empty()
    }

    /// The blob of this record: the type identifier of the kind and the
    /// record's bytes. The payload decodes to the record again.
    pub fn to_any(&self) -> (any: Any)
        ensures
            any.type_url@ == Self::TYPE_URL@,
            any.value@ == Self::encoded(self@),
            decoded::<Self>(any.value@) == Some(self@),
    {
        pack(Self::TYPE_URL, self)
    }

    /// The blob of this record, as `to_any` gives it. It never fails.
    pub fn into_any(self) -> (r: Result<Any, EncodeFailure>)
        ensures
            r matches Ok(any) && any.type_url@ == Self::TYPE_URL@ && any.value@ == Self::encoded(
                self@,
            ) && decoded::<Self>(any.value@) == Some(self@),
    {
        Ok(self.to_any())
    }

    /// The record that the payload of a blob decodes to. The type identifier
    /// of the blob is not looked at.
    pub fn from_any(any: Any) -> (r: Result<Self, DecodeFailure>)
        ensures
            match r {
                Ok(found) => decoded::<Self>(any.value@) == Some(found@),
                Err(_) => decoded::<Self>(any.value@) is None,
            },
    {
        unpack(&any)
    }
}

} // verus!

//! `RequestInfo`: metadata about the request that failed.

use vstd::prelude::*;
use prost::encoding::WireType;
use prost_types::Any;
use crate::error::DecodeFailure;
use crate::error::EncodeFailure;
use crate::message::decoded;
use crate::message::lemma_parsed_plain_text;
use crate::message::pack;
use crate::message::unpack;
use crate::message::Message;
use crate::message::RoundTrip;
use crate::wire::lemma_read_text_of;
use crate::wire::plain_text_field;
use crate::wire::read_text;
use crate::wire::skip_unknown;
use crate::wire::skipped;
use crate::wire::take_text;
use crate::wire::wire_number;
use crate::wire::write_plain_text;

verus! {

/// Metadata about the request that clients can attach when they file a bug
/// or give other feedback.
#[derive(Clone, Debug)]
pub struct RequestInfo {
    /// An opaque string that should only be interpreted by the service that
    /// generated it.
    pub request_id: String,
    /// Any data that was used to serve this request.
    pub serving_data: String,
}

/// What a `RequestInfo` stands for.
pub struct RequestInfoView {
    pub request_id: Seq<char>,
    pub serving_data: Seq<char>,
}

impl View for RequestInfo {
    type V = RequestInfoView;

    open spec fn view(&self) -> RequestInfoView {
        RequestInfoView {
            request_id: self.request_id@,
            serving_data: self.serving_data@,
        }
    }
}

impl Message for RequestInfo {
    type Model = RequestInfoView;

    open spec fn model(&self) -> RequestInfoView {
        self@
    }

    open spec fn blank() -> RequestInfoView {
        RequestInfoView {
            request_id: Seq::empty(),
            serving_data: Seq::empty(),
        }
    }

    open spec fn merged(m: RequestInfoView, tag: u32, wire: WireType, bytes: Seq<u8>) -> Option<
        (RequestInfoView, int),
    > {
        if tag == 1 {
            match read_text(wire, bytes) {
                Some((text, n)) => Some((RequestInfoView { request_id: text, ..m }, n)),
                None => None,
            }
        } else if tag == 2 {
            match read_text(wire, bytes) {
                Some((text, n)) => Some((RequestInfoView { serving_data: text, ..m }, n)),
                None => None,
            }
        } else {
            match skipped(wire_number(wire), tag, bytes) {
                Some(n) => Some((m, n)),
                None => None,
            }
        }
    }

    open spec fn encoded(m: RequestInfoView) -> Seq<u8> {
        plain_text_field(1, m.request_id) + plain_text_field(2, m.serving_data)
    }

    fn new_blank() -> (r: Self) {
        RequestInfo {
            request_id: String::new(),
            serving_data: String::new(),
        }
    }

    fn merge_field<'a>(&mut self, tag: u32, wire: WireType, buf: &'a [u8]) -> (r: Result<
        &'a [u8],
        DecodeFailure,
    >) {
        if tag == 1 {
            let (text, rest) = take_text(wire, buf)?;
            self.request_id = text;
            Ok(rest)
        } else if tag == 2 {
            let (text, rest) = take_text(wire, buf)?;
            self.serving_data = text;
            Ok(rest)
        } else {
            skip_unknown(wire, tag, buf)
        }
    }

    fn encode_raw(&self, buf: &mut Vec<u8>) {
        write_plain_text(1, self.request_id.as_str(), buf);
        write_plain_text(2, self.serving_data.as_str(), buf);
        assert(final(buf)@ =~= old(buf)@ + Self::encoded(self@));
    }
}

impl RoundTrip for RequestInfo {
    proof fn lemma_round_trip(m: RequestInfoView) {
        let end = Seq::<u8>::empty();
        let rest1 = plain_text_field(2, m.serving_data) + end;
        let m0 = Self::blank();
        let m1 = RequestInfoView { request_id: m.request_id, ..m0 };
        if m.request_id.len() > 0 {
            lemma_read_text_of(m.request_id, rest1);
        } else {
            assert(m.request_id =~= Seq::empty());
        }
        lemma_parsed_plain_text::<Self>(1, m.request_id, rest1, m0, m1);
        if m.serving_data.len() > 0 {
            lemma_read_text_of(m.serving_data, end);
        } else {
            assert(m.serving_data =~= Seq::empty());
        }
        lemma_parsed_plain_text::<Self>(2, m.serving_data, end, m1, m);
        assert(Self::encoded(m) =~= plain_text_field(1, m.request_id) + rest1);
    }
}

impl RequestInfoView {
    /// Whether every text is empty.
    pub open spec fn is_empty(self) -> bool {
        self.request_id.len() == 0 && self.serving_data.len() == 0
    }
}

impl RequestInfo {
    /// The type identifier of this kind.
    pub const TYPE_URL: &'static str = "type.googleapis.com/google.rpc.RequestInfo";

    /// A record of the two given texts.
    pub fn new(request_id: &str, serving_data: &str) -> (r: Self)
        ensures
            r@ == (RequestInfoView {
                    request_id: request_id@,
                    serving_data: serving_data@,
                }),
    {
        RequestInfo {
            request_id: request_id.to_owned(),
            serving_data: serving_data.to_owned(),
        }
    }

    /// Whether every text is empty.
    pub fn is_empty(&self) -> (r: bool)
        ensures
            r == self@.is_empty(),
    {
        self.request_id.as_str().is_empty() && self.serving_data.as_str().is_empty()
    }

    /// The blob of this record: the type identifier of the kind and the
    /// record's bytes. The payload decodes to the record again.
    pub fn to_any(&self) -> (any: Any)
        ensures
            any.type_url@ == Self::TYPE_URL@,
            any.value@ == Self::encoded(self@),
            decoded::<Self>(any.value@) == Some(self@),
    {
        pack(Self::TYPE_URL, self)
    }

    /// The blob of this record, as `to_any` gives it. It never fails.
    pub fn into_any(self) -> (r: Result<Any, EncodeFailure>)
        ensures
            r matches Ok(any) && any.type_url@ == Self::TYPE_URL@ && any.value@ == Self::encoded(
                self@,
            ) && decoded::<Self>(any.value@) == Some(self@),
    {
        Ok(self.to_any())
    }

    /// The record that the payload of a blob decodes to. The type identifier
    /// of the blob is not looked at.
    pub fn from_any(any: Any) -> (r: Result<Self, DecodeFailure>)
        ensures
            match r {
                Ok(found) => decoded::<Self>(any.value@) == Some(found@),
                Err(_) => decoded::<Self>(any.value@) is None,
            },
    {
        unpack(&any)
    }
}

} // verus!

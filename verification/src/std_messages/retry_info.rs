//! `RetryInfo`: when clients can retry a failed request.

use vstd::prelude::*;
use std::time::Duration;
use prost::encoding::WireType;
use prost_types::Any;
use crate::duration::duration_nanos;
use crate::duration::from_wire;
use crate::duration::longest_wire_nanos;
use crate::duration::new_duration;
use crate::duration::second;
use crate::duration::to_wire;
use crate::duration::whole_seconds;
use crate::duration::wire_nanos;
use crate::error::DecodeFailure;
use crate::error::EncodeFailure;
use crate::message::decoded;
use crate::message::lemma_parsed_field;
use crate::message::lemma_parsed_plain_number;
use crate::message::lemma_read_nested_of;
use crate::message::merge_nested;
use crate::message::nested_field;
use crate::message::pack;
use crate::message::read_nested;
use crate::message::decode;
use crate::message::write_nested;
use crate::message::Message;
use crate::message::RoundTrip;
use crate::wire::key;
use crate::wire::length_delimited;
use crate::wire::lemma_read_varint_of_varint;
use crate::wire::plain_number_field;
use crate::wire::read_number;
use crate::wire::skip_unknown;
use crate::wire::skipped;
use crate::wire::take_number;
use crate::wire::wire_number;
use crate::wire::write_plain_number;

verus! {

/// The whole seconds of the longest delay that is encoded.
pub const MAX_RETRY_SECONDS: u64 = 315_576_000_000;

/// The nanoseconds, beyond the whole seconds, of the longest delay that is
/// encoded.
pub const MAX_RETRY_SUBSEC_NANOS: u32 = 999_999_999;

/// The longest delay that is encoded, in nanoseconds.
pub open spec fn longest_delay() -> nat {
    315_576_000_000_999_999_999
}

/// A delay cut down to the longest one.
pub open spec fn clamped(nanos: nat) -> nat {
    if nanos > longest_delay() {
        longest_delay()
    } else {
        nanos
    }
}

/// The wire form of a delay: the whole seconds and the nanoseconds beyond
/// them, of the delay cut down to the longest one.
pub open spec fn wire_of_delay(nanos: nat) -> prost_types::Duration {
    prost_types::Duration {
        seconds: (clamped(nanos) / (second() as nat)) as i64,
        nanos: (clamped(nanos) % (second() as nat)) as i32,
    }
}

/// The delay that a wire form stands for: zero where the form is negative,
/// else the sum of its two parts, cut down to the longest span that the
/// wire form holds.
pub open spec fn delay_of_wire(w: prost_types::Duration) -> nat {
    if wire_nanos(w) < 0 {
        0
    } else if wire_nanos(w) <= longest_wire_nanos() {
        wire_nanos(w) as nat
    } else {
        longest_wire_nanos() as nat
    }
}

/// The wire form of a delay holds the whole seconds and the nanoseconds of
/// the delay cut down, both within their ranges, and stands for that delay.
pub proof fn lemma_wire_of_delay(nanos: nat)
    ensures
        wire_of_delay(nanos).seconds == clamped(nanos) / 1_000_000_000,
        wire_of_delay(nanos).nanos == clamped(nanos) % 1_000_000_000,
        0 <= wire_of_delay(nanos).seconds <= MAX_RETRY_SECONDS,
        0 <= wire_of_delay(nanos).nanos <= MAX_RETRY_SUBSEC_NANOS,
        delay_of_wire(wire_of_delay(nanos)) == clamped(nanos),
{
    let c = clamped(nanos);
    assert(c <= 315_576_000_000_999_999_999);
    assert(c / 1_000_000_000 <= 315_576_000_000);
    assert(c == 1_000_000_000 * (c / 1_000_000_000) + c % 1_000_000_000);
}

impl Message for prost_types::Duration {
    type Model = prost_types::Duration;

    open spec fn model(&self) -> prost_types::Duration {
        *self
    }

    open spec fn blank() -> prost_types::Duration {
        prost_types::Duration { seconds: 0, nanos: 0 }
    }

    open spec fn merged(
        m: prost_types::Duration,
        tag: u32,
        wire: WireType,
        bytes: Seq<u8>,
    ) -> Option<(prost_types::Duration, int)> {
        if tag == 1 {
            match read_number(wire, bytes) {
                Some((v, n)) => Some((prost_types::Duration { seconds: v as i64, ..m }, n)),
                None => None,
            }
        } else if tag == 2 {
            match read_number(wire, bytes) {
                Some((v, n)) => Some((prost_types::Duration { nanos: v as i32, ..m }, n)),
                None => None,
            }
        } else {
            match skipped(wire_number(wire), tag, bytes) {
                Some(n) => Some((m, n)),
                None => None,
            }
        }
    }

    open spec fn encoded(m: prost_types::Duration) -> Seq<u8> {
        plain_number_field(1, m.seconds as u64) + plain_number_field(2, m.nanos as u64)
    }

    fn new_blank() -> (r: Self) {
        prost_types::Duration { seconds: 0, nanos: 0 }
    }

    fn merge_field<'a>(&mut self, tag: u32, wire: WireType, buf: &'a [u8]) -> (r: Result<
        &'a [u8],
        DecodeFailure,
    >) {
        if tag == 1 {
            let (v, rest) = take_number(wire, buf)?;
            self.seconds = #[verifier::truncate]
            (v as i64);
            Ok(rest)
        } else if tag == 2 {
            let (v, rest) = take_number(wire, buf)?;
            self.nanos = #[verifier::truncate]
            (v as i32);
            Ok(rest)
        } else {
            skip_unknown(wire, tag, buf)
        }
    }

    fn encode_raw(&self, buf: &mut Vec<u8>) {
        write_plain_number(1, self.seconds as u64, buf);
        write_plain_number(2, self.nanos as u64, buf);
        assert(final(buf)@ =~= old(buf)@ + Self::encoded(*self));
    }
}

impl RoundTrip for prost_types::Duration {
    proof fn lemma_round_trip(m: prost_types::Duration) {
        let end = Seq::<u8>::empty();
        let s: u64 = m.seconds as u64;
        let n: u64 = m.nanos as u64;
        let rest = plain_number_field(2, n) + end;
        let m0 = Self::blank();
        let m1 = prost_types::Duration { seconds: m.seconds, ..m0 };
        let seconds: i64 = m.seconds;
        let nanos: i32 = m.nanos;
        assert(s as i64 == seconds) by (bit_vector)
            requires
                s == seconds as u64,
        ;
        assert(n as i32 == nanos) by (bit_vector)
            requires
                n == nanos as u64,
        ;
        lemma_read_varint_of_varint(s, rest);
        lemma_parsed_plain_number::<Self>(1, s, rest, m0, m1);
        lemma_read_varint_of_varint(n, end);
        lemma_parsed_plain_number::<Self>(2, n, end, m1, m);
        assert(Self::encoded(m) =~= plain_number_field(1, s) + rest);
    }
}

/// The wire record of a `RetryInfo`: the delay in its wire form, or none.
pub struct RetryInfoWire {
    pub retry_delay: Option<prost_types::Duration>,
}

impl Message for RetryInfoWire {
    type Model = Option<prost_types::Duration>;

    open spec fn model(&self) -> Option<prost_types::Duration> {
        self.retry_delay
    }

    open spec fn blank() -> Option<prost_types::Duration> {
        None
    }

    open spec fn merged(
        m: Option<prost_types::Duration>,
        tag: u32,
        wire: WireType,
        bytes: Seq<u8>,
    ) -> Option<(Option<prost_types::Duration>, int)> {
        if tag == 1 {
            let start = match m {
                Some(delay) => delay,
                None => prost_types::Duration::blank(),
            };
            match read_nested::<prost_types::Duration>(wire, bytes, start) {
                Some((delay, n)) => Some((Some(delay), n)),
                None => None,
            }
        } else {
            match skipped(wire_number(wire), tag, bytes) {
                Some(n) => Some((m, n)),
                None => None,
            }
        }
    }

    open spec fn encoded(m: Option<prost_types::Duration>) -> Seq<u8> {
        match m {
            Some(delay) => nested_field::<prost_types::Duration>(1, delay),
            None => Seq::empty(),
        }
    }

    fn new_blank() -> (r: Self) {
        RetryInfoWire { retry_delay: None }
    }

    fn merge_field<'a>(&mut self, tag: u32, wire: WireType, buf: &'a [u8]) -> (r: Result<
        &'a [u8],
        DecodeFailure,
    >) {
        if tag == 1 {
            let mut delay = match &self.retry_delay {
                Some(delay) => prost_types::Duration { seconds: delay.seconds, nanos: delay.nanos },
                None => prost_types::Duration::new_blank(),
            };
            let rest = merge_nested(wire, &mut delay, buf)?;
            self.retry_delay = Some(delay);
            Ok(rest)
        } else {
            skip_unknown(wire, tag, buf)
        }
    }

    fn encode_raw(&self, buf: &mut Vec<u8>) {
        match &self.retry_delay {
            Some(delay) => {
                write_nested(1, delay, buf);
            },
            None => {
                assert(buf@ =~= old(buf)@ + Seq::<u8>::empty());
            },
        }
    }
}

impl RoundTrip for RetryInfoWire {
    proof fn lemma_round_trip(m: Option<prost_types::Duration>) {
        match m {
            Some(delay) => {
                let end = Seq::<u8>::empty();
                let payload = length_delimited(prost_types::Duration::encoded(delay));
                lemma_read_nested_of::<prost_types::Duration>(delay, end);
                lemma_parsed_field::<Self>(1, WireType::LengthDelimited, payload, end, None, m);
                assert(Self::encoded(m) =~= key(1, WireType::LengthDelimited) + payload + end);
            },
            None => {},
        }
    }
}

/// When clients can retry a failed request.
#[derive(Clone, Debug)]
pub struct RetryInfo {
    /// How long clients should wait before they retry.
    pub retry_delay: Option<Duration>,
}

impl View for RetryInfo {
    type V = Option<nat>;

    /// The delay in nanoseconds, if there is one.
    open spec fn view(&self) -> Option<nat> {
        match self.retry_delay {
            Some(delay) => Some(duration_nanos(delay)),
            None => None,
        }
    }
}

impl RetryInfo {
    /// The type identifier of this kind.
    pub const TYPE_URL: &'static str = "type.googleapis.com/google.rpc.RetryInfo";

    /// The wire record of a value.
    pub open spec fn wire_form(v: Option<nat>) -> Option<prost_types::Duration> {
        match v {
            Some(nanos) => Some(wire_of_delay(nanos)),
            None => None,
        }
    }

    /// The value as it is encoded: with its delay cut down to the longest
    /// one.
    pub open spec fn settled(v: Option<nat>) -> Option<nat> {
        match v {
            Some(nanos) => Some(clamped(nanos)),
            None => None,
        }
    }

    /// The bytes of a value: those of its wire record.
    pub open spec fn encoded(v: Option<nat>) -> Seq<u8> {
        RetryInfoWire::encoded(Self::wire_form(v))
    }

    /// The value that bytes decode to: that of the wire record they hold.
    pub open spec fn read(bytes: Seq<u8>) -> Option<Option<nat>> {
        match decoded::<RetryInfoWire>(bytes) {
            Some(Some(w)) => Some(Some(delay_of_wire(w))),
            Some(None) => Some(None),
            None => None,
        }
    }

    /// Decoding undoes encoding, but for the cut: the bytes of a value, fewer
    /// than 2^64, decode to the value with its delay cut down to the longest
    /// one. A delay that is not above the longest one is given back as it
    /// is.
    pub proof fn lemma_round_trip(v: Option<nat>)
        requires
            Self::encoded(v).len() <= u64::MAX,
        ensures
            Self::read(Self::encoded(v)) == Some(Self::settled(v)),
            v matches Some(nanos) && nanos <= longest_delay() ==> Self::settled(v) == v,
    {
        RetryInfoWire::lemma_round_trip(Self::wire_form(v));
        match v {
            Some(nanos) => {
                lemma_wire_of_delay(nanos);
            },
            None => {},
        }
    }

    /// Every delay above the longest one is encoded as the longest one is.
    pub proof fn lemma_long_delays_are_cut(nanos: nat)
        requires
            nanos >= longest_delay(),
        ensures
            Self::encoded(Some(nanos)) == Self::encoded(Some(longest_delay())),
    {
    }

    /// A negative delay is decoded as zero: where the payload holds a wire
    /// record whose seconds are negative and whose nanoseconds are below a
    /// second, the delay is zero.
    pub proof fn lemma_negative_delay_is_zero(bytes: Seq<u8>, w: prost_types::Duration)
        requires
            decoded::<RetryInfoWire>(bytes) == Some(Some(w)),
            w.seconds < 0,
            w.nanos < 1_000_000_000,
        ensures
            Self::read(bytes) == Some(Some(0nat)),
    {
    }

    /// A record of the given delay, cut down to the longest one.
    pub fn new(retry_delay: Option<Duration>) -> (r: Self)
        ensures
            r@ == match retry_delay {
                Some(delay) => Some(clamped(duration_nanos(delay))),
                None => None,
            },
    {
        match retry_delay {
            Some(delay) => {
                let ghost nanos = duration_nanos(delay);
                assert(nanos == 1_000_000_000 * (nanos / 1_000_000_000) + nanos % 1_000_000_000);
                if whole_seconds(&delay) > MAX_RETRY_SECONDS {
                    RetryInfo {
                        retry_delay: Some(new_duration(MAX_RETRY_SECONDS, MAX_RETRY_SUBSEC_NANOS)),
                    }
                } else {
                    RetryInfo { retry_delay: Some(delay) }
                }
            },
            None => RetryInfo { retry_delay: None },
        }
    }

    /// A record without a delay.
    pub fn empty() -> (r: Self)
        ensures
            r@ is None,
    {
        RetryInfo { retry_delay: None }
    }

    /// A record of the given delay, as it is.
    pub fn with_retry_delay(retry_delay: Duration) -> (r: Self)
        ensures
            r@ == Some(duration_nanos(retry_delay)),
    {
        RetryInfo { retry_delay: Some(retry_delay) }
    }

    /// Sets the delay, as it is.
    pub fn set_retry_delay(&mut self, retry_delay: Duration) -> (ret: &mut Self)
        ensures
            ret@ == Some(duration_nanos(retry_delay)),
            *final(self) == *final(ret),
    {
        self.retry_delay = Some(retry_delay);
        self
    }

    /// Whether there is a delay.
    pub fn has_retry_delay(&self) -> (r: bool)
        ensures
            r == (self@ is Some),
    {
        self.retry_delay.is_some()
    }

    /// Whether there is no delay.
    pub fn is_empty(&self) -> (r: bool)
        ensures
            r == (self@ is None),
    {
        self.retry_delay.is_none()
    }

    /// The blob of this record: the type identifier of the kind and the
    /// bytes of the wire record, in which a delay above the longest one is
    /// cut down to it. The payload decodes to the record with its delay cut
    /// down.
    pub fn to_any(&self) -> (any: Any)
        ensures
            any.type_url@ == Self::TYPE_URL@,
            any.value@ == Self::encoded(self@),
            Self::read(any.value@) == Some(Self::settled(self@)),
    {
        let wire = match self.retry_delay {
            Some(delay) => {
                let ghost nanos = duration_nanos(delay);
                proof {
                    lemma_wire_of_delay(nanos);
                    assert(nanos == 1_000_000_000 * (nanos / 1_000_000_000) + nanos
                        % 1_000_000_000);
                }
                let longest = prost_types::Duration {
                    seconds: MAX_RETRY_SECONDS as i64,
                    nanos: MAX_RETRY_SUBSEC_NANOS as i32,
                };
                match to_wire(delay) {
                    Some(w) => {
                        if w.seconds > MAX_RETRY_SECONDS as i64 {
                            Some(longest)
                        } else {
                            Some(w)
                        }
                    },
                    None => Some(longest),
                }
            },
            None => None,
        };
        pack(Self::TYPE_URL, &RetryInfoWire { retry_delay: wire })
    }

    /// The blob of this record, as `to_any` gives it. It never fails.
    pub fn into_any(self) -> (r: Result<Any, EncodeFailure>)
        ensures
            r matches Ok(any) && any.type_url@ == Self::TYPE_URL@ && any.value@ == Self::encoded(
                self@,
            ) && Self::read(any.value@) == Some(Self::settled(self@)),
    {
        Ok(self.to_any())
    }

    /// The record that a payload decodes to; a negative delay becomes zero.
    pub fn from_bytes(payload: &[u8]) -> (r: Result<Self, DecodeFailure>)
        ensures
            match r {
                Ok(found) => Self::read(payload@) == Some(found@),
                Err(_) => Self::read(payload@) is None,
            },
    {
        let wire: RetryInfoWire = decode(payload)?;
        match wire.retry_delay {
            Some(w) => {
                let delay = if w.seconds <= i64::MIN + 2 {
                    new_duration(0, 0)
                } else {
                    match from_wire(w) {
                        Some(delay) => delay,
                        None => new_duration(0, 0),
                    }
                };
                Ok(RetryInfo { retry_delay: Some(delay) })
            },
            None => Ok(RetryInfo { retry_delay: None }),
        }
    }

    /// The record that the payload of a blob decodes to; a negative delay
    /// becomes zero. The type identifier of the blob is not looked at.
    pub fn from_any(any: Any) -> (r: Result<Self, DecodeFailure>)
        ensures
            match r {
                Ok(found) => Self::read(any.value@) == Some(found@),
                Err(_) => Self::read(any.value@) is None,
            },
    {
        Self::from_bytes(any.value.as_slice())
    }
}

} // verus!

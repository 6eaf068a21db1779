//! Spans of time: the standard library's `Duration` seen as a count of
//! nanoseconds, and its wire form of seconds and nanoseconds.

use vstd::prelude::*;
use std::time::Duration;

verus! {

/// `prost_types::Duration`: the wire form of a span of time, known by its
/// two fields, `seconds` and `nanos`.
#[verifier::external_type_specification]
pub struct ExWireDuration(prost_types::Duration);

/// The length of a span of time, in nanoseconds.
pub uninterp spec fn duration_nanos(d: Duration) -> nat;

/// The count of nanoseconds in a second.
pub open spec fn second() -> int {
    1_000_000_000
}

/// The count of nanoseconds that a wire form stands for: its seconds and
/// its nanoseconds together. Either part may be negative.
pub open spec fn wire_nanos(w: prost_types::Duration) -> int {
    w.seconds * second() + w.nanos
}

/// The longest span that the wire form holds after it was brought to its
/// normal form: the greatest count of seconds, and one nanosecond less than
/// a second.
pub open spec fn longest_wire_nanos() -> int {
    i64::MAX * second() + 999_999_999
}

/// `Duration::new`: the span of `secs` seconds and `nanos` nanoseconds.
/// With `nanos` below a second nothing is carried into the seconds.
#[verifier::external_body]
pub(crate) fn new_duration(secs: u64, nanos: u32) -> (d: Duration)
    requires
        nanos < 1_000_000_000,
    ensures
        duration_nanos(d) == secs * second() + nanos,
{
    Duration::new(secs, nanos)
}

/// `Duration::as_secs`: the whole seconds of a span.
#[verifier::external_body]
pub(crate) fn whole_seconds(d: &Duration) -> (secs: u64)
    ensures
        secs == duration_nanos(*d) / (second() as nat),
{
    d.as_secs()
}

/// `prost_types::Duration::try_from` a standard span: the whole seconds and
/// the nanoseconds beyond them; nothing where the seconds do not fit a
/// signed 64-bit number.
#[verifier::external_body]
pub(crate) fn to_wire(d: Duration) -> (r: Option<prost_types::Duration>)
    ensures
        match r {
            Some(w) => w.seconds == duration_nanos(d) / (second() as nat) && w.nanos
                == duration_nanos(d) % (second() as nat),
            None => duration_nanos(d) / (second() as nat) > i64::MAX,
        },
{
    prost_types::Duration::try_from(d).ok()
}

/// `std::time::Duration::try_from` a wire form: the outside function brings
/// the two parts to one sign, which keeps their sum unless the seconds run
/// over, and then hands back the span of that sum, or nothing where it is
/// negative. Where it is negative the function negates the seconds, which
/// fails for the least 64-bit number: the three least counts of seconds are
/// left out.
#[verifier::external_body]
pub(crate) fn from_wire(w: prost_types::Duration) -> (r: Option<Duration>)
    requires
        w.seconds > i64::MIN + 2,
    ensures
        match r {
            Some(d) => 0 <= wire_nanos(w) && duration_nanos(d) == if wire_nanos(w)
                <= longest_wire_nanos() {
                wire_nanos(w)
            } else {
                longest_wire_nanos()
            },
            None => wire_nanos(w) < 0,
        },
{
    Duration::try_from(w).ok()
}

} // verus!

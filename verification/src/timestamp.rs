//! Instants in time, as `chrono` reads them from RFC 3339 text, and the time
//! that lies between two of them.
//!
//! An instant is held as the whole seconds since the Unix epoch and the
//! nanoseconds within that second. `chrono` writes a leap second as a
//! nanosecond count of a thousand million or more, and counts it when it
//! subtracts; the arithmetic here does the same.

use vstd::arithmetic::div_mod::lemma_mod_multiples_vanish;
use vstd::prelude::*;

verus! {

/// The largest distance from the epoch, in seconds, that a timestamp can
/// have. The distance between two timestamps then fits in 64 bits.
pub const MAX_EPOCH_SECONDS: i64 = 0x3fff_ffff_ffff_ffff;

/// The nanoseconds of one second.
pub const NANOS_PER_SECOND: u32 = 1_000_000_000;

/// The bound on the nanoseconds of a timestamp: a leap second runs up to
/// this.
pub const NANOS_LIMIT: u32 = 2_000_000_000;

/// The seconds of one day.
pub const SECONDS_PER_DAY: u64 = 86_400;

/// A multiple of the seconds of a day that lifts every timestamp above zero.
const DAY_ALIGNED_OFFSET: i128 = 86_400 * 53_375_995_583_651;

/// What `chrono` reads from `text` as an RFC 3339 date and time: the seconds
/// since the epoch (`DateTime::timestamp`) and the nanoseconds within the
/// second (`DateTime::timestamp_subsec_nanos`) of the instant, or nothing
/// where `DateTime::parse_from_rfc3339` rejects the text.
pub uninterp spec fn rfc3339_instant(text: Seq<char>) -> Option<(i64, u32)>;

/// Calls `DateTime::parse_from_rfc3339` and, where that accepts the text,
/// `DateTime::timestamp` and `DateTime::timestamp_subsec_nanos` on the
/// result. The parse error is dropped.
#[verifier::external_body]
fn read_rfc3339(text: &str) -> (r: Option<(i64, u32)>)
    ensures
        r == rfc3339_instant(text@),
{
    match chrono::DateTime::parse_from_rfc3339(text) {
        Ok(t) => Some((t.timestamp(), t.timestamp_subsec_nanos())),
        Err(_) => None,
    }
}

/// An instant: `seconds()` whole seconds from the epoch, and `nanos()`
/// nanoseconds into that second.
#[derive(Clone, Copy, Debug, PartialEq, Eq, Structural)]
pub struct Timestamp {
    secs: i64,
    nanos: u32,
}

/// Whether a timestamp can hold these seconds and nanoseconds.
pub open spec fn in_timestamp_range(secs: int, nanos: int) -> bool {
    -MAX_EPOCH_SECONDS <= secs <= MAX_EPOCH_SECONDS && 0 <= nanos < NANOS_LIMIT
}

impl Timestamp {
    #[verifier::type_invariant]
    spec fn in_range(self) -> bool {
        in_timestamp_range(self.secs as int, self.nanos as int)
    }

    /// The whole seconds since the epoch.
    pub closed spec fn seconds(self) -> int {
        self.secs as int
    }

    /// The nanoseconds within the second.
    pub closed spec fn nanos(self) -> int {
        self.nanos as int
    }

    /// Whether `self` is no later than `other`.
    pub open spec fn at_or_before(self, other: Timestamp) -> bool {
        self.seconds() < other.seconds() || (self.seconds() == other.seconds() && self.nanos()
            <= other.nanos())
    }

    /// The timestamp of these seconds and nanoseconds, if they are in range.
    pub fn new(secs: i64, nanos: u32) -> (t: Option<Timestamp>)
        ensures
            t is Some <==> in_timestamp_range(secs as int, nanos as int),
            t matches Some(t) ==> t.seconds() == secs && t.nanos() == nanos,
    {
        if -MAX_EPOCH_SECONDS <= secs && secs <= MAX_EPOCH_SECONDS && nanos < NANOS_LIMIT {
            Some(Timestamp { secs, nanos })
        } else {
            None
        }
    }

    /// Reads an RFC 3339 date and time.
    pub fn parse(text: &str) -> (t: Option<Timestamp>)
        ensures
            t is Some <==> instant_of(text@) is Some,
            t matches Some(t) ==> instant_of(text@) == Some((t.seconds(), t.nanos())),
    {
        match read_rfc3339(text) {
            Some((secs, nanos)) => Timestamp::new(secs, nanos),
            None => None,
        }
    }

    /// The whole seconds since the epoch.
    pub fn epoch_seconds(&self) -> (secs: i64)
        ensures
            secs == self.seconds(),
            -MAX_EPOCH_SECONDS <= secs <= MAX_EPOCH_SECONDS,
    {
        proof {
            use_type_invariant(self);
        }
        self.secs
    }

    /// The nanoseconds within the second; a thousand million or more in a
    /// leap second.
    pub fn subsec_nanos(&self) -> (nanos: u32)
        ensures
            nanos == self.nanos(),
            nanos < NANOS_LIMIT,
    {
        proof {
            use_type_invariant(self);
        }
        self.nanos
    }

    /// Whether `self` is no later than `other`.
    pub fn is_at_or_before(&self, other: &Timestamp) -> (b: bool)
        ensures
            b == self.at_or_before(*other),
    {
        self.secs < other.secs || (self.secs == other.secs && self.nanos <= other.nanos)
    }

    /// The second of the day, from 0 to 86 399.
    fn day_second(&self) -> (s: u32)
        ensures
            s == second_of_day(*self),
            s < SECONDS_PER_DAY,
    {
        proof {
            use_type_invariant(self);
            lemma_mod_multiples_vanish(53_375_995_583_651, self.secs as int, 86_400);
        }
        let lifted: i128 = self.secs as i128 + DAY_ALIGNED_OFFSET;
        ((lifted as u128) % 86_400) as u32
    }
}

/// The timestamp of these seconds and nanoseconds, for values in range.
pub closed spec fn timestamp_at(secs: int, nanos: int) -> Timestamp {
    Timestamp { secs: secs as i64, nanos: nanos as u32 }
}

/// Two timestamps with the same seconds and nanoseconds are the same.
pub proof fn timestamp_is_its_parts(a: Timestamp, b: Timestamp)
    requires
        a.seconds() == b.seconds(),
        a.nanos() == b.nanos(),
    ensures
        a == b,
{
}

/// A timestamp is the timestamp of its parts, and the timestamp of parts in
/// range has those parts.
pub proof fn timestamp_at_is_inverse(t: Timestamp, secs: int, nanos: int)
    ensures
        timestamp_at(t.seconds(), t.nanos()) == t,
        in_timestamp_range(secs, nanos) ==> timestamp_at(secs, nanos).seconds() == secs
            && timestamp_at(secs, nanos).nanos() == nanos,
{
}

/// The seconds and nanoseconds of the instant that `text` gives as an RFC
/// 3339 date and time, where it gives one that a timestamp can hold.
pub open spec fn instant_of(text: Seq<char>) -> Option<(int, int)> {
    match rfc3339_instant(text) {
        Some((secs, nanos)) => if in_timestamp_range(secs as int, nanos as int) {
            Some((secs as int, nanos as int))
        } else {
            None
        },
        None => None,
    }
}

/// The second of the day of `t`, from 0 to 86 399.
pub open spec fn second_of_day(t: Timestamp) -> int {
    t.seconds() % 86_400
}

/// The second that `chrono` adds or takes away for a leap second on the way
/// from `first` to `last`.
pub open spec fn leap_adjustment(first: Timestamp, last: Timestamp) -> int {
    if second_of_day(last) > second_of_day(first) && first.nanos() >= NANOS_PER_SECOND {
        1
    } else if second_of_day(last) < second_of_day(first) && last.nanos() >= NANOS_PER_SECOND {
        -1
    } else {
        0
    }
}

/// The nanoseconds from `first` to `last`, as `chrono` subtracts.
pub open spec fn elapsed_nanos(first: Timestamp, last: Timestamp) -> int {
    (last.seconds() - first.seconds() + leap_adjustment(first, last)) * NANOS_PER_SECOND + (
    last.nanos() - first.nanos())
}

/// The whole seconds from `first` to `last`, rounded towards zero.
pub open spec fn elapsed_seconds(first: Timestamp, last: Timestamp) -> int {
    let n = elapsed_nanos(first, last);
    if n >= 0 {
        n / (NANOS_PER_SECOND as int)
    } else {
        -((-n) / (NANOS_PER_SECOND as int))
    }
}

/// From a timestamp to one that is no earlier, less than a second is ever
/// lost to a leap second, so no whole second is counted backwards.
pub proof fn elapsed_is_not_negative(first: Timestamp, last: Timestamp)
    requires
        in_timestamp_range(first.seconds(), first.nanos()),
        in_timestamp_range(last.seconds(), last.nanos()),
        first.at_or_before(last),
    ensures
        elapsed_nanos(first, last) > -(NANOS_PER_SECOND as int),
        elapsed_seconds(first, last) >= 0,
{
    let raw = last.seconds() - first.seconds();
    let adj = leap_adjustment(first, last);
    if raw == 0 {
        assert(adj == 0);
    } else {
        assert((raw + adj) * NANOS_PER_SECOND >= 0) by (nonlinear_arith)
            requires
                raw + adj >= 0,
        ;
        if adj >= 0 {
            assert((raw + adj) * NANOS_PER_SECOND >= NANOS_PER_SECOND) by (nonlinear_arith)
                requires
                    raw + adj >= 1,
            ;
        }
    }
}

/// The whole seconds from `first` to `last`, where `first` is no later than
/// `last`.
pub fn seconds_between(first: &Timestamp, last: &Timestamp) -> (secs: Option<u64>)
    ensures
        secs is Some <==> first.at_or_before(*last),
        secs matches Some(n) ==> n == elapsed_seconds(*first, *last),
{
    if first.is_at_or_before(last) {
        Some(seconds_forward(first, last))
    } else {
        None
    }
}

/// The whole seconds from `first` to `last`.
pub(crate) fn seconds_forward(first: &Timestamp, last: &Timestamp) -> (secs: u64)
    requires
        first.at_or_before(*last),
    ensures
        secs == elapsed_seconds(*first, *last),
{
    proof {
        use_type_invariant(first);
        use_type_invariant(last);
        elapsed_is_not_negative(*first, *last);
    }
    let first_day_second = first.day_second();
    let last_day_second = last.day_second();
    let adjustment: i128 = if last_day_second > first_day_second && first.nanos
        >= NANOS_PER_SECOND {
        1
    } else if last_day_second < first_day_second && last.nanos >= NANOS_PER_SECOND {
        -1
    } else {
        0
    };
    let whole: i128 = last.secs as i128 - first.secs as i128 + adjustment;
    assert(-1 <= whole <= 0x8000_0000_0000_0000);
    assert(whole * 1_000_000_000 <= 0x8000_0000_0000_0000 * 1_000_000_000 && whole * 1_000_000_000
        >= -1_000_000_000) by (nonlinear_arith)
        requires
            -1 <= whole <= 0x8000_0000_0000_0000,
    ;
    let nanos: i128 = whole * 1_000_000_000 + (last.nanos as i128 - first.nanos as i128);
    if nanos <= 0 {
        0
    } else {
        let secs: i128 = nanos / 1_000_000_000;
        assert(secs <= u64::MAX) by {
            assert(whole <= 0x7fff_ffff_ffff_ffff);
            assert(whole * 1_000_000_000 <= 0x7fff_ffff_ffff_ffff * 1_000_000_000)
                by (nonlinear_arith)
                requires
                    whole <= 0x7fff_ffff_ffff_ffff,
            ;
        }
        secs as u64
    }
}

} // verus!

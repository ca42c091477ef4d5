//! The span of the data: from the earliest to the latest time seen in the
//! log, and the words in which that span is told.

use crate::decimal::{decimal, decimal_text, hundredths, hundredths_text};
use crate::rates::{nearest, round_ratio, MONTH_IN_HUNDREDTHS_OF_A_DAY};
use crate::timestamp::{
    elapsed_seconds, seconds_forward, timestamp_is_its_parts, Timestamp, SECONDS_PER_DAY,
};
use vstd::prelude::*;
use vstd::string::StringExecFns;

verus! {

/// The earliest and the latest time of the log, and the whole seconds
/// between them.
#[derive(Clone, Copy, Debug, PartialEq, Eq, Structural)]
pub struct GlobalSpan {
    pub earliest: Option<Timestamp>,
    pub latest: Option<Timestamp>,
    pub seconds: u64,
}

/// The span told in the coarsest unit that it fills once.
#[derive(Clone, Copy, Debug, PartialEq, Eq, Structural)]
pub enum Period {
    /// No time was seen at all.
    NoData,
    /// Not one whole second lies between the earliest and the latest time.
    LessThanADay,
    /// At least a month: whole months of thirty days, and the days left.
    Months { months: u64, days: u64 },
    /// At least a week: whole weeks, and the days left.
    Weeks { weeks: u64, days: u64 },
    /// Less than a week: whole days.
    Days { days: u64 },
}

/// A period in words.
pub open spec fn period_text(period: Period) -> Seq<char> {
    match period {
        Period::NoData => "No data available"@,
        Period::LessThanADay => "Less than a day (or only one record)"@,
        Period::Months { months, days } => decimal_text(months as nat) + " months, "@
            + decimal_text(days as nat) + " days"@,
        Period::Weeks { weeks, days } => decimal_text(weeks as nat) + " weeks, "@ + decimal_text(
            days as nat,
        ) + " days"@,
        Period::Days { days } => decimal_text(days as nat) + " days"@,
    }
}

impl Period {
    /// The period in words.
    pub fn describe(&self) -> (text: String)
        ensures
            text@ == period_text(*self),
    {
        match self {
            Period::NoData => String::from_str("No data available"),
            Period::LessThanADay => String::from_str("Less than a day (or only one record)"),
            Period::Months { months, days } => {
                let mut text = decimal(*months as u128);
                text.append(" months, ");
                let rest = decimal(*days as u128);
                text.append(rest.as_str());
                text.append(" days");
                text
            },
            Period::Weeks { weeks, days } => {
                let mut text = decimal(*weeks as u128);
                text.append(" weeks, ");
                let rest = decimal(*days as u128);
                text.append(rest.as_str());
                text.append(" days");
                text
            },
            Period::Days { days } => {
                let mut text = decimal(*days as u128);
                text.append(" days");
                text
            },
        }
    }
}

/// Whether `t` is one of `times` and none of them is earlier.
pub open spec fn is_earliest(times: Seq<Timestamp>, t: Timestamp) -> bool {
    times.contains(t) && forall|i: int| 0 <= i < times.len() ==> t.at_or_before(#[trigger] times[i])
}

/// Whether `t` is one of `times` and none of them is later.
pub open spec fn is_latest(times: Seq<Timestamp>, t: Timestamp) -> bool {
    times.contains(t) && forall|i: int| 0 <= i < times.len() ==> (#[trigger] times[i]).at_or_before(t)
}

/// The earliest of `times`, where there is any.
pub open spec fn earliest_of(times: Seq<Timestamp>) -> Option<Timestamp> {
    if times.len() == 0 {
        None
    } else {
        Some(choose|t: Timestamp| is_earliest(times, t))
    }
}

/// The latest of `times`, where there is any.
pub open spec fn latest_of(times: Seq<Timestamp>) -> Option<Timestamp> {
    if times.len() == 0 {
        None
    } else {
        Some(choose|t: Timestamp| is_latest(times, t))
    }
}

/// The span of `times`: nothing lies between fewer than two of them.
pub open spec fn span_of(times: Seq<Timestamp>) -> GlobalSpan {
    GlobalSpan {
        earliest: earliest_of(times),
        latest: latest_of(times),
        seconds: if times.len() > 1 {
            elapsed_seconds(earliest_of(times)->0, latest_of(times)->0) as u64
        } else {
            0
        },
    }
}

/// Only one of `times` is the earliest, and only one the latest.
pub proof fn extremes_are_unique(times: Seq<Timestamp>, a: Timestamp, b: Timestamp)
    ensures
        is_earliest(times, a) && is_earliest(times, b) ==> a == b,
        is_latest(times, a) && is_latest(times, b) ==> a == b,
{
    if (is_earliest(times, a) && is_earliest(times, b)) || (is_latest(times, a) && is_latest(
        times,
        b,
    )) {
        let i = choose|i: int| 0 <= i < times.len() && times[i] == a;
        let j = choose|j: int| 0 <= j < times.len() && times[j] == b;
        assert(times[i] == a && times[j] == b);
        timestamp_is_its_parts(a, b);
    }
}

impl GlobalSpan {
    /// The whole days of the span.
    pub open spec fn days(self) -> nat {
        (self.seconds / SECONDS_PER_DAY) as nat
    }

    /// The whole weeks of the span.
    pub open spec fn weeks(self) -> nat {
        self.days() / 7
    }

    /// The months of the span, in hundredths: a month is 30.44 days.
    pub open spec fn months_in_hundredths(self) -> nat {
        nearest(self.days() * 10_000, MONTH_IN_HUNDREDTHS_OF_A_DAY as nat)
    }

    /// The span told in the coarsest unit that it fills once. A month is
    /// 30.44 days where it is asked whether the span fills one, and thirty
    /// days where the span is counted out in months.
    pub open spec fn period(self) -> Period {
        if self.earliest is None {
            Period::NoData
        } else if self.seconds == 0 {
            Period::LessThanADay
        } else if 100 * self.days() >= MONTH_IN_HUNDREDTHS_OF_A_DAY {
            Period::Months { months: (self.days() / 30) as u64, days: (self.days() % 30) as u64 }
        } else if self.weeks() >= 1 {
            Period::Weeks { weeks: (self.days() / 7) as u64, days: (self.days() % 7) as u64 }
        } else {
            Period::Days { days: self.days() as u64 }
        }
    }

    /// The span of `times`.
    pub fn of(times: &Vec<Timestamp>) -> (span: GlobalSpan)
        ensures
            span == span_of(times@),
    {
        if times.len() == 0 {
            return GlobalSpan { earliest: None, latest: None, seconds: 0 };
        }
        let mut earliest = times[0];
        let mut latest = times[0];
        let mut i: usize = 1;
        assert(times@.take(1)[0] == times@[0]);
        while i < times.len()
            invariant
                1 <= i <= times.len(),
                is_earliest(times@.take(i as int), earliest),
                is_latest(times@.take(i as int), latest),
            decreases times.len() - i,
        {
            let t = times[i];
            let ghost seen = times@.take(i as int);
            let ghost next = times@.take(i + 1);
            proof {
                let e = choose|k: int| 0 <= k < seen.len() && seen[k] == earliest;
                let l = choose|k: int| 0 <= k < seen.len() && seen[k] == latest;
                assert(next[e] == earliest && next[l] == latest && next[i as int] == t);
                assert forall|k: int| 0 <= k < i implies next[k] == seen[k] by {}
            }
            if !earliest.is_at_or_before(&t) {
                earliest = t;
            }
            if !t.is_at_or_before(&latest) {
                latest = t;
            }
            i += 1;
        }
        proof {
            assert(times@.take(times.len() as int) == times@);
            extremes_are_unique(times@, earliest, choose|t: Timestamp| is_earliest(times@, t));
            extremes_are_unique(times@, latest, choose|t: Timestamp| is_latest(times@, t));
            let l = choose|k: int| 0 <= k < times@.len() && times@[k] == latest;
            assert(earliest.at_or_before(times@[l]));
        }
        let seconds = if times.len() > 1 {
            seconds_forward(&earliest, &latest)
        } else {
            0
        };
        GlobalSpan { earliest: Some(earliest), latest: Some(latest), seconds }
    }

    /// The whole days of the span.
    pub fn whole_days(&self) -> (days: u64)
        ensures
            days == self.days(),
    {
        self.seconds / SECONDS_PER_DAY
    }

    /// The whole weeks of the span.
    pub fn whole_weeks(&self) -> (weeks: u64)
        ensures
            weeks == self.weeks(),
    {
        self.whole_days() / 7
    }

    /// The months of the span, in hundredths.
    pub fn hundredths_of_months(&self) -> (months: u128)
        ensures
            months == self.months_in_hundredths(),
    {
        round_ratio(self.whole_days() as u128 * 10_000, MONTH_IN_HUNDREDTHS_OF_A_DAY as u128)
    }

    /// The length of the span in words: its days, weeks and months, each
    /// with two decimals.
    pub open spec fn length_text(self) -> Seq<char> {
        hundredths_text(self.days() * 100) + " days ("@ + hundredths_text(self.weeks() * 100)
            + " weeks, "@ + hundredths_text(self.months_in_hundredths()) + " months)"@
    }

    /// The length of the span in words.
    pub fn describe_length(&self) -> (text: String)
        ensures
            text@ == self.length_text(),
    {
        let mut text = hundredths(self.whole_days() as u128 * 100);
        text.append(" days (");
        let weeks = hundredths(self.whole_weeks() as u128 * 100);
        text.append(weeks.as_str());
        text.append(" weeks, ");
        let months = hundredths(self.hundredths_of_months());
        text.append(months.as_str());
        text.append(" months)");
        text
    }

    /// The span told in the coarsest unit that it fills once.
    pub fn display_period(&self) -> (period: Period)
        ensures
            period == self.period(),
    {
        let days = self.whole_days();
        if self.earliest.is_none() {
            Period::NoData
        } else if self.seconds == 0 {
            Period::LessThanADay
        } else if 100 * (days as u128) >= MONTH_IN_HUNDREDTHS_OF_A_DAY as u128 {
            Period::Months { months: days / 30, days: days % 30 }
        } else if days / 7 >= 1 {
            Period::Weeks { weeks: days / 7, days: days % 7 }
        } else {
            Period::Days { days }
        }
    }
}

} // verus!

//! Points in time and spans of time as plain values.
use vstd::prelude::*;

verus! {

/// Nanoseconds in one second.
pub const NANOS_PER_SEC: u32 = 1_000_000_000;

/// First second of the calendar: the start of the year -262143, counted from 1970-01-01.
pub const FIRST_SECOND: i64 = -8_334_601_228_800;

/// Last second of the calendar: the end of the year 262142, counted from 1970-01-01.
pub const LAST_SECOND: i64 = 8_210_266_876_799;

/// A point in time in UTC: whole seconds since 1970-01-01T00:00:00 and the nanoseconds that
/// follow them. The derived order is the order in time.
#[derive(Clone, Copy, Debug, PartialEq, Eq, Structural, PartialOrd, Ord, Hash)]
pub struct Timestamp {
    pub secs: i64,
    pub nanos: u32,
}

impl Timestamp {
    /// Nanoseconds since 1970-01-01T00:00:00.
    pub open spec fn total(self) -> int {
        self.secs * 1_000_000_000 + self.nanos
    }

    /// The nanoseconds stay below one second.
    pub open spec fn wf(self) -> bool {
        self.nanos < NANOS_PER_SEC
    }

    /// The point lies in the years that the calendar covers.
    pub open spec fn in_calendar(self) -> bool {
        self.wf() && FIRST_SECOND <= self.secs <= LAST_SECOND
    }

    /// The point lies in a leap second: the nanoseconds go on beyond the last second of a minute.
    pub open spec fn leaps(self) -> bool {
        NANOS_PER_SEC <= self.nanos < 2 * NANOS_PER_SEC && self.secs % 60 == 59
    }

    /// The point lies in the years that the calendar covers, or in a leap second of one of them.
    pub open spec fn covered(self) -> bool {
        (self.wf() || self.leaps()) && FIRST_SECOND <= self.secs <= LAST_SECOND
    }

    /// `self` is not later than `other`.
    pub open spec fn not_after(self, other: Timestamp) -> bool {
        self.secs < other.secs || (self.secs == other.secs && self.nanos <= other.nanos)
    }

    /// Whether `self` is not later than `other`.
    pub fn at_or_before(&self, other: &Timestamp) -> (res: bool)
        ensures
            res == self.not_after(*other),
    {
        self.secs < other.secs || (self.secs == other.secs && self.nanos <= other.nanos)
    }

    /// The point `millis` milliseconds later (earlier where `millis` is negative).
    pub fn plus_millis(&self, millis: i64) -> (res: Timestamp)
        requires
            self.in_calendar(),
        ensures
            res.wf(),
            res.total() == self.total() + millis * 1_000_000,
    {
        // `/` and `%` truncate; the remainder is moved into `0..1000`.
        let mut whole: i64 = millis / 1000;
        let mut rest: i64 = millis % 1000;
        if rest < 0 {
            rest = rest + 1000;
            whole = whole - 1;
        }
        let mut secs: i64 = self.secs + whole;
        let mut nanos: u32 = self.nanos + (rest as u32) * 1_000_000;
        if nanos >= NANOS_PER_SEC {
            nanos = nanos - NANOS_PER_SEC;
            secs = secs + 1;
        }
        Timestamp { secs, nanos }
    }
}

/// The order on points in time is the order of their distances from 1970.
pub proof fn not_after_orders_by_distance(a: Timestamp, b: Timestamp)
    requires
        a.wf(),
        b.wf(),
    ensures
        a.not_after(b) <==> a.total() <= b.total(),
{
}

/// The current time, from `chrono::Utc::now`. It depends on the machine's clock: all that is
/// claimed is that it lies in the calendar and not before 1970 (`now` refuses an earlier clock).
#[verifier::external_body]
pub(crate) fn now() -> (res: Timestamp)
    ensures
        res.in_calendar(),
        res.secs >= 0,
{
    let t = chrono::Utc::now();
    Timestamp { secs: t.timestamp(), nanos: t.timestamp_subsec_nanos() }
}

/// `chrono::DateTime::from_timestamp`: the point `nanos` nanoseconds after the second `secs`,
/// if the calendar covers that second.
#[verifier::external_body]
pub(crate) fn from_timestamp(secs: i64, nanos: u32) -> (res: Option<Timestamp>)
    requires
        nanos < NANOS_PER_SEC,
    ensures
        res == (if FIRST_SECOND <= secs <= LAST_SECOND {
            Some(Timestamp { secs, nanos })
        } else {
            None
        }),
{
    chrono::DateTime::from_timestamp(secs, nanos).map(
        |t| Timestamp { secs: t.timestamp(), nanos: t.timestamp_subsec_nanos() },
    )
}

/// The RFC 3339 text of a point in time, in UTC, with as many digits of the second as it needs.
pub uninterp spec fn time_written(secs: i64, nanos: u32) -> Seq<char>;

/// The point in time that a text stands for: seconds since 1970-01-01 and nanoseconds.
pub uninterp spec fn time_read(text: Seq<char>) -> Option<(i64, u32)>;

/// `chrono::DateTime::to_rfc3339_opts` with `AutoSi` and `Z`. Stated is that the text depends on
/// the point in time alone.
#[verifier::external_body]
pub(crate) fn write_time(t: Timestamp) -> (res: String)
    requires
        t.covered(),
    ensures
        res@ == time_written(t.secs, t.nanos),
{
    chrono::DateTime::from_timestamp(t.secs, t.nanos).unwrap().to_rfc3339_opts(
        chrono::SecondsFormat::AutoSi,
        true,
    )
}

/// `FromStr` of `chrono::DateTime<Utc>`. Stated is that the outcome depends on the text alone,
/// that what is read lies in the calendar, leap seconds included, and that a point that was
/// written is read back.
#[verifier::external_body]
pub(crate) fn read_time(text: &str) -> (res: Option<Timestamp>)
    ensures
        res is Some <==> time_read(text@) is Some,
        res is Some ==> time_read(text@)->0 == (res->0.secs, res->0.nanos),
        res is Some ==> res->0.covered(),
        forall|t: Timestamp|
            t.covered() && text@ == #[trigger] time_written(t.secs, t.nanos) ==> res == Some(t),
{
    text.parse::<chrono::DateTime<chrono::Utc>>().ok().map(
        |t| Timestamp { secs: t.timestamp(), nanos: t.timestamp_subsec_nanos() },
    )
}

/// A span of time: whole seconds and the nanoseconds that follow them.
#[derive(Clone, Copy, Debug, PartialEq, Eq, Structural, PartialOrd, Ord, Hash)]
pub struct Duration {
    pub secs: u64,
    pub nanos: u32,
}

impl Duration {
    /// Whole milliseconds in the span.
    pub open spec fn millis(self) -> int {
        self.secs * 1000 + self.nanos as int / 1_000_000
    }

    /// A span of whole seconds.
    pub fn from_secs(secs: u64) -> (res: Duration)
        ensures
            res == (Duration { secs, nanos: 0 }),
    {
        Duration { secs, nanos: 0 }
    }

    /// A span of whole milliseconds.
    pub fn from_millis(millis: u64) -> (res: Duration)
        ensures
            res.nanos < NANOS_PER_SEC,
            res.millis() == millis,
            res.nanos % 1_000_000 == 0,
    {
        let rest: u64 = millis % 1000;
        Duration { secs: millis / 1000, nanos: (rest as u32) * 1_000_000 }
    }

    /// Whole milliseconds in the span.
    pub fn as_millis(&self) -> (res: u128)
        ensures
            res == self.millis(),
    {
        (self.secs as u128) * 1000 + (self.nanos / 1_000_000) as u128
    }
}

/// `n` reduced to the range of `i64`, keeping its low 64 bits.
pub open spec fn low_64_bits(n: int) -> int {
    let low = n % 0x1_0000_0000_0000_0000;
    if low < 0x8000_0000_0000_0000 {
        low
    } else {
        low - 0x1_0000_0000_0000_0000
    }
}

/// `n` reduced to the range of `i64`, keeping its low 64 bits.
pub fn to_low_64_bits(n: u128) -> (res: i64)
    ensures
        res == low_64_bits(n as int),
{
    let low: u128 = n % 0x1_0000_0000_0000_0000;
    if low < 0x8000_0000_0000_0000 {
        low as i64
    } else {
        (low as i128 - 0x1_0000_0000_0000_0000) as i64
    }
}

/// One second later is a thousand million nanoseconds later, and a nanosecond is one.
pub proof fn distance_counts_nanoseconds(secs: i64, nanos: u32)
    requires
        secs < i64::MAX,
        nanos < u32::MAX,
    ensures
        (Timestamp { secs: 0, nanos: 0 }).total() == 0,
        ({
            let t = Timestamp { secs, nanos };
            let next_second = Timestamp { secs: (secs + 1) as i64, nanos };
            let next_nano = Timestamp { secs, nanos: (nanos + 1) as u32 };
            &&& next_second.total() == t.total() + 1_000_000_000
            &&& next_nano.total() == t.total() + 1
        }),
{
}

/// The whole milliseconds of a span are the largest number of them that fit into it.
pub proof fn whole_milliseconds_fit(d: Duration)
    ensures
        d.millis() * 1_000_000 <= d.secs * 1_000_000_000 + d.nanos < (d.millis() + 1) * 1_000_000,
{
}

/// The low 64 bits of a number lie in the range of `i64` and differ from it by a multiple of 2^64;
/// a number in the range is kept.
pub proof fn low_bits_are_congruent(n: int)
    ensures
        i64::MIN <= low_64_bits(n) <= i64::MAX,
        (n - low_64_bits(n)) % 0x1_0000_0000_0000_0000 == 0,
        i64::MIN <= n <= i64::MAX ==> low_64_bits(n) == n,
{
    assert(low_64_bits(n) == n % 0x1_0000_0000_0000_0000 || low_64_bits(n) == n
        % 0x1_0000_0000_0000_0000 - 0x1_0000_0000_0000_0000);
}

/// Midnight of the first day is the earliest point of the calendar, and the last nanosecond of the
/// last day is the latest. A leap second is covered only at the end of a minute.
pub proof fn the_calendar_has_two_ends(t: Timestamp)
    ensures
        t.in_calendar() <==> t.nanos <= 999_999_999 && -8_334_601_228_800_000_000_000 <= t.total()
            <= 8_210_266_876_799_999_999_999,
        t.in_calendar() ==> t.covered(),
        t.covered() && t.nanos <= 999_999_999 ==> t.in_calendar(),
        t.covered() && t.nanos > 999_999_999 ==> t.nanos <= 1_999_999_999 && (t.secs + 1) % 60 == 0,
        t.nanos <= 1_999_999_999 && (t.secs + 1) % 60 == 0 && (Timestamp {
            secs: t.secs,
            nanos: 0,
        }).in_calendar() ==> t.covered(),
{
}

} // verus!

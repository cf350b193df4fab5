//! Time and chance, as dependencies that a simulation can replace.
use crate::time::{now, Duration, Timestamp};
use crate::types::ids::Uuid;
use vstd::prelude::*;

verus! {

/// The standard library's reading of a clock that does not go back. Nothing is stated of what
/// is inside one.
#[verifier::external_type_specification]
#[verifier::external_body]
pub struct ExInstant(std::time::Instant);

/// `std::time::Instant::now`. Nothing is claimed of the reading: it depends on the machine.
#[verifier::external_body]
fn instant_now() -> (res: std::time::Instant) {
    std::time::Instant::now()
}

/// `std::time::Instant::elapsed`: how long ago a reading was taken. It depends on the machine;
/// claimed is only that fewer than a second of nanoseconds stands beside the whole seconds.
#[verifier::external_body]
fn elapsed(since: &std::time::Instant) -> (res: Duration)
    ensures
        res.nanos < 1_000_000_000,
{
    let d = since.elapsed();
    Duration { secs: d.as_secs(), nanos: d.subsec_nanos() }
}

/// The time of day, and time that only goes forward.
pub trait Clock {
    /// The time of day.
    fn now_utc(&self) -> (res: Timestamp)
        ensures
            res.in_calendar(),
    ;

    /// The time since a fixed point in the life of the process. Callers keep a mark and
    /// subtract.
    fn now_mono(&self) -> (res: Duration)
        ensures
            res.nanos < 1_000_000_000,
    ;
}

/// Chance.
pub trait Entropy {
    /// A new identifier.
    fn uuid(&self) -> (res: Uuid);

    /// A value from `start` up to, but not including, `end`. Not for keys.
    fn u64(&self, start: u64, end: u64) -> (res: u64)
        requires
            start < end,
        ensures
            start <= res < end,
    ;
}

/// The clocks of the machine.
#[derive(Debug)]
pub struct SystemClock {
    birth: std::time::Instant,
}

impl Clone for SystemClock {
    fn clone(&self) -> (res: SystemClock)
        ensures
            res == *self,
    {
        SystemClock { birth: self.birth }
    }
}

impl SystemClock {
    /// A clock whose forward-going time begins now. It holds one reading of the machine's clock,
    /// of which nothing is stated.
    pub fn new() -> (res: SystemClock) {
        SystemClock { birth: instant_now() }
    }
}

impl Clock for SystemClock {
    fn now_utc(&self) -> (res: Timestamp)
        ensures
            res.secs >= 0,
    {
        now()
    }

    fn now_mono(&self) -> (res: Duration) {
        elapsed(&self.birth)
    }
}

/// Chance from the operating system, by way of random identifiers.
#[derive(Clone, Debug)]
pub struct OsEntropy;

impl Default for OsEntropy {
    fn default() -> (res: OsEntropy)
        ensures
            res == OsEntropy,
    {
        OsEntropy
    }
}

/// 256 to the power `k`.
pub open spec fn places(k: nat) -> nat
    decreases k,
{
    if k == 0 {
        1
    } else {
        256 * places((k - 1) as nat)
    }
}

/// The number whose bytes are the `k` lowest bytes of `n` in the opposite order.
pub open spec fn bytes_turned(n: nat, k: nat) -> nat
    decreases k,
{
    if k == 0 {
        0
    } else {
        (n % 256) * places((k - 1) as nat) + bytes_turned(n / 256, (k - 1) as nat)
    }
}

/// The number whose bytes are those of `n` in the opposite order.
fn turn_bytes(n: u64) -> (res: u64)
    ensures
        res == bytes_turned(n as nat, 8),
{
    let mut rest: u64 = n;
    let mut acc: u64 = 0;
    let mut i: u64 = 0;
    while i < 8
        invariant
            i <= 8,
            acc < places(i as nat),
            bytes_turned(n as nat, 8) == acc * places((8 - i) as nat) + bytes_turned(
                rest as nat,
                (8 - i) as nat,
            ),
        decreases 8 - i,
    {
        let low: u64 = rest % 256;
        proof {
            let m = (7 - i) as nat;
            let p = places(m);
            assert(places((8 - i) as nat) == 256 * p);
            assert(places((i + 1) as nat) == 256 * places(i as nat));
            assert(acc * (256 * p) + low * p == (acc * 256 + low) * p) by (nonlinear_arith);
            assert(places(8) == 0x1_0000_0000_0000_0000) by {
                reveal_with_fuel(places, 9);
            }
            places_grow((i + 1) as nat, 8);
        }
        acc = acc * 256 + low;
        rest = rest / 256;
        i = i + 1;
    }
    assert(places(0) == 1 && bytes_turned(rest as nat, 0) == 0);
    assert(acc * places(0) == acc) by (nonlinear_arith)
        requires
            places(0) == 1,
    ;
    acc
}

/// A higher power is no lower.
proof fn places_grow(a: nat, b: nat)
    requires
        a <= b,
    ensures
        1 <= places(a) <= places(b),
    decreases b,
{
    if a < b {
        places_grow(a, (b - 1) as nat);
    } else if a > 0 {
        places_grow((a - 1) as nat, (b - 1) as nat);
    }
}

impl OsEntropy {
    /// The value that an identifier gives: its first eight bytes, read with the lowest byte
    /// first, brought into the range by remainder.
    pub open spec fn value(id: Uuid, start: u64, end: u64) -> int {
        start + bytes_turned((id.bits / 0x1_0000_0000_0000_0000) as nat, 8) % ((end - start) as nat)
    }

    /// The value that an identifier gives.
    pub fn value_of(id: Uuid, start: u64, end: u64) -> (res: u64)
        requires
            start < end,
        ensures
            res == OsEntropy::value(id, start, end),
            start <= res < end,
    {
        let high: u64 = (id.bits / 0x1_0000_0000_0000_0000) as u64;
        let span: u64 = end - start;
        start + turn_bytes(high) % span
    }
}

impl Entropy for OsEntropy {
    fn uuid(&self) -> (res: Uuid)
        ensures
            res.is_random(),
    {
        Uuid::new_v4()
    }

    fn u64(&self, start: u64, end: u64) -> (res: u64)
        ensures
            exists|id: Uuid| #[trigger] id.is_random() && res == OsEntropy::value(id, start, end),
    {
        let id = self.uuid();
        OsEntropy::value_of(id, start, end)
    }
}

/// The bytes of a number are turned one by one: its lowest byte becomes the highest.
pub proof fn the_lowest_byte_goes_first(high: nat, low: nat, k: nat)
    requires
        low < 256,
    ensures
        places(0) == 1,
        places(k + 1) == 256 * places(k),
        bytes_turned(high * 256 + low, k + 1) == low * places(k) + bytes_turned(high, k),
        bytes_turned(high, 0) == 0,
{
    assert((high * 256 + low) % 256 == low);
    assert((high * 256 + low) / 256 == high);
}

/// A value lies in its range, and differs from the start by what the first eight bytes of the
/// identifier come to, but for whole lengths of the range.
pub proof fn values_lie_in_their_range(id: Uuid, start: u64, end: u64)
    requires
        start < end,
    ensures
        start <= OsEntropy::value(id, start, end) < end,
        (bytes_turned((id.bits / 0x1_0000_0000_0000_0000) as nat, 8) - (OsEntropy::value(
            id,
            start,
            end,
        ) - start)) % (end - start) == 0,
{
    let n = bytes_turned((id.bits / 0x1_0000_0000_0000_0000) as nat, 8) as int;
    let d = end - start;
    vstd::arithmetic::div_mod::lemma_fundamental_div_mod(n, d);
    vstd::arithmetic::div_mod::lemma_mod_bound(n, d);
    vstd::arithmetic::div_mod::lemma_mod_multiples_basic(n / d, d);
    assert(n - n % d == (n / d) * d) by (nonlinear_arith)
        requires
            n == d * (n / d) + n % d,
    ;
}

} // verus!

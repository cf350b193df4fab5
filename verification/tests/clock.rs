use engram_core::traits::clock::{Clock, Entropy, OsEntropy, SystemClock};
use engram_core::types::ids::Uuid;

#[test]
fn system_clock_mono_is_monotonic() {
    let clock = SystemClock::new();
    let a = clock.now_mono();
    let b = clock.now_mono();
    assert!((b.secs, b.nanos) >= (a.secs, a.nanos));
}

#[test]
fn os_entropy_u64_stays_in_range() {
    let e = OsEntropy;
    for _ in 0..1000 {
        let v = e.u64(10, 20);
        assert!((10..20).contains(&v));
    }
    assert_eq!(e.u64(7, 8), 7);
}

#[test]
fn wall_clock_is_of_this_century() {
    let now = SystemClock::new().now_utc();
    assert!(now.secs > 946_684_800);
    assert!(now.nanos < 1_000_000_000);
}

#[test]
fn entropy_value_reads_the_first_bytes_lowest_first() {
    // Bytes 01 02 03 04 05 06 07 08, then others.
    let id = Uuid::from_u128(0x0102_0304_0506_0708_ffff_ffff_ffff_ffff);
    assert_eq!(OsEntropy::value_of(id, 0, u64::MAX), 0x0807_0605_0403_0201);
    assert_eq!(
        OsEntropy::value_of(id, 10, 1010),
        10 + 0x0807_0605_0403_0201u64 % 1000
    );
    assert_eq!(
        OsEntropy::value_of(id, 0, u64::MAX),
        u64::from_le_bytes([1, 2, 3, 4, 5, 6, 7, 8])
    );
}

#[test]
fn entropy_identifiers_are_random_and_differ() {
    let a = OsEntropy.uuid();
    let b = OsEntropy.uuid();
    assert_ne!(a, b);
    assert_eq!((a.bits >> 76) & 0xf, 4);
    assert_eq!((a.bits >> 62) & 0x3, 2);
}

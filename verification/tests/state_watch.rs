//! Which wakes become a read, and how a burst of them is kept to one.

use fwdslash::state_watch::{should_read, ReadCoalescer, Wake, POLL_INTERVAL_MS};

#[test]
fn a_broadcast_is_always_read() {
    assert!(should_read(Wake::Broadcast, true));
    assert!(should_read(Wake::Broadcast, false));
}

#[test]
fn the_poll_stops_while_the_window_is_not_on_screen() {
    assert!(should_read(Wake::Poll, true));
    assert!(!should_read(Wake::Poll, false));
}

#[test]
fn the_first_wake_reads() {
    let mut coalescer = ReadCoalescer::default();
    assert!(coalescer.wake());
    assert!(coalescer.is_reading());
}

#[test]
fn a_burst_during_a_read_becomes_one_more_read() {
    let mut coalescer = ReadCoalescer::default();
    assert!(coalescer.wake());
    // Three values written in one `bare-slash default`, three broadcasts.
    assert!(!coalescer.wake());
    assert!(!coalescer.wake());
    assert!(!coalescer.wake());
    // Exactly one more read, and then the burst is spent.
    assert!(coalescer.finished());
    assert!(!coalescer.finished());
    assert!(!coalescer.is_reading());
}

#[test]
fn a_quiet_read_owes_nothing() {
    let mut coalescer = ReadCoalescer::default();
    assert!(coalescer.wake());
    assert!(!coalescer.finished());
    assert_eq!(coalescer, ReadCoalescer::default());
}

#[test]
fn wakes_after_a_read_start_a_new_one() {
    let mut coalescer = ReadCoalescer::default();
    assert!(coalescer.wake());
    assert!(!coalescer.finished());
    assert!(coalescer.wake());
}

/// The safety poll is a background cost that runs for as long as the
/// window is open; keep it visibly slow.
#[test]
fn the_poll_stays_infrequent() {
    assert!(POLL_INTERVAL_MS >= 5_000);
}

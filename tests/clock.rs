use median::ClockHandle;

#[test]
fn delay_returns_due_time() {
    let mut c = ClockHandle::new();
    assert_eq!(c.pending(), None);
    assert_eq!(c.delay(100, 10), Some(110));
    assert_eq!(c.pending(), Some(110));
}

#[test]
fn fires_once_when_due() {
    let mut c = ClockHandle::new();
    c.delay(0, 10);
    assert!(!c.fire(9));
    assert!(c.fire(10));
    assert!(!c.fire(11));
    assert_eq!(c.pending(), None);
}

#[test]
fn second_delay_replaces_first() {
    let mut c = ClockHandle::new();
    c.delay(0, 5);
    c.delay(2, 10);
    assert_eq!(c.pending(), Some(12));
    let fired: Vec<u64> = [5u64, 8, 12, 15, 30].into_iter().filter(|t| c.fire(*t)).collect();
    assert_eq!(fired, vec![12]);
}

#[test]
fn dispose_cancels_pending_firing() {
    let mut c = ClockHandle::new();
    c.delay(0, 10);
    c.dispose();
    assert!(c.is_disposed());
    assert_eq!(c.pending(), None);
    for t in [10u64, 20, 1000] {
        assert!(!c.fire(t));
    }
}

#[test]
fn disposed_clock_takes_no_delay() {
    let mut c = ClockHandle::new();
    c.dispose();
    assert_eq!(c.delay(0, 10), None);
    assert!(!c.fire(10));
}

#[test]
fn idle_clock_never_fires() {
    let mut c = ClockHandle::new();
    assert!(!c.fire(0));
    assert!(!c.fire(u64::MAX));
}

#[test]
fn clock_can_be_rearmed_after_firing() {
    let mut c = ClockHandle::new();
    c.delay(0, 10);
    assert!(c.fire(10));
    assert_eq!(c.delay(10, 10), Some(20));
    assert!(!c.fire(19));
    assert!(c.fire(25));
    assert!(!c.fire(30));
}

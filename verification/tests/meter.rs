//! The resource meter.

use kontracts_executor::{AccessKind, QuotaError, ResourceMeter};

#[test]
fn a_new_meter_has_counted_nothing() {
    let meter = ResourceMeter::new(3, 5);
    assert_eq!((meter.reads(), meter.max_reads()), (0, 3));
    assert_eq!((meter.writes(), meter.max_writes()), (0, 5));
}

#[test]
fn accesses_are_counted_up_to_the_maximum() {
    let mut meter = ResourceMeter::new(2, 1);
    assert_eq!(meter.check_and_increment(AccessKind::Read), Ok(()));
    assert_eq!(meter.check_and_increment(AccessKind::Read), Ok(()));
    assert_eq!(meter.reads(), 2);
    assert_eq!(meter.check_and_increment(AccessKind::Read), Err(QuotaError::ExceededReads));
    assert_eq!(meter.reads(), 2);
    assert_eq!(meter.writes(), 0);
    assert_eq!(meter.check_and_increment(AccessKind::Write), Ok(()));
    assert_eq!(meter.check_and_increment(AccessKind::Write), Err(QuotaError::ExceededWrites));
    assert_eq!(meter.check_and_increment(AccessKind::Write), Err(QuotaError::ExceededWrites));
    assert_eq!((meter.reads(), meter.writes()), (2, 1));
}

#[test]
fn a_quota_of_nothing_refuses_the_first_access() {
    let mut meter = ResourceMeter::new(0, 0);
    assert_eq!(meter.check_and_increment(AccessKind::Read), Err(QuotaError::ExceededReads));
    assert_eq!(meter.check_and_increment(AccessKind::Write), Err(QuotaError::ExceededWrites));
    assert_eq!((meter.reads(), meter.writes()), (0, 0));
}

#[test]
fn the_greatest_quota_can_be_used_up() {
    let mut meter = ResourceMeter::new(u32::MAX, u32::MAX);
    assert_eq!(meter.check_and_increment(AccessKind::Read), Ok(()));
    assert_eq!(meter.reads(), 1);
    assert_eq!(meter.max_reads(), u32::MAX);
}

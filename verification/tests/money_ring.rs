use blackbox_sim::money::{floor_half_up, Money, MoneyError};
use blackbox_sim::ring::{FixedRing, RingConfigError, RingFull, RingPush, MAX_RING_CAPACITY};

fn ok<T, E: std::fmt::Debug>(r: Result<T, E>) -> T {
    match r {
        Ok(v) => v,
        Err(e) => unreachable!("test setup failed: {e:?}"),
    }
}

#[test]
fn positive_minor_rejects_zero_and_negative() {
    assert!(matches!(Money::positive_minor(0), Err(MoneyError::ZeroAmount)));
    assert!(matches!(Money::positive_minor(-1), Err(MoneyError::NegativeAmount)));
    assert!(matches!(Money::positive_minor(1), Ok(m) if m.minor() == 1));
}

#[test]
fn checked_add_overflow_is_typed_error() {
    let a = Money::from_minor(i64::MAX);
    let b = Money::from_minor(1);
    assert!(matches!(a.checked_add(b), Err(MoneyError::Overflow)));
    assert!(matches!(
        Money::from_minor(i64::MIN).checked_sub(Money::from_minor(1)),
        Err(MoneyError::Overflow)
    ));
}

#[test]
fn mul_bp_floor_half_up_rounding() {
    assert!(matches!(Money::from_minor(150).mul_bp(50), Ok(m) if m.minor() == 1));
    assert!(matches!(Money::from_minor(100).mul_bp(50), Ok(m) if m.minor() == 1));
    assert!(matches!(Money::from_minor(99).mul_bp(50), Ok(m) if m.minor() == 0));
    assert!(matches!(Money::from_minor(-150).mul_bp(50), Ok(m) if m.minor() == -1));
    assert!(matches!(Money::from_minor(-100).mul_bp(50), Ok(m) if m.minor() == 0));
}

#[test]
fn mul_bp_rejects_unbounded_ratio() {
    assert!(matches!(Money::from_minor(1).mul_bp(1_000_001), Err(MoneyError::InvalidRatio)));
}

#[test]
fn floor_half_up_rejects_nonpositive_denominator() {
    assert!(matches!(floor_half_up(1, 0), Err(MoneyError::InvalidRatio)));
    assert!(matches!(floor_half_up(1, -3), Err(MoneyError::InvalidRatio)));
}

#[test]
fn floor_half_up_rounds_halves_upward_exactly() {
    assert_eq!(floor_half_up(5, 2), Ok(3));
    assert_eq!(floor_half_up(-5, 2), Ok(-2));
    assert_eq!(floor_half_up(7, 3), Ok(2));
    assert!(matches!(floor_half_up(i128::MAX, 3), Err(MoneyError::Overflow)));
}

#[test]
fn zero_and_oversized_capacity_rejected() {
    assert!(matches!(FixedRing::<u8>::new(0), Err(RingConfigError::ZeroCapacity)));
    assert!(matches!(
        FixedRing::<u8>::new(MAX_RING_CAPACITY + 1),
        Err(RingConfigError::CapacityAboveMax { requested }) if requested == MAX_RING_CAPACITY + 1
    ));
}

#[test]
fn evicting_push_evicts_oldest_in_order() {
    let mut r = ok(FixedRing::new(3));
    assert_eq!(r.evicting_push(1), RingPush::Stored);
    assert_eq!(r.evicting_push(2), RingPush::Stored);
    assert_eq!(r.evicting_push(3), RingPush::Stored);
    assert_eq!(r.evicting_push(4), RingPush::Evicted(1));
    assert_eq!(r.evicting_push(5), RingPush::Evicted(2));
    let content: Vec<i32> = r.iter().copied().collect();
    assert_eq!(content, vec![3, 4, 5]);
    assert_eq!(r.latest(), Some(&5));
}

#[test]
fn try_push_rejects_when_full_then_drain_reopens() {
    let mut r = ok(FixedRing::new(2));
    ok(r.try_push(10));
    ok(r.try_push(20));
    assert!(r.is_full());
    assert!(matches!(r.try_push(30), Err(RingFull)));
    let drained = r.drain_all();
    assert_eq!(drained, vec![10, 20]);
    assert!(r.is_empty());
    ok(r.try_push(30));
    assert_eq!(r.len(), 1);
    assert_eq!(r.capacity(), 2);
}

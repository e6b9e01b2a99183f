use discrete_event::time::Time;

#[test]
fn earlier_than_is_the_strict_order() {
    assert!(1i32.earlier_than(2));
    assert!(!2i32.earlier_than(2));
    assert!(!3i32.earlier_than(2));
    assert!(i32::MIN.earlier_than(i32::MAX));
    assert!((-5i64).earlier_than(-4));
    assert!(!i64::MAX.earlier_than(i64::MIN));
    assert!(0u32.earlier_than(u32::MAX));
    assert!(!7u32.earlier_than(7));
    assert!(0u64.earlier_than(1));
    assert!(!u64::MAX.earlier_than(0));
}

#[test]
fn elapsed_at_least_compares_the_difference() {
    assert!(150i32.elapsed_at_least(50, 100));
    assert!(!149i32.elapsed_at_least(50, 100));
    assert!(151i32.elapsed_at_least(50, 100));
    assert!(!50i32.elapsed_at_least(150, 0));
    assert!(50i32.elapsed_at_least(150, -100));
    assert!(!50i32.elapsed_at_least(150, -99));
    assert!(10i64.elapsed_at_least(10, 0));
    assert!(!10i64.elapsed_at_least(10, 1));
    assert!(9u32.elapsed_at_least(4, 5));
    assert!(!9u32.elapsed_at_least(4, 6));
    assert!(9u64.elapsed_at_least(4, 5));
    assert!(!9u64.elapsed_at_least(4, 6));
}

#[test]
fn elapsed_at_least_is_exact_at_the_ends_of_the_range() {
    assert!(i32::MAX.elapsed_at_least(i32::MIN, i32::MAX));
    assert!(!i32::MIN.elapsed_at_least(i32::MAX, i32::MIN));
    assert!(!i32::MIN.elapsed_at_least(i32::MAX, 0));
    assert!(i64::MAX.elapsed_at_least(i64::MIN, i64::MAX));
    assert!(!i64::MIN.elapsed_at_least(i64::MAX, i64::MIN));
    assert!(!i64::MIN.elapsed_at_least(1, i64::MIN));
    assert!(i64::MIN.elapsed_at_least(0, i64::MIN));
    assert!(u32::MAX.elapsed_at_least(0, u32::MAX));
    assert!(!0u32.elapsed_at_least(u32::MAX, 0));
    assert!(!0u32.elapsed_at_least(1, 0));
    assert!(u64::MAX.elapsed_at_least(0, u64::MAX));
    assert!(!0u64.elapsed_at_least(u64::MAX, 0));
    assert!(!(u64::MAX - 1).elapsed_at_least(0, u64::MAX));
}

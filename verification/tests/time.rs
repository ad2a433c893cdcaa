use metrics_sqlite::time::NANOS_PER_SEC;
use metrics_sqlite::Span;

#[test]
fn span_from_secs_counts_nanoseconds() {
    assert_eq!(Span::from_secs(0), Span { nanos: 0 });
    assert_eq!(Span::from_secs(3), Span { nanos: 3_000_000_000 });
    assert_eq!(
        Span::from_secs(u64::MAX),
        Span { nanos: u64::MAX as u128 * NANOS_PER_SEC }
    );
}

#[test]
fn span_from_parts_adds_both_parts() {
    assert_eq!(Span::from_parts(2, 5), Span { nanos: 2_000_000_005 });
    assert_eq!(
        Span::from_parts(u64::MAX, u32::MAX),
        Span { nanos: u64::MAX as u128 * NANOS_PER_SEC + u32::MAX as u128 }
    );
}

#[test]
fn span_splits_into_seconds_and_rest() {
    let span = Span { nanos: 7_123_456_789 };
    assert_eq!(span.as_secs(), 7);
    assert_eq!(span.subsec_nanos(), 123_456_789);
    assert_eq!(Span::zero().as_secs(), 0);
    assert_eq!(Span::zero().subsec_nanos(), 0);
}

#[test]
fn span_checked_sub_refuses_the_longer_span() {
    let five = Span::from_secs(5);
    let three = Span::from_secs(3);
    assert_eq!(five.checked_sub(three), Some(Span::from_secs(2)));
    assert_eq!(five.checked_sub(five), Some(Span::zero()));
    assert_eq!(three.checked_sub(five), None);
}

#[test]
fn span_elapsed_is_zero_when_the_clock_went_back() {
    let earlier = Span::from_secs(10);
    let later = Span::from_secs(12);
    assert_eq!(earlier.elapsed(later), Span::from_secs(2));
    assert_eq!(later.elapsed(earlier), Span::zero());
    assert_eq!(later.elapsed(later), Span::zero());
}

#[test]
fn span_exceeds_is_strict() {
    let two = Span::from_secs(2);
    assert!(Span::from_secs(3).exceeds(two));
    assert!(!two.exceeds(two));
    assert!(!Span::from_secs(1).exceeds(two));
}

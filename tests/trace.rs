use raytracing::trace::{Bounces, TraceStep};

#[test]
fn depth_zero_is_black_whatever_the_scene() {
    let mut b = Bounces::new(0);
    assert!(!b.needs_intersection());
    assert_eq!(b.step(true), TraceStep::Black);
    assert_eq!(b.step(false), TraceStep::Black);
    assert_eq!(b.remaining, 0);
}

#[test]
fn miss_goes_to_sky_without_spending() {
    let mut b = Bounces::new(3);
    assert!(b.needs_intersection());
    assert_eq!(b.step(false), TraceStep::Sky);
    assert_eq!(b.remaining, 3);
}

#[test]
fn hits_spend_the_budget_then_black() {
    let mut b = Bounces::new(2);
    assert_eq!(b.step(true), TraceStep::Scatter);
    assert_eq!(b.remaining, 1);
    assert_eq!(b.step(true), TraceStep::Scatter);
    assert_eq!(b.remaining, 0);
    assert!(!b.needs_intersection());
    assert_eq!(b.step(true), TraceStep::Black);
}

#[test]
fn hit_then_miss_ends_in_sky() {
    let mut b = Bounces::new(5);
    assert_eq!(b.step(true), TraceStep::Scatter);
    assert_eq!(b.step(false), TraceStep::Sky);
    assert_eq!(b.remaining, 4);
}

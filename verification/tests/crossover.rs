use dionysus::crossover::{
    compare, compute_crossover, compute_crossover_s, compute_series_cross,
    compute_series_cross_s, compute_zero_cross, compute_zero_cross_s, cross_from_ord, Crossover,
};
use std::cmp::Ordering;

#[test]
fn counselor_test_crossover() {
    {
        let a = vec![0, 1, 2, 3, 4];
        let b = vec![4, 3, 2, 1, 0];
        let r = compute_crossover_s(&a[..], &b[..], |ai, bi| ai.cmp(bi));
        assert_eq!(r[0], Crossover::Bellow);
        assert_eq!(r[1], Crossover::Bellow);
        assert_eq!(r[2], Crossover::CrossingUpwards);
        assert_eq!(r[3], Crossover::CrossingUpwards);
        assert_eq!(r[4], Crossover::Over);
        let rr = compute_crossover_s(&b[..], &a[..], |ai, bi| ai.cmp(bi));
        assert_eq!(rr[0], Crossover::Over);
        assert_eq!(rr[1], Crossover::Over);
        assert_eq!(rr[2], Crossover::CrossingDownwards);
        assert_eq!(rr[3], Crossover::CrossingDownwards);
        assert_eq!(rr[4], Crossover::Bellow);
    }
    {
        let a = vec![-2, -1, 0, 0, -1];
        let b = vec![0, 0, 0, 0, 0];
        let r = compute_crossover_s(&a[..], &b[..], |ai, bi| ai.cmp(bi));
        assert_eq!(r[0], Crossover::Bellow);
        assert_eq!(r[1], Crossover::Bellow);
        assert_eq!(r[2], Crossover::CrossingUpwards);
        assert_eq!(r[3], Crossover::Equal);
        assert_eq!(r[4], Crossover::CrossingDownwards);
        let rr = compute_crossover_s(&b[..], &a[..], |ai, bi| ai.cmp(bi));
        assert_eq!(rr[0], Crossover::Over);
        assert_eq!(rr[1], Crossover::Over);
        assert_eq!(rr[2], Crossover::CrossingDownwards);
        assert_eq!(rr[3], Crossover::Equal);
        assert_eq!(rr[4], Crossover::CrossingUpwards);
    }
}

#[test]
fn oracles_test_crossover() {
    {
        let a = vec![0, 1, 2, 3, 4];
        let b = vec![4, 3, 2, 1, 0];
        let r = compute_crossover_s(&a[..], &b[..], |ai, bi| ai.cmp(bi));
        assert_eq!(r[0], Crossover::Bellow);
        assert_eq!(r[1], Crossover::Bellow);
        assert_eq!(r[2], Crossover::CrossingUpwards);
        assert_eq!(r[3], Crossover::CrossingUpwards);
        assert_eq!(r[4], Crossover::Over);
        let rr = compute_crossover_s(&b[..], &a[..], |ai, bi| ai.cmp(bi));
        assert_eq!(rr[0], Crossover::Over);
        assert_eq!(rr[1], Crossover::Over);
        assert_eq!(rr[2], Crossover::CrossingDownwards);
        assert_eq!(rr[3], Crossover::CrossingDownwards);
        assert_eq!(rr[4], Crossover::Bellow);
    }
    {
        let a = vec![-2, -1, 0, 0, -1];
        let b = vec![0, 0, 0, 0, 0];
        let r = compute_crossover_s(&a[..], &b[..], |ai, bi| ai.cmp(bi));
        assert_eq!(r[0], Crossover::Bellow);
        assert_eq!(r[1], Crossover::Bellow);
        assert_eq!(r[2], Crossover::CrossingUpwards);
        assert_eq!(r[3], Crossover::Equal);
        assert_eq!(r[4], Crossover::CrossingDownwards);
        let rr = compute_crossover_s(&b[..], &a[..], |ai, bi| ai.cmp(bi));
        assert_eq!(rr[0], Crossover::Over);
        assert_eq!(rr[1], Crossover::Over);
        assert_eq!(rr[2], Crossover::CrossingDownwards);
        assert_eq!(rr[3], Crossover::Equal);
        assert_eq!(rr[4], Crossover::CrossingUpwards);
    }
}

#[test]
fn transition_table_is_complete() {
    let (less, equal, greater) = (Ordering::Less, Ordering::Equal, Ordering::Greater);
    assert_eq!(Crossover::from(greater, greater), Crossover::Over);
    assert_eq!(Crossover::from(equal, greater), Crossover::CrossingDownwards);
    assert_eq!(Crossover::from(less, greater), Crossover::CrossingDownwards);
    assert_eq!(Crossover::from(greater, equal), Crossover::CrossingUpwards);
    assert_eq!(Crossover::from(equal, equal), Crossover::Equal);
    assert_eq!(Crossover::from(less, equal), Crossover::CrossingDownwards);
    assert_eq!(Crossover::from(less, less), Crossover::Bellow);
    assert_eq!(Crossover::from(equal, less), Crossover::CrossingUpwards);
    assert_eq!(Crossover::from(greater, less), Crossover::CrossingUpwards);
}

#[test]
fn signal_ranks() {
    assert_eq!(Crossover::Over.signal(), 1);
    assert_eq!(Crossover::Bellow.signal(), -1);
    assert_eq!(Crossover::Equal.signal(), 0);
    assert_eq!(Crossover::CrossingUpwards.signal(), 2);
    assert_eq!(Crossover::CrossingDownwards.signal(), -2);
}

#[test]
fn first_step_is_over_only_when_greater() {
    assert_eq!(cross_from_ord(&[Ordering::Greater]), vec![Crossover::Over]);
    assert_eq!(cross_from_ord(&[Ordering::Equal]), vec![Crossover::Bellow]);
    assert_eq!(cross_from_ord(&[Ordering::Less]), vec![Crossover::Bellow]);
    assert_eq!(cross_from_ord(&[]), Vec::<Crossover>::new());
}

#[test]
fn zero_touch_classification() {
    let a: Vec<i64> = vec![-2, -1, 0, 0, -1];
    assert_eq!(
        compute_zero_cross_s(&a[..]),
        vec![
            Crossover::Bellow,
            Crossover::Bellow,
            Crossover::CrossingUpwards,
            Crossover::Equal,
            Crossover::CrossingDownwards
        ]
    );
    assert_eq!(compute_zero_cross(&a[..]), Crossover::CrossingDownwards);
    assert_eq!(compute_zero_cross(&a[..3]), Crossover::CrossingUpwards);
}

#[test]
fn series_cross_matches_the_generic_form() {
    let a: Vec<i64> = vec![0, 1, 2, 3, 4];
    let b: Vec<i64> = vec![4, 3, 2, 1, 0];
    let by_closure = compute_crossover_s(&a[..], &b[..], |x, y| x.cmp(y));
    assert_eq!(compute_series_cross_s(&a[..], &b[..]), by_closure);
    assert_eq!(compute_series_cross(&a[..], &b[..]), Crossover::Over);
    assert_eq!(compute_series_cross(&b[..], &a[..]), Crossover::Bellow);
    assert_eq!(compute_crossover(&a[..3], &b[..], |x, y| x.cmp(y)), Crossover::CrossingUpwards);
    assert_eq!(compare(&1, &2), Ordering::Less);
    assert_eq!(compare(&2, &2), Ordering::Equal);
    assert_eq!(compare(&3, &2), Ordering::Greater);
}

#[test]
fn second_series_may_be_longer() {
    let a: Vec<i64> = vec![5];
    let b: Vec<i64> = vec![1, 2, 3];
    assert_eq!(compute_series_cross_s(&a[..], &b[..]), vec![Crossover::Over]);
}

use tracer::rand_utils::{rand_bool, rand_sign, sign_of};
use tracer::render::next_depth;

#[test]
fn spent_budget_stops_the_ray() {
    assert_eq!(next_depth(0), None);
    assert_eq!(next_depth(-1), None);
    assert_eq!(next_depth(i32::MIN), None);
}

#[test]
fn each_bounce_spends_one() {
    assert_eq!(next_depth(1), Some(0));
    assert_eq!(next_depth(50), Some(49));
    assert_eq!(next_depth(i32::MAX), Some(i32::MAX - 1));
}

#[test]
fn budget_of_fifty_allows_fifty_bounces() {
    let mut depth = 50;
    let mut bounces = 0;
    while let Some(d) = next_depth(depth) {
        depth = d;
        bounces += 1;
    }
    assert_eq!(bounces, 50);
}

#[test]
fn random_signs_are_unit() {
    let mut seen_plus = false;
    let mut seen_minus = false;
    for _ in 0..200 {
        let s = rand_sign();
        assert!(s == 1 || s == -1);
        seen_plus |= s == 1;
        seen_minus |= s == -1;
    }
    assert!(seen_plus && seen_minus);
}

#[test]
fn random_bools_take_both_values() {
    let draws: Vec<bool> = (0..200).map(|_| rand_bool()).collect();
    assert!(draws.iter().any(|b| *b));
    assert!(draws.iter().any(|b| !*b));
}

#[test]
fn coin_toss_gives_the_sign() {
    assert_eq!(sign_of(true), 1);
    assert_eq!(sign_of(false), -1);
}

use phase_dimmer::membership::{trapezoidal, ConfigError, FuzzySet, MEMBERSHIP_ONE};

const LOW: FuzzySet = FuzzySet { a: 0, b: 0, c: 2000, d: 5000 };
const MEDIUM: FuzzySet = FuzzySet { a: 2000, b: 5000, c: 5000, d: 7500 };
const HIGH: FuzzySet = FuzzySet { a: 5000, b: 7500, c: 10000, d: 10000 };

#[test]
fn zero_outside_support() {
    for x in [0u32, 1000, 2000, 7500, 9000, u32::MAX] {
        assert_eq!(MEDIUM.membership(x), 0);
    }
    assert_eq!(LOW.membership(5000), 0);
    assert_eq!(LOW.membership(6000), 0);
    assert_eq!(HIGH.membership(5000), 0);
    assert_eq!(HIGH.membership(100), 0);
}

#[test]
fn full_on_plateau() {
    for x in [0u32, 1000, 2000] {
        assert_eq!(LOW.membership(x), MEMBERSHIP_ONE);
    }
    assert_eq!(MEDIUM.membership(5000), MEMBERSHIP_ONE);
    for x in [7500u32, 9000, 10000] {
        assert_eq!(HIGH.membership(x), MEMBERSHIP_ONE);
    }
}

#[test]
fn linear_edges_round_up() {
    assert_eq!(LOW.membership(3500), 5000);
    assert_eq!(MEDIUM.membership(3000), 3334);
    assert_eq!(MEDIUM.membership(6250), 5000);
    assert_eq!(HIGH.membership(6250), 5000);
    assert_eq!(trapezoidal(1, 0, 100_000, 100_000, 200_000), 1);
}

#[test]
fn degenerate_edges_are_steps() {
    assert_eq!(trapezoidal(10, 10, 10, 20, 20), MEMBERSHIP_ONE);
    assert_eq!(trapezoidal(20, 10, 10, 20, 20), MEMBERSHIP_ONE);
    assert_eq!(trapezoidal(9, 10, 10, 20, 20), 0);
    assert_eq!(trapezoidal(21, 10, 10, 20, 20), 0);
    assert_eq!(trapezoidal(5, 0, 10, 0, 0), 0);
}

#[test]
fn monotone_on_edges() {
    for set in [LOW, MEDIUM, HIGH] {
        let mut prev = set.membership(set.a);
        for x in set.a..=set.b {
            let m = set.membership(x);
            assert!(m >= prev);
            prev = m;
        }
        let mut prev = set.membership(set.c);
        for x in set.c..=set.d {
            let m = set.membership(x);
            assert!(m <= prev);
            prev = m;
        }
    }
}

#[test]
fn new_checks_order() {
    assert_eq!(FuzzySet::new(1, 2, 3, 4), Ok(FuzzySet { a: 1, b: 2, c: 3, d: 4 }));
    assert_eq!(FuzzySet::new(2, 1, 3, 4), Err(ConfigError::UnorderedBreakpoints));
    assert_eq!(FuzzySet::new(1, 2, 4, 3), Err(ConfigError::UnorderedBreakpoints));
}

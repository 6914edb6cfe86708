use emwa_rs::{Error, Smoothing, Step, Tracker};

#[test]
fn it_works() {
    let result = 2 + 2;
    assert_eq!(result, 4);
}

#[test]
fn fresh_tracker_is_empty() {
    let t = Tracker::new(Smoothing::Static);
    assert_eq!(t.datapoints(), 0);
    assert_eq!(t.strategy(), Smoothing::Static);
}

#[test]
fn first_fixed_observation_seeds() {
    let mut t = Tracker::new(Smoothing::Static);
    assert_eq!(t.accept(), Ok(Step::Seed));
    assert_eq!(t.datapoints(), 1);
}

#[test]
fn first_timed_observation_seeds_even_if_stale() {
    let mut t = Tracker::new(Smoothing::Dynamic);
    assert_eq!(t.accept_timed(true), Ok(Step::Seed));
    assert_eq!(t.datapoints(), 1);
}

#[test]
fn fixed_sequence_of_four() {
    // 10.3, 11.9, -1.33, 2.0 are seeded, then blended at counts 2, 3 and 4.
    let mut t = Tracker::new(Smoothing::Static);
    assert_eq!(t.accept(), Ok(Step::Seed));
    assert_eq!(t.accept(), Ok(Step::Blend { count: 2 }));
    assert_eq!(t.accept(), Ok(Step::Blend { count: 3 }));
    assert_eq!(t.accept(), Ok(Step::Blend { count: 4 }));
    assert_eq!(t.datapoints(), 4);
}

#[test]
fn timed_pair_blends_with_count_two() {
    // (1, t=0) seeds; (2, t=1) decays by exp(-1 / 2).
    let mut t = Tracker::new(Smoothing::Dynamic);
    assert_eq!(t.accept_timed(false), Ok(Step::Seed));
    assert_eq!(t.accept_timed(false), Ok(Step::Blend { count: 2 }));
}

#[test]
fn fixed_call_on_timed_tracker_is_refused() {
    let mut t = Tracker::new(Smoothing::Dynamic);
    assert_eq!(t.accept(), Err(Error::AlgoMismatch));
    assert_eq!(t.datapoints(), 0);
    assert_eq!(t.accept_timed(false), Ok(Step::Seed));
    assert_eq!(t.accept(), Err(Error::AlgoMismatch));
    assert_eq!(t.datapoints(), 1);
    assert_eq!(t.strategy(), Smoothing::Dynamic);
}

#[test]
fn timed_call_on_fixed_tracker_is_refused() {
    let mut t = Tracker::new(Smoothing::Static);
    assert_eq!(t.accept_timed(false), Err(Error::AlgoMismatch));
    assert_eq!(t.accept_timed(true), Err(Error::AlgoMismatch));
    assert_eq!(t.datapoints(), 0);
    assert_eq!(t.accept(), Ok(Step::Seed));
    assert_eq!(t.accept_timed(false), Err(Error::AlgoMismatch));
    assert_eq!(t.datapoints(), 1);
}

#[test]
fn stale_observation_changes_nothing() {
    let mut t = Tracker::new(Smoothing::Dynamic);
    assert_eq!(t.accept_timed(false), Ok(Step::Seed));
    assert_eq!(t.accept_timed(false), Ok(Step::Blend { count: 2 }));
    assert_eq!(t.accept_timed(true), Err(Error::StaleData));
    assert_eq!(t.datapoints(), 2);
    assert_eq!(t.accept_timed(false), Ok(Step::Blend { count: 3 }));
}

#[test]
fn ordered_timestamps_are_all_accepted() {
    let mut t = Tracker::new(Smoothing::Dynamic);
    assert_eq!(t.accept_timed(false), Ok(Step::Seed));
    for i in 2..100u32 {
        assert_eq!(t.accept_timed(false), Ok(Step::Blend { count: i }));
    }
    assert_eq!(t.datapoints(), 99);
}

#[test]
fn ninety_nine_fixed_observations() {
    let mut t = Tracker::new(Smoothing::Static);
    for _ in 1..100 {
        assert!(t.accept().is_ok());
    }
    assert_eq!(t.datapoints(), 99);
}

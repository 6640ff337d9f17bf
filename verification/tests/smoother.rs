use dcf77_receiver::signal_smoother::SignalSmoother;

#[test]
fn new_smoother_reports_high() {
    let smoother = SignalSmoother::<8>::new();
    assert!(smoother.level());
}

#[test]
fn single_sample_glitch_is_ignored() {
    let mut smoother = SignalSmoother::<8>::new();
    assert!(smoother.add_signal(false));
    for _ in 0..20 {
        assert!(smoother.add_signal(true));
    }
}

#[test]
fn seven_sample_glitch_is_ignored() {
    let mut smoother = SignalSmoother::<8>::new();
    for _ in 0..7 {
        assert!(smoother.add_signal(false));
    }
    assert!(smoother.add_signal(true));
    for _ in 0..7 {
        assert!(smoother.add_signal(false));
    }
}

#[test]
fn eight_sample_change_flips_on_the_eighth() {
    let mut smoother = SignalSmoother::<8>::new();
    for _ in 0..7 {
        assert!(smoother.add_signal(false));
    }
    assert!(!smoother.add_signal(false));
    assert!(!smoother.level());
    for _ in 0..7 {
        assert!(!smoother.add_signal(true));
    }
    assert!(smoother.add_signal(true));
}

#[test]
fn window_of_one_follows_every_sample() {
    let mut smoother = SignalSmoother::<1>::new();
    assert!(!smoother.add_signal(false));
    assert!(smoother.add_signal(true));
    assert!(smoother.add_signal(true));
    assert!(!smoother.add_signal(false));
}

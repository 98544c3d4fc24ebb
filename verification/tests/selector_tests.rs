use screen_ghost::selector::attempt_order;
use screen_ghost::selector::CaptureMethod;
use screen_ghost::selector::SelectorState;

#[test]
fn fresh_display_starts_optimized() {
    let s = SelectorState::new();
    assert_eq!(s.choose_start_method(0), CaptureMethod::Optimized);
    let stats = s.stats_for(0);
    assert_eq!(stats.preferred, CaptureMethod::Optimized);
    assert_eq!(stats.consec_optimized, 0);
    assert_eq!(stats.consec_standard, 0);
    assert_eq!(stats.consec_alternative, 0);
}

#[test]
fn success_touches_only_its_counter() {
    let mut s = SelectorState::new();
    s.record_result(0, CaptureMethod::Standard, true);
    assert_eq!(s.consecutive_successes(0, CaptureMethod::Standard), 1);
    assert_eq!(s.consecutive_successes(0, CaptureMethod::Optimized), 0);
    assert_eq!(s.consecutive_successes(0, CaptureMethod::Alternative), 0);
    // one success is below the threshold: the preference is unchanged
    assert_eq!(s.stats_for(0).preferred, CaptureMethod::Optimized);
}

#[test]
fn failure_resets_only_its_counter() {
    let mut s = SelectorState::new();
    s.record_result(0, CaptureMethod::Optimized, true);
    s.record_result(0, CaptureMethod::Optimized, true);
    s.record_result(0, CaptureMethod::Standard, true);
    s.record_result(0, CaptureMethod::Optimized, false);
    assert_eq!(s.consecutive_successes(0, CaptureMethod::Optimized), 0);
    assert_eq!(s.consecutive_successes(0, CaptureMethod::Standard), 1);
    assert_eq!(s.consecutive_successes(0, CaptureMethod::Alternative), 0);
}

#[test]
fn streak_of_three_promotes() {
    let mut s = SelectorState::new();
    s.record_result(0, CaptureMethod::Standard, true);
    s.record_result(0, CaptureMethod::Standard, true);
    assert_eq!(s.stats_for(0).preferred, CaptureMethod::Optimized);
    s.record_result(0, CaptureMethod::Standard, true);
    assert_eq!(s.stats_for(0).preferred, CaptureMethod::Standard);
    assert_eq!(s.choose_start_method(0), CaptureMethod::Standard);
}

#[test]
fn faster_method_wins_promotion() {
    let mut s = SelectorState::new();
    for _ in 0..3 {
        s.record_result(0, CaptureMethod::Alternative, true);
    }
    assert_eq!(s.stats_for(0).preferred, CaptureMethod::Alternative);
    for _ in 0..3 {
        s.record_result(0, CaptureMethod::Optimized, true);
    }
    // both counters are at the threshold: the faster method is preferred
    assert_eq!(s.stats_for(0).preferred, CaptureMethod::Optimized);
}

#[test]
fn displays_are_independent() {
    let mut s = SelectorState::new();
    for _ in 0..3 {
        s.record_result(7, CaptureMethod::Alternative, true);
    }
    s.record_result(3, CaptureMethod::Optimized, false);
    assert_eq!(s.stats_for(7).preferred, CaptureMethod::Alternative);
    assert_eq!(s.consecutive_successes(7, CaptureMethod::Alternative), 3);
    assert_eq!(s.consecutive_successes(3, CaptureMethod::Alternative), 0);
    assert_eq!(s.choose_start_method(3), CaptureMethod::Optimized);
}

#[test]
fn attempt_order_by_start() {
    assert_eq!(
        attempt_order(CaptureMethod::Optimized),
        vec![CaptureMethod::Optimized, CaptureMethod::Standard, CaptureMethod::Alternative],
    );
    assert_eq!(
        attempt_order(CaptureMethod::Standard),
        vec![CaptureMethod::Standard, CaptureMethod::Alternative],
    );
    assert_eq!(attempt_order(CaptureMethod::Alternative), vec![CaptureMethod::Alternative]);
}

#[test]
fn plan_attempts_follows_promotion() {
    let mut s = SelectorState::new();
    assert_eq!(
        s.plan_attempts(0),
        vec![CaptureMethod::Optimized, CaptureMethod::Standard, CaptureMethod::Alternative],
    );
    for _ in 0..3 {
        s.record_result(0, CaptureMethod::Standard, true);
    }
    assert_eq!(s.plan_attempts(0), vec![CaptureMethod::Standard, CaptureMethod::Alternative]);
}

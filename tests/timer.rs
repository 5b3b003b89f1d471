use tower_defense::{Timer, TimerMode};

#[test]
fn repeating_timer_wraps_and_keeps_remainder() {
    let mut t = Timer::new(500_000_000, TimerMode::Repeating);
    t.tick(300_000_000);
    assert_eq!(t.elapsed_ns, 300_000_000);
    assert!(!t.just_finished());
    t.tick(300_000_000);
    assert_eq!(t.elapsed_ns, 100_000_000);
    assert!(t.just_finished());
    assert_eq!(t.times_finished_this_tick, 1);
    t.tick(1_050_000_000);
    assert_eq!(t.elapsed_ns, 150_000_000);
    assert_eq!(t.times_finished_this_tick, 2);
    t.tick(1);
    assert!(!t.just_finished());
    assert!(!t.finished());
}

#[test]
fn once_timer_stops_at_its_duration() {
    let mut t = Timer::new(500_000_000, TimerMode::Once);
    t.tick(250_000_000);
    assert!(!t.finished());
    t.tick(250_000_000);
    assert!(t.just_finished());
    assert!(t.finished());
    assert_eq!(t.elapsed_ns, 500_000_000);
    t.tick(100_000_000);
    assert!(!t.just_finished());
    assert!(t.finished());
    assert_eq!(t.elapsed_ns, 500_000_000);
}

#[test]
fn repeating_timer_fires_once_per_period_on_even_ticks() {
    // Ticks shorter than the period: fires every fifth tick of 100 ms.
    let mut t = Timer::new(500_000_000, TimerMode::Repeating);
    let mut fired_at = Vec::new();
    for k in 1..=20u64 {
        t.tick(100_000_000);
        if t.just_finished() {
            fired_at.push(k * 100_000_000);
        }
    }
    assert_eq!(fired_at, vec![500_000_000, 1_000_000_000, 1_500_000_000, 2_000_000_000]);
    for w in fired_at.windows(2) {
        assert!(w[1] - w[0] >= 500_000_000);
    }
}

use snake::score::{Scoreboard, SCORE_DELTA, SCORE_DIFFICULTY_THRESHOLD};
use snake::timer::{MoveTimer, TIMER_SCALING_PERCENTAGE, TIMER_STARTING_DURATION};

#[test]
fn new_timer_has_not_run() {
    let t = MoveTimer::new(TIMER_STARTING_DURATION);
    assert_eq!(t, MoveTimer { duration: 160_000_000, elapsed: 0, times_finished: 0 });
    assert!(!t.just_finished());
    assert_eq!(t.duration(), 160_000_000);
}

#[test]
fn tick_below_duration_accumulates() {
    let mut t = MoveTimer::new(160);
    t.tick(100);
    assert_eq!(t, MoveTimer { duration: 160, elapsed: 100, times_finished: 0 });
    assert!(!t.just_finished());
}

#[test]
fn tick_past_duration_fires_and_keeps_the_rest() {
    let mut t = MoveTimer::new(160);
    t.tick(100);
    t.tick(100);
    assert_eq!(t, MoveTimer { duration: 160, elapsed: 40, times_finished: 1 });
    assert!(t.just_finished());
    t.tick(10);
    assert_eq!(t, MoveTimer { duration: 160, elapsed: 50, times_finished: 0 });
    assert!(!t.just_finished());
}

#[test]
fn tick_exactly_one_duration_fires_once() {
    let mut t = MoveTimer::new(TIMER_STARTING_DURATION);
    t.tick(TIMER_STARTING_DURATION);
    assert_eq!(t.elapsed, 0);
    assert_eq!(t.times_finished, 1);
}

#[test]
fn tick_counts_several_periods() {
    let mut t = MoveTimer::new(10);
    t.tick(35);
    assert_eq!(t, MoveTimer { duration: 10, elapsed: 5, times_finished: 3 });
}

#[test]
fn tick_with_zero_delta_changes_nothing_but_the_count() {
    let mut t = MoveTimer { duration: 10, elapsed: 4, times_finished: 2 };
    t.tick(0);
    assert_eq!(t, MoveTimer { duration: 10, elapsed: 4, times_finished: 0 });
}

#[test]
fn tick_count_keeps_the_low_32_bits() {
    let mut t = MoveTimer::new(1);
    t.tick(1u64 << 32);
    assert_eq!(t, MoveTimer { duration: 1, elapsed: 0, times_finished: 0 });
    assert!(!t.just_finished());
    let mut u = MoveTimer::new(1);
    u.tick((1u64 << 32) + 5);
    assert_eq!(u.times_finished, 5);
}

#[test]
fn tick_with_large_values() {
    let mut t = MoveTimer { duration: u64::MAX, elapsed: u64::MAX, times_finished: 0 };
    t.tick(u64::MAX);
    assert_eq!(t, MoveTimer { duration: u64::MAX, elapsed: 0, times_finished: 2 });
}

#[test]
fn tick_with_zero_duration() {
    let mut t = MoveTimer { duration: 0, elapsed: 7, times_finished: 0 };
    t.tick(5);
    assert_eq!(t, MoveTimer { duration: 0, elapsed: 0, times_finished: u32::MAX });
}

#[test]
fn set_duration_keeps_elapsed() {
    let mut t = MoveTimer { duration: 10, elapsed: 4, times_finished: 1 };
    t.set_duration(99);
    assert_eq!(t, MoveTimer { duration: 99, elapsed: 4, times_finished: 1 });
}

#[test]
fn scale_cuts_fifteen_percent() {
    assert_eq!(TIMER_SCALING_PERCENTAGE, 15);
    let mut t = MoveTimer::new(TIMER_STARTING_DURATION);
    t.scale();
    assert_eq!(t.duration, 136_000_000);
    t.scale();
    assert_eq!(t.duration, 115_600_000);
    t.scale();
    assert_eq!(t.duration, 98_260_000);
}

#[test]
fn scale_rounds_the_cut_down() {
    for (before, after) in [(0u64, 0u64), (1, 1), (6, 6), (7, 6), (13, 12), (14, 12), (100, 85), (199, 170)] {
        let mut t = MoveTimer::new(before);
        t.scale();
        assert_eq!(t.duration, after, "from {before}");
    }
}

#[test]
fn scale_at_the_top_of_the_range() {
    let mut t = MoveTimer::new(u64::MAX);
    t.scale();
    assert_eq!(t.duration, u64::MAX - 2_767_011_611_056_432_742);
}

#[test]
fn scale_never_reaches_zero() {
    let mut t = MoveTimer::new(TIMER_STARTING_DURATION);
    let mut previous = t.duration;
    for _ in 0..500 {
        t.scale();
        assert!(t.duration >= 1);
        assert!(t.duration <= previous);
        if previous >= 7 {
            assert!(t.duration < previous);
        }
        previous = t.duration;
    }
    assert_eq!(t.duration, 6);
}

#[test]
fn scoreboard_starts_at_zero() {
    assert_eq!(Scoreboard::new(), Scoreboard { score: 0, difficulty: 0 });
    assert_eq!(SCORE_DELTA, 100);
    assert_eq!(SCORE_DIFFICULTY_THRESHOLD, 500);
}

#[test]
fn add_food_adds_one_hundred() {
    let mut s = Scoreboard::new();
    s.add_food();
    assert_eq!(s, Scoreboard { score: 100, difficulty: 0 });
    s.add_food();
    assert_eq!(s, Scoreboard { score: 200, difficulty: 0 });
}

#[test]
fn difficulty_stays_below_the_threshold() {
    let mut s = Scoreboard { score: 499, difficulty: 0 };
    let mut t = MoveTimer::new(TIMER_STARTING_DURATION);
    assert!(!s.update_difficulty(&mut t));
    assert_eq!(s, Scoreboard { score: 499, difficulty: 0 });
    assert_eq!(t, MoveTimer::new(TIMER_STARTING_DURATION));
}

#[test]
fn difficulty_rises_at_the_threshold_once() {
    let mut s = Scoreboard { score: 500, difficulty: 0 };
    let mut t = MoveTimer { duration: TIMER_STARTING_DURATION, elapsed: 5, times_finished: 1 };
    assert!(s.update_difficulty(&mut t));
    assert_eq!(s, Scoreboard { score: 500, difficulty: 1 });
    assert_eq!(t, MoveTimer { duration: 136_000_000, elapsed: 5, times_finished: 1 });
    assert!(!s.update_difficulty(&mut t));
    assert_eq!(s, Scoreboard { score: 500, difficulty: 1 });
    assert_eq!(t.duration, 136_000_000);
}

#[test]
fn difficulty_is_the_floor_of_score_over_threshold() {
    for (score, level) in [(0usize, 0usize), (100, 0), (999, 1), (1000, 2), (1499, 2), (52_000, 104)] {
        let mut s = Scoreboard { score, difficulty: level };
        let mut t = MoveTimer::new(1000);
        assert!(!s.update_difficulty(&mut t));
        assert_eq!(s.difficulty, level);
        assert_eq!(t.duration, 1000);
    }
}

#[test]
fn difficulty_jump_shortens_the_timer_once() {
    let mut s = Scoreboard { score: 1700, difficulty: 0 };
    let mut t = MoveTimer::new(1000);
    assert!(s.update_difficulty(&mut t));
    assert_eq!(s.difficulty, 3);
    assert_eq!(t.duration, 850);
}

#[test]
fn difficulty_follows_a_lower_score_too() {
    let mut s = Scoreboard { score: 0, difficulty: 2 };
    let mut t = MoveTimer::new(1000);
    assert!(s.update_difficulty(&mut t));
    assert_eq!(s, Scoreboard { score: 0, difficulty: 0 });
    assert_eq!(t.duration, 850);
}

#[test]
fn difficulty_is_monotonic_in_score() {
    let mut last = 0usize;
    let mut score = 0usize;
    while score <= 5000 {
        let mut s = Scoreboard { score, difficulty: 0 };
        let mut t = MoveTimer::new(1000);
        s.update_difficulty(&mut t);
        assert!(s.difficulty >= last);
        last = s.difficulty;
        score += 100;
    }
    assert_eq!(last, 10);
}

#[test]
fn scoreboard_reset_clears_both() {
    let mut s = Scoreboard { score: 700, difficulty: 1 };
    s.reset();
    assert_eq!(s, Scoreboard { score: 0, difficulty: 0 });
}

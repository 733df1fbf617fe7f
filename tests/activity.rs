use rust_discord_bot::activity::{
    apply_activity, level_up_text, on_activity, stats_for, ActivityOutcome, MAX_XP_GAIN,
    MIN_XP_GAIN,
};

#[test]
fn bots_earn_nothing() {
    assert_eq!(on_activity(true, 10, 3), None);
}

#[test]
fn a_message_earns_five_to_ten() {
    for _ in 0..50 {
        let o = on_activity(false, 0, 0).unwrap();
        assert_eq!(o.level, 0);
        assert!(MIN_XP_GAIN <= o.progress && o.progress <= MAX_XP_GAIN);
        assert_eq!(o.levels_gained, 0);
        assert_eq!(o.xp_to_next, 100 - o.progress);
    }
}

#[test]
fn activity_renormalizes_then_gains() {
    assert_eq!(
        apply_activity(95, 0, 7),
        ActivityOutcome { level: 1, progress: 2, levels_gained: 1, xp_to_next: 153 }
    );
    // the stale pair (0, 300) is worth level 2 with 45 progress before the gain
    assert_eq!(
        apply_activity(300, 0, 5),
        ActivityOutcome { level: 2, progress: 50, levels_gained: 0, xp_to_next: 170 }
    );
}

#[test]
fn level_up_announcements() {
    let none = ActivityOutcome { level: 3, progress: 1, levels_gained: 0, xp_to_next: 9 };
    assert_eq!(level_up_text(&none), None);
    let one = ActivityOutcome { level: 12, progress: 5, levels_gained: 1, xp_to_next: 1315 };
    assert_eq!(
        level_up_text(&one).unwrap(),
        "Level up. You reached level 12. 1315 XP to next level."
    );
    let many = ActivityOutcome { level: 34, progress: 5905, levels_gained: 34, xp_to_next: 1 };
    assert_eq!(
        level_up_text(&many).unwrap(),
        "Massive gains. +34 levels. You are now level 34. 1 XP to next level."
    );
}

#[test]
fn stats_of_stored_pairs() {
    let s = stats_for(300, 0);
    assert_eq!((s.level, s.progress, s.requirement, s.xp_to_next), (2, 45, 220, 175));
    let s = stats_for(0, 0);
    assert_eq!((s.level, s.progress, s.requirement, s.xp_to_next), (0, 0, 100, 100));
}

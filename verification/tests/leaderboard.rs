use backend::error::ApiError;
use std::str::FromStr;
use backend::models::{CloseSeasonRequest, MatchStatus};
use backend::season::{
    decay_elo, ensure_season_open, next_season_name, plan_season_close, player_row_stats,
    rank_change, SnapshotRow, ELO_BASELINE, ELO_MINIMUM,
};

#[test]
fn increments_trailing_number() {
    assert_eq!(next_season_name("Season 3"), "Season 4");
    assert_eq!(next_season_name("S9"), "S10");
}

#[test]
fn falls_back_when_no_trailing_number() {
    assert_eq!(next_season_name("Preseason"), "Preseason 2");
}

#[test]
fn decays_ten_varied_ratings_toward_baseline() {
    // (current_rating, expected new_rating) for
    // new_elo = current - (current - 1200) * 0.10
    let cases: [(i32, i32); 10] = [
        (2400, 2280), // (2400 - 1200)*0.1 = 120 -> 2280
        (2000, 1920),
        (1800, 1740),
        (1600, 1560),
        (1400, 1380),
        (1200, 1200), // already at baseline: no change
        (1000, 1020), // below baseline decays *up* toward it
        (800, 840),
        (600, 800),   // (600-1200)*0.1 = -60 -> 660, but floor is 800
        (400, 800),   // (400-1200)*0.1 = -80 -> 480, but floor is 800
    ];

    for (current, expected) in cases {
        let actual = decay_elo(current);
        assert_eq!(
            actual, expected,
            "decay_elo({current}) = {actual}, expected {expected}"
        );
        assert!(actual >= ELO_MINIMUM, "decayed rating must never drop below {ELO_MINIMUM}");
    }
}

#[test]
fn decay_never_drops_below_the_floor() {
    assert_eq!(decay_elo(0), ELO_MINIMUM);
    assert_eq!(decay_elo(-500), ELO_MINIMUM);
}

// ─── Further cases ──────────────────────────────────────────────────────────

/// The rating decay written with floating point, as the formula reads.
fn float_decay(current: i32) -> i32 {
    let decayed = current as f64 - (current as f64 - 1200.0) * 0.10;
    (decayed.round() as i32).max(800)
}

#[test]
fn integer_decay_agrees_with_the_float_formula() {
    for c in -20_000..=20_000 {
        assert_eq!(decay_elo(c), float_decay(c), "rating {c}");
    }
    let mut c: i64 = i32::MIN as i64;
    while c <= i32::MAX as i64 {
        assert_eq!(decay_elo(c as i32), float_decay(c as i32), "rating {c}");
        c += 65_537;
    }
    for c in [i32::MIN, i32::MAX, 1205, 1195, 1215, -1205, 805, 795] {
        assert_eq!(decay_elo(c), float_decay(c), "rating {c}");
    }
}

#[test]
fn decay_rounds_halves_away_from_zero() {
    assert_eq!(decay_elo(1205), 1205); // 1204.5
    assert_eq!(decay_elo(1195), 1196); // 1195.5
    assert_eq!(decay_elo(ELO_BASELINE), ELO_BASELINE);
    assert_eq!(decay_elo(i32::MAX), 1932735402);
}

#[test]
fn season_names_with_leading_zeros_and_overflowing_numbers() {
    assert_eq!(next_season_name("Season 007"), "Season 8");
    assert_eq!(next_season_name("Season 99"), "Season 100");
    assert_eq!(next_season_name("2024"), "2025");
    assert_eq!(next_season_name(""), " 2");
    assert_eq!(next_season_name("Big 99999999999"), "Big 99999999999 2");
    assert_eq!(next_season_name("Max 4294967294"), "Max 4294967295");
}

#[test]
fn closed_season_cannot_be_closed_again() {
    assert!(ensure_season_open("active").is_ok());
    match ensure_season_open("closed") {
        Err(ApiError::Conflict(m)) => assert_eq!(m, "Season is already closed"),
        other => panic!("expected a conflict, got {other:?}"),
    }
}

#[test]
fn close_plan_snapshots_decays_and_names() {
    let top = vec![(1u128, 1, 2400, 10, 7), (2u128, 2, 2000, 3, 5)];
    let ratings = vec![(1u128, 2400), (2u128, 600), (3u128, 1200)];
    let plan = plan_season_close("Season 3", &top, &ratings);
    assert_eq!(
        plan.snapshots,
        vec![
            SnapshotRow { user_id: 1, rank: 1, elo_rating: 2400, matches_played: 10, wins: 7, losses: 3 },
            SnapshotRow { user_id: 2, rank: 2, elo_rating: 2000, matches_played: 3, wins: 5, losses: 0 },
        ]
    );
    assert_eq!(plan.decayed_ratings, vec![(1, 2280), (2, 800), (3, 1200)]);
    assert_eq!(plan.next_season_name, "Season 4");
    assert_eq!(plan.players_snapshotted, 2);
    assert_eq!(plan.players_decayed, 3);
}

#[test]
fn rank_change_is_previous_minus_current() {
    assert_eq!(rank_change(Some(10), 4), Some(6));
    assert_eq!(rank_change(Some(2), 5), Some(-3));
    assert_eq!(rank_change(None, 5), None);
}

#[test]
fn player_rows_default_to_baseline() {
    let none = player_row_stats(None);
    assert_eq!((none.elo_rating, none.matches_played, none.wins, none.losses), (1200, 0, 0, 0));
    let unrated = player_row_stats(Some((None, 4, 3, 1)));
    assert_eq!((unrated.elo_rating, unrated.matches_played, unrated.wins, unrated.losses), (1200, 4, 3, 1));
    let rated = player_row_stats(Some((Some(1500), 4, 3, 1)));
    assert_eq!(rated.elo_rating, 1500);
}

#[test]
fn close_request_defaults_to_top_hundred() {
    assert_eq!(CloseSeasonRequest { top_n: None }.top_n_or_default(), 100);
    assert_eq!(CloseSeasonRequest { top_n: Some(5) }.top_n_or_default(), 5);
}

#[test]
fn match_status_names() {
    assert_eq!(MatchStatus::from_str("in_progress"), Ok(MatchStatus::InProgress));
    assert_eq!(MatchStatus::from_str("conflict"), Ok(MatchStatus::Conflict));
    assert_eq!(MatchStatus::from_str("abandoned"), Ok(MatchStatus::Abandoned));
    assert_eq!(MatchStatus::from_str("garbage"), Ok(MatchStatus::Pending));
    assert_eq!(MatchStatus::parse_or_pending("cancelled"), MatchStatus::Cancelled);
}

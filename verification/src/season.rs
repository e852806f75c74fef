//! Leaderboard and season rules: the rating soft-reset applied when a season
//! closes, the name of the next season, the snapshot rows kept of the closed
//! season, and the values a player's leaderboard row is computed from.
use vstd::prelude::*;
use crate::error::ApiError;
use crate::text::{chars_eq_str, chars_of, decimal, digits_value, is_ascii_digit, owned, push_decimal, string_from_chars};

verus! {

/// Rating that decay pulls every player toward.
pub const ELO_BASELINE: i32 = 1200;

/// Lowest rating decay can leave a player at.
pub const ELO_MINIMUM: i32 = 800;

/// `n / 10` rounded to the nearest integer, halves away from zero.
pub open spec fn div10_round_half_away(n: int) -> int {
    if n >= 0 {
        (n + 5) / 10
    } else {
        -((-n + 5) / 10)
    }
}

/// `current - (current - 1200) * 0.10`, rounded half away from zero, at least 800.
/// (`(9 * current + 1200) / 10` is that value exactly.)
pub open spec fn decay_spec(current: i32) -> int {
    let r = div10_round_half_away(9 * current + 1200);
    if r < ELO_MINIMUM {
        ELO_MINIMUM as int
    } else {
        r
    }
}

/// Soft-resets a rating 10% toward 1200, floored at 800.
pub fn decay_elo(current_rating: i32) -> (r: i32)
    ensures
        r == decay_spec(current_rating),
{
    let n: i64 = 9 * (current_rating as i64) + 1200;
    let r: i64 = if n >= 0 {
        ((n as u64 + 5) / 10) as i64
    } else {
        -((((-n) as u64 + 5) / 10) as i64)
    };
    if r < 800 {
        800
    } else {
        r as i32
    }
}

// ─── Season names ───────────────────────────────────────────────────────────

/// Number of ASCII digits at the end of `s`.
pub open spec fn trailing_digit_count(s: Seq<char>) -> nat
    decreases s.len(),
{
    if s.len() > 0 && is_ascii_digit(s.last()) {
        1 + trailing_digit_count(s.drop_last())
    } else {
        0
    }
}

/// The digits `s` ends with.
pub open spec fn trailing_digits(s: Seq<char>) -> Seq<char> {
    s.skip(s.len() - trailing_digit_count(s))
}

/// The trailing number of `s` parses as a `u32`.
pub open spec fn has_season_number(s: Seq<char>) -> bool {
    trailing_digit_count(s) > 0 && digits_value(trailing_digits(s)) <= u32::MAX
}

/// `"Season 3"` → `"Season 4"`; a name without a trailing `u32` gets `" 2"` appended.
pub open spec fn next_season_name_spec(s: Seq<char>) -> Seq<char> {
    if has_season_number(s) {
        s.take(s.len() - trailing_digit_count(s)) + decimal(digits_value(trailing_digits(s)) + 1)
    } else {
        s + " 2"@
    }
}

proof fn lemma_trailing_digits(s: Seq<char>, j: int)
    requires
        0 <= j <= s.len(),
        forall|i: int| j <= i < s.len() ==> is_ascii_digit(#[trigger] s[i]),
        j == 0 || !is_ascii_digit(s[j - 1]),
    ensures
        trailing_digit_count(s) == s.len() - j,
    decreases s.len(),
{
    if s.len() > j {
        lemma_trailing_digits(s.drop_last(), j);
    } else if s.len() > 0 {
        assert(s.last() == s[j - 1]);
    }
}

proof fn lemma_digits_value_step(s: Seq<char>, i: int)
    requires
        0 <= i < s.len(),
    ensures
        digits_value(s.take(i + 1)) == digits_value(s.take(i)) * 10 + ((s[i] as u32) - 48) as nat,
{
    assert(s.take(i + 1).drop_last() =~= s.take(i));
}

proof fn lemma_digits_value_monotone(s: Seq<char>, i: int, j: int)
    requires
        0 <= i <= j <= s.len(),
        forall|k: int| 0 <= k < s.len() ==> is_ascii_digit(#[trigger] s[k]),
    ensures
        digits_value(s.take(i)) <= digits_value(s.take(j)),
    decreases j - i,
{
    if i < j {
        lemma_digits_value_monotone(s, i, j - 1);
        lemma_digits_value_step(s, j - 1);
    }
}

/// The name of the season after `current`.
pub fn next_season_name(current: &str) -> (r: String)
    requires
        !(has_season_number(current@) && digits_value(trailing_digits(current@)) == u32::MAX),
    ensures
        r@ == next_season_name_spec(current@),
{
    let v = chars_of(current);
    let n = v.len();
    let mut j = n;
    while j > 0 && '0' <= v[j - 1] && v[j - 1] <= '9'
        invariant
            j <= n == v@.len(),
            forall|i: int| j <= i < n ==> is_ascii_digit(#[trigger] v@[i]),
        decreases j,
    {
        j = j - 1;
    }
    proof {
        lemma_trailing_digits(v@, j as int);
    }
    let ghost digits = v@.skip(j as int);
    assert(digits == trailing_digits(current@));
    // Parse the digits as a u32, noting overflow.
    let mut value: u64 = 0;
    let mut overflow = false;
    let mut i = j;
    assert(digits.take(0) =~= Seq::<char>::empty());
    while i < n && !overflow
        invariant
            j <= i <= n == v@.len(),
            digits == v@.skip(j as int),
            forall|k: int| 0 <= k < digits.len() ==> is_ascii_digit(#[trigger] digits[k]),
            !overflow ==> value == digits_value(digits.take(i - j)) && value <= u32::MAX,
            overflow ==> digits_value(digits.take(i - j)) > u32::MAX,
        decreases n - i + (if overflow { 0int } else { 1int }),
    {
        proof {
            lemma_digits_value_step(digits, i - j);
        }
        let d = (v[i] as u32 - 48) as u64;
        value = value * 10 + d;
        if value > 4294967295 {
            overflow = true;
        }
        i = i + 1;
    }
    proof {
        lemma_digits_value_monotone(digits, i - j, digits.len() as int);
        assert(digits.take(digits.len() as int) =~= digits);
    }
    if j < n && !overflow {
        let mut r = string_from_chars(&v, 0, j);
        push_decimal(&mut r, value + 1);
        assert(v@.subrange(0, j as int) =~= current@.take(current@.len() - trailing_digit_count(current@)));
        r
    } else {
        let mut r = owned(current);
        r.append(" 2");
        r
    }
}

// ─── Closing a season ───────────────────────────────────────────────────────

/// The message for closing a season twice.
pub open spec fn already_closed_message() -> Seq<char> {
    "Season is already closed"@
}

/// A season can only be closed once.
pub fn ensure_season_open(status: &str) -> (r: Result<(), ApiError>)
    ensures
        r is Ok <==> status@ != "closed"@,
        r matches Err(e) ==> e matches ApiError::Conflict(m) && m@ == already_closed_message(),
{
    let v = chars_of(status);
    if chars_eq_str(&v, "closed") {
        return Err(ApiError::Conflict(owned("Season is already closed")));
    }
    Ok(())
}

/// A leaderboard row taken into the closing snapshot: user, ranking, rating,
/// matches played, wins.
pub type TopRow = (u128, i32, i32, i32, i32);

/// One player's stats as kept in the closed season's snapshot.
#[derive(Debug, Clone, Copy, PartialEq, Eq, Structural)]
pub struct SnapshotRow {
    pub user_id: u128,
    pub rank: i32,
    pub elo_rating: i32,
    pub matches_played: i32,
    pub wins: i32,
    pub losses: i32,
}

/// What closing a season writes.
#[derive(Debug)]
pub struct SeasonClosePlan {
    /// One snapshot row per top leaderboard row, in ranking order.
    pub snapshots: Vec<SnapshotRow>,
    /// Each rated player's decayed rating.
    pub decayed_ratings: Vec<(u128, i32)>,
    /// Name of the season that opens next.
    pub next_season_name: String,
    pub players_snapshotted: usize,
    pub players_decayed: usize,
}

/// Losses recorded for a snapshot: matches not won, never negative.
pub open spec fn snapshot_losses(matches_played: i32, wins: i32) -> int {
    if matches_played - wins < 0 {
        0
    } else {
        matches_played - wins
    }
}

/// The snapshot row kept for a top leaderboard row.
pub open spec fn snapshot_of(row: TopRow) -> SnapshotRow {
    SnapshotRow {
        user_id: row.0,
        rank: row.1,
        elo_rating: row.2,
        matches_played: row.3,
        wins: row.4,
        losses: snapshot_losses(row.3, row.4) as i32,
    }
}

/// Plans the close of a season named `season_name`: snapshot the top rows,
/// decay every rating, and name the next season.
pub fn plan_season_close(season_name: &str, top_rows: &Vec<TopRow>, ratings: &Vec<(u128, i32)>) -> (r:
    SeasonClosePlan)
    requires
        forall|i: int|
            0 <= i < top_rows@.len() ==> i32::MIN <= (#[trigger] top_rows@[i]).3 - top_rows@[i].4
                <= i32::MAX,
        !(has_season_number(season_name@) && digits_value(trailing_digits(season_name@))
            == u32::MAX),
    ensures
        r.snapshots@.len() == top_rows@.len(),
        forall|i: int| 0 <= i < top_rows@.len() ==> #[trigger] r.snapshots@[i] == snapshot_of(top_rows@[i]),
        r.decayed_ratings@.len() == ratings@.len(),
        forall|i: int|
            0 <= i < ratings@.len() ==> (#[trigger] r.decayed_ratings@[i]).0 == ratings@[i].0
                && r.decayed_ratings@[i].1 == decay_spec(ratings@[i].1),
        r.next_season_name@ == next_season_name_spec(season_name@),
        r.players_snapshotted == top_rows@.len(),
        r.players_decayed == ratings@.len(),
{
    let mut snapshots: Vec<SnapshotRow> = Vec::new();
    let mut i: usize = 0;
    while i < top_rows.len()
        invariant
            i <= top_rows@.len(),
            snapshots@.len() == i,
            forall|k: int|
                0 <= k < top_rows@.len() ==> i32::MIN <= (#[trigger] top_rows@[k]).3
                    - top_rows@[k].4 <= i32::MAX,
            forall|k: int| 0 <= k < i ==> #[trigger] snapshots@[k] == snapshot_of(top_rows@[k]),
        decreases top_rows.len() - i,
    {
        let (user_id, rank, elo_rating, matches_played, wins) = top_rows[i];
        let diff = matches_played - wins;
        let losses = if diff < 0 {
            0
        } else {
            diff
        };
        snapshots.push(SnapshotRow { user_id, rank, elo_rating, matches_played, wins, losses });
        i = i + 1;
    }
    let mut decayed_ratings: Vec<(u128, i32)> = Vec::new();
    let mut players_decayed: usize = 0;
    let mut k: usize = 0;
    while k < ratings.len()
        invariant
            k <= ratings@.len(),
            decayed_ratings@.len() == k,
            players_decayed == k,
            forall|j: int|
                0 <= j < k ==> (#[trigger] decayed_ratings@[j]).0 == ratings@[j].0
                    && decayed_ratings@[j].1 == decay_spec(ratings@[j].1),
        decreases ratings.len() - k,
    {
        let (user_id, current_rating) = ratings[k];
        decayed_ratings.push((user_id, decay_elo(current_rating)));
        players_decayed = players_decayed + 1;
        k = k + 1;
    }
    let players_snapshotted = top_rows.len();
    SeasonClosePlan {
        snapshots,
        decayed_ratings,
        next_season_name: next_season_name(season_name),
        players_snapshotted,
        players_decayed,
    }
}

// ─── Player rows ────────────────────────────────────────────────────────────

/// Rank movement since the previous (weekly) ranking: positive when the
/// player climbed.
pub fn rank_change(previous_rank: Option<i32>, current_rank: i32) -> (r: Option<i32>)
    requires
        previous_rank matches Some(p) ==> i32::MIN <= p - current_rank <= i32::MAX,
    ensures
        match previous_rank {
            Some(p) => r == Some((p - current_rank) as i32),
            None => r is None,
        },
{
    match previous_rank {
        Some(p) => Some(p - current_rank),
        None => None,
    }
}

/// The figures a player's leaderboard row is written with.
#[derive(Debug, Clone, Copy, PartialEq, Eq, Structural)]
pub struct PlayerRowStats {
    pub elo_rating: i32,
    pub matches_played: i32,
    pub wins: i32,
    pub losses: i32,
}

/// Row figures from the player's aggregated stats (rating, matches, wins,
/// losses): no stats counts as no matches, and no rating as 1200.
pub fn player_row_stats(stats: Option<(Option<i32>, i32, i32, i32)>) -> (r: PlayerRowStats)
    ensures
        match stats {
            Some((rating, m, w, l)) => r == PlayerRowStats {
                elo_rating: match rating {
                    Some(e) => e,
                    None => ELO_BASELINE,
                },
                matches_played: m,
                wins: w,
                losses: l,
            },
            None => r == PlayerRowStats {
                elo_rating: ELO_BASELINE,
                matches_played: 0,
                wins: 0,
                losses: 0,
            },
        },
{
    let (elo_rating_opt, matches_played, wins, losses) = match stats {
        Some(s) => s,
        None => (None, 0, 0, 0),
    };
    let elo_rating = match elo_rating_opt {
        Some(e) => e,
        None => 1200,
    };
    PlayerRowStats { elo_rating, matches_played, wins, losses }
}

} // verus!

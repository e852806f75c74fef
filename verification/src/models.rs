//! Match, matchmaking and leaderboard vocabulary shared by the services.
use vstd::prelude::*;
use crate::text::{chars_eq_str, chars_of};

verus! {

/// Kind of match.
#[derive(Debug, Clone, Copy, PartialEq, Eq, Structural)]
pub enum MatchType {
    Tournament,
    Casual,
    Ranked,
    Practice,
}

/// Lifecycle of a match.
#[derive(Debug, Clone, Copy, PartialEq, Eq, Structural)]
pub enum MatchStatus {
    Pending,
    Scheduled,
    InProgress,
    Completed,
    /// Both players submitted contradictory score reports; the match needs
    /// manual or oracle-based resolution before it can be finalized.
    Conflict,
    Disputed,
    Cancelled,
    Abandoned,
}

/// Lifecycle of a dispute.
#[derive(Debug, Clone, Copy, PartialEq, Eq, Structural)]
pub enum DisputeStatus {
    Pending,
    UnderReview,
    Resolved,
    Rejected,
}

/// State of a matchmaking queue entry.
#[derive(Debug, Clone, Copy, PartialEq, Eq, Structural)]
pub enum QueueStatus {
    Waiting,
    Matched,
    Expired,
    Cancelled,
}

/// Outcome of a match for one player.
#[derive(Debug, Clone, Copy, PartialEq, Eq, Structural)]
pub enum MatchResult {
    Win,
    Loss,
    Draw,
}

/// The status a stored status name denotes; unknown names read as `Pending`.
pub open spec fn match_status_spec(s: Seq<char>) -> MatchStatus {
    if s == "pending"@ {
        MatchStatus::Pending
    } else if s == "scheduled"@ {
        MatchStatus::Scheduled
    } else if s == "in_progress"@ {
        MatchStatus::InProgress
    } else if s == "completed"@ {
        MatchStatus::Completed
    } else if s == "conflict"@ {
        MatchStatus::Conflict
    } else if s == "disputed"@ {
        MatchStatus::Disputed
    } else if s == "cancelled"@ {
        MatchStatus::Cancelled
    } else if s == "abandoned"@ {
        MatchStatus::Abandoned
    } else {
        MatchStatus::Pending
    }
}

impl MatchStatus {
    /// Reads a stored (snake_case) status name; anything unknown is `Pending`.
    pub fn parse_or_pending(s: &str) -> (r: MatchStatus)
        ensures
            r == match_status_spec(s@),
    {
        let v = chars_of(s);
        if chars_eq_str(&v, "pending") {
            MatchStatus::Pending
        } else if chars_eq_str(&v, "scheduled") {
            MatchStatus::Scheduled
        } else if chars_eq_str(&v, "in_progress") {
            MatchStatus::InProgress
        } else if chars_eq_str(&v, "completed") {
            MatchStatus::Completed
        } else if chars_eq_str(&v, "conflict") {
            MatchStatus::Conflict
        } else if chars_eq_str(&v, "disputed") {
            MatchStatus::Disputed
        } else if chars_eq_str(&v, "cancelled") {
            MatchStatus::Cancelled
        } else if chars_eq_str(&v, "abandoned") {
            MatchStatus::Abandoned
        } else {
            MatchStatus::Pending
        }
    }
}

impl std::str::FromStr for MatchStatus {
    type Err = ();

    fn from_str(s: &str) -> (r: Result<Self, Self::Err>)
        ensures
            r == Ok::<MatchStatus, ()>(match_status_spec(s@)),
    {
        Ok(MatchStatus::parse_or_pending(s))
    }
}

/// Score report submitted by a player: their own score and what they claim
/// the opponent scored; comparing both players' reports detects conflicts.
#[derive(Debug)]
pub struct ReportScoreRequest {
    pub score: i32,
    pub opponent_score: i32,
    pub proof_url: Option<String>,
    pub telemetry_data: Option<String>,
}

/// A player's dispute of a match result.
#[derive(Debug)]
pub struct CreateDisputeRequest {
    pub reason: String,
    pub evidence_urls: Option<Vec<String>>,
}

/// A request to enter the matchmaking queue.
#[derive(Debug)]
pub struct JoinMatchmakingRequest {
    pub game: String,
    pub game_mode: String,
    /// In minutes.
    pub max_wait_time: Option<i32>,
}

/// A leaderboard category.
#[derive(Debug)]
pub struct LeaderboardCategory {
    pub id: String,
    pub name: String,
    pub description: String,
    pub icon: Option<String>,
}

/// A request to recompute a category's leaderboard.
#[derive(Debug)]
pub struct RefreshLeaderboardRequest {
    pub category: String,
}

/// A request to close a season.
#[derive(Debug, Clone, Copy, PartialEq, Eq, Structural)]
pub struct CloseSeasonRequest {
    /// How many top players to snapshot; 100 when omitted.
    pub top_n: Option<i64>,
}

impl CloseSeasonRequest {
    /// The number of top players to snapshot.
    pub fn top_n_or_default(&self) -> (r: i64)
        ensures
            r == match self.top_n {
                Some(n) => n,
                None => 100i64,
            },
    {
        match self.top_n {
            Some(n) => n,
            None => 100,
        }
    }
}

} // verus!

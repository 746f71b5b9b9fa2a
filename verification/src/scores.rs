//! High-score bookkeeping: the record stored per run and the rule deciding
//! whether a new score belongs on the top-ten list. Fetching and storing the
//! records is the host's concern; the qualification rule works on the
//! fetched list, ordered from the highest score down.

use vstd::prelude::*;

verus! {

/// One stored high score.
#[derive(Clone, Debug)]
pub struct HighScore {
    /// Storage row id, if the record has one.
    pub id: Option<i32>,
    /// Name the score was recorded under.
    pub player_name: String,
    /// The score itself.
    pub score: u32,
    /// The level the run ended on.
    pub level_reached: usize,
    /// Seconds since the epoch when the run ended.
    pub timestamp: String,
}

/// How many scores the top list keeps.
pub const TOP_SCORES_KEPT: usize = 10;

/// Whether a new score qualifies for the top list: a list short of ten
/// entries admits any score, a full list only one beating its lowest (last)
/// entry. `top_scores` is the fetched list, highest first.
pub fn is_high_score(top_scores: &Vec<HighScore>, score: u32) -> (r: bool)
    ensures
        r == (top_scores@.len() < TOP_SCORES_KEPT || score > top_scores@.last().score),
{
    if top_scores.len() < TOP_SCORES_KEPT {
        return true;
    }
    let last = &top_scores[top_scores.len() - 1];
    score > last.score
}

} // verus!

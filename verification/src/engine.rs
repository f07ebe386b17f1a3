//! The progression engine: the pure decision of whether a player's rank
//! advances, given the current rank code and the accumulated kill and
//! headshot counters. The engine advances at most one rank per
//! evaluation, never past the terminal rank, and treats a rank outside
//! the ladder as "no change".

use vstd::prelude::*;

use crate::rank::{
    headshots_needed, headshots_required, is_rank_code, kills_needed, kills_required, parse_rank,
    rank_code, rank_name, rank_position, RANK_COUNT, TERMINAL_RANK,
};

verus! {

/// The level-up decision: `Some(q)` means the rank advances to the rank
/// at ladder position `q`; `None` means no change. The rank advances
/// exactly when the current rank is a non-terminal ladder code and both
/// counters meet the thresholds of the next position.
pub open spec fn level_up_decision(rank: Seq<char>, kills: int, headshots: int) -> Option<int> {
    if is_rank_code(rank) {
        let p = rank_position(rank);
        if p + 1 < RANK_COUNT && kills >= kills_needed(p + 1) && headshots >= headshots_needed(
            p + 1,
        ) {
            Some(p + 1)
        } else {
            None
        }
    } else {
        None
    }
}

/// Evaluates a level-up: returns the code of the next rank when the
/// current rank and stats call for an advance, and `None` for "no
/// change" — at the terminal rank, below a threshold, or on a rank
/// outside the ladder.
pub fn evaluate_level_up(current_rank: &str, kills: i64, headshots: i64) -> (r: Option<String>)
    ensures
        r is Some <==> level_up_decision(current_rank@, kills as int, headshots as int) is Some,
        r is Some ==> r.unwrap()@ == rank_name(
            level_up_decision(current_rank@, kills as int, headshots as int).unwrap(),
        ),
{
    match parse_rank(current_rank) {
        None => None,
        Some(p) => {
            if p as usize + 1 < RANK_COUNT {
                let q = p + 1;
                let min_kills = kills_required(q as usize);
                let min_headshots = headshots_required(q as usize);
                if kills >= min_kills && headshots >= min_headshots {
                    Some(rank_code(q))
                } else {
                    None
                }
            } else {
                None
            }
        },
    }
}

/// From any non-terminal rank, stats that meet the next rank's threshold
/// exactly advance the rank by exactly one position.
pub proof fn lemma_exact_threshold_advances(s: Seq<char>, kills: int, headshots: int)
    requires
        is_rank_code(s),
        rank_position(s) < TERMINAL_RANK,
        kills == kills_needed(rank_position(s) + 1),
        headshots == headshots_needed(rank_position(s) + 1),
    ensures
        level_up_decision(s, kills, headshots) == Some(rank_position(s) + 1),
{
}

/// From any non-terminal rank, stats one unit below either component of
/// the next rank's threshold give no change.
pub proof fn lemma_one_below_threshold_no_change(s: Seq<char>, kills: int, headshots: int)
    requires
        is_rank_code(s),
        rank_position(s) < TERMINAL_RANK,
        kills == kills_needed(rank_position(s) + 1) - 1 || headshots == headshots_needed(
            rank_position(s) + 1,
        ) - 1,
    ensures
        level_up_decision(s, kills, headshots) is None,
{
}

/// At the terminal rank the decision is "no change", whatever the stats.
pub proof fn lemma_terminal_rank_no_change(s: Seq<char>, kills: int, headshots: int)
    requires
        is_rank_code(s),
        rank_position(s) == TERMINAL_RANK,
    ensures
        level_up_decision(s, kills, headshots) is None,
{
}

/// A single evaluation never advances more than one position: whenever
/// the decision is an advance, the target is exactly the successor of the
/// current rank's position, however far the stats exceed later
/// thresholds.
pub proof fn lemma_advance_is_one_step(s: Seq<char>, kills: int, headshots: int)
    ensures
        level_up_decision(s, kills, headshots) matches Some(q) ==> is_rank_code(s) && q
            == rank_position(s) + 1,
{
}

/// Two level-up evaluations in sequence from stats that qualify for
/// exactly one advance end exactly one position above the start: the
/// first evaluation advances, and a second evaluation at the new rank
/// with the same stats is "no change".
pub proof fn lemma_second_evaluation_no_change(p: int, kills: int, headshots: int)
    requires
        0 <= p < TERMINAL_RANK,
        kills >= kills_needed(p + 1),
        headshots >= headshots_needed(p + 1),
        p + 1 < TERMINAL_RANK ==> kills < kills_needed(p + 2) || headshots < headshots_needed(
            p + 2,
        ),
    ensures
        level_up_decision(rank_name(p), kills, headshots) == Some(p + 1),
        level_up_decision(rank_name(p + 1), kills, headshots) is None,
{
    crate::rank::lemma_rank_name_position(p);
    crate::rank::lemma_rank_name_position(p + 1);
}

} // verus!

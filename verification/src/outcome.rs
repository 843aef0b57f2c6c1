//! The result of a game and the score each side takes from it.

use vstd::prelude::*;
use crate::text::same_text;

verus! {

/// The result of one game between a white and a black player.
#[derive(Clone, Copy, Debug, PartialEq, Eq, Structural)]
pub enum MatchResult {
    WhiteWin,
    BlackWin,
    Draw,
}

impl MatchResult {
    /// The result that a score token stands for: `1-0`, `0-1` or `0.5-0.5`.
    /// No other text is a score token.
    pub open spec fn of_token(token: Seq<char>) -> Option<MatchResult> {
        if token == "1-0"@ {
            Some(MatchResult::WhiteWin)
        } else if token == "0-1"@ {
            Some(MatchResult::BlackWin)
        } else if token == "0.5-0.5"@ {
            Some(MatchResult::Draw)
        } else {
            None
        }
    }

    /// The scores of white and black, counted in half points.
    pub open spec fn spec_half_points(self) -> (u8, u8) {
        match self {
            MatchResult::WhiteWin => (2, 0),
            MatchResult::BlackWin => (0, 2),
            MatchResult::Draw => (1, 1),
        }
    }

    /// The same game seen with the colours exchanged.
    pub open spec fn mirrored(self) -> MatchResult {
        match self {
            MatchResult::WhiteWin => MatchResult::BlackWin,
            MatchResult::BlackWin => MatchResult::WhiteWin,
            MatchResult::Draw => MatchResult::Draw,
        }
    }

    /// Reads a score token.
    pub fn from_token(token: &str) -> (r: Option<MatchResult>)
        ensures
            r == MatchResult::of_token(token@),
    {
        if same_text(token, "1-0") {
            Some(MatchResult::WhiteWin)
        } else if same_text(token, "0-1") {
            Some(MatchResult::BlackWin)
        } else if same_text(token, "0.5-0.5") {
            Some(MatchResult::Draw)
        } else {
            None
        }
    }

    /// The scores of white and black, counted in half points: a win is two
    /// half points, a draw one each. Every game hands out exactly one point.
    #[verifier::when_used_as_spec(spec_half_points)]
    pub fn half_points(self) -> (r: (u8, u8))
        ensures
            r == self.spec_half_points(),
            r.0 + r.1 == 2,
    {
        match self {
            MatchResult::WhiteWin => (2, 0),
            MatchResult::BlackWin => (0, 2),
            MatchResult::Draw => (1, 1),
        }
    }
}

/// Exchanging the colours of a game exchanges the two scores, and doing it
/// twice gives the game back.
pub proof fn lemma_mirrored_scores(result: MatchResult)
    ensures
        result.mirrored().spec_half_points() == (
            result.spec_half_points().1,
            result.spec_half_points().0,
        ),
        result.mirrored().mirrored() == result,
{
}

} // verus!

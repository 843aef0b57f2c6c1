//! Carrying out one operation on a table.
//!
//! The library neither reads nor writes files and does no arithmetic on
//! ratings. [`run`] therefore takes the table as it was read and answers with
//! the next [`Step`] for the caller: show a text, store the table, or work out
//! the new ratings of a game and hand them to [`settle`].

use vstd::prelude::*;
use crate::config::{Config, Operation, OperationView};
use crate::failure::{Failure, Seat};
use crate::outcome::MatchResult;
use crate::rating::Rating;
use crate::standings::{column_tabs, in_standing_order, tab_stops};
use crate::table::{as_map, entered, ids_distinct, rows_of, RatingTable};

verus! {

/// How the program is used.
pub const USAGE: &'static str =
    "A simple Elo rating implementation.\n\nUSAGE:\n\tleelo [COMMAND] [ARGUMENTS]\n\nCOMMANDS:\n\thelp\n\t\t\tPrint help information\n\tnew <file>\n\t\t\tCreate new leelo table\n\tgame <white> <black> <score> <file>\n\t\t\tRecord results of a game and update ratings\n\tplayer <id> <file>\n\t\t\tCreate new player\n\tview <file>\n\t\t\tView players and ratings\n";

/// A game between two known players whose new ratings are still to be worked
/// out.
#[derive(Debug, PartialEq, Eq)]
pub struct PendingMatch {
    pub white_player_id: String,
    pub black_player_id: String,
    /// The rating of white before the game.
    pub white_rating: Rating,
    /// The rating of black before the game.
    pub black_rating: Rating,
    pub result: MatchResult,
}

/// What the caller has to do next.
#[derive(Debug, PartialEq, Eq)]
pub enum Step {
    /// Show [`USAGE`].
    ShowUsage,
    /// Store the table.
    Persist,
    /// Show the rows, each identifier followed by `tabs` tab stops and the
    /// rating.
    ShowStandings { rows: Vec<(String, Rating)>, tabs: usize },
    /// Work out the new ratings of the game, [`settle`] it, then store the
    /// table.
    Rate(PendingMatch),
}

impl Operation {
    /// Whether the operation works on the stored table, so that the table has
    /// to be read first.
    pub open spec fn spec_needs_table(&self) -> bool {
        self is AddPlayer || self is Update || self is View
    }

    /// Tells whether the stored table has to be read before the operation is
    /// run.
    #[verifier::when_used_as_spec(spec_needs_table)]
    pub fn needs_table(&self) -> (r: bool)
        ensures
            r == self.spec_needs_table(),
    {
        match self {
            Operation::Help => false,
            Operation::New => false,
            Operation::AddPlayer(_) => true,
            Operation::Update { .. } => true,
            Operation::View => true,
        }
    }
}

/// Carries out the operation of `config` on `table` as far as that can be
/// done without a file and without arithmetic, and tells what is left to do.
///
/// An operation that fails leaves the table as it was, and the caller stores
/// nothing.
pub fn run(config: Config, table: &mut RatingTable) -> (r: Result<Step, Failure>)
    requires
        old(table).wf(),
    ensures
        final(table).wf(),
        r is Err ==> *final(table) == *old(table),
        match config.operation@ {
            OperationView::Help => r == Ok::<Step, Failure>(Step::ShowUsage) && *final(table) == *old(
                table,
            ),
            OperationView::New => {
                &&& r == Ok::<Step, Failure>(Step::Persist)
                &&& final(table)@ == Map::<Seq<char>, Rating>::empty()
                &&& final(table).rows() == Seq::<(Seq<char>, Rating)>::empty()
            },
            OperationView::AddPlayer(id) => if old(table)@.contains_key(id) {
                r == Err::<Step, Failure>(Failure::DuplicateIdentifier)
            } else {
                &&& r == Ok::<Step, Failure>(Step::Persist)
                &&& final(table)@ == old(table)@.insert(id, Rating::initial())
                &&& final(table).rows() == old(table).rows().push((id, Rating::initial()))
            },
            OperationView::Update { white_player_id, black_player_id, result } => {
                &&& *final(table) == *old(table)
                &&& if !old(table)@.contains_key(white_player_id) {
                    r == Err::<Step, Failure>(Failure::UnknownIdentifier(Some(Seat::White)))
                } else if !old(table)@.contains_key(black_player_id) {
                    r == Err::<Step, Failure>(Failure::UnknownIdentifier(Some(Seat::Black)))
                } else {
                    match r {
                        Ok(Step::Rate(pending)) => {
                            &&& pending.white_player_id@ == white_player_id
                            &&& pending.black_player_id@ == black_player_id
                            &&& pending.white_rating == old(table)@[white_player_id]
                            &&& pending.black_rating == old(table)@[black_player_id]
                            &&& pending.result == result
                        },
                        _ => false,
                    }
                }
            },
            OperationView::View => {
                &&& *final(table) == *old(table)
                &&& match r {
                    Ok(Step::ShowStandings { rows, tabs }) => {
                        &&& ids_distinct(rows_of(rows@))
                        &&& as_map(rows_of(rows@)) == old(table)@
                        &&& in_standing_order(rows_of(rows@))
                        &&& tabs == tab_stops(rows_of(rows@))
                    },
                    _ => false,
                }
            },
        },
{
    match config.operation {
        Operation::Help => Ok(Step::ShowUsage),
        Operation::New => {
            *table = RatingTable::new();
            Ok(Step::Persist)
        },
        Operation::AddPlayer(player_id) => {
            match table.create_player(player_id) {
                Ok(()) => Ok(Step::Persist),
                Err(e) => Err(e),
            }
        },
        Operation::Update { white_player_id, black_player_id, result } => {
            let white_rating = match table.get_rating(white_player_id.as_str()) {
                Ok(rating) => rating,
                Err(_) => {
                    return Err(Failure::UnknownIdentifier(Some(Seat::White)));
                },
            };
            let black_rating = match table.get_rating(black_player_id.as_str()) {
                Ok(rating) => rating,
                Err(_) => {
                    return Err(Failure::UnknownIdentifier(Some(Seat::Black)));
                },
            };
            Ok(
                Step::Rate(
                    PendingMatch {
                        white_player_id,
                        black_player_id,
                        white_rating,
                        black_rating,
                        result,
                    },
                ),
            )
        },
        Operation::View => {
            let rows = table.standings();
            let tabs = column_tabs(&rows);
            Ok(Step::ShowStandings { rows, tabs })
        },
    }
}

/// Enters the new ratings of a game: first white's, then black's. Where one
/// player sat on both sides, black's new rating is the one that stays.
pub fn settle(pending: PendingMatch, new_white: Rating, new_black: Rating, table: &mut RatingTable)
    requires
        old(table).wf(),
    ensures
        final(table).wf(),
        final(table)@ == old(table)@.insert(pending.white_player_id@, new_white).insert(
            pending.black_player_id@,
            new_black,
        ),
        final(table).rows() == entered(
            entered(old(table).rows(), pending.white_player_id@, new_white),
            pending.black_player_id@,
            new_black,
        ),
{
    table.set_rating(pending.white_player_id, new_white);
    table.set_rating(pending.black_player_id, new_black);
}

} // verus!

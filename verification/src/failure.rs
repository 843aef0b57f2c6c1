//! The ways in which an operation can fail.

use vstd::prelude::*;

verus! {

/// The side of the board a player sits on.
#[derive(Clone, Copy, Debug, PartialEq, Eq, Structural)]
pub enum Seat {
    White,
    Black,
}

/// Why an operation was not carried out. Every failure ends the invocation;
/// nothing is retried and nothing is stored.
#[derive(Clone, Copy, Debug, PartialEq, Eq)]
pub enum Failure {
    /// No command was given.
    NotEnoughArguments,
    /// The command is known but some of its arguments are missing.
    MissingCommandArguments,
    /// The command is not one of the five known ones.
    UnknownCommand,
    /// The score is none of `1-0`, `0-1`, `0.5-0.5`.
    InvalidOutcomeToken,
    /// The identifier of the new player is already in the table.
    DuplicateIdentifier,
    /// The identifier is not in the table. For a game the seat tells which of
    /// the two players is missing.
    UnknownIdentifier(Option<Seat>),
    /// The stored table is not a list of identifier and rating.
    MalformedRecord,
    /// The stored table cannot be opened. The caller that opens it reports
    /// this.
    SourceUnavailable,
    /// The table cannot be written out.
    DestinationUnwritable,
}

impl Failure {
    /// The text shown to the user for this failure.
    pub fn message(&self) -> (text: &'static str)
        ensures
            text@ == self.spec_message(),
    {
        match self {
            Failure::NotEnoughArguments => "not enough arguments. Try leelo help.",
            Failure::MissingCommandArguments => "not enough arguments for this command.",
            Failure::UnknownCommand => "unknown command. Try leelo help.",
            Failure::InvalidOutcomeToken => "unable to interpret score argument.",
            Failure::DuplicateIdentifier => "player_id already in use.",
            Failure::UnknownIdentifier(Some(Seat::White)) => "white player not found.",
            Failure::UnknownIdentifier(Some(Seat::Black)) => "black player not found.",
            Failure::UnknownIdentifier(None) => "player not found.",
            Failure::MalformedRecord => "malformed record in table.",
            Failure::SourceUnavailable => "unable to read table.",
            Failure::DestinationUnwritable => "unable to write table.",
        }
    }

    /// The text shown to the user for this failure.
    pub open spec fn spec_message(&self) -> Seq<char> {
        match self {
            Failure::NotEnoughArguments => "not enough arguments. Try leelo help."@,
            Failure::MissingCommandArguments => "not enough arguments for this command."@,
            Failure::UnknownCommand => "unknown command. Try leelo help."@,
            Failure::InvalidOutcomeToken => "unable to interpret score argument."@,
            Failure::DuplicateIdentifier => "player_id already in use."@,
            Failure::UnknownIdentifier(Some(Seat::White)) => "white player not found."@,
            Failure::UnknownIdentifier(Some(Seat::Black)) => "black player not found."@,
            Failure::UnknownIdentifier(None) => "player not found."@,
            Failure::MalformedRecord => "malformed record in table."@,
            Failure::SourceUnavailable => "unable to read table."@,
            Failure::DestinationUnwritable => "unable to write table."@,
        }
    }
}

} // verus!

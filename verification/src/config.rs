//! The command line: which operation is asked for, and on which file.

use vstd::prelude::*;
use crate::failure::Failure;
use crate::outcome::MatchResult;
use crate::text::same_text;

verus! {

/// The five commands. Each has a long and a one-letter name.
#[derive(Clone, Copy, Debug, PartialEq, Eq, Structural)]
pub enum Command {
    Help,
    New,
    Player,
    Game,
    View,
}

impl Command {
    /// The command that a word names, if it names one.
    pub open spec fn of_word(word: Seq<char>) -> Option<Command> {
        if word == "help"@ || word == "h"@ {
            Some(Command::Help)
        } else if word == "new"@ || word == "n"@ {
            Some(Command::New)
        } else if word == "player"@ || word == "p"@ {
            Some(Command::Player)
        } else if word == "game"@ || word == "g"@ {
            Some(Command::Game)
        } else if word == "view"@ || word == "v"@ {
            Some(Command::View)
        } else {
            None
        }
    }

    /// The number of arguments that must be present for the command to be
    /// read, the program's own name and the command included.
    pub open spec fn arity(self) -> int {
        match self {
            Command::Help => 2,
            Command::New => 3,
            Command::Player => 4,
            Command::Game => 6,
            Command::View => 3,
        }
    }

    /// Reads the name of a command.
    pub fn from_word(word: &str) -> (r: Option<Command>)
        ensures
            r == Command::of_word(word@),
    {
        if same_text(word, "help") || same_text(word, "h") {
            Some(Command::Help)
        } else if same_text(word, "new") || same_text(word, "n") {
            Some(Command::New)
        } else if same_text(word, "player") || same_text(word, "p") {
            Some(Command::Player)
        } else if same_text(word, "game") || same_text(word, "g") {
            Some(Command::Game)
        } else if same_text(word, "view") || same_text(word, "v") {
            Some(Command::View)
        } else {
            None
        }
    }
}

/// One requested operation with the arguments it needs.
#[derive(Debug, PartialEq, Eq)]
pub enum Operation {
    /// Show how the program is used.
    Help,
    /// Start a new, empty table.
    New,
    /// Add the player with this identifier.
    AddPlayer(String),
    /// Record a game between two players.
    Update { white_player_id: String, black_player_id: String, result: MatchResult },
    /// List the players by rating.
    View,
}

/// An operation with its texts as sequences of characters.
pub enum OperationView {
    Help,
    New,
    AddPlayer(Seq<char>),
    Update { white_player_id: Seq<char>, black_player_id: Seq<char>, result: MatchResult },
    View,
}

impl View for Operation {
    type V = OperationView;

    open spec fn view(&self) -> OperationView {
        match self {
            Operation::Help => OperationView::Help,
            Operation::New => OperationView::New,
            Operation::AddPlayer(id) => OperationView::AddPlayer(id@),
            Operation::Update { white_player_id, black_player_id, result } => OperationView::Update {
                white_player_id: white_player_id@,
                black_player_id: black_player_id@,
                result: *result,
            },
            Operation::View => OperationView::View,
        }
    }
}

/// What one invocation is asked to do: the operation, and the file that holds
/// the table. Only `help` names no file.
#[derive(Debug, PartialEq, Eq)]
pub struct Config {
    pub filename: Option<String>,
    pub operation: Operation,
}

/// A configuration with its texts as sequences of characters.
pub struct ConfigView {
    pub filename: Option<Seq<char>>,
    pub operation: OperationView,
}

impl View for Config {
    type V = ConfigView;

    open spec fn view(&self) -> ConfigView {
        ConfigView {
            filename: match self.filename {
                Some(name) => Some(name@),
                None => None,
            },
            operation: self.operation@,
        }
    }
}

/// The arguments as texts.
pub open spec fn texts(args: Seq<String>) -> Seq<Seq<char>> {
    Seq::new(args.len(), |i: int| args[i]@)
}

/// The meaning of a command line. `args[0]` is the program's own name,
/// `args[1]` the command; what follows are the command's arguments, the file
/// last. Arguments beyond those that the command needs are ignored.
///
/// - `help`
/// - `new <file>`
/// - `player <id> <file>`
/// - `game <white> <black> <score> <file>`
/// - `view <file>`
pub open spec fn parse(args: Seq<Seq<char>>) -> Result<ConfigView, Failure> {
    if args.len() < 2 {
        Err(Failure::NotEnoughArguments)
    } else {
        match Command::of_word(args[1]) {
            None => Err(Failure::UnknownCommand),
            Some(command) => if args.len() < command.arity() {
                Err(Failure::MissingCommandArguments)
            } else {
                match command {
                    Command::Help => Ok(
                        ConfigView { filename: None, operation: OperationView::Help },
                    ),
                    Command::New => Ok(
                        ConfigView { filename: Some(args[2]), operation: OperationView::New },
                    ),
                    Command::Player => Ok(
                        ConfigView {
                            filename: Some(args[3]),
                            operation: OperationView::AddPlayer(args[2]),
                        },
                    ),
                    Command::Game => match MatchResult::of_token(args[4]) {
                        None => Err(Failure::InvalidOutcomeToken),
                        Some(result) => Ok(
                            ConfigView {
                                filename: Some(args[5]),
                                operation: OperationView::Update {
                                    white_player_id: args[2],
                                    black_player_id: args[3],
                                    result,
                                },
                            },
                        ),
                    },
                    Command::View => Ok(
                        ConfigView { filename: Some(args[2]), operation: OperationView::View },
                    ),
                }
            },
        }
    }
}

impl Config {
    /// Reads the command line.
    pub fn new(args: &[String]) -> (r: Result<Config, Failure>)
        ensures
            match r {
                Ok(config) => parse(texts(args@)) == Ok::<ConfigView, Failure>(config@),
                Err(e) => parse(texts(args@)) == Err::<ConfigView, Failure>(e),
            },
    {
        if args.len() < 2 {
            return Err(Failure::NotEnoughArguments);
        }
        let command = match Command::from_word(args[1].as_str()) {
            Some(command) => command,
            None => {
                return Err(Failure::UnknownCommand);
            },
        };
        match command {
            Command::Help => Ok(Config { filename: None, operation: Operation::Help }),
            Command::New => {
                if args.len() < 3 {
                    return Err(Failure::MissingCommandArguments);
                }
                Ok(Config { filename: Some(args[2].clone()), operation: Operation::New })
            },
            Command::Player => {
                if args.len() < 4 {
                    return Err(Failure::MissingCommandArguments);
                }
                Ok(
                    Config {
                        filename: Some(args[3].clone()),
                        operation: Operation::AddPlayer(args[2].clone()),
                    },
                )
            },
            Command::Game => {
                if args.len() < 6 {
                    return Err(Failure::MissingCommandArguments);
                }
                let result = match MatchResult::from_token(args[4].as_str()) {
                    Some(result) => result,
                    None => {
                        return Err(Failure::InvalidOutcomeToken);
                    },
                };
                Ok(
                    Config {
                        filename: Some(args[5].clone()),
                        operation: Operation::Update {
                            white_player_id: args[2].clone(),
                            black_player_id: args[3].clone(),
                            result,
                        },
                    },
                )
            },
            Command::View => {
                if args.len() < 3 {
                    return Err(Failure::MissingCommandArguments);
                }
                Ok(Config { filename: Some(args[2].clone()), operation: Operation::View })
            },
        }
    }
}

} // verus!

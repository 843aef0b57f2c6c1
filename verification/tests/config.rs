use leelo::config::{Command, Config, Operation};
use leelo::failure::Failure;
use leelo::outcome::MatchResult;

fn args(words: &[&str]) -> Vec<String> {
    words.iter().map(|w| w.to_string()).collect()
}

#[test]
fn no_command_is_not_enough() {
    assert_eq!(Config::new(&args(&[])), Err(Failure::NotEnoughArguments));
    assert_eq!(Config::new(&args(&["leelo"])), Err(Failure::NotEnoughArguments));
}

#[test]
fn unknown_command_is_refused() {
    assert_eq!(Config::new(&args(&["leelo", "delete", "t.csv"])), Err(Failure::UnknownCommand));
    assert_eq!(Config::new(&args(&["leelo", "", "t.csv"])), Err(Failure::UnknownCommand));
    assert_eq!(Config::new(&args(&["leelo", "Help"])), Err(Failure::UnknownCommand));
}

#[test]
fn help_needs_no_file() {
    for word in ["help", "h"] {
        let config = Config::new(&args(&["leelo", word])).unwrap();
        assert_eq!(config.filename, None);
        assert_eq!(config.operation, Operation::Help);
    }
    let config = Config::new(&args(&["leelo", "help", "extra"])).unwrap();
    assert_eq!(config, Config { filename: None, operation: Operation::Help });
}

#[test]
fn new_takes_the_file() {
    for word in ["new", "n"] {
        let config = Config::new(&args(&["leelo", word, "t.csv"])).unwrap();
        assert_eq!(config.filename, Some("t.csv".to_string()));
        assert_eq!(config.operation, Operation::New);
    }
    assert_eq!(Config::new(&args(&["leelo", "new"])), Err(Failure::MissingCommandArguments));
}

#[test]
fn player_takes_identifier_then_file() {
    for word in ["player", "p"] {
        let config = Config::new(&args(&["leelo", word, "Alice", "t.csv"])).unwrap();
        assert_eq!(config.filename, Some("t.csv".to_string()));
        assert_eq!(config.operation, Operation::AddPlayer("Alice".to_string()));
    }
    assert_eq!(
        Config::new(&args(&["leelo", "player", "Alice"])),
        Err(Failure::MissingCommandArguments)
    );
    assert_eq!(Config::new(&args(&["leelo", "p"])), Err(Failure::MissingCommandArguments));
}

#[test]
fn game_takes_players_score_and_file() {
    let scores = [
        ("1-0", MatchResult::WhiteWin),
        ("0-1", MatchResult::BlackWin),
        ("0.5-0.5", MatchResult::Draw),
    ];
    for word in ["game", "g"] {
        for (token, result) in scores {
            let config =
                Config::new(&args(&["leelo", word, "Alice", "Bob", token, "t.csv"])).unwrap();
            assert_eq!(config.filename, Some("t.csv".to_string()));
            assert_eq!(
                config.operation,
                Operation::Update {
                    white_player_id: "Alice".to_string(),
                    black_player_id: "Bob".to_string(),
                    result,
                }
            );
        }
    }
}

#[test]
fn game_with_too_few_arguments() {
    assert_eq!(
        Config::new(&args(&["leelo", "game", "Alice", "Bob", "1-0"])),
        Err(Failure::MissingCommandArguments)
    );
    // the count is looked at before the score
    assert_eq!(
        Config::new(&args(&["leelo", "game", "Alice", "Bob", "2-0"])),
        Err(Failure::MissingCommandArguments)
    );
}

#[test]
fn game_with_a_bad_score() {
    for token in ["2-0", "1-1", "", "0.5", "1/2-1/2", " 1-0", "1-0 "] {
        assert_eq!(
            Config::new(&args(&["leelo", "game", "Alice", "Bob", token, "t.csv"])),
            Err(Failure::InvalidOutcomeToken)
        );
    }
}

#[test]
fn view_takes_the_file() {
    for word in ["view", "v"] {
        let config = Config::new(&args(&["leelo", word, "t.csv"])).unwrap();
        assert_eq!(config, Config { filename: Some("t.csv".to_string()), operation: Operation::View });
    }
    assert_eq!(Config::new(&args(&["leelo", "view"])), Err(Failure::MissingCommandArguments));
}

#[test]
fn arguments_beyond_the_needed_ones_are_ignored() {
    let config = Config::new(&args(&["leelo", "view", "t.csv", "more", "and more"])).unwrap();
    assert_eq!(config, Config { filename: Some("t.csv".to_string()), operation: Operation::View });
}

#[test]
fn command_words() {
    assert_eq!(Command::from_word("help"), Some(Command::Help));
    assert_eq!(Command::from_word("n"), Some(Command::New));
    assert_eq!(Command::from_word("player"), Some(Command::Player));
    assert_eq!(Command::from_word("g"), Some(Command::Game));
    assert_eq!(Command::from_word("view"), Some(Command::View));
    assert_eq!(Command::from_word("views"), None);
    assert_eq!(Command::from_word("vie"), None);
}

#[test]
fn score_tokens() {
    assert_eq!(MatchResult::from_token("1-0"), Some(MatchResult::WhiteWin));
    assert_eq!(MatchResult::from_token("0-1"), Some(MatchResult::BlackWin));
    assert_eq!(MatchResult::from_token("0.5-0.5"), Some(MatchResult::Draw));
    assert_eq!(MatchResult::from_token("0.5-0,5"), None);
}

#[test]
fn every_failure_has_its_message() {
    assert_eq!(Failure::NotEnoughArguments.message(), "not enough arguments. Try leelo help.");
    assert_eq!(Failure::MissingCommandArguments.message(), "not enough arguments for this command.");
    assert_eq!(Failure::UnknownCommand.message(), "unknown command. Try leelo help.");
    assert_eq!(Failure::InvalidOutcomeToken.message(), "unable to interpret score argument.");
    assert_eq!(Failure::DuplicateIdentifier.message(), "player_id already in use.");
}

//! A table of Elo ratings and the operations on it.
//!
//! The library holds the rules: how a command line is read ([`config`]), what
//! each operation does to the table ([`dispatch`], [`table`]), in which order
//! the players are listed ([`standings`]) and what the stored table looks
//! like ([`persist`]). It opens no file and does no arithmetic on ratings: a
//! rating is carried as the bit pattern of a binary64 number ([`rating`]), and
//! the caller works out the new ratings of a game.

pub mod config;
pub mod csv_codec;
pub mod dispatch;
pub mod failure;
pub mod outcome;
pub mod persist;
pub mod rating;
pub mod standings;
pub mod table;
pub mod text;

pub use config::Config;
pub use dispatch::run;

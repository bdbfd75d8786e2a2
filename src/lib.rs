//! Account linking for a game-statistics chat bot: a chat identity proves that it
//! controls an external game account by publishing a one-time token on that
//! account's public feed, after which the two are linked for good.
pub mod table;
pub mod models;
pub mod store;
pub mod token;
pub mod evidence;
pub mod clock;
pub mod flow;
pub mod commands;
pub mod args;

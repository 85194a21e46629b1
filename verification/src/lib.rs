//! A reminder bot's logic: it reads commands from chat messages, keeps a list
//! of phrases per user, and sends them one at random at scheduled hours.
pub mod text;
pub mod number;
pub mod command;
pub mod schedule;
pub mod phrase;
pub mod plan;
pub mod reply;
pub mod model;

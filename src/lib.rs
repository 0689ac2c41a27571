//! Core of a chat bot: a typed module registry built in dependency order,
//! a command table, an ordered chain of completion resolvers, and the
//! dispatcher rules that turn a command's outcome into exactly one reply.
//! Around them stand the typed inputs of the bot's own commands and the
//! decisions behind its albums-of-the-year chart.
pub mod aoty;
pub mod builder;
pub mod command;
pub mod commands;
pub mod completion;
pub mod dispatch;
pub mod graph;
pub mod numbers;
pub mod options;
pub mod polls;
pub mod registry;
pub mod text;

//! Contribution tracking: a record, per source repository, of the
//! contributions made to it, the commits that back them, and the
//! documents rendered from both.
//!
//! The store is a value in memory (`database`) whose every operation is
//! stated over a mathematical model of its tables (`state`) and proved
//! against it; what holds of the store whatever it holds is proved in
//! `laws` and `document_laws`. A program around this library reads the
//! rows of the store from where they are kept, hands them to
//! `Database::open`, runs a command (`commands`), prints the text that the
//! command returns, and keeps the rows again.
//!
//! - `model`, `config`, `table`: the records and the configuration.
//! - `state`, `order`, `ranking`: the tables as sequences, and the order
//!   of their listings.
//! - `database`, `seed`: the store and what it holds from its first
//!   opening.
//! - `git`, `reconcile`: from a walk over a history to commits, and from
//!   commits to the contributions that they belong to.
//! - `markdown`, `report`: the document and the texts of the commands.
//! - `options`, `cli`: the command line.
//! - `codec`, `utils`, `text`, `error`: columns of lists, paths, text
//!   primitives, and failures.

pub mod cli;
pub mod codec;
pub mod commands;
pub mod config;
pub mod database;
pub mod document_laws;
pub mod error;
pub mod git;
pub mod laws;
pub mod markdown;
pub mod model;
pub mod options;
pub mod order;
pub mod ranking;
pub mod reconcile;
pub mod report;
pub mod seed;
pub mod state;
pub mod table;
pub mod text;
pub mod utils;

//! Live combat coaching: the decisions of a coach that follows a combat
//! log, with machine-checked contracts.
//!
//! * `tailer` and `config` choose the log to follow and cut what was read
//!   into lines; `parser` turns a line into a typed event.
//! * `state` holds the combat model; `engine` moves it on with each event;
//!   `rules` propose advice; `coach` is one session: state, settings,
//!   cooldowns of advice, and what goes to the store.
//! * `ipc` keeps what consumers read; `db` names the store commands;
//!   `queues` lists the queues between the tasks.
//! * `identity`, `specs`, `update` and `hotkey` read the texts around the
//!   coach: the plugin's file, spell profiles, the release manifest, key
//!   combinations.
//! * `theorems` and `wire` state what holds of all of it over every input.
//!
//! The library decides and computes; it reads no file and waits on no
//! queue. `text` holds the character-level helpers.

pub mod coach;
pub mod config;
pub mod db;
pub mod engine;
pub mod hotkey;
pub mod identity;
pub mod ipc;
pub mod parser;
pub mod queues;
pub mod rules;
pub mod specs;
pub mod state;
pub mod tailer;
pub mod text;
pub mod theorems;
pub mod update;
pub mod wire;

//! The shell of an interactive ledger client: how the operator's secret is
//! asked for, how the trust anchor is resolved, how the session is brought up,
//! and how a typed line is turned into a command invocation.
//!
//! Everything here is a decision over plain values. Reading the terminal,
//! fetching over the network and running a command are left to the caller,
//! which performs what this library tells it to and hands back what happened.
//!
//! - `secret`: how the secret phrase is read, and what its presence unlocks.
//! - `waypoint`: the resolution of the trust anchor.
//! - `bootstrap`: the stages of the start of a session.
//! - `registry`: the commands of a session and their aliases.
//! - `dispatch`: the interactive loop.
//! - `report`: how failures are shown.
//! - `text`: white space, words and numbers in text.
//! - `trusted`: the calls into other crates, which are believed, not proved.

pub mod bootstrap;
pub mod dispatch;
pub mod registry;
pub mod report;
pub mod secret;
pub mod text;
pub mod trusted;
pub mod waypoint;

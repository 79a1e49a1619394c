//! The core of a controller that downloads media with an external
//! extraction tool: the decisions, verified; the outside work is left to
//! the caller.
//!
//! The caller spawns processes, reads streams, and speaks to the network
//! and the disk. What an outcome means, and what is done next, is decided
//! here:
//!
//! - [`manager`] is the job manager, a state machine over messages, and
//!   [`invariants`] holds what is true of it in every run;
//! - [`submit`] takes a request to download a URL, from the probe to the queue;
//! - [`command`], [`stream`] and [`worker`] serve the worker that supervises
//!   one run of the extraction tool;
//! - [`history`] keeps the set of URLs that were downloaded before;
//! - [`retry`], [`transport`], [`aria`] and [`install`] serve the download of
//!   the helper binaries, and [`deps`] and [`system`] say which binaries
//!   there are and what is known of them;
//! - [`json`], [`pattern`], [`weburl`] and [`ids`] are the doors to the
//!   outside crates, whose answers are taken on trust;
//! - [`models`] and [`config`] hold the data, [`text`] the work on characters.

pub mod aria;
pub mod command;
pub mod config;
pub mod deps;
pub mod history;
pub mod ids;
pub mod install;
pub mod invariants;
pub mod json;
pub mod logging;
pub mod manager;
pub mod models;
pub mod pattern;
pub mod retry;
pub mod stream;
pub mod submit;
pub mod system;
pub mod text;
pub mod transport;
pub mod weburl;
pub mod worker;

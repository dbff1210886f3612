//! The download-and-install engine of a game launcher.
//!
//! Given a manifest that names an archive and the version it holds, a
//! launcher fetches the archive over HTTP, resuming what an interrupted run
//! left behind, reports progress while it does, lets the user pause, resume
//! and cancel, and then unpacks the archive into the game's directory
//! without touching what the player saved there.
//!
//! This crate holds the decisions of that engine and proves what it states
//! of them. It opens no socket and no file: whoever drives it moves the
//! bytes, tells it what happened, and does what it answers.
//!
//! - [`rate`]: throughput and remaining time over a trailing window of
//!   samples;
//! - [`session`]: the state of one attempt, from the size probe to the end;
//! - [`http`]: the resume offset, the range to ask for, the total declared;
//! - [`paths`]: paths as components, and the sanitizing of stored names;
//! - [`install`]: what to do with each entry of the archive;
//! - [`discover`]: finding the game among the entries of a directory walk;
//! - [`config`]: where the launcher keeps its files and installs the game;
//! - [`text`]: the helpers on text that the others share.

pub mod config;
pub mod discover;
pub mod http;
pub mod install;
pub mod paths;
pub mod rate;
pub mod session;
pub mod text;

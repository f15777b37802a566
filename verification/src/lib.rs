//! Sharing the audio of applications during a screen share, on Linux with
//! PipeWire.
//!
//! The library decides; it runs no program, opens no connection and waits for
//! nothing. What is to be done is handed to the caller as a value, and the caller
//! hands back what came of it:
//!
//! - [`monitor`] tells the start and the end of screen shares from what `pw-dump`
//!   prints ([`frames`], [`json`], [`tracker`]).
//! - [`daemon`] is the background service around it.
//! - [`prompt`] asks the user which applications to share ([`dialog`]).
//! - [`route`] sets an audio route up, [`teardown`] takes it down again, and
//!   [`relink`] moves an application to it once more ([`pulse`], [`audio`]).
//! - [`portal`] waits for the desktop portal.
//! - [`cli`] reads the arguments of the program and writes its reports
//!   ([`clock`]).
//!
//! [`command`] holds what these tasks have in common; [`text`] and [`number`]
//! hold what is said of plain text.

pub mod audio;
pub mod cli;
pub mod clock;
pub mod command;
pub mod daemon;
pub mod dialog;
pub mod frames;
pub mod json;
pub mod monitor;
pub mod number;
pub mod portal;
pub mod prompt;
pub mod pulse;
pub mod relink;
pub mod route;
pub mod teardown;
pub mod text;
pub mod tracker;

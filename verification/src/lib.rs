//! Event scheduling and multiplexing for a status bar.
//!
//! Two kinds of sources feed the bar: timers, which run a shell command once
//! per period, and named pipes, which deliver one record per line. Every
//! source has a key; an update is a key with a text, and updates travel in
//! batches. One merge loop applies the batches to the render state, which
//! holds the latest text of every source, and has the state rendered once
//! for each batch.
//!
//! This library holds the decisions: which timer fires next and when it is
//! due again ([`schedule`], [`heap`], [`timer`]), which records a wake cycle
//! of the pipes completes ([`poll`], [`fifo`], [`mkfifo`], [`text`]), what
//! the render state is after a batch and what the renderer is given
//! ([`render`], [`merge`], [`format`]), and what a configuration document
//! amounts to ([`config`], [`value`], [`error`]). Sleeping, running
//! commands, reading pipes and writing the bar are left to the program that
//! uses it: each step takes what the program has observed and tells what to
//! do next.

pub mod config;
pub mod error;
pub mod fifo;
pub mod format;
pub mod heap;
pub mod merge;
pub mod mkfifo;
pub mod poll;
pub mod privilege;
pub mod render;
pub mod schedule;
pub mod text;
pub mod timer;
pub mod value;

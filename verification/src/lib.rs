//! Decision core of a mount-level filesystem access monitor.
//!
//! The monitor marks every eligible mount of the live mount table with a
//! kernel event subscription and prints one line per file event: the name
//! and id of the process, a short code for what happened, and the path of
//! the file.
//!
//! This crate holds everything the monitor computes: which mounts of the
//! table are watched, in which steps they are marked, how a kernel event
//! mask is turned into its code, where process and file identities are
//! looked up and what stands in for them when a lookup fails, how an output
//! line is laid out, and what the thread that drains the kernel queue does
//! next. Reading files, talking to the kernel, sleeping and moving events
//! between threads is left to the program around it, which hands in what it
//! read and is told what to do.

/// The event codec: from an event mask to its symbolic code.
pub mod codec;
/// Events, their decoded form and their output line.
pub mod event;
/// The mount enumerator.
pub mod mounts;
/// The state machine of the producer thread.
pub mod producer;
/// The identity resolvers for processes and descriptors.
pub mod resolve;
/// Fields, lines, trimming, decimal numbers and padding.
pub mod text;
/// Subscription settings, marking and start-up decisions.
pub mod watch;

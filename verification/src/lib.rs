//! Verified core of a local launcher/manager for third-party programs.
//!
//! The library holds the program registry, the incremental prefix search,
//! the navigation state machine, the status channel, and the dispatch loop
//! that correlates asynchronous script completions back to the program they
//! were started for.  Everything that touches the outside world (reading the
//! catalog file, spawning scripts, opening URLs and folders) is returned to
//! the caller as an [`state::Effect`] value and performed by an unverified
//! driver around the library.

pub mod catalog;
pub mod program;
pub mod registry;
pub mod search;
pub mod state;
pub mod strings;
pub mod views;

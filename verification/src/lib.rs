//! Decision core of a batch dispatcher that sends speech recordings to a
//! pool of remote voice-activity-detection services.
//!
//! The crate holds every rule of the dispatcher and performs no input or
//! output itself: callers read files, probe the output tree and talk to the
//! network, and hand what they found to the functions here.

pub mod format;
pub mod paths;
pub mod pipeline;
pub mod run;
pub mod selector;
pub mod tally;
pub mod walk;

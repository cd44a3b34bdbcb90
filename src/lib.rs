//! Interactive terminal sessions: a registry of live sessions keyed by a
//! random identity, the input path into each session, and the output pump
//! that turns what a terminal produces into named events.
pub mod identity;
pub mod launch;
pub mod pump;
pub mod registry;

pub use launch::{launch_command, terminal_size, LaunchCommand, TerminalSize};
pub use pump::{event_name, OutputPump, PumpAction, ReadOutcome};
pub use registry::{InputSink, SessionError, SessionRegistry};

//! Log filtering and rendering for a server framework: the verbosity levels, the
//! policy that decides which events are shown, the layout of each shown event and
//! the state of the process-wide sink.

pub mod level;
pub mod text;
pub mod filter;
pub mod render;
pub mod logger;

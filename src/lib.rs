//! Trace recording core: record framing for the text and JSON formats,
//! destination naming, the sink registry and the dispatcher that routes
//! records to it. Everything here is pure computation; the bytes it
//! produces are handed to the caller, which owns files and streams.

pub mod args;
pub mod text;
pub mod writers;
pub mod state;
pub mod laws;

//! Verified core of a desktop media utility's transfer layer: a chunked
//! resource streamer that ends every transfer with an empty sentinel message,
//! a subprocess event bridge that turns child-process output into typed log
//! entries, the error surface both share, and the window-geometry helper used
//! at startup.

pub mod bridge;
pub mod errs;
pub mod states;
pub mod stream;
pub mod window;

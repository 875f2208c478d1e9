//! Verified core of the `eddy` async runtime and its consoles.

pub mod attrs;
pub mod blocking;
pub mod blocking_laws;
pub mod cancellation;
pub mod cancellation_laws;
pub mod console;
pub mod coop;
pub mod future;
pub mod instrument;
pub mod io;
pub mod poll;
pub mod runtime;
pub mod runtime_laws;
pub mod scheduler;
pub mod stream;
pub mod text;
pub mod text_laws;
pub mod web;
pub mod wire;

//! The console: decoding the event stream, projecting it, and laying it out.

pub mod apply;
pub mod calls;
pub mod decode;
pub mod event;
pub mod laws;
pub mod meaning;
pub mod model;
pub mod options;
pub mod reader;
pub mod screen;
pub mod select;
pub mod showing;
pub mod tab;
pub mod tables;

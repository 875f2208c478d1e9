//! The schedulers' queues and decisions.

pub mod calls;
pub mod conserve;
pub mod current_thread;
pub mod frames;
pub mod inject;
pub mod laws;
pub mod queue;
pub mod worker;

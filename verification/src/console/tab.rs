//! The tabs of the console.

use vstd::prelude::*;

verus! {

/// The tab that is shown.
#[derive(Clone, Copy, Debug, PartialEq, Eq, Structural)]
pub enum View {
    Tasks,
    Workers,
    Resources,
    AsyncOps,
}

} // verus!

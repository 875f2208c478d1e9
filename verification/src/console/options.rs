//! What the console reads from and records to.

use vstd::prelude::*;

verus! {

/// Input and optional raw-stream recording configuration for the console, over
/// the type of paths.
#[derive(Clone, Debug)]
pub struct ConsoleOptions<P> {
    pub socket: P,
    pub record: Option<P>,
    pub replay: Option<P>,
}

/// Where the event stream comes from.
#[derive(Debug)]
pub enum Input<'a, P> {
    Socket(&'a P),
    Replay(&'a P),
}

impl<P> ConsoleOptions<P> {
    /// Where the events come from. A replayed stream cannot be recorded again.
    pub fn input(&self) -> (result: Result<Input<'_, P>, &'static str>)
        ensures
            match (self.replay, self.record) {
                (Some(_), Some(_)) => result == Err::<Input<'_, P>, &'static str>(
                    "--record cannot be used with --replay",
                ),
                (Some(path), None) => result == Ok::<Input<'_, P>, &'static str>(
                    Input::Replay(&path),
                ),
                (None, _) => result == Ok::<Input<'_, P>, &'static str>(
                    Input::Socket(&self.socket),
                ),
            },
    {
        match &self.replay {
            Some(path) => {
                if self.record.is_some() {
                    Err("--record cannot be used with --replay")
                } else {
                    Ok(Input::Replay(path))
                }
            },
            None => Ok(Input::Socket(&self.socket)),
        }
    }
}

} // verus!

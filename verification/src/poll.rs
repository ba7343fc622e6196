//! The main loop of the meter: what follows each poll and how long it
//! waits before the next.
use vstd::prelude::*;

verus! {

/// Time between two polls, in milliseconds: one minute.
pub const POLL_MS: u32 = 60_000;

/// The status line shown while joining the network.
pub const CONNECTING_MESSAGE: &'static str = "Connecting WiFi...";

/// The status line shown while a poll is under way.
pub const FETCHING_MESSAGE: &'static str = "Fetching...";

/// The screen that follows a poll, with what it shows.
#[derive(Debug)]
pub enum AfterPoll<T, E> {
    /// The poll answered: show the usage screen of its reading.
    Usage(T),
    /// The poll failed: show the error screen with the error's text.
    Error(E),
}

/// What follows a poll that gave `result`, and how many milliseconds to wait
/// before the next poll.
pub fn after_poll<T, E>(result: Result<T, E>) -> (a: (AfterPoll<T, E>, u32))
    ensures
        match result {
            Ok(d) => a.0 == AfterPoll::<T, E>::Usage(d),
            Err(e) => a.0 == AfterPoll::<T, E>::Error(e),
        },
        a.1 == POLL_MS,
{
    match result {
        Ok(d) => (AfterPoll::Usage(d), POLL_MS),
        Err(e) => (AfterPoll::Error(e), POLL_MS),
    }
}

} // verus!

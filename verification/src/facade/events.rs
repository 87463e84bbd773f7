//! Receiving events.

use vstd::prelude::*;
use crate::kernel::event::BoardEvent;
use crate::kernel::text;

verus! {

/// Why an event could not be received.
#[derive(Debug, Clone, Copy, PartialEq, Eq, Structural)]
pub enum EventStreamError {
    /// The receiver was too slow, and this many events were skipped. The stream goes on.
    Lagged(u64),
}

impl EventStreamError {
    /// The text that is shown for the error.
    pub fn message(&self) -> (r: String)
        ensures
            r@ == "事件溢出,跳过 "@ + text::dec_text(self->Lagged_0 as nat) + " 条"@,
    {
        match self {
            EventStreamError::Lagged(n) => text::text_dec("事件溢出,跳过 ", *n, " 条"),
        }
    }
}

/// What the channel of events delivered.
pub enum Received {
    Event(BoardEvent),
    /// No more events will come.
    Closed,
    /// This many events were skipped.
    Lagged(u64),
}

/// What the user gets: an event, the end of the stream, or the number of events that were
/// skipped.
pub fn recv(received: Received) -> (r: Result<Option<BoardEvent>, EventStreamError>)
    ensures
        r == (match received {
            Received::Event(e) => Ok::<Option<BoardEvent>, EventStreamError>(Some(e)),
            Received::Closed => Ok::<Option<BoardEvent>, EventStreamError>(None),
            Received::Lagged(n) => Err::<Option<BoardEvent>, EventStreamError>(
                EventStreamError::Lagged(n),
            ),
        }),
{
    match received {
        Received::Event(e) => Ok(Some(e)),
        Received::Closed => Ok(None),
        Received::Lagged(n) => Err(EventStreamError::Lagged(n)),
    }
}

} // verus!

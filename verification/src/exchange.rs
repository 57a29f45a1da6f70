//! What an import asks of the outside, and what the outside tells it.

use vstd::prelude::*;

use crate::http::{reply_view, Request, RequestView, Response, ResponseView};

verus! {

/// What is to be done next.
#[derive(Debug, PartialEq, Eq)]
pub enum Action {
    /// Send this request.
    Fetch(Request),
    /// Read the clock.
    ReadClock,
    /// Nothing: there is an outcome.
    Finish,
}

/// The mathematical model of an action.
#[verifier::ext_equal]
pub enum ActionView {
    Fetch(RequestView),
    ReadClock,
    Finish,
}

impl View for Action {
    type V = ActionView;

    open spec fn view(&self) -> ActionView {
        match self {
            Action::Fetch(request) => ActionView::Fetch(request@),
            Action::ReadClock => ActionView::ReadClock,
            Action::Finish => ActionView::Finish,
        }
    }
}

/// What came of an action.
#[derive(Debug, PartialEq, Eq)]
pub enum Event {
    /// The reply to a request, or the wording of why there is none.
    Reply(Result<Response, String>),
    /// The time, in seconds since the epoch.
    Time(u64),
}

/// The mathematical model of an event.
#[verifier::ext_equal]
pub enum EventView {
    Reply(Result<ResponseView, Seq<char>>),
    Time(u64),
}

impl View for Event {
    type V = EventView;

    open spec fn view(&self) -> EventView {
        match self {
            Event::Reply(reply) => EventView::Reply(reply_view(*reply)),
            Event::Time(now) => EventView::Time(*now),
        }
    }
}

/// The model of an action and of an event has what they have.
pub proof fn law_event_model(
    request: Request,
    response: Response,
    message: String,
    now: u64,
)
    ensures
        Action::Fetch(request)@ == ActionView::Fetch(request@),
        Action::ReadClock@ == ActionView::ReadClock,
        Action::Finish@ == ActionView::Finish,
        Event::Time(now)@ == EventView::Time(now),
        Event::Reply(Ok(response))@ == EventView::Reply(Ok(response@)),
        Event::Reply(Err(message))@ == EventView::Reply(Err(message@)),
{
}

} // verus!

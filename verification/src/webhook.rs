//! Webhooks: the calls that bring events in over HTTP. What arrives is
//! decided here; receiving it is left to the program.
use crate::event::{Event, EventView};
use crate::text::{join2, texts_equal};
use crate::value::{entries_view, Value};
use vstd::prelude::*;

verus! {

/// A webhook: its id, the token that a caller must show, and the type of
/// the events that it makes.
#[derive(Debug)]
pub struct WebhookConfig {
    pub id: String,
    pub token: String,
    pub event_type: String,
}

/// Why a call was refused.
#[derive(Debug, Clone, Copy, PartialEq, Eq, Structural)]
pub enum WebhookError {
    /// The caller did not show the webhook's token.
    WrongToken,
}

/// The answer to a ping at the time `now`.
pub fn pong_text(now: &str) -> (s: String)
    ensures
        s@ == "pong - "@ + now@,
{
    join2("pong - ", now)
}

/// The path under which the webhook `id` is served.
pub fn webhook_path(id: &str) -> (s: String)
    ensures
        s@ == "/event/"@ + id@,
{
    join2("/event/", id)
}

/// The event that a call to `webhook` makes: it is accepted only with the
/// webhook's token, and its body becomes the payload of an event of the
/// webhook's type.
pub fn accept_call(
    webhook: &WebhookConfig,
    token: &str,
    trace_id: String,
    created_ms: u64,
    payload: Vec<(String, Value)>,
) -> (r: Result<Event, WebhookError>)
    ensures
        token@ == webhook.token@ ==> (r matches Ok(event) && event@ == (EventView {
            trace_id: trace_id@,
            event_type: webhook.event_type@,
            created_ms,
            payload: entries_view(payload@),
        })),
        token@ != webhook.token@ ==> r == Err::<Event, WebhookError>(WebhookError::WrongToken),
{
    if texts_equal(token, webhook.token.as_str()) {
        Ok(Event::new(trace_id, webhook.event_type.clone(), created_ms, payload))
    } else {
        Err(WebhookError::WrongToken)
    }
}

} // verus!

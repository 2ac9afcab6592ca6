//! Events: what a collector hands to the matcher.
use crate::number::{number_of, Number};
use crate::value::{clone_entries, entries_view, lemma_view_object, Value, ValueView};
use vstd::prelude::*;

verus! {

/// An event. It is not changed while it is matched.
#[derive(Debug, PartialEq)]
pub struct Event {
    pub trace_id: String,
    pub event_type: String,
    pub created_ms: u64,
    pub payload: Vec<(String, Value)>,
}

/// What an [`Event`] stands for.
pub struct EventView {
    pub trace_id: Seq<char>,
    pub event_type: Seq<char>,
    pub created_ms: u64,
    pub payload: Seq<(Seq<char>, ValueView)>,
}

impl View for Event {
    type V = EventView;

    open spec fn view(&self) -> EventView {
        EventView {
            trace_id: self.trace_id@,
            event_type: self.event_type@,
            created_ms: self.created_ms,
            payload: entries_view(self.payload@),
        }
    }
}

/// The whole event as a value: an object with the entries `trace_id`,
/// `type`, `created_ms` and `payload`, in this order.
pub open spec fn event_value(e: EventView) -> ValueView {
    ValueView::Object(
        seq![
            ("trace_id"@, ValueView::Text(e.trace_id)),
            ("type"@, ValueView::Text(e.event_type)),
            ("created_ms"@, ValueView::Number(number_of(e.created_ms))),
            ("payload"@, ValueView::Object(e.payload)),
        ],
    )
}

impl Event {
    /// An event of the given parts.
    pub fn new(
        trace_id: String,
        event_type: String,
        created_ms: u64,
        payload: Vec<(String, Value)>,
    ) -> (e: Event)
        ensures
            e@ == (EventView {
                trace_id: trace_id@,
                event_type: event_type@,
                created_ms,
                payload: entries_view(payload@),
            }),
    {
        Event { trace_id, event_type, created_ms, payload }
    }

    /// A copy of the event.
    pub fn duplicate(&self) -> (e: Event)
        ensures
            e@ == self@,
    {
        Event {
            trace_id: self.trace_id.clone(),
            event_type: self.event_type.clone(),
            created_ms: self.created_ms,
            payload: clone_entries(&self.payload),
        }
    }

    /// The whole event as a value.
    pub fn to_value(&self) -> (v: Value)
        ensures
            v@ == event_value(self@),
    {
        let mut entries: Vec<(String, Value)> = Vec::new();
        entries.push((String::from_str("trace_id"), Value::Text(self.trace_id.clone())));
        entries.push((String::from_str("type"), Value::Text(self.event_type.clone())));
        entries.push(
            (String::from_str("created_ms"), Value::Number(Number::from_u64(self.created_ms))),
        );
        let payload = clone_entries(&self.payload);
        proof {
            lemma_view_object(payload);
        }
        entries.push((String::from_str("payload"), Value::Object(payload)));
        proof {
            lemma_view_object(entries);
            assert(entries_view(entries@) =~= event_value(self@)->Object_0);
        }
        Value::Object(entries)
    }
}

} // verus!

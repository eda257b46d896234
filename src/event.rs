use crate::json::Json;
use vstd::prelude::*;

verus! {

/// An application event found in a block.
#[derive(Debug)]
pub struct Event {
    pub level: u64,
    /// Address of the contract the enclosing transaction was sent to.
    pub emitter: String,
    /// Address that emitted the event.
    pub payer: String,
    pub tag: String,
    pub data: Json,
    pub ty: Json,
}

/// What an event holds, with its strings as character sequences.
pub struct EventV {
    pub level: u64,
    pub emitter: Seq<char>,
    pub payer: Seq<char>,
    pub tag: Seq<char>,
    pub data: Json,
    pub ty: Json,
}

impl View for Event {
    type V = EventV;

    open spec fn view(&self) -> EventV {
        EventV {
            level: self.level,
            emitter: self.emitter@,
            payer: self.payer@,
            tag: self.tag@,
            data: self.data,
            ty: self.ty,
        }
    }
}

pub open spec fn events_view(v: Seq<Event>) -> Seq<EventV> {
    v.map_values(|e: Event| e@)
}

pub open spec fn opt_events_view(r: Option<Vec<Event>>) -> Option<Seq<EventV>> {
    match r {
        Some(v) => Some(events_view(v@)),
        None => None,
    }
}

} // verus!

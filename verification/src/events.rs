use vstd::prelude::*;

verus! {

/// One structural event of a markup document, reduced to what the item
/// extractor consumes: element boundaries by local tag name, ordinary
/// character data, character data from a literal (escaped) section, and
/// everything else, which is ignorable.
pub enum FeedEvent {
    Open(String),
    Close(String),
    Text(String),
    EscapedText(String),
    Ignorable,
}

/// The mathematical form of a parser event, over character sequences.
pub ghost enum EventV {
    Open(Seq<char>),
    Close(Seq<char>),
    Text(Seq<char>),
    EscapedText(Seq<char>),
    Ignorable,
}

impl View for FeedEvent {
    type V = EventV;

    open spec fn view(&self) -> EventV {
        match self {
            FeedEvent::Open(name) => EventV::Open(name@),
            FeedEvent::Close(name) => EventV::Close(name@),
            FeedEvent::Text(text) => EventV::Text(text@),
            FeedEvent::EscapedText(text) => EventV::EscapedText(text@),
            FeedEvent::Ignorable => EventV::Ignorable,
        }
    }
}

/// The event sequence a vector of events stands for.
pub open spec fn views_of_events(events: Seq<FeedEvent>) -> Seq<EventV> {
    events.map_values(|e: FeedEvent| e@)
}

} // verus!

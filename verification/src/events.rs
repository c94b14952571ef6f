use vstd::prelude::*;

verus! {

/// One markup token, fully decoded: an opening tag with its attributes in
/// document order, a self-closing tag with its attributes, a closing tag,
/// text content (consumed but never read), or any other markup construct.
#[derive(Debug, Clone)]
pub enum MarkupEvent {
    Open { name: String, attrs: Vec<(String, String)> },
    SelfClosed { name: String, attrs: Vec<(String, String)> },
    Close { name: String },
    Text,
    Other,
}

/// The mathematical value of a markup token.
pub enum EventModel {
    Open { name: Seq<char>, attrs: Seq<(Seq<char>, Seq<char>)> },
    SelfClosed { name: Seq<char>, attrs: Seq<(Seq<char>, Seq<char>)> },
    Close { name: Seq<char> },
    Text,
    Other,
}

/// The view of an attribute list: each name/value pair as its characters, in
/// document order.
pub open spec fn attrs_view(attrs: Seq<(String, String)>) -> Seq<(Seq<char>, Seq<char>)> {
    attrs.map_values(|p: (String, String)| (p.0@, p.1@))
}

impl View for MarkupEvent {
    type V = EventModel;

    open spec fn view(&self) -> EventModel {
        match self {
            MarkupEvent::Open { name, attrs } => EventModel::Open {
                name: name@,
                attrs: attrs_view(attrs@),
            },
            MarkupEvent::SelfClosed { name, attrs } => EventModel::SelfClosed {
                name: name@,
                attrs: attrs_view(attrs@),
            },
            MarkupEvent::Close { name } => EventModel::Close { name: name@ },
            MarkupEvent::Text => EventModel::Text,
            MarkupEvent::Other => EventModel::Other,
        }
    }
}

/// The view of an event sequence.
pub open spec fn events_view(evs: Seq<MarkupEvent>) -> Seq<EventModel> {
    evs.map_values(|e: MarkupEvent| e@)
}

} // verus!

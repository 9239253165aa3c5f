//! The floor map: an SVG document whose `<rect>` elements are the rooms,
//! each named by its `id` attribute. The document is read with quick-xml;
//! which rooms it names is decided here.

use vstd::prelude::*;
use quick_xml::events::Event;
use quick_xml::Reader;
use vstd::utf8::{decode_utf8, valid_utf8};

verus! {

/// One event of quick-xml's reader, as far as room lookup reads it.
pub enum SvgEvent {
    /// A start tag: its name and its attributes in order, each `None` where
    /// the attribute could not be read.
    Start { name: Vec<u8>, attributes: Vec<Option<(Vec<u8>, Vec<u8>)>> },
    /// Any other event before the end of the document.
    Other,
}

/// What an attribute stands for: `None` for one that could not be read,
/// else its raw key and value.
pub type AttributeView = Option<(Seq<u8>, Seq<u8>)>;

/// What an event stands for.
pub enum SvgEventView {
    Start { name: Seq<u8>, attributes: Seq<AttributeView> },
    Other,
}

/// An attribute, as a value.
pub open spec fn attribute_view(a: Option<(Vec<u8>, Vec<u8>)>) -> AttributeView {
    match a {
        Some((k, v)) => Some((k@, v@)),
        None => None,
    }
}

impl View for SvgEvent {
    type V = SvgEventView;

    open spec fn view(&self) -> SvgEventView {
        match self {
            SvgEvent::Start { name, attributes } => SvgEventView::Start {
                name: name@,
                attributes: attributes@.map_values(
                    |a: Option<(Vec<u8>, Vec<u8>)>| attribute_view(a),
                ),
            },
            SvgEvent::Other => SvgEventView::Other,
        }
    }
}

/// A list of events, as values.
pub open spec fn event_views(events: Seq<SvgEvent>) -> Seq<SvgEventView> {
    events.map_values(|e: SvgEvent| e@)
}

/// The events that quick-xml's `Reader`, reading `svg` with text trimming
/// on, yields before the end of the document; `None` where it reports an
/// error first.
pub uninterp spec fn svg_xml_events(svg: Seq<char>) -> Option<Seq<SvgEventView>>;

/// Reads `svg` with quick-xml (`Reader::from_str`, then `trim_text(true)`),
/// calling `Reader::read_event` until the end of the document. Claims only
/// that the events it hands back, each converted one for one, are
/// `svg_xml_events(svg)`, and that it hands back `None` exactly when that
/// name is `None`: the reader reported an error.
#[verifier::external_body]
pub(crate) fn read_svg_events(svg: &str) -> (r: Option<Vec<SvgEvent>>)
    ensures
        match r {
            Some(v) => svg_xml_events(svg@) == Some(event_views(v@)),
            None => svg_xml_events(svg@) is None,
        },
{
    let mut reader = Reader::from_str(svg);
    reader.trim_text(true);
    let mut events = Vec::new();
    loop {
        match reader.read_event(&mut Vec::new()) {
            Ok(Event::Start(e)) => events.push(SvgEvent::Start { name: e.name().to_vec(),
                attributes: e.attributes().with_checks(false).map(|a| a.ok().map(|a| (a.key.to_vec(), a.value.to_vec()))).collect() }),
            Ok(Event::Eof) => return Some(events),
            Err(_) => return None,
            Ok(_) => events.push(SvgEvent::Other),
        }
    }
}

/// `std::str::from_utf8`, the result copied into a `String`: `Some` of
/// the decoded text exactly when `bytes` are valid UTF-8.
#[verifier::external_body]
fn utf8_text(bytes: &[u8]) -> (r: Option<String>)
    ensures
        match r {
            Some(s) => valid_utf8(bytes@) && s@ == decode_utf8(bytes@),
            None => !valid_utf8(bytes@),
        },
{
    std::str::from_utf8(bytes).ok().map(|s| s.to_string())
}

/// The name of the elements that are rooms.
pub open spec fn rect_name() -> Seq<u8> {
    seq![0x72u8, 0x65u8, 0x63u8, 0x74u8]
}

/// Every attribute that could be read has a UTF-8 key and value.
pub open spec fn attributes_decodable(attributes: Seq<AttributeView>) -> bool {
    forall|i: int|
        0 <= i < attributes.len() ==> match #[trigger] attributes[i] {
            Some((k, v)) => valid_utf8(k) && valid_utf8(v),
            None => true,
        }
}

/// The values of the `id` attributes among `attributes`, in order.
pub open spec fn id_values(attributes: Seq<AttributeView>) -> Seq<Seq<char>>
    decreases attributes.len(),
{
    if attributes.len() == 0 {
        seq![]
    } else {
        id_values(attributes.drop_last()) + match attributes.last() {
            Some((k, v)) => if decode_utf8(k) == "id"@ {
                seq![decode_utf8(v)]
            } else {
                seq![]
            },
            None => seq![],
        }
    }
}

/// Every `<rect>` start tag has readable attributes in UTF-8.
pub open spec fn events_decodable(events: Seq<SvgEventView>) -> bool {
    forall|i: int|
        0 <= i < events.len() ==> match #[trigger] events[i] {
            SvgEventView::Start { name, attributes } => name == rect_name() ==> attributes_decodable(
                attributes,
            ),
            SvgEventView::Other => true,
        }
}

/// The room ids of a map: the `id` values of its `<rect>` start tags, in
/// document order.
pub open spec fn room_ids(events: Seq<SvgEventView>) -> Seq<Seq<char>>
    decreases events.len(),
{
    if events.len() == 0 {
        seq![]
    } else {
        room_ids(events.drop_last()) + match events.last() {
            SvgEventView::Start { name, attributes } => if name == rect_name() {
                id_values(attributes)
            } else {
                seq![]
            },
            SvgEventView::Other => seq![],
        }
    }
}

/// A map can be read: quick-xml reads it without error, and its rooms'
/// attributes are UTF-8.
pub open spec fn svg_map_readable(svg: Seq<char>) -> bool {
    match svg_xml_events(svg) {
        Some(events) => events_decodable(events),
        None => false,
    }
}

/// An `id` attribute: readable, with key `id`, and this value.
pub open spec fn is_id_attribute(a: AttributeView, value: Seq<char>) -> bool {
    a matches Some((k, v)) && decode_utf8(k) == "id"@ && decode_utf8(v) == value
}

/// Event `i` is a `<rect>` start tag whose attribute `j` is an `id`
/// attribute with this value.
pub open spec fn names_room(events: Seq<SvgEventView>, i: int, j: int, value: Seq<char>) -> bool {
    &&& 0 <= i < events.len()
    &&& events[i] matches SvgEventView::Start { name, attributes }
    &&& name == rect_name()
    &&& 0 <= j < attributes.len()
    &&& is_id_attribute(attributes[j], value)
}

/// One more attribute adds its value at the end when it is an `id`, and
/// nothing otherwise.
pub proof fn law_id_values_grow(attributes: Seq<AttributeView>, a: AttributeView, value: Seq<char>)
    ensures
        is_id_attribute(a, value) ==> id_values(attributes.push(a)) == id_values(attributes).push(
            value,
        ),
        !(a matches Some((k, v)) && decode_utf8(k) == "id"@) ==> id_values(attributes.push(a))
            == id_values(attributes),
{
    assert(attributes.push(a).drop_last() =~= attributes);
}

/// One more event adds, at the end, the `id` values of a `<rect>` start
/// tag, and nothing for any other event.
pub proof fn law_room_ids_grow(events: Seq<SvgEventView>, e: SvgEventView)
    ensures
        room_ids(events.push(e)) == match e {
            SvgEventView::Start { name, attributes } => if name == rect_name() {
                room_ids(events) + id_values(attributes)
            } else {
                room_ids(events)
            },
            SvgEventView::Other => room_ids(events),
        },
{
    assert(events.push(e).drop_last() =~= events);
}

proof fn lemma_id_values_complete(attributes: Seq<AttributeView>, j: int, value: Seq<char>)
    requires
        0 <= j < attributes.len(),
        is_id_attribute(attributes[j], value),
    ensures
        id_values(attributes).contains(value),
    decreases attributes.len(),
{
    let rest = attributes.drop_last();
    if j == attributes.len() - 1 {
        let r = id_values(rest);
        assert(id_values(attributes) =~= r.push(value));
        assert(id_values(attributes)[r.len() as int] == value);
    } else {
        lemma_id_values_complete(rest, j, value);
        let k = choose|k: int| 0 <= k < id_values(rest).len() && id_values(rest)[k] == value;
        assert(id_values(attributes)[k] == value);
    }
}

proof fn lemma_id_values_sound(attributes: Seq<AttributeView>, value: Seq<char>)
    requires
        id_values(attributes).contains(value),
    ensures
        exists|j: int| 0 <= j < attributes.len() && is_id_attribute(attributes[j], value),
    decreases attributes.len(),
{
    let rest = attributes.drop_last();
    let r = id_values(rest);
    let k = choose|k: int| 0 <= k < id_values(attributes).len() && id_values(attributes)[k] == value;
    if k < r.len() {
        assert(r[k] == value);
        lemma_id_values_sound(rest, value);
        let j = choose|j: int| 0 <= j < rest.len() && is_id_attribute(rest[j], value);
        assert(attributes[j] == rest[j]);
    } else {
        let j = attributes.len() - 1;
        assert(is_id_attribute(attributes[j], value));
    }
}

/// Every `id` attribute of every `<rect>` start tag is among the room ids,
/// however many rooms the map has.
pub proof fn law_every_room_is_listed(events: Seq<SvgEventView>, i: int, j: int, value: Seq<char>)
    requires
        names_room(events, i, j, value),
    ensures
        room_ids(events).contains(value),
    decreases events.len(),
{
    let rest = events.drop_last();
    if i == events.len() - 1 {
        if let SvgEventView::Start { name, attributes } = events[i] {
            lemma_id_values_complete(attributes, j, value);
            let k = choose|k: int| 0 <= k < id_values(attributes).len() && id_values(attributes)[k] == value;
            assert(room_ids(events) =~= room_ids(rest) + id_values(attributes));
            assert(room_ids(events)[room_ids(rest).len() + k] == value);
        }
    } else {
        assert(rest[i] == events[i]);
        law_every_room_is_listed(rest, i, j, value);
        let k = choose|k: int| 0 <= k < room_ids(rest).len() && room_ids(rest)[k] == value;
        assert(room_ids(events)[k] == value);
    }
}

/// Every room id is the value of an `id` attribute of some `<rect>` start
/// tag.
pub proof fn law_every_listed_room_is_on_the_map(events: Seq<SvgEventView>, value: Seq<char>)
    requires
        room_ids(events).contains(value),
    ensures
        exists|i: int, j: int| names_room(events, i, j, value),
    decreases events.len(),
{
    let rest = events.drop_last();
    let r = room_ids(rest);
    let k = choose|k: int| 0 <= k < room_ids(events).len() && room_ids(events)[k] == value;
    if k < r.len() {
        assert(r[k] == value);
        law_every_listed_room_is_on_the_map(rest, value);
        let (i, j) = choose|i: int, j: int| names_room(rest, i, j, value);
        assert(events[i] == rest[i]);
        assert(names_room(events, i, j, value));
    } else {
        let i = events.len() - 1;
        match events[i] {
            SvgEventView::Start { name, attributes } => {
                if name == rect_name() {
                    assert(room_ids(events) =~= r + id_values(attributes));
                    assert(id_values(attributes)[k - r.len()] == value);
                    lemma_id_values_sound(attributes, value);
                    let j = choose|j: int| 0 <= j < attributes.len() && is_id_attribute(attributes[j], value);
                    assert(names_room(events, i, j, value));
                } else {
                    assert(room_ids(events) =~= r);
                }
            },
            SvgEventView::Other => {
                assert(room_ids(events) =~= r);
            },
        }
    }
}

/// Texts, as values.
pub open spec fn string_views(v: Seq<String>) -> Seq<Seq<char>> {
    v.map_values(|s: String| s@)
}

fn is_rect(name: &Vec<u8>) -> (r: bool)
    ensures
        r == (name@ == rect_name()),
{
    let r = name.len() == 4 && name[0] == 0x72u8 && name[1] == 0x65u8 && name[2] == 0x63u8
        && name[3] == 0x74u8;
    if r {
        assert(name@ =~= rect_name());
    }
    r
}

/// Appends to `ids` the `id` values among `attributes`.
fn push_id_values(attributes: &Vec<Option<(Vec<u8>, Vec<u8>)>>, ids: &mut Vec<String>)
    requires
        attributes_decodable(
            attributes@.map_values(|a: Option<(Vec<u8>, Vec<u8>)>| attribute_view(a)),
        ),
    ensures
        string_views(final(ids)@) == string_views(old(ids)@) + id_values(
            attributes@.map_values(|a: Option<(Vec<u8>, Vec<u8>)>| attribute_view(a)),
        ),
{
    let ghost views = attributes@.map_values(|a: Option<(Vec<u8>, Vec<u8>)>| attribute_view(a));
    let ghost start = string_views(ids@);
    let id_key = String::from_str("id");
    let mut i: usize = 0;
    while i < attributes.len()
        invariant
            i <= attributes.len(),
            views == attributes@.map_values(|a: Option<(Vec<u8>, Vec<u8>)>| attribute_view(a)),
            attributes_decodable(views),
            id_key@ == "id"@,
            string_views(ids@) == start + id_values(views.take(i as int)),
        decreases attributes.len() - i,
    {
        assert(views.take(i + 1).drop_last() =~= views.take(i as int));
        assert(views.take(i + 1).last() == views[i as int]);
        let ghost before = ids@;
        match &attributes[i] {
            Some((k, v)) => {
                assert(views[i as int] == Some((k@, v@)));
                let key = utf8_text(k.as_slice()).unwrap();
                let value = utf8_text(v.as_slice()).unwrap();
                if key == id_key {
                    ids.push(value);
                    assert(string_views(ids@) =~= string_views(before).push(decode_utf8(v@)));
                }
                assert(string_views(ids@) =~= start + id_values(views.take(i + 1)));
            },
            None => {
                assert(string_views(ids@) =~= start + id_values(views.take(i + 1)));
            },
        }
        i = i + 1;
    }
    assert(views.take(attributes.len() as int) =~= views);
}

/// The room ids named by a list of events: the `id` values of the
/// `<rect>` start tags, in order.
pub fn room_ids_of_events(events: &Vec<SvgEvent>) -> (ids: Vec<String>)
    requires
        events_decodable(event_views(events@)),
    ensures
        string_views(ids@) == room_ids(event_views(events@)),
{
    let ghost views = event_views(events@);
    let mut ids: Vec<String> = Vec::new();
    let mut i: usize = 0;
    while i < events.len()
        invariant
            i <= events.len(),
            views == event_views(events@),
            events_decodable(views),
            string_views(ids@) == room_ids(views.take(i as int)),
        decreases events.len() - i,
    {
        assert(views.take(i + 1).drop_last() =~= views.take(i as int));
        assert(views.take(i + 1).last() == views[i as int]);
        match &events[i] {
            SvgEvent::Start { name, attributes } => {
                if is_rect(name) {
                    assert(views[i as int] matches SvgEventView::Start { name: n, attributes: a }
                        && n == rect_name());
                    push_id_values(attributes, &mut ids);
                }
            },
            SvgEvent::Other => {},
        }
        assert(string_views(ids@) =~= room_ids(views.take(i + 1)));
        i = i + 1;
    }
    assert(views.take(events.len() as int) =~= views);
    ids
}

fn attributes_are_decodable(attributes: &Vec<Option<(Vec<u8>, Vec<u8>)>>) -> (r: bool)
    ensures
        r == attributes_decodable(
            attributes@.map_values(|a: Option<(Vec<u8>, Vec<u8>)>| attribute_view(a)),
        ),
{
    let ghost views = attributes@.map_values(|a: Option<(Vec<u8>, Vec<u8>)>| attribute_view(a));
    let mut i: usize = 0;
    while i < attributes.len()
        invariant
            i <= attributes.len(),
            views == attributes@.map_values(|a: Option<(Vec<u8>, Vec<u8>)>| attribute_view(a)),
            attributes_decodable(views.take(i as int)),
        decreases attributes.len() - i,
    {
        match &attributes[i] {
            Some((k, v)) => {
                assert(views[i as int] == Some((k@, v@)));
                if utf8_text(k.as_slice()).is_none() || utf8_text(v.as_slice()).is_none() {
                    assert(!match views[i as int] {
                        Some((k, v)) => valid_utf8(k) && valid_utf8(v),
                        None => true,
                    });
                    return false;
                }
            },
            None => {},
        }
        assert(forall|j: int| 0 <= j < i + 1 ==> views.take(i + 1)[j] == views[j]);
        assert(forall|j: int| 0 <= j < i ==> views.take(i as int)[j] == views[j]);
        i = i + 1;
    }
    assert(views.take(attributes.len() as int) =~= views);
    true
}

/// Whether every `<rect>` start tag among `events` has readable
/// attributes in UTF-8.
pub fn events_are_decodable(events: &Vec<SvgEvent>) -> (r: bool)
    ensures
        r == events_decodable(event_views(events@)),
{
    let ghost views = event_views(events@);
    let mut i: usize = 0;
    while i < events.len()
        invariant
            i <= events.len(),
            views == event_views(events@),
            forall|j: int| 0 <= j < i ==> match #[trigger] views[j] {
                SvgEventView::Start { name, attributes } => name == rect_name()
                    ==> attributes_decodable(attributes),
                SvgEventView::Other => true,
            },
        decreases events.len() - i,
    {
        match &events[i] {
            SvgEvent::Start { name, attributes } => {
                if is_rect(name) && !attributes_are_decodable(attributes) {
                    assert(views[i as int] matches SvgEventView::Start { name: n, attributes: a }
                        && n == rect_name() && !attributes_decodable(a));
                    return false;
                }
            },
            SvgEvent::Other => {},
        }
        i = i + 1;
    }
    true
}

} // verus!

use vstd::prelude::*;

use crate::events::EventV;
use crate::events::FeedEvent;
use crate::events::views_of_events;
use crate::hash::calculate_guid;
use crate::hash::sha1_hex_of;

verus! {

/// One extracted feed item. Fields accumulate as text arrives inside the
/// item's scope; the identifier holds the concatenated digests of the
/// fragments of identifier-bearing text, not the raw text itself.
#[derive(Debug, PartialEq, Eq)]
pub struct FeedItem {
    pub title: String,
    pub link: String,
    pub pub_date: String,
    pub encoded_content: String,
    pub guid: String,
}

/// The mathematical form of a feed item.
#[verifier::ext_equal]
pub ghost struct ItemV {
    pub title: Seq<char>,
    pub link: Seq<char>,
    pub pub_date: Seq<char>,
    pub encoded_content: Seq<char>,
    pub guid: Seq<char>,
}

impl View for FeedItem {
    type V = ItemV;

    open spec fn view(&self) -> ItemV {
        ItemV {
            title: self.title@,
            link: self.link@,
            pub_date: self.pub_date@,
            encoded_content: self.encoded_content@,
            guid: self.guid@,
        }
    }
}

/// The record sequence a vector of items stands for.
pub open spec fn views_of_items(items: Seq<FeedItem>) -> Seq<ItemV> {
    items.map_values(|it: FeedItem| it@)
}

/// The extractor's working state: the open item record, if the machine is
/// between an item-open and its item-close, and the name of the most
/// recently opened element, if any element has opened since the last close.
#[verifier::ext_equal]
pub ghost struct StateV {
    pub item: Option<ItemV>,
    pub elem: Option<Seq<char>>,
}

pub open spec fn item_tag() -> Seq<char> {
    "item"@
}

pub open spec fn title_tag() -> Seq<char> {
    "title"@
}

pub open spec fn link_tag() -> Seq<char> {
    "link"@
}

pub open spec fn pub_date_tag() -> Seq<char> {
    "pubDate"@
}

pub open spec fn encoded_tag() -> Seq<char> {
    "encoded"@
}

pub open spec fn guid_tag() -> Seq<char> {
    "guid"@
}

pub open spec fn empty_item() -> ItemV {
    ItemV {
        title: Seq::empty(),
        link: Seq::empty(),
        pub_date: Seq::empty(),
        encoded_content: Seq::empty(),
        guid: Seq::empty(),
    }
}

pub open spec fn init_state() -> StateV {
    StateV { item: None, elem: None }
}

/// Ordinary text routed into the open item by the current element name:
/// the fixed element-to-field mapping, appending, never replacing. Text in
/// the identifier-bearing element contributes its digest, not itself.
pub open spec fn add_text(it: ItemV, el: Seq<char>, t: Seq<char>) -> ItemV {
    if el == title_tag() {
        ItemV { title: it.title + t, ..it }
    } else if el == link_tag() {
        ItemV { link: it.link + t, ..it }
    } else if el == pub_date_tag() {
        ItemV { pub_date: it.pub_date + t, ..it }
    } else if el == encoded_tag() {
        ItemV { encoded_content: it.encoded_content + t, ..it }
    } else if el == guid_tag() {
        ItemV { guid: it.guid + sha1_hex_of(t), ..it }
    } else {
        it
    }
}

/// Escaped (literal-section) text is captured only by the body-content
/// element; in any other element it is ignored.
pub open spec fn add_escaped(it: ItemV, el: Seq<char>, t: Seq<char>) -> ItemV {
    if el == encoded_tag() {
        ItemV { encoded_content: it.encoded_content + t, ..it }
    } else {
        it
    }
}

/// The state after one event. Opening any element makes it the current one;
/// opening the item element also starts a fresh accumulator. Closing any
/// element clears the current element name unconditionally; closing the item
/// element also closes the accumulator. Text events write into the open
/// accumulator through the current element name; with no open item or no
/// current element they change nothing.
pub open spec fn step_state(s: StateV, e: EventV) -> StateV {
    match e {
        EventV::Open(name) => StateV {
            item: if name == item_tag() {
                Some(empty_item())
            } else {
                s.item
            },
            elem: Some(name),
        },
        EventV::Close(name) => StateV {
            item: if name == item_tag() {
                None
            } else {
                s.item
            },
            elem: None,
        },
        EventV::Text(t) => StateV {
            item: match (s.item, s.elem) {
                (Some(it), Some(el)) => Some(add_text(it, el, t)),
                _ => s.item,
            },
            elem: s.elem,
        },
        EventV::EscapedText(t) => StateV {
            item: match (s.item, s.elem) {
                (Some(it), Some(el)) => Some(add_escaped(it, el, t)),
                _ => s.item,
            },
            elem: s.elem,
        },
        EventV::Ignorable => s,
    }
}

/// The records one event emits: exactly the open accumulator, when the event
/// closes the item element while an item is open; nothing otherwise.
pub open spec fn step_emits(s: StateV, e: EventV) -> Seq<ItemV> {
    match e {
        EventV::Close(name) => if name == item_tag() && s.item is Some {
            seq![s.item.unwrap()]
        } else {
            Seq::empty()
        },
        _ => Seq::empty(),
    }
}

/// All records emitted while consuming the events from the given state,
/// in document order.
pub open spec fn extract_from(s: StateV, events: Seq<EventV>) -> Seq<ItemV>
    decreases events.len(),
{
    if events.len() == 0 {
        Seq::empty()
    } else {
        step_emits(s, events[0]) + extract_from(step_state(s, events[0]), events.drop_first())
    }
}

/// The state after consuming the events from the given state.
pub open spec fn state_after(s: StateV, events: Seq<EventV>) -> StateV
    decreases events.len(),
{
    if events.len() == 0 {
        s
    } else {
        state_after(step_state(s, events[0]), events.drop_first())
    }
}

/// The records a whole document's event sequence yields.
pub open spec fn spec_extract(events: Seq<EventV>) -> Seq<ItemV> {
    extract_from(init_state(), events)
}

/// The event-driven state machine that accumulates item records.
pub struct Extractor {
    item: Option<FeedItem>,
    elem: Option<String>,
}

impl View for Extractor {
    type V = StateV;

    closed spec fn view(&self) -> StateV {
        StateV {
            item: match self.item {
                Some(it) => Some(it@),
                None => None,
            },
            elem: match self.elem {
                Some(el) => Some(el@),
                None => None,
            },
        }
    }
}

/// Whether an element name equals a tracked tag.
fn is_tag(el: &String, tag: &str) -> (r: bool)
    ensures
        r == (el@ == tag@),
{
    let owned_tag = String::from_str(tag);
    *el == owned_tag
}

impl Extractor {
    /// A machine outside any item scope, with no current element.
    pub fn new() -> (r: Extractor)
        ensures
            r@ == init_state(),
    {
        Extractor { item: None, elem: None }
    }

    /// Consumes one event: the state advances by the transition relation and
    /// any emitted record is appended to `out`.
    pub fn step(&mut self, event: &FeedEvent, out: &mut Vec<FeedItem>)
        ensures
            final(self)@ == step_state(old(self)@, event@),
            views_of_items(final(out)@) == views_of_items(old(out)@) + step_emits(
                old(self)@,
                event@,
            ),
    {
        match event {
            FeedEvent::Open(name) => {
                if is_tag(name, "item") {
                    self.item = Some(
                        FeedItem {
                            title: String::new(),
                            link: String::new(),
                            pub_date: String::new(),
                            encoded_content: String::new(),
                            guid: String::new(),
                        },
                    );
                }
                self.elem = Some(name.clone());
            },
            FeedEvent::Close(name) => {
                if is_tag(name, "item") {
                    let taken = self.item.take();
                    if let Some(it) = taken {
                        out.push(it);
                    }
                }
                self.elem = None;
            },
            FeedEvent::Text(text) => {
                if let Some(item) = &mut self.item {
                    if let Some(el) = &self.elem {
                        if is_tag(el, "title") {
                            item.title.append(text.as_str());
                        } else if is_tag(el, "link") {
                            item.link.append(text.as_str());
                        } else if is_tag(el, "pubDate") {
                            item.pub_date.append(text.as_str());
                        } else if is_tag(el, "encoded") {
                            item.encoded_content.append(text.as_str());
                        } else if is_tag(el, "guid") {
                            let digest = calculate_guid(text.as_str());
                            item.guid.append(digest.as_str());
                        }
                    }
                }
            },
            FeedEvent::EscapedText(text) => {
                if let Some(item) = &mut self.item {
                    if let Some(el) = &self.elem {
                        if is_tag(el, "encoded") {
                            item.encoded_content.append(text.as_str());
                        }
                    }
                }
            },
            FeedEvent::Ignorable => {},
        }
        proof {
            assert(views_of_items(final(out)@) =~= views_of_items(old(out)@) + step_emits(
                old(self)@,
                event@,
            ));
            assert(final(self)@ =~= step_state(old(self)@, event@));
        }
    }
}

/// Runs the state machine over a whole document's events and returns the
/// extracted records, in document order.
#[verifier::loop_isolation(false)]
pub fn extract_items(events: &Vec<FeedEvent>) -> (r: Vec<FeedItem>)
    ensures
        views_of_items(r@) == spec_extract(views_of_events(events@)),
{
    let mut machine = Extractor::new();
    let mut out: Vec<FeedItem> = Vec::new();
    let ghost evs = views_of_events(events@);
    proof {
        assert(evs.skip(0) =~= evs);
        assert(views_of_items(out@) =~= Seq::<ItemV>::empty());
        assert(views_of_items(out@) + extract_from(machine@, evs) =~= extract_from(machine@, evs));
    }
    for i in 0..events.len()
        invariant
            views_of_items(out@) + extract_from(machine@, evs.skip(i as int)) == spec_extract(
                evs,
            ),
    {
        let ghost pre_state = machine@;
        let ghost pre_out = out@;
        machine.step(&events[i], &mut out);
        proof {
            assert(evs.skip(i as int)[0] == events@[i as int]@);
            assert(evs.skip(i as int).drop_first() =~= evs.skip(i as int + 1));
            assert(views_of_items(out@) + extract_from(machine@, evs.skip(i as int + 1))
                =~= views_of_items(pre_out) + extract_from(pre_state, evs.skip(i as int)));
        }
    }
    proof {
        assert(evs.skip(events@.len() as int) =~= Seq::<EventV>::empty());
        assert(views_of_items(out@) + Seq::<ItemV>::empty() =~= views_of_items(out@));
    }
    out
}

/// Whether an event opens the item element.
pub open spec fn is_item_open(e: EventV) -> bool {
    e matches EventV::Open(name) && name == item_tag()
}

/// Whether an event closes the item element.
pub open spec fn is_item_close(e: EventV) -> bool {
    e matches EventV::Close(name) && name == item_tag()
}

/// How many events of the sequence close the item element.
pub open spec fn count_item_closes(events: Seq<EventV>) -> nat
    decreases events.len(),
{
    if events.len() == 0 {
        0
    } else {
        (if is_item_close(events[0]) {
            1nat
        } else {
            0nat
        }) + count_item_closes(events.drop_first())
    }
}

/// Whether the machine is inside an item scope after one more event.
pub open spec fn next_inside(inside: bool, e: EventV) -> bool {
    if is_item_open(e) {
        true
    } else if is_item_close(e) {
        false
    } else {
        inside
    }
}

/// Item boundaries that do not nest: starting in the given scope, every
/// item-open occurs outside an item and every item-close inside one.
pub open spec fn items_alternate_from(events: Seq<EventV>, inside: bool) -> bool
    decreases events.len(),
{
    if events.len() == 0 {
        true
    } else {
        &&& (is_item_open(events[0]) ==> !inside)
        &&& (is_item_close(events[0]) ==> inside)
        &&& items_alternate_from(events.drop_first(), next_inside(inside, events[0]))
    }
}

proof fn lemma_step_tracks_inside(s: StateV, e: EventV)
    ensures
        (step_state(s, e).item is Some) == next_inside(s.item is Some, e),
{
}

proof fn lemma_record_count_from(s: StateV, events: Seq<EventV>)
    requires
        items_alternate_from(events, s.item is Some),
    ensures
        extract_from(s, events).len() == count_item_closes(events),
    decreases events.len(),
{
    if events.len() != 0 {
        lemma_step_tracks_inside(s, events[0]);
        lemma_record_count_from(step_state(s, events[0]), events.drop_first());
    }
}

/// A document whose item boundaries do not nest yields exactly one record
/// per item element, in document order: one record is emitted at each
/// item-close and nowhere else.
pub proof fn lemma_one_record_per_item(events: Seq<EventV>)
    requires
        items_alternate_from(events, false),
    ensures
        spec_extract(events).len() == count_item_closes(events),
{
    lemma_record_count_from(init_state(), events);
}

/// Text arriving outside any item scope is dropped: the state does not
/// change and nothing is emitted, whether the text is ordinary or escaped.
pub proof fn lemma_text_outside_item_dropped(s: StateV, t: Seq<char>)
    requires
        s.item is None,
    ensures
        step_state(s, EventV::Text(t)) == s,
        step_emits(s, EventV::Text(t)) == Seq::<ItemV>::empty(),
        step_state(s, EventV::EscapedText(t)) == s,
        step_emits(s, EventV::EscapedText(t)) == Seq::<ItemV>::empty(),
{
    assert(step_state(s, EventV::Text(t)) =~= s);
    assert(step_state(s, EventV::EscapedText(t)) =~= s);
}

/// Inside an item with the body-content element current, an escaped-text
/// fragment is consumed exactly as an ordinary text fragment with the same
/// content: the rest of the document then extracts identically.
pub proof fn lemma_escaped_like_text_in_encoded(s: StateV, t: Seq<char>, rest: Seq<EventV>)
    requires
        s.item is Some,
        s.elem == Some(encoded_tag()),
    ensures
        step_state(s, EventV::EscapedText(t)) == step_state(s, EventV::Text(t)),
        step_emits(s, EventV::EscapedText(t)) == step_emits(s, EventV::Text(t)),
        extract_from(s, seq![EventV::EscapedText(t)] + rest) == extract_from(
            s,
            seq![EventV::Text(t)] + rest,
        ),
{
    lemma_tags_distinct();
    assert(step_state(s, EventV::EscapedText(t)) =~= step_state(s, EventV::Text(t)));
    assert((seq![EventV::EscapedText(t)] + rest).drop_first() =~= rest);
    assert((seq![EventV::Text(t)] + rest).drop_first() =~= rest);
}

/// An escaped-text fragment under any element other than the body-content
/// element is ignored entirely.
pub proof fn lemma_escaped_elsewhere_ignored(s: StateV, t: Seq<char>)
    requires
        s.elem != Some(encoded_tag()),
    ensures
        step_state(s, EventV::EscapedText(t)) == s,
        step_emits(s, EventV::EscapedText(t)) == Seq::<ItemV>::empty(),
{
    assert(step_state(s, EventV::EscapedText(t)) =~= s);
}

/// Whether every event of the sequence is ordinary text.
pub open spec fn all_text(frags: Seq<EventV>) -> bool {
    forall|i: int| 0 <= i < frags.len() ==> frags[i] is Text
}

/// The concatenation, in order, of the digest of each text fragment.
pub open spec fn digests_of(frags: Seq<EventV>) -> Seq<char>
    decreases frags.len(),
{
    if frags.len() == 0 {
        Seq::empty()
    } else {
        sha1_hex_of(frags[0]->Text_0) + digests_of(frags.drop_first())
    }
}

proof fn lemma_tags_distinct()
    ensures
        item_tag() != title_tag(),
        item_tag() != link_tag(),
        item_tag() != pub_date_tag(),
        item_tag() != encoded_tag(),
        item_tag() != guid_tag(),
        guid_tag() != title_tag(),
        guid_tag() != link_tag(),
        guid_tag() != pub_date_tag(),
        guid_tag() != encoded_tag(),
        encoded_tag() != title_tag(),
        encoded_tag() != link_tag(),
        encoded_tag() != pub_date_tag(),
{
    reveal_strlit("item");
    reveal_strlit("title");
    reveal_strlit("link");
    reveal_strlit("pubDate");
    reveal_strlit("encoded");
    reveal_strlit("guid");
    assert(item_tag()[0] == 'i' && guid_tag()[0] == 'g' && link_tag()[0] == 'l');
    assert(guid_tag()[0] == 'g' && encoded_tag()[0] == 'e');
    assert(item_tag().len() == 4 && title_tag().len() == 5 && link_tag().len() == 4);
    assert(pub_date_tag().len() == 7 && encoded_tag().len() == 7 && guid_tag().len() == 4);
    assert(pub_date_tag()[0] == 'p');
}

/// While the identifier-bearing element stays current inside an open item,
/// each text fragment appends the digest of that fragment alone to the
/// identifier, in order; no other field changes and nothing is emitted.
pub proof fn lemma_guid_accumulates_digests(s: StateV, frags: Seq<EventV>)
    requires
        s.item is Some,
        s.elem == Some(guid_tag()),
        all_text(frags),
    ensures
        state_after(s, frags).item is Some,
        state_after(s, frags).elem == s.elem,
        state_after(s, frags).item.unwrap() == (ItemV {
            guid: s.item.unwrap().guid + digests_of(frags),
            ..s.item.unwrap()
        }),
        extract_from(s, frags) == Seq::<ItemV>::empty(),
    decreases frags.len(),
{
    lemma_tags_distinct();
    if frags.len() == 0 {
        assert(s.item.unwrap().guid + digests_of(frags) =~= s.item.unwrap().guid);
        assert(state_after(s, frags).item.unwrap() =~= ItemV {
            guid: s.item.unwrap().guid + digests_of(frags),
            ..s.item.unwrap()
        });
    } else {
        let s1 = step_state(s, frags[0]);
        assert(frags[0] is Text);
        let t = frags[0]->Text_0;
        assert(s1.item.unwrap() =~= ItemV {
            guid: s.item.unwrap().guid + sha1_hex_of(t),
            ..s.item.unwrap()
        });
        assert forall|i: int| 0 <= i < frags.drop_first().len() implies frags.drop_first()[i]
            is Text by {
            assert(frags.drop_first()[i] == frags[i + 1]);
        }
        lemma_guid_accumulates_digests(s1, frags.drop_first());
        assert(s1.item.unwrap().guid + digests_of(frags.drop_first()) =~= s.item.unwrap().guid
            + digests_of(frags));
        assert(state_after(s, frags).item.unwrap() =~= ItemV {
            guid: s.item.unwrap().guid + digests_of(frags),
            ..s.item.unwrap()
        });
        assert(extract_from(s, frags) =~= Seq::<ItemV>::empty());
    }
}

/// Consuming a concatenation yields the first part's records, then the
/// second part's records from the state the first part leaves behind.
pub proof fn lemma_extract_append(s: StateV, a: Seq<EventV>, b: Seq<EventV>)
    ensures
        extract_from(s, a + b) == extract_from(s, a) + extract_from(state_after(s, a), b),
        state_after(s, a + b) == state_after(state_after(s, a), b),
    decreases a.len(),
{
    if a.len() == 0 {
        assert(a + b =~= b);
        assert(extract_from(s, a) + extract_from(state_after(s, a), b) =~= extract_from(s, b));
    } else {
        assert((a + b)[0] == a[0]);
        assert((a + b).drop_first() =~= a.drop_first() + b);
        lemma_extract_append(step_state(s, a[0]), a.drop_first(), b);
        assert(extract_from(s, a + b) =~= extract_from(s, a) + extract_from(
            state_after(s, a),
            b,
        ));
    }
}

/// A document holding one item element around one identifier-bearing element
/// whose text arrives in any number of fragments yields exactly one record:
/// its identifier is the concatenation of the per-fragment digests, in
/// order, and every other field stays empty.
pub proof fn lemma_single_item_identifier(events: Seq<EventV>, frags: Seq<EventV>)
    requires
        all_text(frags),
        events == seq![EventV::Open(item_tag()), EventV::Open(guid_tag())] + frags + seq![
            EventV::Close(guid_tag()),
            EventV::Close(item_tag()),
        ],
    ensures
        spec_extract(events) == seq![(ItemV { guid: digests_of(frags), ..empty_item() })],
{
    lemma_tags_distinct();
    let open_item = EventV::Open(item_tag());
    let open_guid = EventV::Open(guid_tag());
    let close_guid = EventV::Close(guid_tag());
    let close_item = EventV::Close(item_tag());
    let prefix = seq![open_item, open_guid];
    let suffix = seq![close_guid, close_item];
    let s0 = init_state();
    let s1 = step_state(s0, open_item);
    let s2 = step_state(s1, open_guid);
    assert(s1.item == Some(empty_item()) && s1.elem == Some(item_tag()));
    assert(s2.item == Some(empty_item()) && s2.elem == Some(guid_tag()));
    assert(prefix.drop_first() =~= seq![open_guid]);
    assert(seq![open_guid].drop_first() =~= Seq::<EventV>::empty());
    assert(state_after(s2, Seq::<EventV>::empty()) == s2);
    assert(state_after(s1, seq![open_guid]) == s2);
    assert(state_after(s0, prefix) == s2);
    assert(extract_from(s2, Seq::<EventV>::empty()) =~= Seq::<ItemV>::empty());
    assert(extract_from(s1, seq![open_guid]) =~= Seq::<ItemV>::empty());
    assert(extract_from(s0, prefix) =~= Seq::<ItemV>::empty());
    lemma_guid_accumulates_digests(s2, frags);
    let s3 = state_after(s2, frags);
    let record = s3.item.unwrap();
    assert(record =~= ItemV { guid: digests_of(frags), ..empty_item() });
    let s4 = step_state(s3, close_guid);
    assert(s4.item == s3.item && s4.elem == None::<Seq<char>>);
    let s5 = step_state(s4, close_item);
    assert(step_emits(s3, close_guid) =~= Seq::<ItemV>::empty());
    assert(step_emits(s4, close_item) =~= seq![record]);
    assert(suffix.drop_first() =~= seq![close_item]);
    assert(seq![close_item].drop_first() =~= Seq::<EventV>::empty());
    assert(extract_from(s5, Seq::<EventV>::empty()) =~= Seq::<ItemV>::empty());
    assert(extract_from(s4, seq![close_item]) =~= seq![record]);
    assert(extract_from(s3, suffix) =~= seq![record]);
    lemma_extract_append(s0, prefix, frags + suffix);
    lemma_extract_append(s2, frags, suffix);
    assert(events =~= prefix + (frags + suffix));
    assert(spec_extract(events) =~= seq![record]);
    assert(spec_extract(events) =~= seq![(ItemV { guid: digests_of(frags), ..empty_item() })]);
}

/// Splitting the identifier text changes the identifier whenever the digest
/// of the whole differs from the concatenation of the digests of the parts:
/// per-fragment digests are concatenated, never re-hashed.
pub proof fn lemma_split_identifier_differs(a: Seq<char>, b: Seq<char>)
    requires
        sha1_hex_of(a) + sha1_hex_of(b) != sha1_hex_of(a + b),
    ensures
        digests_of(seq![EventV::Text(a), EventV::Text(b)]) != sha1_hex_of(a + b),
{
    let frags = seq![EventV::Text(a), EventV::Text(b)];
    let tail = seq![EventV::Text(b)];
    assert(frags.drop_first() =~= tail);
    assert(tail.drop_first() =~= Seq::<EventV>::empty());
    assert(digests_of(Seq::<EventV>::empty()) =~= Seq::<char>::empty());
    assert(digests_of(tail) =~= sha1_hex_of(b) + Seq::<char>::empty());
    assert(digests_of(tail) =~= sha1_hex_of(b));
    assert(digests_of(frags) =~= sha1_hex_of(a) + digests_of(tail));
    assert(digests_of(frags) =~= sha1_hex_of(a) + sha1_hex_of(b));
}

} // verus!

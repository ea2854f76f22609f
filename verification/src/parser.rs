use vstd::prelude::*;

use xml::reader::XmlEvent;

use crate::events::EventV;
use crate::events::FeedEvent;
use crate::events::views_of_events;
use crate::extractor::FeedItem;
use crate::extractor::extract_items;
use crate::extractor::spec_extract;
use crate::extractor::views_of_items;

verus! {

/// Why a run over a source document failed.
#[derive(Debug)]
pub enum FeedError {
    /// The document is not well-formed markup; the text names the fault.
    Parse(String),
}

/// One pull from the streaming parser.
enum ReadStep {
    Event(FeedEvent),
    End,
    Fail(String),
}

/// The events the parser yields for a document's text, in order, reduced to
/// the extractor's event kinds, up to the point where the parser reports the
/// document's end or its first well-formedness error. The parser is built
/// with its fixed default configuration, so the stream is a function of the
/// text alone.
pub uninterp spec fn doc_events(s: Seq<char>) -> Seq<EventV>;

/// Whether the parser ends the stream of a document's text by reporting the
/// document's end rather than a well-formedness error: a function of the
/// text alone.
pub uninterp spec fn doc_well_formed(s: Seq<char>) -> bool;

/// The raw streaming parser. Verus sees nothing inside it; the pull wrapper
/// below is its only door. (Declaring xml::reader::EventReader itself is
/// refused over its std::io::Read bound.)
#[verifier::external_body]
struct RawReader<'a> {
    inner: xml::reader::EventReader<&'a [u8]>,
}

/// Relies on xml::reader::EventReader::from_str: a pull parser positioned at
/// the start of the given document, with the default configuration.
#[verifier::external_body]
fn raw_reader<'a>(source: &'a str) -> RawReader<'a> {
    RawReader { inner: xml::reader::EventReader::from_str(source) }
}

/// A raw parser together with which text it walks and how many of that
/// text's events it has yielded. Only `new_reader` builds one, so the ghost
/// fields always describe the raw reader beside them.
struct DocReader<'a> {
    raw: RawReader<'a>,
    source: Ghost<Seq<char>>,
    pos: Ghost<int>,
}

fn new_reader<'a>(source: &'a str) -> (r: DocReader<'a>)
    ensures
        r.source@ == source@,
        r.pos@ == 0,
{
    DocReader { raw: raw_reader(source), source: Ghost(source@), pos: Ghost(0) }
}

/// Relies on xml::reader::EventReader::next: while events of the document
/// remain, the next one, in order; after the last, forever, the document's
/// end where the document is well-formed and its first well-formedness
/// error where it is not (the parser repeats its terminal answer). Element
/// boundaries are reduced to their local names (namespace prefixes are
/// discarded), character data and literal ("CDATA") sections to their text;
/// every other event kind is ignorable.
#[verifier::external_body]
fn next_event(reader: &mut DocReader<'_>) -> (step: ReadStep)
    ensures
        final(reader).source@ == old(reader).source@,
        (old(reader).pos@ < doc_events(old(reader).source@).len() ==> ({
            &&& step matches ReadStep::Event(event) && event@ == doc_events(
                old(reader).source@,
            )[old(reader).pos@]
            &&& final(reader).pos@ == old(reader).pos@ + 1
        })),
        (old(reader).pos@ >= doc_events(old(reader).source@).len() ==> ({
            &&& final(reader).pos@ == old(reader).pos@
            &&& (doc_well_formed(old(reader).source@) ==> step is End)
            &&& (!doc_well_formed(old(reader).source@) ==> step is Fail)
        })),
{
    match reader.raw.inner.next() {
        Ok(XmlEvent::StartElement { name, .. }) => ReadStep::Event(FeedEvent::Open(name.local_name)),
        Ok(XmlEvent::EndElement { name }) => ReadStep::Event(FeedEvent::Close(name.local_name)),
        Ok(XmlEvent::Characters(text)) => ReadStep::Event(FeedEvent::Text(text)),
        Ok(XmlEvent::CData(text)) => ReadStep::Event(FeedEvent::EscapedText(text)),
        Ok(XmlEvent::EndDocument) => ReadStep::End,
        Ok(_) => ReadStep::Event(FeedEvent::Ignorable),
        Err(e) => ReadStep::Fail(format!("{}", e)),
    }
}

/// Drains the parser of one document: on a well-formed document exactly the
/// document's event sequence, on a malformed one its parse error.
#[verifier::loop_isolation(false)]
fn read_events(source: &str) -> (r: Result<Vec<FeedEvent>, FeedError>)
    ensures
        (r is Ok <==> doc_well_formed(source@)),
        (r matches Ok(events) ==> views_of_events(events@) == doc_events(source@)),
{
    let mut reader = new_reader(source);
    let mut events: Vec<FeedEvent> = Vec::new();
    proof {
        assert(views_of_events(events@) =~= doc_events(source@).take(0));
    }
    loop
        invariant
            reader.source@ == source@,
            0 <= reader.pos@ <= doc_events(source@).len(),
            views_of_events(events@) == doc_events(source@).take(reader.pos@),
        decreases doc_events(source@).len() - reader.pos@,
    {
        let ghost pre_pos = reader.pos@;
        let ghost pre_views = views_of_events(events@);
        match next_event(&mut reader) {
            ReadStep::Event(event) => {
                proof {
                    assert(pre_pos < doc_events(source@).len());
                }
                events.push(event);
                proof {
                    assert(views_of_events(events@) =~= pre_views.push(
                        doc_events(source@)[pre_pos],
                    ));
                    assert(views_of_events(events@) =~= doc_events(source@).take(pre_pos + 1));
                }
            },
            ReadStep::End => {
                proof {
                    assert(pre_pos == doc_events(source@).len());
                    assert(doc_well_formed(source@));
                    assert(views_of_events(events@) =~= doc_events(source@));
                }
                return Ok(events);
            },
            ReadStep::Fail(message) => {
                proof {
                    assert(!doc_well_formed(source@));
                }
                return Err(FeedError::Parse(message));
            },
        }
    }
}

/// Parses one feed document. On well-formed markup the result holds exactly
/// the records the extraction state machine yields from the document's event
/// stream, in document order; malformed markup fails the whole document
/// with its parse error, never with a truncated or empty record set.
pub fn parse_feed_xml(xml_content: &str) -> (r: Result<Vec<FeedItem>, FeedError>)
    ensures
        (r is Ok <==> doc_well_formed(xml_content@)),
        (r matches Ok(items) ==> views_of_items(items@) == spec_extract(
            doc_events(xml_content@),
        )),
{
    match read_events(xml_content) {
        Ok(events) => {
            let items = extract_items(&events);
            proof {
                assert(views_of_items(items@) == spec_extract(doc_events(xml_content@)));
            }
            Ok(items)
        },
        Err(e) => Err(e),
    }
}

} // verus!

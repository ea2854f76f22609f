use feed_extract::FeedEvent;
use feed_extract::calculate_guid;
use feed_extract::extract_items;
use feed_extract::parse_all_feeds;
use feed_extract::parse_feed_xml;

const SHA1_ABC: &str = "a9993e364706816aba3e25717850c26c9cd0d89d";

#[test]
fn guid_of_known_text() {
    let digest = calculate_guid("abc");
    assert_eq!(digest, SHA1_ABC);
    assert_eq!(digest.len(), 40);
    assert!(digest.chars().all(|c| c.is_ascii_hexdigit()));
    assert_ne!(calculate_guid(""), calculate_guid("abc"));
}

#[test]
fn guid_is_deterministic() {
    assert_eq!(calculate_guid("some text"), calculate_guid("some text"));
}

#[test]
fn end_to_end_single_item() {
    let doc = "<rss><channel><item><title>Hello</title><link>http://x</link>\
               <pubDate>Mon</pubDate><guid>abc</guid>\
               <encoded><![CDATA[<p>hi</p>]]></encoded></item></channel></rss>";
    let records = parse_feed_xml(doc).unwrap();
    assert_eq!(records.len(), 1);
    assert_eq!(records[0].title, "Hello");
    assert_eq!(records[0].link, "http://x");
    assert_eq!(records[0].pub_date, "Mon");
    assert_eq!(records[0].guid, SHA1_ABC);
    assert_eq!(records[0].encoded_content, "<p>hi</p>");
}

#[test]
fn one_record_per_item_in_document_order() {
    let doc = "<rss><channel>\
               <item><title>A</title></item>\
               <item><title>B</title></item>\
               <item><title>C</title></item>\
               </channel></rss>";
    let records = parse_feed_xml(doc).unwrap();
    assert_eq!(records.len(), 3);
    assert_eq!(records[0].title, "A");
    assert_eq!(records[1].title, "B");
    assert_eq!(records[2].title, "C");
}

#[test]
fn text_outside_items_is_dropped() {
    let doc = "<rss><channel><title>Outer</title>\
               <item><title>In</title></item>\
               trailing</channel></rss>";
    let records = parse_feed_xml(doc).unwrap();
    assert_eq!(records.len(), 1);
    assert_eq!(records[0].title, "In");
    assert_eq!(records[0].link, "");
    assert_eq!(records[0].pub_date, "");
    assert_eq!(records[0].encoded_content, "");
    assert_eq!(records[0].guid, "");
}

#[test]
fn namespace_prefix_is_discarded() {
    let doc = "<rss xmlns:content=\"urn:example\"><item>\
               <content:encoded>body</content:encoded></item></rss>";
    let records = parse_feed_xml(doc).unwrap();
    assert_eq!(records.len(), 1);
    assert_eq!(records[0].encoded_content, "body");
}

#[test]
fn escaped_text_concatenates_like_text_in_encoded() {
    let events = vec![
        FeedEvent::Open(String::from("item")),
        FeedEvent::Open(String::from("encoded")),
        FeedEvent::Text(String::from("one ")),
        FeedEvent::EscapedText(String::from("<b>two</b>")),
        FeedEvent::Text(String::from(" three")),
        FeedEvent::Close(String::from("encoded")),
        FeedEvent::Close(String::from("item")),
    ];
    let records = extract_items(&events);
    assert_eq!(records.len(), 1);
    assert_eq!(records[0].encoded_content, "one <b>two</b> three");
}

#[test]
fn escaped_text_outside_encoded_is_ignored() {
    let events = vec![
        FeedEvent::Open(String::from("item")),
        FeedEvent::Open(String::from("title")),
        FeedEvent::EscapedText(String::from("not captured")),
        FeedEvent::Text(String::from("kept")),
        FeedEvent::Close(String::from("title")),
        FeedEvent::Close(String::from("item")),
    ];
    let records = extract_items(&events);
    assert_eq!(records.len(), 1);
    assert_eq!(records[0].title, "kept");
    assert_eq!(records[0].encoded_content, "");
}

#[test]
fn cdata_in_title_is_ignored_end_to_end() {
    let doc = "<rss><item><title><![CDATA[x]]></title></item></rss>";
    let records = parse_feed_xml(doc).unwrap();
    assert_eq!(records.len(), 1);
    assert_eq!(records[0].title, "");
}

#[test]
fn identifier_fragments_hashed_independently() {
    let events = vec![
        FeedEvent::Open(String::from("item")),
        FeedEvent::Open(String::from("guid")),
        FeedEvent::Text(String::from("ab")),
        FeedEvent::Text(String::from("c")),
        FeedEvent::Close(String::from("guid")),
        FeedEvent::Close(String::from("item")),
    ];
    let records = extract_items(&events);
    assert_eq!(records.len(), 1);
    let expected = format!("{}{}", calculate_guid("ab"), calculate_guid("c"));
    assert_eq!(records[0].guid, expected);
    assert_ne!(records[0].guid, calculate_guid("abc"));
}

#[test]
fn unmatched_text_events_write_nothing() {
    let events = vec![
        FeedEvent::Text(String::from("lost")),
        FeedEvent::Open(String::from("item")),
        FeedEvent::Text(String::from("also lost")),
        FeedEvent::Close(String::from("item")),
        FeedEvent::EscapedText(String::from("gone")),
    ];
    let records = extract_items(&events);
    assert_eq!(records.len(), 1);
    assert_eq!(records[0].title, "");
    assert_eq!(records[0].encoded_content, "");
}

#[test]
fn any_close_clears_the_current_element() {
    // Only the innermost, most recently opened element routes text: after a
    // child closes, text is dropped until the next element opens.
    let doc = "<rss><item><title>A<b>x</b>B</title></item></rss>";
    let records = parse_feed_xml(doc).unwrap();
    assert_eq!(records.len(), 1);
    assert_eq!(records[0].title, "A");
}

#[test]
fn parse_is_idempotent() {
    let doc = "<rss><item><title>T</title><guid>id-1</guid></item></rss>";
    let first = parse_feed_xml(doc).unwrap();
    let second = parse_feed_xml(doc).unwrap();
    assert_eq!(first, second);
}

#[test]
fn malformed_document_fails() {
    let doc = "<rss><item></rss>";
    assert!(parse_feed_xml(doc).is_err());
}

#[test]
fn malformed_source_aborts_whole_run() {
    let good = String::from("<rss><item><title>Ok</title></item></rss>");
    let bad = String::from("<rss><item>");
    let docs = vec![good, bad];
    assert!(parse_all_feeds(&docs).is_err());
}

#[test]
fn merge_preserves_source_order() {
    let docs = vec![
        String::from("<rss><item><title>A1</title></item><item><title>A2</title></item></rss>"),
        String::from("<rss><item><title>B1</title></item></rss>"),
    ];
    let records = parse_all_feeds(&docs).unwrap();
    assert_eq!(records.len(), 3);
    assert_eq!(records[0].title, "A1");
    assert_eq!(records[1].title, "A2");
    assert_eq!(records[2].title, "B1");
}

#[test]
fn empty_source_list_yields_no_records() {
    let docs: Vec<String> = Vec::new();
    let records = parse_all_feeds(&docs).unwrap();
    assert!(records.is_empty());
}

use microtak_server::cot::{CotError, Event, Point};
use microtak_server::transport::codec::{DecodedItem, StreamDecoder, StreamError};

fn body_xml(uid: &str) -> String {
    format!(
        r#"<event version="2.0" uid="{uid}" type="a-f-G-U-C" how="m-g" time="2026-09-21T12:00:00Z" start="2026-09-21T12:00:00Z" stale="2026-09-21T12:05:00Z"><point lat="53.25" lon="10.4" hae="10.0" ce="5.0" le="3.0"/></event>"#
    )
}

fn event_xml(uid: &str) -> String {
    format!(r#"<?xml version="1.0" encoding="UTF-8"?>{}"#, body_xml(uid))
}

#[test]
fn tc_stream_01_decodes_multiple_concatenated_events_with_declarations() {
    let mut decoder = StreamDecoder::new();
    let stream = format!("{}{}", event_xml("A"), event_xml("B"));
    let items = decoder.feed(stream.as_bytes()).expect("no stream error");
    assert_eq!(items.len(), 2);
    assert_eq!(items[0], body_xml("A"));
    assert_eq!(items[1], body_xml("B"));
}

#[test]
fn tc_stream_02_handles_declaration_split_across_feeds() {
    let mut decoder = StreamDecoder::new();
    let full = event_xml("SPLIT-DECL");
    // Split mid-declaration: "<?xm" | "l version=...?><event ...>"
    let (first, second) = full.split_at(4);
    assert!(decoder.feed(first.as_bytes()).unwrap().is_empty());
    let items = decoder.feed(second.as_bytes()).unwrap();
    assert_eq!(items.len(), 1);
    assert_eq!(items[0], body_xml("SPLIT-DECL"));
}

#[test]
fn tc_stream_03_handles_event_split_at_arbitrary_byte_boundary() {
    let mut decoder = StreamDecoder::new();
    let full = event_xml("SPLIT-EVENT");
    // Split well inside the <event> element, not at a tag boundary.
    let midpoint = full.len() / 2;
    let (first, second) = full.split_at(midpoint);
    assert!(decoder.feed(first.as_bytes()).unwrap().is_empty());
    let items = decoder.feed(second.as_bytes()).unwrap();
    assert_eq!(items.len(), 1);
    assert_eq!(items[0], body_xml("SPLIT-EVENT"));
}

#[test]
fn tc_stream_03b_handles_byte_by_byte_feed() {
    let mut decoder = StreamDecoder::new();
    let full = event_xml("BYTE-BY-BYTE");
    let mut items = Vec::new();
    for byte in full.as_bytes() {
        items.extend(decoder.feed(&[*byte]).unwrap());
    }
    assert_eq!(items.len(), 1);
    assert_eq!(items[0], body_xml("BYTE-BY-BYTE"));
}

#[test]
fn tc_stream_04_rejects_unexpected_leading_content() {
    let mut decoder = StreamDecoder::new();
    let err = decoder
        .feed(b"this is not a CoT stream at all")
        .expect_err("should be a fatal stream error");
    assert!(matches!(err, StreamError::UnexpectedContent(_)));
    match err {
        StreamError::UnexpectedContent(bad) => assert_eq!(bad, b"this is not a CoT stream at all"),
        StreamError::TooLarge { .. } => panic!("not too large"),
    }
}

#[test]
fn tc_stream_05_skips_semantically_invalid_event_and_keeps_decoding() {
    let mut decoder = StreamDecoder::new();
    // Missing required `uid` attribute -- well-formed XML, invalid CoT.
    let bad = r#"<event version="2.0" type="a-f-G-U-C" how="m-g" time="2026-09-21T12:00:00Z" start="2026-09-21T12:00:00Z" stale="2026-09-21T12:05:00Z"><point lat="53.25" lon="10.4" hae="10.0" ce="5.0" le="3.0"/></event>"#;
    let stream = format!("{bad}{}", event_xml("AFTER-BAD"));
    let documents = decoder.feed(stream.as_bytes()).unwrap();
    assert_eq!(documents.len(), 2);
    assert_eq!(documents[0], bad);
    assert_eq!(documents[1], body_xml("AFTER-BAD"));

    let error = CotError::Xml("missing field `@uid`".to_string());
    let first = DecodedItem::decoded(documents[0].clone(), Err(error));
    assert!(matches!(&first, DecodedItem::Skipped { xml, .. } if xml == bad));
    assert_eq!(
        first.summary(),
        "Skipped(CoT XML (de)serialization failed: missing field `@uid`)"
    );
    let second = DecodedItem::decoded(documents[1].clone(), Ok(event("AFTER-BAD")));
    assert!(matches!(&second, DecodedItem::Event(e) if e.uid == "AFTER-BAD"));
    assert_eq!(second.summary(), "Event(uid=AFTER-BAD)");
}

#[test]
fn enforces_max_buffered_size_tc_limit_01() {
    let mut decoder = StreamDecoder::with_max_buffered(16);
    // A declaration that never closes, larger than the 16-byte cap.
    let err = decoder
        .feed(b"<?xml version=\"1.0\" this never closes")
        .expect_err("should hit the size limit");
    assert!(matches!(err, StreamError::TooLarge { .. }));
    assert_eq!(
        err.message(),
        "buffered 37 bytes waiting for a closing tag, exceeding the 16-byte limit"
    );
}

#[test]
fn tolerates_whitespace_between_events() {
    let mut decoder = StreamDecoder::new();
    let stream = format!("{}\n\n  {}", event_xml("WS-A"), event_xml("WS-B"));
    let items = decoder.feed(stream.as_bytes()).unwrap();
    assert_eq!(items.len(), 2);
}

#[test]
fn every_way_to_cut_a_stream_in_two_gives_the_same_documents() {
    let full = format!(" \t{}\r\n{} <ev", event_xml("A"), body_xml("B"));
    let mut whole = StreamDecoder::new();
    let expected = whole.feed(full.as_bytes()).unwrap();
    for cut in 0..full.len() {
        let mut decoder = StreamDecoder::new();
        let mut items = decoder.feed(&full.as_bytes()[..cut]).unwrap();
        items.extend(decoder.feed(&full.as_bytes()[cut..]).unwrap());
        assert_eq!(items, expected);
        let rest = decoder.feed(b"ent></event>").unwrap();
        assert_eq!(rest, vec!["<event></event>"]);
    }
}

#[test]
fn garbage_behind_an_event_ends_the_stream_and_empties_the_buffer() {
    let mut decoder = StreamDecoder::default();
    let stream = format!("{}<evil>", body_xml("A"));
    let err = decoder.feed(stream.as_bytes()).unwrap_err();
    assert_eq!(
        err.message(),
        "unexpected byte(s) in CoT stream (not an XML declaration or <event>): [60, 101, 118, 105, 108, 62]"
    );
    assert_eq!(decoder.feed(body_xml("B").as_bytes()).unwrap(), vec![body_xml("B")]);
}

#[test]
fn bytes_that_are_no_utf8_are_replaced() {
    let mut decoder = StreamDecoder::new();
    let items = decoder.feed(b"<event a=\"\xff\"></event>").unwrap();
    assert_eq!(items, vec!["<event a=\"\u{fffd}\"></event>"]);
}

#[test]
fn the_limit_counts_what_waits_and_not_what_is_complete() {
    let mut decoder = StreamDecoder::with_max_buffered(8);
    let stream = format!("{}<event a", body_xml("LONG"));
    assert_eq!(decoder.feed(stream.as_bytes()).unwrap().len(), 1);
    let err = decoder.feed(b"b").unwrap_err();
    assert!(matches!(err, StreamError::TooLarge { buffered: 9, limit: 8 }));
}

fn event(uid: &str) -> Event {
    Event {
        version: "2.0".to_string(),
        uid: uid.to_string(),
        cot_type: "a-f-G-U-C".to_string(),
        how: "m-g".to_string(),
        time: "2026-09-21T12:00:00Z".to_string(),
        start: "2026-09-21T12:00:00Z".to_string(),
        stale: "2026-09-21T12:05:00Z".to_string(),
        point: Point { lat: 0, lon: 0, hae: 0, ce: 0, le: 0 },
        detail: None,
    }
}

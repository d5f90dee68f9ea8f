use microtak_server::eventlog::{
    events_until_corrupt, finish_reading, parsed_events, readable_text, record_line, records,
    whole_lines, EventLogError,
};

/// Whether the number is set or added, and the number.
type TestEvent = (bool, i64);

fn write(event: &TestEvent) -> String {
    match event {
        (true, n) => format!("{{\"Set\":{n}}}"),
        (false, n) => format!("{{\"Add\":{n}}}"),
    }
}

fn read(text: &str) -> Result<TestEvent, String> {
    let value: serde_json::Value = serde_json::from_str(text).map_err(|e| e.to_string())?;
    if let Some(n) = value["Set"].as_i64() {
        Ok((true, n))
    } else if let Some(n) = value["Add"].as_i64() {
        Ok((false, n))
    } else {
        Err("unknown variant".to_string())
    }
}

fn apply(state: &mut i64, event: &TestEvent) {
    match event {
        (true, n) => *state = *n,
        (false, n) => *state += *n,
    }
}

fn replay(contents: &str) -> Result<Vec<TestEvent>, EventLogError> {
    let parsed = records(contents).into_iter().map(|r| (r.line, read(&r.text))).collect();
    parsed_events("events.jsonl", parsed)
}

#[test]
fn replays_events_in_order_to_reconstruct_state() {
    let mut contents = String::new();
    for event in [(true, 10), (false, 5), (false, -3)] {
        contents.push_str(&record_line(&write(&event)));
    }
    let mut state = 0i64;
    for event in replay(&contents).unwrap() {
        apply(&mut state, &event);
    }
    assert_eq!(state, 12);
}

#[test]
fn missing_log_file_replays_as_empty() {
    let mut state = 42i64;
    for event in replay("").unwrap() {
        apply(&mut state, &event);
    }
    assert_eq!(state, 42, "no events to replay -- state must be untouched");
}

#[test]
fn corrupt_line_is_a_clean_error_not_a_panic() {
    let contents = "{\"Set\":1}\nnot valid json\n";
    let result = replay(contents);
    assert!(matches!(result, Err(EventLogError::Corrupt { line: 2, .. })));
    // What came before the bad line was applied.
    let parsed = records(contents).into_iter().map(|r| (r.line, read(&r.text))).collect();
    let (events, error) = events_until_corrupt("events.jsonl", parsed);
    assert!(matches!(error, Some(EventLogError::Corrupt { line: 2, .. })));
    let mut state = 0i64;
    for event in &events {
        apply(&mut state, event);
    }
    assert_eq!(state, 1);
    match result.unwrap_err() {
        EventLogError::Corrupt { path, line, source } => {
            assert_eq!(path, "events.jsonl");
            let error = EventLogError::Corrupt { path, line, source: source.clone() };
            assert_eq!(
                error.message(),
                format!("corrupt event log events.jsonl at line 2: {source}")
            );
        }
        other => panic!("expected a corrupt log, got {other:?}"),
    }
}

#[test]
fn append_is_durable_across_a_fresh_open() {
    let contents = record_line(&write(&(true, 7)));
    assert_eq!(contents.lines().count(), 1);
    assert_eq!(replay(&contents).unwrap(), vec![(true, 7)]);
}

#[test]
fn blank_lines_are_skipped_and_counted() {
    let found = records("a\n\n  \t\nb\r\nc");
    let numbered: Vec<(usize, &str)> = found.iter().map(|r| (r.line, r.text.as_str())).collect();
    assert_eq!(numbered, vec![(1, "a"), (4, "b"), (5, "c")]);
}

#[test]
fn a_carriage_return_without_a_line_feed_stays() {
    let found = records("baz\r");
    assert_eq!(found.len(), 1);
    assert_eq!(found[0].text, "baz\r");
}

#[test]
fn the_first_bad_record_decides() {
    let result = replay("{\"Set\":1}\nbad\nworse\n");
    assert!(matches!(result, Err(EventLogError::Corrupt { line: 2, .. })));
}

#[test]
fn read_errors_are_told_in_words() {
    let error = EventLogError::Read { path: "e.log".to_string(), source: "bad utf-8".to_string() };
    assert_eq!(error.message(), "failed to read event log e.log: bad utf-8");
}

#[test]
fn a_log_is_read_up_to_the_first_line_that_is_not_text() {
    assert_eq!(readable_text(b""), (String::new(), true));
    assert_eq!(readable_text("a\n\u{e9}".as_bytes()), ("a\n\u{e9}".to_string(), true));
    assert_eq!(readable_text(b"a\nb\n\xff\nc\n"), ("a\nb\n".to_string(), false));
    assert_eq!(readable_text(b"a\nb\xc3"), ("a\n".to_string(), false));
    assert_eq!(readable_text(b"\xff"), (String::new(), false));
}

#[test]
fn a_bad_record_is_met_before_bytes_that_are_no_text() {
    let parsed: Vec<(usize, Result<u8, String>)> = vec![(1, Ok(1)), (2, Err("bad".to_string()))];
    let why = Some("stream did not contain valid UTF-8".to_string());
    assert_eq!(finish_reading("e.log", parsed.clone(), why.clone()).unwrap(), parsed);
    assert_eq!(finish_reading("e.log", parsed.clone(), None).unwrap(), parsed);
    let fine: Vec<(usize, Result<u8, String>)> = vec![(1, Ok(1))];
    let error = finish_reading("e.log", fine, why).unwrap_err();
    assert_eq!(
        error.message(),
        "failed to read event log e.log: stream did not contain valid UTF-8"
    );
}

#[test]
fn events_of_a_whole_log_come_without_an_error() {
    let parsed: Vec<(usize, Result<u8, String>)> = vec![(1, Ok(1)), (3, Ok(2))];
    let (events, error) = events_until_corrupt("e.log", parsed);
    assert_eq!(events, vec![1, 2]);
    assert!(error.is_none());
}

#[test]
fn only_whole_lines_are_kept_of_what_was_read() {
    assert_eq!(whole_lines(b""), 0);
    assert_eq!(whole_lines(b"no line break"), 0);
    assert_eq!(whole_lines(b"one\n"), 4);
    assert_eq!(whole_lines(b"one\ntwo\nthr"), 8);
    assert_eq!(whole_lines(b"\n"), 1);
    assert_eq!(whole_lines(b"\n\xff"), 1);
}

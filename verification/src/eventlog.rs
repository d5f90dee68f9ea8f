//! The format of an append-only event log: one record per line.
//!
//! A store appends a record before it changes what readers see, and rebuilds
//! itself from the records in order when it starts.

use crate::search::{absent, find_spec, first_at, lemma_find_extend, lemma_find_is, lemma_find_sound,
    occurs_at};
use crate::text::{cat, decimal, decimal_spec, is_blank, law_trimming_takes_only_white_space, lines,
    lines_spec, strip_cr, trim, trim_spec, utf8_text};
use crate::views::lemma_view_push;
use vstd::prelude::*;
use vstd::utf8::{decode_utf8, valid_utf8, valid_utf8_concat};

verus! {

/// Why a log could not be opened, read or written.
#[derive(Debug)]
pub enum EventLogError {
    Open { path: String, source: String },
    Append { path: String, source: String },
    Read { path: String, source: String },
    Corrupt { path: String, line: usize, source: String },
}

impl EventLogError {
    /// What `message` says.
    pub open spec fn message_spec(&self) -> Seq<char> {
        match *self {
            EventLogError::Open { path, source } => "failed to open event log "@ + path@ + (": "@
                + source@ + ""@),
            EventLogError::Append { path, source } => "failed to append to event log "@ + path@ + (
            ": "@ + source@ + ""@),
            EventLogError::Read { path, source } => "failed to read event log "@ + path@ + (": "@
                + source@ + ""@),
            EventLogError::Corrupt { path, line, source } => "corrupt event log "@ + path@ + (
            " at line "@ + decimal_spec(line as nat) + (": "@ + source@ + ""@)),
        }
    }

    /// The error in words.
    pub fn message(&self) -> (res: String)
        ensures
            res@ == self.message_spec(),
    {
        match self {
            EventLogError::Open { path, source } => {
                cat("failed to open event log ", path, &cat(": ", source, ""))
            },
            EventLogError::Append { path, source } => {
                cat("failed to append to event log ", path, &cat(": ", source, ""))
            },
            EventLogError::Read { path, source } => {
                cat("failed to read event log ", path, &cat(": ", source, ""))
            },
            EventLogError::Corrupt { path, line, source } => {
                let at = cat(" at line ", &decimal(*line as u64), &cat(": ", source, ""));
                cat("corrupt event log ", path, &at)
            },
        }
    }
}

/// The records among `lines`, each with the number of its line, from `first` on:
/// the lines that are not blank.
pub open spec fn records_from(lines: Seq<Seq<char>>, first: nat) -> Seq<(nat, Seq<char>)>
    decreases lines.len(),
{
    if lines.len() == 0 {
        seq![]
    } else {
        let head = records_from(lines.drop_last(), first);
        if trim_spec(lines.last()).len() == 0 {
            head
        } else {
            head.push(((first + lines.len() - 1) as nat, lines.last()))
        }
    }
}

/// The records of a log with these contents, each with its line number from 1.
pub open spec fn records_spec(contents: Seq<char>) -> Seq<(nat, Seq<char>)> {
    records_from(lines_spec(contents), 1)
}

/// A numbered record.
#[derive(Debug, PartialEq)]
pub struct Record {
    /// The number of its line, from 1.
    pub line: usize,
    /// The line.
    pub text: String,
}

impl DeepView for Record {
    type V = (nat, Seq<char>);

    open spec fn deep_view(&self) -> (nat, Seq<char>) {
        (self.line as nat, self.text@)
    }
}

/// The records of a log with these contents.
pub fn records(contents: &str) -> (res: Vec<Record>)
    ensures
        res.deep_view() == records_spec(contents@),
{
    let all = lines(contents);
    let ghost texts = all.deep_view();
    let mut res: Vec<Record> = Vec::new();
    let mut i: usize = 0;
    assert(texts.take(0) =~= seq![]);
    assert(res.deep_view() =~= seq![]);
    while i < all.len()
        invariant
            texts == all.deep_view(),
            texts.len() == all@.len(),
            i <= all@.len(),
            res.deep_view() == records_from(texts.take(i as int), 1),
        decreases all@.len() - i,
    {
        let ghost before = res;
        assert(texts.take(i + 1).drop_last() =~= texts.take(i as int));
        let body = trim(&all[i]);
        if !body.as_str().is_empty() {
            let record = Record { line: i + 1, text: all[i].clone() };
            res.push(record);
            proof {
                lemma_view_push(before, res, record);
            }
        }
        i = i + 1;
    }
    assert(texts.take(i as int) =~= texts);
    res
}

/// A record as it is appended.
pub fn record_line(record: &str) -> (res: String)
    ensures
        res@ == record@.push('\n'),
{
    let mut res = record.to_owned();
    res.push('\n');
    res
}

/// `text` is one line.
pub open spec fn is_line(text: Seq<char>) -> bool {
    &&& !text.contains('\n')
    &&& text.len() > 0
    &&& text.last() != '\r'
}

/// `record` is one line and not blank.
pub open spec fn is_record(record: Seq<char>) -> bool {
    is_line(record) && trim_spec(record).len() > 0
}

/// A log that was only ever appended to whole lines is empty or ends a line.
pub open spec fn is_whole(contents: Seq<char>) -> bool {
    contents.len() == 0 || contents.last() == '\n'
}

/// The lines of whole contents with a line behind them are their lines and it.
proof fn lemma_lines_append(contents: Seq<char>, record: Seq<char>)
    requires
        is_whole(contents),
        !record.contains('\n'),
    ensures
        lines_spec(contents + record.push('\n')) == lines_spec(contents).push(strip_cr(record)),
    decreases contents.len(),
{
    let feed = seq!['\n'];
    let line = record.push('\n');
    let whole = contents + line;
    lemma_find_sound(contents, feed);
    if contents.len() == 0 {
        assert(whole =~= line);
        let n = record.len() as int;
        assert(line.subrange(n, n + 1) =~= feed);
        assert forall|j: int| 0 <= j < n implies !#[trigger] occurs_at(line, feed, j) by {
            if occurs_at(line, feed, j) {
                assert(line.subrange(j, j + 1)[0] == '\n');
                assert(record[j] == '\n');
            }
        }
        assert(first_at(line, feed, n));
        lemma_find_is(line, feed, n);
        assert(line.take(n) =~= record);
        assert(line.skip(n + 1) =~= seq![]);
        assert(lines_spec(line.skip(n + 1)) =~= seq![]);
        assert(lines_spec(whole) =~= seq![strip_cr(record)]);
    } else {
        let n = contents.len() - 1;
        assert(contents.subrange(n, n + 1) =~= feed);
        assert(occurs_at(contents, feed, n));
        let i = find_spec(contents, feed)->0;
        lemma_find_extend(contents, line, feed);
        let rest = contents.skip(i + 1);
        assert(whole.take(i) =~= contents.take(i));
        assert(whole.skip(i + 1) =~= rest + line);
        if rest.len() > 0 {
            assert(rest.last() == contents.last());
        }
        lemma_lines_append(rest, record);
        let head = seq![strip_cr(contents.take(i))];
        assert(head + lines_spec(rest).push(strip_cr(record)) =~= (head + lines_spec(rest)).push(
            strip_cr(record),
        ));
    }
}

/// A line that nothing ends behind whole contents is their last line.
proof fn lemma_lines_append_open(contents: Seq<char>, record: Seq<char>)
    requires
        is_whole(contents),
        !record.contains('\n'),
        record.len() > 0,
    ensures
        lines_spec(contents + record) == lines_spec(contents).push(record),
    decreases contents.len(),
{
    let feed = seq!['\n'];
    let whole = contents + record;
    lemma_find_sound(contents, feed);
    if contents.len() == 0 {
        assert(whole =~= record);
        assert forall|j: int| !#[trigger] occurs_at(record, feed, j) by {
            if occurs_at(record, feed, j) {
                assert(record.subrange(j, j + 1)[0] == '\n');
                assert(record[j] == '\n');
            }
        }
        assert(absent(record, feed));
        assert(lines_spec(contents) =~= seq![]);
        assert(lines_spec(whole) =~= seq![record]);
    } else {
        let n = contents.len() - 1;
        assert(contents.subrange(n, n + 1) =~= feed);
        assert(occurs_at(contents, feed, n));
        let i = find_spec(contents, feed)->0;
        lemma_find_extend(contents, record, feed);
        let rest = contents.skip(i + 1);
        assert(whole.take(i) =~= contents.take(i));
        assert(whole.skip(i + 1) =~= rest + record);
        if rest.len() > 0 {
            assert(rest.last() == contents.last());
        }
        lemma_lines_append_open(rest, record);
        let head = seq![strip_cr(contents.take(i))];
        assert(head + lines_spec(rest).push(record) =~= (head + lines_spec(rest)).push(record));
    }
}

/// An appended record is read back, as the last one, and moves none of those
/// before it; the log stays whole.
pub proof fn law_append_is_read_back(contents: Seq<char>, record: Seq<char>)
    requires
        is_whole(contents),
        is_record(record),
    ensures
        is_whole(contents + record.push('\n')),
        records_spec(contents + record.push('\n')) == records_spec(contents).push(
            (lines_spec(contents).len() + 1, record),
        ),
{
    lemma_lines_append(contents, record);
    let before = lines_spec(contents);
    assert(before.push(record).drop_last() =~= before);
    assert((contents + record.push('\n')).last() == '\n');
}

/// What a log of `records`, appended in order to an empty one, holds.
pub open spec fn written(records: Seq<Seq<char>>) -> Seq<char>
    decreases records.len(),
{
    if records.len() == 0 {
        seq![]
    } else {
        written(records.drop_last()) + records.last().push('\n')
    }
}

/// Lines that are written one after another are read back.
pub proof fn lemma_written_lines(lines: Seq<Seq<char>>)
    requires
        forall|i: int| 0 <= i < lines.len() ==> is_line(#[trigger] lines[i]),
    ensures
        is_whole(written(lines)),
        lines_spec(written(lines)) == lines,
    decreases lines.len(),
{
    if lines.len() == 0 {
        assert(lines_spec(written(lines)) =~= lines);
    } else {
        let head = lines.drop_last();
        assert forall|i: int| 0 <= i < head.len() implies is_line(#[trigger] head[i]) by {
            assert(is_line(lines[i]));
        }
        lemma_written_lines(head);
        assert(is_line(lines[lines.len() - 1]));
        lemma_lines_append(written(head), lines.last());
        assert(head.push(lines.last()) =~= lines);
        assert((written(head) + lines.last().push('\n')).last() == '\n');
    }
}

/// A log reads back exactly what was written to it, in order, the nth record
/// on the nth line.
pub proof fn law_log_round_trip(records: Seq<Seq<char>>)
    requires
        forall|i: int| 0 <= i < records.len() ==> is_record(#[trigger] records[i]),
    ensures
        is_whole(written(records)),
        records_spec(written(records)) == Seq::new(
            records.len(),
            |i: int| ((i + 1) as nat, records[i]),
        ),
        lines_spec(written(records)) == records,
    decreases records.len(),
{
    if records.len() == 0 {
        assert(lines_spec(seq![]) =~= seq![]);
        assert(lines_spec(written(records)) =~= records);
        assert(records_spec(written(records)) =~= Seq::new(
            records.len(),
            |i: int| ((i + 1) as nat, records[i]),
        ));
    } else {
        let head = records.drop_last();
        assert forall|i: int| 0 <= i < head.len() implies is_record(#[trigger] head[i]) by {
            assert(is_record(records[i]));
        }
        law_log_round_trip(head);
        assert(is_record(records.last()));
        lemma_lines_append(written(head), records.last());
        law_append_is_read_back(written(head), records.last());
        assert(head.push(records.last()) =~= records);
        assert(records_spec(written(records)) =~= Seq::new(
            records.len(),
            |i: int| ((i + 1) as nat, records[i]),
        ));
    }
}

/// Every record of a log could be parsed.
pub open spec fn readable<E>(parsed: Seq<(usize, Result<E, String>)>) -> bool {
    forall|i: int| 0 <= i < parsed.len() ==> (#[trigger] parsed[i]).1 is Ok
}

/// The models of a log's events, each of which could be parsed.
pub open spec fn event_views<E: DeepView>(parsed: Seq<(usize, Result<E, String>)>) -> Seq<E::V> {
    parsed.map_values(|record: (usize, Result<E, String>)| record.1->Ok_0.deep_view())
}

/// `error` reports the first record that could not be parsed, at its line.
pub open spec fn first_corrupt<E>(
    path: Seq<char>,
    parsed: Seq<(usize, Result<E, String>)>,
    error: EventLogError,
) -> bool {
    &&& error matches EventLogError::Corrupt { path: at, line, source }
    &&& at@ == path
    &&& exists|i: int|
        {
            &&& 0 <= i < parsed.len()
            &&& #[trigger] parsed[i] == (line, Err::<E, String>(source))
            &&& forall|j: int| 0 <= j < i ==> (#[trigger] parsed[j]).1 is Ok
        }
}

/// How many records of a log come before the first that could not be parsed.
pub open spec fn intact<E>(parsed: Seq<(usize, Result<E, String>)>) -> nat
    decreases parsed.len(),
{
    if parsed.len() == 0 || parsed[0].1 is Err {
        0
    } else {
        1 + intact(parsed.skip(1))
    }
}

/// The records before the first that could not be parsed are the first that
/// could, up to one that could not or the end.
proof fn lemma_intact<E>(parsed: Seq<(usize, Result<E, String>)>, n: nat)
    requires
        n <= parsed.len(),
        forall|j: int| 0 <= j < n ==> (#[trigger] parsed[j]).1 is Ok,
        n < parsed.len() ==> parsed[n as int].1 is Err,
    ensures
        intact(parsed) == n,
    decreases n,
{
    if n > 0 {
        assert(parsed[0].1 is Ok);
        let rest = parsed.skip(1);
        assert forall|j: int| 0 <= j < n - 1 implies (#[trigger] rest[j]).1 is Ok by {
            assert(rest[j] == parsed[j + 1]);
        }
        lemma_intact(rest, (n - 1) as nat);
    }
}

/// The events of a log up to the first record that could not be parsed, given
/// what each record was parsed into, and the error that reports that record.
pub fn events_until_corrupt<E: DeepView>(
    path: &str,
    parsed: Vec<(usize, Result<E, String>)>,
) -> (res: (Vec<E>, Option<EventLogError>))
    ensures
        res.0.deep_view() == event_views(parsed@.take(intact(parsed@) as int)),
        match res.1 {
            None => readable(parsed@) && intact(parsed@) == parsed@.len(),
            Some(error) => !readable(parsed@) && first_corrupt(path@, parsed@, error),
        },
{
    let mut events: Vec<E> = Vec::new();
    let ghost all = parsed@;
    assert(events.deep_view() =~= event_views(all.take(0)));
    for entry in it: parsed
        invariant
            it.seq() == all,
            all == parsed@,
            events.deep_view() == event_views(all.take(it.index() as int)),
            forall|j: int| 0 <= j < it.index() ==> (#[trigger] all[j]).1 is Ok,
    {
        match entry.1 {
            Ok(event) => {
                let ghost before = events;
                events.push(event);
                proof {
                    lemma_view_push(before, events, event);
                    assert(events.deep_view() =~= event_views(all.take(it.index() + 1)));
                }
            },
            Err(source) => {
                assert(all[it.index() as int] == (entry.0, Err::<E, String>(source)));
                proof {
                    lemma_intact(all, it.index() as nat);
                }
                let error = EventLogError::Corrupt { path: path.to_owned(), line: entry.0, source };
                return (events, Some(error));
            },
        }
    }
    proof {
        lemma_intact(all, all.len());
    }
    (events, None)
}

/// The events of a log, given what each record was parsed into; the first
/// record that could not be parsed makes the log corrupt at its line.
pub fn parsed_events<E: DeepView>(path: &str, parsed: Vec<(usize, Result<E, String>)>) -> (res:
    Result<Vec<E>, EventLogError>)
    ensures
        match res {
            Ok(events) => readable(parsed@) && events.deep_view() == event_views(parsed@),
            Err(error) => !readable(parsed@) && first_corrupt(path@, parsed@, error),
        },
{
    let ghost all = parsed@;
    let (events, error) = events_until_corrupt(path, parsed);
    assert(all.take(all.len() as int) =~= all);
    match error {
        None => Ok(events),
        Some(error) => Err(error),
    }
}

/// The end of the line that starts at `from`: behind its line feed, or the end
/// of the bytes.
pub open spec fn line_end(bytes: Seq<u8>, from: int) -> int
    decreases bytes.len() - from,
{
    if from >= bytes.len() {
        bytes.len() as int
    } else if bytes[from] == 0x0a {
        from + 1
    } else {
        line_end(bytes, from + 1)
    }
}

/// A line that starts within the bytes ends behind its start, within them.
pub proof fn lemma_line_end(bytes: Seq<u8>, from: int)
    requires
        0 <= from < bytes.len(),
    ensures
        from < line_end(bytes, from) <= bytes.len(),
    decreases bytes.len() - from,
{
    reveal_with_fuel(line_end, 2);
    if bytes[from] != 0x0a && from + 1 < bytes.len() {
        lemma_line_end(bytes, from + 1);
    }
}

/// Where the first line at or behind `from` starts that is not UTF-8; the end
/// of the bytes where there is none.
pub open spec fn text_end(bytes: Seq<u8>, from: int) -> int
    decreases bytes.len() - from,
{
    if from < 0 || from >= bytes.len() {
        bytes.len() as int
    } else {
        proof {
            lemma_line_end(bytes, from);
        }
        if valid_utf8(bytes.subrange(from, line_end(bytes, from))) {
            text_end(bytes, line_end(bytes, from))
        } else {
            from
        }
    }
}

/// How many of the bytes are whole lines: all of them up to and with the last
/// line break, none where there is no line break.
pub fn whole_lines(bytes: &[u8]) -> (res: usize)
    ensures
        res <= bytes@.len(),
        res > 0 ==> bytes@[res - 1] == 0x0a,
        forall|i: int| res <= i < bytes@.len() ==> #[trigger] bytes@[i] != 0x0a,
{
    let mut res: usize = bytes.len();
    while res > 0 && bytes[res - 1] != 0x0a
        invariant
            res <= bytes@.len(),
            forall|i: int| res <= i < bytes@.len() ==> #[trigger] bytes@[i] != 0x0a,
        decreases res,
    {
        res = res - 1;
    }
    res
}

/// The text of a log up to the first line that is not UTF-8, and whether that
/// is all of it.
pub fn readable_text(bytes: &[u8]) -> (res: (String, bool))
    ensures
        valid_utf8(bytes@.take(text_end(bytes@, 0))),
        res.0@ == decode_utf8(bytes@.take(text_end(bytes@, 0))),
        res.1 == (text_end(bytes@, 0) == bytes@.len()),
{
    let end: usize = bytes.len();
    let mut from: usize = 0;
    assert(bytes@.take(0) =~= seq![]);
    while from < end
        invariant_except_break
            text_end(bytes@, 0) == text_end(bytes@, from as int),
        invariant
            end == bytes@.len(),
            from <= end,
            valid_utf8(bytes@.take(from as int)),
        ensures
            from == text_end(bytes@, 0),
        decreases end - from,
    {
        let mut to: usize = from;
        while to < end && bytes[to] != 0x0a
            invariant
                end == bytes@.len(),
                from <= to <= end,
                from < end,
                line_end(bytes@, from as int) == line_end(bytes@, to as int),
            decreases end - to,
        {
            to = to + 1;
        }
        if to < end {
            to = to + 1;
        }
        proof {
            lemma_line_end(bytes@, from as int);
        }
        assert(to == line_end(bytes@, from as int));
        let line = vstd::slice::slice_subrange(bytes, from, to);
        if utf8_text(line).is_none() {
            break;
        }
        proof {
            valid_utf8_concat(bytes@.take(from as int), line@);
            assert(bytes@.take(from as int) + line@ =~= bytes@.take(to as int));
        }
        from = to;
    }
    let whole = from == end;
    match utf8_text(vstd::slice::slice_subrange(bytes, 0, from)) {
        Some(text) => {
            assert(bytes@.subrange(0, from as int) =~= bytes@.take(from as int));
            (text, whole)
        },
        None => {
            assert(bytes@.subrange(0, from as int) =~= bytes@.take(from as int));
            (String::new(), whole)
        },
    }
}

/// What reading a log comes to, given what its records were parsed into and
/// why reading stopped early, if it did: a record that could not be parsed is
/// met before that, and is left for the replay to report.
pub fn finish_reading<E>(
    path: &str,
    parsed: Vec<(usize, Result<E, String>)>,
    stopped: Option<String>,
) -> (res: Result<Vec<(usize, Result<E, String>)>, EventLogError>)
    ensures
        match res {
            Ok(records) => records == parsed && (stopped is None || !readable(parsed@)),
            Err(error) => {
                &&& stopped matches Some(why)
                &&& readable(parsed@)
                &&& error matches EventLogError::Read { path: at, source }
                &&& at@ == path@
                &&& source == why
            },
        },
{
    let source = match stopped {
        Some(source) => source,
        None => {
            return Ok(parsed);
        },
    };
    let mut i: usize = 0;
    while i < parsed.len()
        invariant
            i <= parsed@.len(),
            forall|j: int| 0 <= j < i ==> (#[trigger] parsed@[j]).1 is Ok,
        decreases parsed@.len() - i,
    {
        if parsed[i].1.is_err() {
            assert(parsed@[i as int].1 is Err);
            return Ok(parsed);
        }
        i = i + 1;
    }
    Err(EventLogError::Read { path: path.to_owned(), source })
}

/// A blank line holds no record, and moves none of those before it; the records
/// behind it count it among their lines.
pub proof fn law_blank_lines_hold_no_record(
    contents: Seq<char>,
    blank: Seq<char>,
    record: Seq<char>,
)
    requires
        is_whole(contents),
        is_blank(blank),
        !blank.contains('\n'),
        !blank.contains('\r'),
        is_record(record),
    ensures
        records_spec(contents + blank.push('\n')) == records_spec(contents),
        records_spec(contents + blank.push('\n') + record.push('\n')) == records_spec(contents).push(
            (lines_spec(contents).len() + 2, record),
        ),
{
    lemma_lines_append(contents, blank);
    let none = Seq::<char>::empty();
    law_trimming_takes_only_white_space(blank, none, none);
    assert(blank + none + none =~= blank);
    let before = lines_spec(contents);
    assert(before.push(blank).drop_last() =~= before);
    let more = contents + blank.push('\n');
    assert(more.last() == '\n');
    law_append_is_read_back(more, record);
}

/// The records before the first that could not be parsed: each of them could,
/// and the next one, if there is one, could not. A log is readable exactly if
/// these are all of its records.
pub proof fn law_reading_stops_at_the_first_bad_record<E>(parsed: Seq<(usize, Result<E, String>)>)
    ensures
        intact(parsed) <= parsed.len(),
        forall|j: int| 0 <= j < intact(parsed) ==> (#[trigger] parsed[j]).1 is Ok,
        intact(parsed) < parsed.len() ==> parsed[intact(parsed) as int].1 is Err,
        readable(parsed) <==> intact(parsed) == parsed.len(),
    decreases parsed.len(),
{
    if parsed.len() > 0 && parsed[0].1 is Ok {
        let rest = parsed.skip(1);
        law_reading_stops_at_the_first_bad_record(rest);
        assert forall|j: int| 0 <= j < intact(parsed) implies (#[trigger] parsed[j]).1 is Ok by {
            if j > 0 {
                assert(rest[j - 1] == parsed[j]);
            }
        }
        if intact(parsed) < parsed.len() {
            assert(rest[intact(rest) as int] == parsed[intact(parsed) as int]);
        }
    }
}

/// The events of a readable log are what its records were parsed into, each of
/// them and in order.
pub proof fn law_every_record_is_an_event<E: DeepView>(
    parsed: Seq<(usize, Result<E, String>)>,
    i: int,
)
    requires
        readable(parsed),
        0 <= i < parsed.len(),
    ensures
        event_views(parsed).len() == parsed.len(),
        parsed[i].1 matches Ok(event) && event_views(parsed)[i] == event.deep_view(),
{
}

/// A line goes up to its line feed, and holds no other; the last may end with
/// the bytes.
pub proof fn law_lines_end_behind_their_line_feed(bytes: Seq<u8>, from: int)
    requires
        0 <= from < bytes.len(),
    ensures
        from < line_end(bytes, from) <= bytes.len(),
        forall|i: int| from <= i < line_end(bytes, from) - 1 ==> #[trigger] bytes[i] != 0x0a,
        line_end(bytes, from) < bytes.len() ==> bytes[line_end(bytes, from) - 1] == 0x0a,
    decreases bytes.len() - from,
{
    lemma_line_end(bytes, from);
    reveal_with_fuel(line_end, 2);
    if bytes[from] != 0x0a && from + 1 < bytes.len() {
        law_lines_end_behind_their_line_feed(bytes, from + 1);
    }
}

/// A log is text up to the start of its first line that is not UTF-8, and to its
/// end where every line is.
pub proof fn law_text_ends_at_the_first_bad_line(bytes: Seq<u8>, from: int)
    requires
        0 <= from <= bytes.len(),
        from == 0 || bytes[from - 1] == 0x0a || from == bytes.len(),
    ensures
        ({
            let end = text_end(bytes, from);
            &&& from <= end <= bytes.len()
            &&& valid_utf8(bytes.subrange(from, end))
            &&& end < bytes.len() ==> {
                &&& end == 0 || bytes[end - 1] == 0x0a
                &&& !valid_utf8(bytes.subrange(end, line_end(bytes, end)))
            }
        }),
    decreases bytes.len() - from,
{
    if from < bytes.len() {
        law_lines_end_behind_their_line_feed(bytes, from);
        let next = line_end(bytes, from);
        let line = bytes.subrange(from, next);
        if valid_utf8(line) {
            law_text_ends_at_the_first_bad_line(bytes, next);
            let end = text_end(bytes, from);
            valid_utf8_concat(line, bytes.subrange(next, end));
            assert(line + bytes.subrange(next, end) =~= bytes.subrange(from, end));
        } else {
            assert(bytes.subrange(from, from) =~= seq![]);
        }
    } else {
        assert(bytes.subrange(from, from) =~= seq![]);
    }
}

/// A record is read the same whether its line ends with a line feed, with a
/// carriage return and a line feed, or, as the last one, with nothing.
pub proof fn law_line_ends_do_not_matter(contents: Seq<char>, record: Seq<char>)
    requires
        is_whole(contents),
        is_record(record),
    ensures
        records_spec(contents + record.push('\r').push('\n')) == records_spec(
            contents + record.push('\n'),
        ),
        records_spec(contents + record) == records_spec(contents + record.push('\n')),
{
    let ended = record.push('\r');
    assert(!ended.contains('\n')) by {
        if ended.contains('\n') {
            let i = ended.index_of('\n');
            assert(record[i] == '\n');
        }
    }
    lemma_lines_append(contents, ended);
    assert(strip_cr(ended) =~= record);
    lemma_lines_append(contents, record);
    lemma_lines_append_open(contents, record);
}

} // verus!

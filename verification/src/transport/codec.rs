//! Framing of a cursor-on-target byte stream.
//!
//! A connection carries XML documents one after another, each optionally
//! preceded by an XML declaration, with no length prefix. The decoder buffers
//! what has arrived, drops declarations and white space, and hands out every
//! complete `<event ..> .. </event>`.

use crate::bytes::{find, is_space, is_strict_prefix_of, leading_space, starts_with, strict_prefix,
    trim_front};
use crate::search::{absent, find_spec, first_at, lemma_find_extend, lemma_find_is, lemma_find_sound};
use crate::cot::{CotError, Event};
use crate::text::{cat, decimal, decimal_spec, join, join_spec, lossy_text, utf8_lossy};
use crate::views::lemma_view_push;
use vstd::prelude::*;
use vstd::utf8::{encode_utf8, is_ascii_chars_encode_utf8};

verus! {

/// How many bytes may wait for the rest of a document by default.
pub const DEFAULT_MAX_BUFFERED: usize = 65536;

/// What an XML declaration starts with.
pub open spec fn declaration_open() -> Seq<u8> {
    encode_utf8("<?xml"@)
}

/// What an XML declaration ends with.
pub open spec fn declaration_close() -> Seq<u8> {
    encode_utf8("?>"@)
}

/// What an event starts with.
pub open spec fn event_open() -> Seq<u8> {
    encode_utf8("<event"@)
}

/// What an event ends with.
pub open spec fn event_close() -> Seq<u8> {
    encode_utf8("</event>"@)
}

/// What stands at the front of the buffer, white space aside.
#[derive(Clone, Copy, Debug, PartialEq, Eq, Structural)]
pub enum Prefix {
    /// An XML declaration.
    Declaration,
    /// An event.
    Event,
    /// Too few bytes to tell a declaration or an event.
    Incomplete,
    /// Neither, whatever follows.
    Unknown,
}

/// What `buf` starts with.
pub open spec fn classify_spec(buf: Seq<u8>) -> Prefix {
    if declaration_open().is_prefix_of(buf) {
        Prefix::Declaration
    } else if event_open().is_prefix_of(buf) {
        Prefix::Event
    } else if strict_prefix(buf, declaration_open()) || strict_prefix(buf, event_open()) {
        Prefix::Incomplete
    } else {
        Prefix::Unknown
    }
}

/// What one look at the front of the buffer finds.
pub enum Front {
    /// Nothing but white space is left.
    Empty,
    /// A complete declaration; the rest of the buffer follows it.
    Declaration(Seq<u8>),
    /// A complete event, and the rest of the buffer.
    Event(Seq<u8>, Seq<u8>),
    /// A declaration or an event whose end has not arrived.
    Partial(Seq<u8>),
    /// Bytes that start neither.
    Unknown(Seq<u8>),
}

/// What stands at the front of `buf`, and what is left behind it.
pub open spec fn front(buf: Seq<u8>) -> Front {
    let b = trim_front(buf);
    if b.len() == 0 {
        Front::Empty
    } else {
        match classify_spec(b) {
            Prefix::Declaration => match find_spec(b, declaration_close()) {
                Some(i) => Front::Declaration(b.skip(i + declaration_close().len())),
                None => Front::Partial(b),
            },
            Prefix::Event => match find_spec(b, event_close()) {
                Some(i) => Front::Event(
                    b.take(i + event_close().len()),
                    b.skip(i + event_close().len()),
                ),
                None => Front::Partial(b),
            },
            Prefix::Incomplete => Front::Partial(b),
            Prefix::Unknown => Front::Unknown(b),
        }
    }
}

/// A stream cut into documents.
pub struct Framing {
    /// The complete events, in the order they came.
    pub documents: Seq<Seq<u8>>,
    /// What is left behind the last of them.
    pub rest: Seq<u8>,
    /// Whether `rest` can no longer become a declaration or an event.
    pub garbage: bool,
}

/// `doc` in front of what `tail` holds.
pub open spec fn prepend(doc: Seq<u8>, tail: Framing) -> Framing {
    Framing { documents: seq![doc] + tail.documents, ..tail }
}

/// The documents that `buf` holds, and what is left over.
pub open spec fn frame(buf: Seq<u8>) -> Framing
    decreases buf.len(),
    via frame_shrinks
{
    match front(buf) {
        Front::Empty => Framing { documents: seq![], rest: seq![], garbage: false },
        Front::Partial(rest) => Framing { documents: seq![], rest, garbage: false },
        Front::Unknown(rest) => Framing { documents: seq![], rest, garbage: true },
        Front::Declaration(rest) => frame(rest),
        Front::Event(doc, rest) => prepend(doc, frame(rest)),
    }
}

#[via_fn]
proof fn frame_shrinks(buf: Seq<u8>) {
    lemma_front_shrinks(buf);
}

/// A document that is taken off the front leaves less behind.
pub proof fn lemma_front_shrinks(buf: Seq<u8>)
    ensures
        match front(buf) {
            Front::Declaration(rest) => rest.len() < buf.len(),
            Front::Event(_, rest) => rest.len() < buf.len(),
            _ => true,
        },
{
    let b = trim_front(buf);
    lemma_trim(buf);
    lemma_markers();
    lemma_find_sound(b, declaration_close());
    lemma_find_sound(b, event_close());
}

/// White space goes once: what is left is no longer, and does not start with any.
pub proof fn lemma_trim(s: Seq<u8>)
    ensures
        trim_front(s).len() <= s.len(),
        trim_front(trim_front(s)) == trim_front(s),
        trim_front(s).len() > 0 ==> !is_space(trim_front(s)[0]),
    decreases s.len(),
{
    if s.len() > 0 && is_space(s[0]) {
        lemma_trim(s.skip(1));
    }
}

/// How white space at the front goes when more bytes follow.
pub proof fn lemma_trim_extend(a: Seq<u8>, b: Seq<u8>)
    ensures
        trim_front(a).len() == 0 ==> trim_front(a + b) == trim_front(b),
        trim_front(a).len() > 0 ==> trim_front(a + b) == trim_front(a) + b,
    decreases a.len(),
{
    if a.len() == 0 {
        assert(a + b =~= b);
    } else if is_space(a[0]) {
        assert((a + b).skip(1) =~= a.skip(1) + b);
        lemma_trim_extend(a.skip(1), b);
    }
}

/// The lengths of the four markers, and that none starts with white space.
pub proof fn lemma_markers()
    ensures
        declaration_open().len() == 5,
        declaration_close().len() == 2,
        event_open().len() == 6,
        event_close().len() == 8,
        !is_space(declaration_open()[0]),
        !is_space(event_open()[0]),
{
    reveal_strlit("<?xml");
    reveal_strlit("?>");
    reveal_strlit("<event");
    reveal_strlit("</event>");
    is_ascii_chars_encode_utf8("<?xml"@);
    is_ascii_chars_encode_utf8("?>"@);
    is_ascii_chars_encode_utf8("<event"@);
    is_ascii_chars_encode_utf8("</event>"@);
}

/// Once the front is told, bytes that follow do not change what it is.
proof fn lemma_classify_extend(t: Seq<u8>, more: Seq<u8>)
    ensures
        classify_spec(t) != Prefix::Incomplete ==> classify_spec(t + more) == classify_spec(t),
{
    lemma_markers();
    let d = declaration_open();
    let e = event_open();
    let w = t + more;
    if d.len() <= t.len() {
        assert(w.subrange(0, 5) =~= t.subrange(0, 5));
    } else {
        if d.is_prefix_of(w) || w.is_prefix_of(d) {
            assert(t =~= d.subrange(0, t.len() as int)) by {
                assert forall|i: int| 0 <= i < t.len() implies t[i] == d[i] by {
                    assert(w[i] == t[i]);
                    if d.is_prefix_of(w) {
                        assert(w.subrange(0, 5)[i] == w[i]);
                    } else {
                        assert(d.subrange(0, w.len() as int)[i] == d[i]);
                    }
                }
            }
            assert(strict_prefix(t, d));
        }
    }
    if e.len() <= t.len() {
        assert(w.subrange(0, 6) =~= t.subrange(0, 6));
    } else {
        if e.is_prefix_of(w) || w.is_prefix_of(e) {
            assert(t =~= e.subrange(0, t.len() as int)) by {
                assert forall|i: int| 0 <= i < t.len() implies t[i] == e[i] by {
                    assert(w[i] == t[i]);
                    if e.is_prefix_of(w) {
                        assert(w.subrange(0, 6)[i] == w[i]);
                    } else {
                        assert(e.subrange(0, w.len() as int)[i] == e[i]);
                    }
                }
            }
            assert(strict_prefix(t, e));
        }
    }
}

/// `first` cut off, then what `next` holds.
pub open spec fn join_framing(first: Framing, next: Framing) -> Framing {
    Framing { documents: first.documents + next.documents, ..next }
}

/// Framing does not depend on where the stream is cut: framing `a`, then what
/// it left over with `b` behind it, gives what framing `a + b` gives. Garbage
/// stays garbage, whatever follows.
pub proof fn lemma_frame_extend(a: Seq<u8>, b: Seq<u8>)
    ensures
        !frame(a).garbage ==> frame(a + b) == join_framing(frame(a), frame(frame(a).rest + b)),
        frame(a).garbage ==> frame(a + b) == (Framing { rest: frame(a).rest + b, ..frame(a) }),
    decreases a.len(),
{
    let t = trim_front(a);
    lemma_trim(a);
    lemma_trim_extend(a, b);
    lemma_trim_extend(t, b);
    lemma_markers();
    lemma_front_shrinks(a);
    let f = frame(a);
    let none = Seq::<Seq<u8>>::empty();
    match front(a) {
        Front::Empty => {
            assert(f.rest + b =~= b);
            assert(none + frame(b).documents =~= frame(b).documents);
        },
        Front::Partial(rest) => {
            assert(front(a + b) == front(t + b));
            assert(none + frame(t + b).documents =~= frame(t + b).documents);
        },
        Front::Unknown(rest) => {
            lemma_classify_extend(t, b);
        },
        Front::Declaration(rest) => {
            lemma_classify_extend(t, b);
            lemma_find_sound(t, declaration_close());
            lemma_find_extend(t, b, declaration_close());
            let i = find_spec(t, declaration_close())->0;
            assert((t + b).skip(i + 2) =~= rest + b);
            lemma_frame_extend(rest, b);
        },
        Front::Event(doc, rest) => {
            lemma_classify_extend(t, b);
            lemma_find_sound(t, event_close());
            lemma_find_extend(t, b, event_close());
            let i = find_spec(t, event_close())->0;
            assert((t + b).skip(i + 8) =~= rest + b);
            assert((t + b).take(i + 8) =~= doc);
            lemma_frame_extend(rest, b);
            let g = frame(rest);
            let h = frame(g.rest + b);
            assert(seq![doc] + (g.documents + h.documents) =~= (seq![doc] + g.documents)
                + h.documents);
        },
    }
}

/// Nothing in `pending` can be handed out or dropped before more arrives: what
/// a decoder holds between two feeds.
pub open spec fn settled(pending: Seq<u8>) -> bool {
    frame(pending) == (Framing { documents: seq![], rest: pending, garbage: false })
}

/// What is left over without garbage is settled, and so is an empty buffer.
pub proof fn law_rest_is_settled(buf: Seq<u8>)
    ensures
        settled(seq![]),
        !frame(buf).garbage ==> settled(frame(buf).rest),
    decreases buf.len(),
{
    lemma_trim(buf);
    lemma_front_shrinks(buf);
    match front(buf) {
        Front::Declaration(rest) => {
            law_rest_is_settled(rest);
        },
        Front::Event(_, rest) => {
            law_rest_is_settled(rest);
        },
        _ => {},
    }
}

/// What feeding `chunks` one after another hands out in all, and what is then
/// left; reading ends at the first garbage.
pub open spec fn frame_each(pending: Seq<u8>, chunks: Seq<Seq<u8>>) -> Framing
    decreases chunks.len(),
{
    if chunks.len() == 0 {
        Framing { documents: seq![], rest: pending, garbage: false }
    } else {
        let sofar = frame_each(pending, chunks.drop_last());
        if sofar.garbage {
            sofar
        } else {
            join_framing(sofar, frame(sofar.rest + chunks.last()))
        }
    }
}

/// How a stream is cut into chunks does not matter: fed in any pieces, down to
/// single bytes, it gives the documents that it gives in one piece, ends in
/// garbage exactly where that does, and otherwise leaves the same bytes.
pub proof fn law_chunk_boundaries_do_not_matter(pending: Seq<u8>, chunks: Seq<Seq<u8>>)
    requires
        settled(pending),
    ensures
        ({
            let pieces = frame_each(pending, chunks);
            let whole = frame(pending + chunks.flatten());
            &&& pieces.documents == whole.documents
            &&& pieces.garbage == whole.garbage
            &&& !pieces.garbage ==> pieces.rest == whole.rest
        }),
    decreases chunks.len(),
{
    if chunks.len() == 0 {
        assert(pending + chunks.flatten() =~= pending);
    } else {
        let head = chunks.drop_last();
        law_chunk_boundaries_do_not_matter(pending, head);
        head.lemma_flatten_push(chunks.last());
        assert(head.push(chunks.last()) =~= chunks);
        assert(pending + chunks.flatten() =~= (pending + head.flatten()) + chunks.last());
        lemma_frame_extend(pending + head.flatten(), chunks.last());
    }
}

/// Why a stream cannot be read on.
#[derive(Debug)]
pub enum StreamError {
    /// The buffer starts with neither a declaration nor an event.
    UnexpectedContent(Vec<u8>),
    /// More is waiting for the end of a document than the limit allows.
    TooLarge { buffered: usize, limit: usize },
}

/// Numbers as they stand in a list.
pub open spec fn numbers_spec(bytes: Seq<u8>) -> Seq<Seq<char>> {
    bytes.map_values(|b: u8| decimal_spec(b as nat))
}

impl StreamError {
    /// What `message` says.
    pub open spec fn message_spec(&self) -> Seq<char> {
        match *self {
            StreamError::UnexpectedContent(bytes) =>
                "unexpected byte(s) in CoT stream (not an XML declaration or <event>): ["@
                + join_spec(numbers_spec(bytes@), ", "@) + "]"@,
            StreamError::TooLarge { buffered, limit } => "buffered "@ + decimal_spec(
                buffered as nat,
            ) + (" bytes waiting for a closing tag, exceeding the "@ + decimal_spec(limit as nat)
                + "-byte limit"@),
        }
    }

    /// The error in words.
    pub fn message(&self) -> (res: String)
        ensures
            res@ == self.message_spec(),
    {
        match self {
            StreamError::UnexpectedContent(bytes) => {
                let mut numbers: Vec<String> = Vec::new();
                let mut i: usize = 0;
                assert(numbers.deep_view() =~= numbers_spec(bytes@.take(0)));
                while i < bytes.len()
                    invariant
                        i <= bytes@.len(),
                        numbers.deep_view() == numbers_spec(bytes@.take(i as int)),
                    decreases bytes@.len() - i,
                {
                    let ghost before = numbers;
                    let number = decimal(bytes[i] as u64);
                    numbers.push(number);
                    proof {
                        lemma_view_push(before, numbers, number);
                        assert(numbers.deep_view() =~= numbers_spec(bytes@.take(i + 1)));
                    }
                    i = i + 1;
                }
                assert(bytes@.take(i as int) =~= bytes@);
                cat(
                    "unexpected byte(s) in CoT stream (not an XML declaration or <event>): [",
                    &join(&numbers, ", "),
                    "]",
                )
            },
            StreamError::TooLarge { buffered, limit } => {
                let tail = cat(
                    " bytes waiting for a closing tag, exceeding the ",
                    &decimal(*limit as u64),
                    "-byte limit",
                );
                cat("buffered ", &decimal(*buffered as u64), &tail)
            },
        }
    }
}

/// A document that was framed.
#[derive(Debug)]
pub enum DecodedItem {
    /// It is an event.
    Event(Event),
    /// It is none. The stream goes on behind it.
    Skipped { xml: String, error: CotError },
}

impl DecodedItem {
    /// What a framed document is, given what reading it gave.
    pub fn decoded(xml: String, parsed: Result<Event, CotError>) -> (res: Self)
        ensures
            match parsed {
                Ok(event) => res == DecodedItem::Event(event),
                Err(error) => res == (DecodedItem::Skipped { xml, error }),
            },
    {
        match parsed {
            Ok(event) => DecodedItem::Event(event),
            Err(error) => DecodedItem::Skipped { xml, error },
        }
    }

    /// The item in a few words.
    pub fn summary(&self) -> (res: String)
        ensures
            match *self {
                DecodedItem::Event(event) => res@ == "Event(uid="@ + event.uid@ + ")"@,
                DecodedItem::Skipped { error, .. } => res@ == "Skipped("@ + error.message_spec()
                    + ")"@,
            },
    {
        match self {
            DecodedItem::Event(event) => cat("Event(uid=", &event.uid, ")"),
            DecodedItem::Skipped { error, .. } => cat("Skipped(", &error.message(), ")"),
        }
    }
}

/// The texts of framed documents.
pub open spec fn texts(documents: Seq<Seq<u8>>) -> Seq<Seq<char>> {
    documents.map_values(|d: Seq<u8>| utf8_lossy(d))
}

/// Cuts a byte stream into documents as it arrives.
#[derive(Debug)]
pub struct StreamDecoder {
    buf: Vec<u8>,
    max_buffered: usize,
}

impl StreamDecoder {
    /// The bytes that wait for the end of a document.
    pub closed spec fn pending(&self) -> Seq<u8> {
        self.buf@
    }

    /// How many bytes may wait.
    pub closed spec fn limit(&self) -> usize {
        self.max_buffered
    }

    /// What a feed of `chunk` has to frame.
    pub open spec fn framed(&self, chunk: Seq<u8>) -> Framing {
        frame(self.pending() + chunk)
    }

    /// A decoder with the default limit.
    pub fn new() -> (res: Self)
        ensures
            res.pending() == Seq::<u8>::empty(),
            res.limit() == DEFAULT_MAX_BUFFERED,
    {
        Self::with_max_buffered(DEFAULT_MAX_BUFFERED)
    }

    /// A decoder that lets at most `max_buffered` bytes wait.
    pub fn with_max_buffered(max_buffered: usize) -> (res: Self)
        ensures
            res.pending() == Seq::<u8>::empty(),
            res.limit() == max_buffered,
    {
        let res = StreamDecoder { buf: Vec::new(), max_buffered };
        assert(res.buf@ =~= Seq::<u8>::empty());
        res
    }

    /// Takes in `chunk` and hands out the events that are now complete, in
    /// order. Bytes that start neither a declaration nor an event end the
    /// stream: they are handed back and nothing stays buffered. So does an
    /// unfinished document that outgrows the limit; it stays buffered.
    pub fn feed(&mut self, chunk: &[u8]) -> (res: Result<Vec<String>, StreamError>)
        ensures
            final(self).limit() == old(self).limit(),
            match res {
                Ok(documents) => {
                    let f = old(self).framed(chunk@);
                    &&& !f.garbage
                    &&& f.rest.len() <= old(self).limit()
                    &&& documents.deep_view() == texts(f.documents)
                    &&& final(self).pending() == f.rest
                },
                Err(StreamError::UnexpectedContent(bad)) => {
                    let f = old(self).framed(chunk@);
                    &&& f.garbage
                    &&& bad@ == f.rest
                    &&& final(self).pending() == Seq::<u8>::empty()
                },
                Err(StreamError::TooLarge { buffered, limit }) => {
                    let f = old(self).framed(chunk@);
                    &&& !f.garbage
                    &&& f.rest.len() > old(self).limit()
                    &&& buffered == f.rest.len()
                    &&& limit == old(self).limit()
                    &&& final(self).pending() == f.rest
                },
            },
    {
        let ghost whole = frame(self.buf@ + chunk@);
        let ghost limit = self.max_buffered;
        self.buf.extend_from_slice(chunk);
        assert(self.buf@ =~= old(self).buf@ + chunk@);
        let mut documents: Vec<String> = Vec::new();
        let ghost mut done = Seq::<Seq<u8>>::empty();
        assert(done + whole.documents =~= whole.documents);
        loop
            invariant_except_break
                whole.documents == done + frame(self.buf@).documents,
                whole.rest == frame(self.buf@).rest,
                whole.garbage == frame(self.buf@).garbage,
            invariant
                self.max_buffered == old(self).max_buffered,
                limit == old(self).max_buffered,
                whole == frame(old(self).buf@ + chunk@),
                documents.deep_view() == texts(done),
            ensures
                !whole.garbage,
                whole.rest.len() <= limit,
                whole.documents == done,
                self.buf@ == whole.rest,
            decreases self.buf@.len(),
        {
            let ghost before = self.buf@;
            proof {
                lemma_front_shrinks(before);
                lemma_trim(before);
                lemma_markers();
            }
            self.trim_leading_whitespace();
            let ghost b = self.buf@;
            assert(front(b) == front(before));
            assert(frame(b) == frame(before));
            if self.buf.is_empty() {
                assert(done + Seq::<Seq<u8>>::empty() =~= done);
                assert(self.buf@ =~= Seq::<u8>::empty());
                break;
            }
            assert(self.buf.len() == b.len());
            match classify(&self.buf) {
                Prefix::Declaration => match find(&self.buf, "?>".as_bytes()) {
                    Some(end) => {
                        let rest = self.buf.split_off(end + 2);
                        assert(rest@ =~= b.skip(end + 2));
                        self.buf = rest;
                    },
                    None => {
                        if let Err(error) = self.check_size_limit() {
                            return Err(error);
                        }
                        assert(done + Seq::<Seq<u8>>::empty() =~= done);
                        break;
                    },
                },
                Prefix::Event => match find(&self.buf, "</event>".as_bytes()) {
                    Some(end) => {
                        let rest = self.buf.split_off(end + 8);
                        assert(rest@ =~= b.skip(end + 8));
                        assert(self.buf@ =~= b.take(end + 8));
                        let text = lossy_text(&self.buf);
                        let ghost doc = self.buf@;
                        let ghost tail = frame(rest@).documents;
                        let ghost earlier = documents;
                        documents.push(text);
                        proof {
                            lemma_view_push(earlier, documents, text);
                            assert(done + (seq![doc] + tail) =~= done.push(doc) + tail);
                            done = done.push(doc);
                            assert(documents.deep_view() =~= texts(done));
                        }
                        self.buf = rest;
                    },
                    None => {
                        if let Err(error) = self.check_size_limit() {
                            return Err(error);
                        }
                        assert(done + Seq::<Seq<u8>>::empty() =~= done);
                        break;
                    },
                },
                Prefix::Incomplete => {
                    if let Err(error) = self.check_size_limit() {
                        return Err(error);
                    }
                    assert(done + Seq::<Seq<u8>>::empty() =~= done);
                    break;
                },
                Prefix::Unknown => {
                    let mut bad: Vec<u8> = Vec::new();
                    bad.append(&mut self.buf);
                    assert(bad@ =~= b);
                    return Err(StreamError::UnexpectedContent(bad));
                },
            }
        }
        Ok(documents)
    }

    /// Drops the white space that the buffer starts with.
    fn trim_leading_whitespace(&mut self)
        ensures
            final(self).pending() == trim_front(old(self).pending()),
            final(self).limit() == old(self).limit(),
    {
        let n: usize = leading_space(&self.buf);
        if n > 0 {
            let rest = self.buf.split_off(n);
            assert(rest@ =~= old(self).buf@.skip(n as int));
            self.buf = rest;
        } else {
            assert(self.buf@.skip(0) =~= self.buf@);
        }
    }

    /// Fails if more waits than the limit allows.
    fn check_size_limit(&self) -> (res: Result<(), StreamError>)
        ensures
            match res {
                Ok(()) => self.pending().len() <= self.limit(),
                Err(StreamError::TooLarge { buffered, limit }) => {
                    &&& self.pending().len() > self.limit()
                    &&& buffered == self.pending().len()
                    &&& limit == self.limit()
                },
                Err(_) => false,
            },
    {
        if self.buf.len() > self.max_buffered {
            Err(StreamError::TooLarge { buffered: self.buf.len(), limit: self.max_buffered })
        } else {
            Ok(())
        }
    }
}

impl Default for StreamDecoder {
    fn default() -> (res: Self)
        ensures
            res.pending() == Seq::<u8>::empty(),
            res.limit() == DEFAULT_MAX_BUFFERED,
    {
        Self::new()
    }
}

/// What `buf` starts with.
fn classify(buf: &[u8]) -> (res: Prefix)
    ensures
        res == classify_spec(buf@),
{
    if starts_with(buf, "<?xml".as_bytes()) {
        Prefix::Declaration
    } else if starts_with(buf, "<event".as_bytes()) {
        Prefix::Event
    } else if is_strict_prefix_of(buf, "<?xml".as_bytes()) || is_strict_prefix_of(
        buf,
        "<event".as_bytes(),
    ) {
        Prefix::Incomplete
    } else {
        Prefix::Unknown
    }
}

/// Nothing but white space: spaces, tabs, line feeds, form feeds and carriage
/// returns.
pub open spec fn only_space(bytes: Seq<u8>) -> bool {
    forall|i: int|
        0 <= i < bytes.len() ==> (#[trigger] bytes[i] == 0x20 || bytes[i] == 0x09 || bytes[i]
            == 0x0a || bytes[i] == 0x0c || bytes[i] == 0x0d)
}

/// An event from its opening tag to the first closing one.
pub open spec fn is_document(bytes: Seq<u8>) -> bool {
    &&& encode_utf8("<event"@).is_prefix_of(bytes)
    &&& bytes.len() >= 8
    &&& first_at(bytes, encode_utf8("</event>"@), bytes.len() - 8)
}

/// An XML declaration up to its end.
pub open spec fn is_declaration(bytes: Seq<u8>) -> bool {
    &&& encode_utf8("<?xml"@).is_prefix_of(bytes)
    &&& bytes.len() >= 2
    &&& first_at(bytes, encode_utf8("?>"@), bytes.len() - 2)
}

/// White space in front goes, and nothing else does.
proof fn lemma_space_goes(space: Seq<u8>, rest: Seq<u8>)
    requires
        only_space(space),
    ensures
        trim_front(space + rest) == trim_front(rest),
    decreases space.len(),
{
    if space.len() == 0 {
        assert(space + rest =~= rest);
    } else {
        let whole = space + rest;
        let tail = space.skip(1);
        assert(space[0] == whole[0]);
        assert forall|i: int| 0 <= i < tail.len() implies (#[trigger] tail[i] == 0x20 || tail[i]
            == 0x09 || tail[i] == 0x0a || tail[i] == 0x0c || tail[i] == 0x0d) by {
            assert(tail[i] == space[i + 1]);
        }
        lemma_space_goes(tail, rest);
        assert(whole.skip(1) =~= tail + rest);
    }
}

/// A prefix of the front is a prefix of the whole.
proof fn lemma_prefix_extend(marker: Seq<u8>, bytes: Seq<u8>, more: Seq<u8>)
    requires
        marker.is_prefix_of(bytes),
    ensures
        marker.is_prefix_of(bytes + more),
{
    assert((bytes + more).subrange(0, marker.len() as int) =~= bytes.subrange(
        0,
        marker.len() as int,
    ));
}

/// The opening markers differ in their second byte, and start with no space.
proof fn lemma_marker_bytes()
    ensures
        encode_utf8("<?xml"@)[0] == 0x3c,
        encode_utf8("<event"@)[0] == 0x3c,
        encode_utf8("<?xml"@)[1] == 0x3f,
        encode_utf8("<event"@)[1] == 0x65,
{
    reveal_strlit("<?xml");
    reveal_strlit("<event");
    is_ascii_chars_encode_utf8("<?xml"@);
    is_ascii_chars_encode_utf8("<event"@);
}

/// A complete event at the front of a stream is handed out, all of it and
/// nothing else, and what is behind it is framed as if it stood alone.
pub proof fn law_events_are_handed_out_whole(space: Seq<u8>, doc: Seq<u8>, more: Seq<u8>)
    requires
        only_space(space),
        is_document(doc),
    ensures
        frame(space + doc + more).documents == seq![doc] + frame(more).documents,
        frame(space + doc + more).rest == frame(more).rest,
        frame(space + doc + more).garbage == frame(more).garbage,
{
    let b = doc + more;
    let whole = space + doc + more;
    lemma_markers();
    lemma_marker_bytes();
    assert(whole =~= space + b);
    lemma_space_goes(space, b);
    lemma_prefix_extend(event_open(), doc, more);
    assert(doc[0] == doc.subrange(0, 6)[0]);
    assert(trim_front(b) == b);
    if declaration_open().is_prefix_of(b) {
        assert(b.subrange(0, 5)[1] == b.subrange(0, 6)[1]);
    }
    lemma_find_is(doc, event_close(), doc.len() - 8);
    lemma_find_extend(doc, more, event_close());
    assert(b.take(doc.len() as int) =~= doc);
    assert(b.skip(doc.len() as int) =~= more);
}

/// A complete declaration at the front of a stream is dropped, and nothing else
/// is.
pub proof fn law_declarations_are_dropped(space: Seq<u8>, declaration: Seq<u8>, more: Seq<u8>)
    requires
        only_space(space),
        is_declaration(declaration),
    ensures
        frame(space + declaration + more) == frame(more),
        frame(space + more) == frame(more),
{
    let b = declaration + more;
    let whole = space + declaration + more;
    lemma_markers();
    lemma_marker_bytes();
    assert(whole =~= space + b);
    lemma_space_goes(space, b);
    lemma_space_goes(space, more);
    lemma_prefix_extend(declaration_open(), declaration, more);
    assert(declaration[0] == declaration.subrange(0, 5)[0]);
    assert(trim_front(b) == b);
    lemma_find_is(declaration, declaration_close(), declaration.len() - 2);
    lemma_find_extend(declaration, more, declaration_close());
    assert(b.skip(declaration.len() as int) =~= more);
}

/// A stream of events gives exactly these events, in order, and leaves nothing
/// behind.
pub proof fn law_a_stream_of_events_gives_these_events(docs: Seq<Seq<u8>>)
    requires
        forall|i: int| 0 <= i < docs.len() ==> is_document(#[trigger] docs[i]),
    ensures
        frame(docs.flatten()).documents == docs,
        frame(docs.flatten()).rest.len() == 0,
        !frame(docs.flatten()).garbage,
    decreases docs.len(),
{
    if docs.len() == 0 {
        assert(docs.flatten() =~= seq![]);
        assert(frame(docs.flatten()).documents =~= docs);
    } else {
        let tail = docs.drop_first();
        assert forall|i: int| 0 <= i < tail.len() implies is_document(#[trigger] tail[i]) by {
            assert(is_document(docs[i + 1]));
        }
        law_a_stream_of_events_gives_these_events(tail);
        let none = Seq::<u8>::empty();
        assert(is_document(docs[0]));
        law_events_are_handed_out_whole(none, docs[0], tail.flatten());
        assert(none + docs[0] + tail.flatten() =~= docs[0] + tail.flatten());
        assert(docs.flatten() == docs.first() + tail.flatten());
        assert(seq![docs[0]] + tail =~= docs);
    }
}

/// Of a front that is no white space, bytes that are no beginning of an event
/// or a declaration, and go on from none, are garbage and are kept; an event or
/// a declaration that has begun and not ended waits, and is kept.
pub proof fn law_what_waits_and_what_is_garbage(bytes: Seq<u8>)
    requires
        bytes.len() > 0,
        !only_space(bytes.take(1)),
    ensures
        ({
            let event = encode_utf8("<event"@);
            let declaration = encode_utf8("<?xml"@);
            let begun = bytes.is_prefix_of(event) || bytes.is_prefix_of(declaration);
            &&& !begun && !event.is_prefix_of(bytes) && !declaration.is_prefix_of(bytes)
                ==> frame(bytes).garbage && frame(bytes).rest == bytes && frame(
                bytes,
            ).documents.len() == 0
            &&& (begun && bytes != event && bytes != declaration) || (event.is_prefix_of(bytes)
                && absent(bytes, encode_utf8("</event>"@))) || (declaration.is_prefix_of(bytes)
                && absent(bytes, encode_utf8("?>"@))) ==> !frame(bytes).garbage && frame(
                bytes,
            ).rest == bytes && frame(bytes).documents.len() == 0
        }),
{
    lemma_markers();
    lemma_marker_bytes();
    let first = bytes.take(1);
    assert(first[0] == bytes[0]);
    assert(!is_space(bytes[0]));
    assert(trim_front(bytes) == bytes);
    let event = event_open();
    let declaration = declaration_open();
    if event.is_prefix_of(bytes) && declaration.is_prefix_of(bytes) {
        assert(bytes.subrange(0, 5)[1] == bytes.subrange(0, 6)[1]);
    }
    if bytes.is_prefix_of(event) && bytes.len() == 6 {
        assert(event.subrange(0, 6) =~= event);
        assert(bytes == event);
    }
    if bytes.is_prefix_of(declaration) && bytes.len() == 5 {
        assert(declaration.subrange(0, 5) =~= declaration);
        assert(bytes == declaration);
    }
    if bytes.is_prefix_of(event) && declaration.is_prefix_of(bytes) {
        assert(bytes.subrange(0, 5)[1] == event.subrange(0, bytes.len() as int)[1]);
    }
    if bytes.is_prefix_of(declaration) && event.is_prefix_of(bytes) {
        assert(false);
    }
}

/// Every document is handed out, in order, each as the text that it holds.
pub proof fn law_every_document_becomes_a_text(documents: Seq<Seq<u8>>, i: int)
    requires
        0 <= i < documents.len(),
    ensures
        texts(documents).len() == documents.len(),
        texts(documents)[i] == utf8_lossy(documents[i]),
{
}

/// What waits between two feeds is not lost: a decoder that keeps what the first
/// leaves over hands out the same in two feeds as in one.
pub proof fn law_two_feeds_are_one(
    before: StreamDecoder,
    between: StreamDecoder,
    first: Seq<u8>,
    second: Seq<u8>,
)
    requires
        !before.framed(first).garbage,
        between.pending() == before.framed(first).rest,
    ensures
        before.framed(first).documents + between.framed(second).documents == before.framed(
            first + second,
        ).documents,
        between.framed(second).rest == before.framed(first + second).rest,
        between.framed(second).garbage == before.framed(first + second).garbage,
{
    assert(before.pending() + (first + second) =~= (before.pending() + first) + second);
    lemma_frame_extend(before.pending() + first, second);
}

} // verus!

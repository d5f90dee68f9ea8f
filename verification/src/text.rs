//! Working with text: UTF-8, copies and comparisons.

use crate::search::{absent, find_spec, first_at, lemma_find_is, lemma_find_sound, occurs_at};
use crate::views::lemma_view_push;
use vstd::prelude::*;
use vstd::utf8::{decode_utf8, is_ascii_chars, valid_utf8};

verus! {

/// The text that bytes stand for when every malformed sequence is replaced by
/// U+FFFD.
pub uninterp spec fn utf8_lossy(bytes: Seq<u8>) -> Seq<char>;

/// Calls `String::from_utf8_lossy`. Believed of it: its result is a function
/// of the bytes, and on well-formed UTF-8 it is the text that they encode.
#[verifier::external_body]
pub(crate) fn lossy_text(bytes: &[u8]) -> (res: String)
    ensures
        res@ == utf8_lossy(bytes@),
        valid_utf8(bytes@) ==> res@ == decode_utf8(bytes@),
{
    String::from_utf8_lossy(bytes).into_owned()
}

/// Calls `std::str::from_utf8`. Believed of it: it succeeds exactly on
/// well-formed UTF-8 and then gives the text that the bytes encode.
#[verifier::external_body]
pub(crate) fn utf8_text(bytes: &[u8]) -> (res: Option<String>)
    ensures
        match res {
            Some(text) => valid_utf8(bytes@) && text@ == decode_utf8(bytes@),
            None => !valid_utf8(bytes@),
        },
{
    match std::str::from_utf8(bytes) {
        Ok(text) => Some(text.to_string()),
        Err(_) => None,
    }
}

/// `String::push`. Believed of it: it appends the character.
pub assume_specification[ String::push ](s: &mut String, c: char)
    ensures
        final(s)@ == old(s)@.push(c),
;

/// The characters of `s`.
pub fn chars_of(s: &str) -> (res: Vec<char>)
    ensures
        res@ == s@,
{
    let mut res: Vec<char> = Vec::new();
    for c in it: s.chars()
        invariant
            it.seq() == s@,
            res@ == s@.take(it.index() as int),
    {
        res.push(c);
        assert(s@.take(it.index() + 1) =~= s@.take(it.index() as int).push(c));
    }
    assert(s@.take(s@.len() as int) =~= s@);
    res
}

/// The text that `chars` from `from` up to `to` make.
pub fn text_of(chars: &[char], from: usize, to: usize) -> (res: String)
    requires
        from <= to <= chars@.len(),
    ensures
        res@ == chars@.subrange(from as int, to as int),
{
    let mut res = String::new();
    let mut i: usize = from;
    while i < to
        invariant
            from <= i <= to <= chars@.len(),
            res@ == chars@.subrange(from as int, i as int),
        decreases to - i,
    {
        res.push(chars[i]);
        i = i + 1;
        assert(chars@.subrange(from as int, i as int) =~= chars@.subrange(from as int, i - 1).push(
            chars@[i - 1],
        ));
    }
    res
}

/// Whether two texts are equal.
pub fn same_text(a: &str, b: &str) -> (res: bool)
    ensures
        res == (a@ == b@),
{
    let x = chars_of(a);
    let y = chars_of(b);
    if x.len() != y.len() {
        return false;
    }
    let mut i: usize = 0;
    while i < x.len()
        invariant
            x@ == a@,
            y@ == b@,
            x@.len() == y@.len(),
            i <= x@.len(),
            forall|j: int| 0 <= j < i ==> a@[j] == b@[j],
        decreases x@.len() - i,
    {
        if x[i] != y[i] {
            return false;
        }
        i = i + 1;
    }
    assert(a@ =~= b@);
    true
}

/// Two texts agree up to `i`, where `a` ends or has the lower character.
pub open spec fn parts_at(a: Seq<char>, b: Seq<char>, i: int) -> bool {
    &&& 0 <= i <= a.len()
    &&& i < b.len()
    &&& forall|k: int| 0 <= k < i ==> #[trigger] a[k] == b[k]
    &&& i < a.len() ==> a[i] < b[i]
}

/// Whether `a` comes before `b` in the order of their characters.
pub open spec fn text_before(a: Seq<char>, b: Seq<char>) -> bool {
    exists|i: int| parts_at(a, b, i)
}

/// The order of texts passes on.
pub proof fn lemma_before_passes_on(a: Seq<char>, b: Seq<char>, c: Seq<char>)
    requires
        text_before(a, b),
        text_before(b, c),
    ensures
        text_before(a, c),
{
    let i = choose|i: int| parts_at(a, b, i);
    let j = choose|j: int| parts_at(b, c, j);
    let k = if i < j { i } else { j };
    assert forall|n: int| 0 <= n < k implies #[trigger] a[n] == c[n] by {
        assert(a[n] == b[n]);
        assert(b[n] == c[n]);
    }
    if i < j {
        assert(b[i] == c[i]);
    } else if j < i {
        assert(a[j] == b[j]);
    }
    assert(parts_at(a, c, k));
}

/// Of two texts that differ, one comes before the other.
pub proof fn lemma_before_or_after(a: Seq<char>, b: Seq<char>)
    requires
        a != b,
    ensures
        text_before(a, b) || text_before(b, a),
{
    lemma_parted_from(a, b, 0);
}

/// Texts that differ and agree up to `i` part there or later.
proof fn lemma_parted_from(a: Seq<char>, b: Seq<char>, i: int)
    requires
        a != b,
        0 <= i <= a.len(),
        i <= b.len(),
        forall|k: int| 0 <= k < i ==> #[trigger] a[k] == b[k],
    ensures
        text_before(a, b) || text_before(b, a),
    decreases a.len() - i,
{
    if i < a.len() && i < b.len() && a[i] == b[i] {
        lemma_parted_from(a, b, i + 1);
    } else if i < b.len() && (i == a.len() || a[i] < b[i]) {
        assert(parts_at(a, b, i));
    } else if i < a.len() {
        assert forall|k: int| 0 <= k < i implies #[trigger] b[k] == a[k] by {
            assert(a[k] == b[k]);
        }
        assert(parts_at(b, a, i));
    } else {
        assert(a =~= b);
    }
}

/// Whether `a` comes before `b`.
pub fn is_before(a: &str, b: &str) -> (res: bool)
    ensures
        res == text_before(a@, b@),
{
    let left = chars_of(a);
    let right = chars_of(b);
    let mut i: usize = 0;
    while i < left.len() && i < right.len()
        invariant
            left@ == a@,
            right@ == b@,
            i <= left@.len(),
            i <= right@.len(),
            forall|k: int| 0 <= k < i ==> #[trigger] a@[k] == b@[k],
        decreases left@.len() - i,
    {
        let x: char = left[i];
        let y: char = right[i];
        if x != y {
            proof {
                if x < y {
                    assert(parts_at(a@, b@, i as int));
                } else if text_before(a@, b@) {
                    let k = choose|k: int| parts_at(a@, b@, k);
                    assert(a@[i as int] == x && b@[i as int] == y);
                    assert(k >= i ==> k == i || a@[i as int] == b@[i as int]);
                    assert(k < i ==> a@[k] == b@[k]);
                }
            }
            return x < y;
        }
        i = i + 1;
    }
    proof {
        if i < right@.len() {
            assert(parts_at(a@, b@, i as int));
        } else if text_before(a@, b@) {
            let k = choose|k: int| parts_at(a@, b@, k);
            assert(a@[k] == b@[k]);
        }
    }
    i < right.len()
}

/// Whether `s` starts with `prefix`.
pub fn text_starts_with(s: &str, prefix: &str) -> (res: bool)
    ensures
        res == prefix@.is_prefix_of(s@),
{
    let x = chars_of(s);
    let y = chars_of(prefix);
    if x.len() < y.len() {
        return false;
    }
    occurs(&x, &y, 0)
}

/// Whether `needle` stands in `hay` at offset `i`.
fn occurs(hay: &[char], needle: &[char], i: usize) -> (res: bool)
    requires
        i + needle@.len() <= hay@.len(),
    ensures
        res == occurs_at(hay@, needle@, i as int),
{
    let end: usize = hay.len();
    let mut k: usize = 0;
    while k < needle.len()
        invariant
            k <= needle@.len(),
            end == hay@.len(),
            i + needle@.len() <= end,
            forall|j: int| 0 <= j < k ==> hay@[i + j] == needle@[j],
        decreases needle@.len() - k,
    {
        if hay[i + k] != needle[k] {
            assert(hay@.subrange(i as int, i + needle@.len())[k as int] != needle@[k as int]);
            return false;
        }
        k = k + 1;
    }
    assert(hay@.subrange(i as int, i + needle@.len()) =~= needle@);
    true
}

/// The offset of the first occurrence of `needle` in `hay` at or behind `from`.
pub fn find_from(hay: &[char], from: usize, needle: &[char]) -> (res: Option<usize>)
    requires
        from <= hay@.len(),
    ensures
        match res {
            Some(i) => {
                &&& from <= i
                &&& i + needle@.len() <= hay@.len()
                &&& find_spec(hay@.skip(from as int), needle@) == Some(i - from)
            },
            None => find_spec(hay@.skip(from as int), needle@) is None,
        },
{
    let ghost tail = hay@.skip(from as int);
    let end: usize = hay.len();
    if needle.len() > end - from {
        assert(absent(tail, needle@));
        return None;
    }
    let last: usize = end - needle.len();
    let mut i: usize = from;
    loop
        invariant
            end == hay@.len(),
            from <= i <= last,
            last == end - needle@.len(),
            tail == hay@.skip(from as int),
            forall|j: int| 0 <= j < i - from ==> !#[trigger] occurs_at(tail, needle@, j),
        decreases last - i,
    {
        assert(tail.subrange(i - from, i - from + needle@.len()) =~= hay@.subrange(
            i as int,
            i + needle@.len(),
        ));
        if occurs(hay, needle, i) {
            proof {
                lemma_find_is(tail, needle@, i - from);
            }
            return Some(i);
        }
        if i == last {
            assert(absent(tail, needle@));
            return None;
        }
        i = i + 1;
    }
}

/// Whether `needle` stands anywhere in `s`.
pub fn text_contains(s: &str, needle: &str) -> (res: bool)
    ensures
        res == !absent(s@, needle@),
{
    let x = chars_of(s);
    let y = chars_of(needle);
    assert(x@.skip(0) =~= s@);
    proof {
        lemma_find_sound(s@, needle@);
    }
    find_from(&x, 0, &y).is_some()
}

/// `s` cut at its first `sep`, which is dropped.
pub open spec fn split_once_spec(s: Seq<char>, sep: char) -> Option<(Seq<char>, Seq<char>)> {
    match find_spec(s, seq![sep]) {
        Some(i) => Some((s.take(i), s.skip(i + 1))),
        None => None,
    }
}

/// `s` cut at its first `sep`.
pub fn split_once(s: &str, sep: char) -> (res: Option<(String, String)>)
    ensures
        res.deep_view() == split_once_spec(s@, sep),
{
    let x = chars_of(s);
    let end: usize = x.len();
    let needle: Vec<char> = vec![sep];
    assert(needle@ =~= seq![sep]);
    assert(x@.skip(0) =~= s@);
    match find_from(&x, 0, &needle) {
        Some(i) => {
            let head = text_of(&x, 0, i);
            let tail = text_of(&x, i + 1, end);
            assert(head@ =~= s@.take(i as int));
            assert(tail@ =~= s@.skip(i + 1));
            Some((head, tail))
        },
        None => None,
    }
}

/// `s` up to its first `sep`, or all of it.
pub open spec fn before_spec(s: Seq<char>, sep: char) -> Seq<char> {
    match split_once_spec(s, sep) {
        Some((head, _)) => head,
        None => s,
    }
}

/// `s` up to its first `sep`, or all of it.
pub fn before(s: &str, sep: char) -> (res: String)
    ensures
        res@ == before_spec(s@, sep),
{
    match split_once(s, sep) {
        Some((head, _)) => head,
        None => s.to_owned(),
    }
}

/// Whether Unicode counts `c` as white space.
pub open spec fn is_white(c: char) -> bool {
    ||| '\u{9}' <= c && c <= '\u{d}'
    ||| c == '\u{20}'
    ||| c == '\u{85}'
    ||| c == '\u{a0}'
    ||| c == '\u{1680}'
    ||| '\u{2000}' <= c && c <= '\u{200a}'
    ||| c == '\u{2028}'
    ||| c == '\u{2029}'
    ||| c == '\u{202f}'
    ||| c == '\u{205f}'
    ||| c == '\u{3000}'
}

/// `char::is_whitespace`. Believed of it: it is true of exactly the characters
/// that Unicode counts as white space.
pub assume_specification[ char::is_whitespace ](c: char) -> (res: bool)
    ensures
        res == is_white(c),
;

/// `s` without the white space it starts with.
pub open spec fn trim_start_spec(s: Seq<char>) -> Seq<char>
    decreases s.len(),
{
    if s.len() > 0 && is_white(s[0]) {
        trim_start_spec(s.skip(1))
    } else {
        s
    }
}

/// `s` without the white space it ends with.
pub open spec fn trim_end_spec(s: Seq<char>) -> Seq<char>
    decreases s.len(),
{
    if s.len() > 0 && is_white(s.last()) {
        trim_end_spec(s.drop_last())
    } else {
        s
    }
}

/// `s` without the white space around it.
pub open spec fn trim_spec(s: Seq<char>) -> Seq<char> {
    trim_end_spec(trim_start_spec(s))
}

/// `s` without the white space around it.
pub fn trim(s: &str) -> (res: String)
    ensures
        res@ == trim_spec(s@),
{
    let x = chars_of(s);
    let mut from: usize = 0;
    assert(x@.skip(0) =~= s@);
    while from < x.len() && x[from].is_whitespace()
        invariant
            from <= x@.len(),
            trim_start_spec(x@.skip(from as int)) == trim_start_spec(s@),
        decreases x@.len() - from,
    {
        assert(x@.skip(from as int).skip(1) =~= x@.skip(from + 1));
        assert(x@.skip(from as int)[0] == x@[from as int]);
        from = from + 1;
    }
    assert(from < x@.len() ==> x@.skip(from as int)[0] == x@[from as int]);
    assert(trim_start_spec(s@) == x@.skip(from as int));
    let mut to: usize = x.len();
    assert(x@.subrange(from as int, to as int) =~= x@.skip(from as int));
    while from < to && x[to - 1].is_whitespace()
        invariant
            from <= to <= x@.len(),
            trim_end_spec(x@.subrange(from as int, to as int)) == trim_spec(s@),
        decreases to,
    {
        let ghost cut = x@.subrange(from as int, to as int);
        assert(cut.last() == x@[to - 1]);
        assert(cut.drop_last() =~= x@.subrange(from as int, to - 1));
        to = to - 1;
    }
    assert(from < to ==> x@.subrange(from as int, to as int).last() == x@[to - 1]);
    text_of(&x, from, to)
}

/// `line` without the carriage return it ends with, if it ends with one.
pub open spec fn strip_cr(line: Seq<char>) -> Seq<char> {
    if line.len() > 0 && line.last() == '\r' {
        line.drop_last()
    } else {
        line
    }
}

/// The lines of `s`. A line ends with a line feed, with or without a carriage
/// return before it; what follows the last line feed is a line if there is any.
pub open spec fn lines_spec(s: Seq<char>) -> Seq<Seq<char>>
    decreases s.len(),
    via lines_shrink
{
    if s.len() == 0 {
        seq![]
    } else {
        match find_spec(s, seq!['\n']) {
            Some(i) => seq![strip_cr(s.take(i))] + lines_spec(s.skip(i + 1)),
            None => seq![s],
        }
    }
}

#[via_fn]
proof fn lines_shrink(s: Seq<char>) {
    lemma_find_sound(s, seq!['\n']);
}

/// The lines of `s`.
pub fn lines(s: &str) -> (res: Vec<String>)
    ensures
        res.deep_view() == lines_spec(s@),
{
    let x = chars_of(s);
    let end: usize = x.len();
    let feed: Vec<char> = vec!['\n'];
    assert(feed@ =~= seq!['\n']);
    let mut res: Vec<String> = Vec::new();
    let mut from: usize = 0;
    assert(x@.skip(0) =~= s@);
    assert(res.deep_view() + lines_spec(s@) =~= lines_spec(s@));
    while from < end
        invariant
            end == x@.len(),
            from <= end,
            feed@ == seq!['\n'],
            res.deep_view() + lines_spec(x@.skip(from as int)) == lines_spec(s@),
        decreases end - from,
    {
        let ghost rest = x@.skip(from as int);
        let ghost before = res;
        match find_from(&x, from, &feed) {
            Some(i) => {
                let ghost raw = rest.take(i - from);
                assert(raw =~= x@.subrange(from as int, i as int));
                let line = if from < i && x[i - 1] == '\r' {
                    assert(raw.drop_last() =~= x@.subrange(from as int, i - 1));
                    assert(raw.last() == '\r');
                    text_of(&x, from, i - 1)
                } else {
                    assert(raw.len() > 0 ==> raw.last() == x@[i - 1]);
                    text_of(&x, from, i)
                };
                assert(line@ == strip_cr(raw));
                res.push(line);
                proof {
                    lemma_view_push(before, res, line);
                    assert(rest.skip(i - from + 1) =~= x@.skip(i + 1));
                    let tail = lines_spec(x@.skip(i + 1));
                    assert(before.deep_view() + (seq![line@] + tail) =~= res.deep_view() + tail);
                }
                from = i + 1;
            },
            None => {
                let line = text_of(&x, from, end);
                assert(line@ =~= rest);
                res.push(line);
                proof {
                    lemma_view_push(before, res, line);
                    assert(x@.skip(end as int) =~= seq![]);
                    assert(before.deep_view() + seq![rest] =~= res.deep_view() + Seq::<
                        Seq<char>,
                    >::empty());
                }
                from = end;
            },
        }
    }
    assert(x@.skip(end as int) =~= seq![]);
    assert(res.deep_view() + Seq::<Seq<char>>::empty() =~= res.deep_view());
    res
}

/// `parts` with `sep` between each two of them.
pub open spec fn join_spec(parts: Seq<Seq<char>>, sep: Seq<char>) -> Seq<char>
    decreases parts.len(),
{
    if parts.len() == 0 {
        seq![]
    } else if parts.len() == 1 {
        parts[0]
    } else {
        join_spec(parts.drop_last(), sep) + sep + parts.last()
    }
}

/// `parts` with `sep` between each two of them.
pub fn join(parts: &Vec<String>, sep: &str) -> (res: String)
    ensures
        res@ == join_spec(parts.deep_view(), sep@),
{
    let mut res = String::new();
    let ghost all = parts.deep_view();
    let mut i: usize = 0;
    assert(all.take(0) =~= seq![]);
    while i < parts.len()
        invariant
            all == parts.deep_view(),
            i <= parts@.len(),
            res@ == join_spec(all.take(i as int), sep@),
        decreases parts@.len() - i,
    {
        let ghost before = all.take(i as int);
        let ghost after = all.take(i + 1);
        assert(after.drop_last() =~= before);
        assert(after.last() == parts@[i as int]@);
        if i > 0 {
            res.append(sep);
        }
        res.append(parts[i].as_str());
        assert(i == 0 ==> seq![] + parts@[i as int]@ =~= parts@[i as int]@);
        i = i + 1;
    }
    assert(all.take(i as int) =~= all);
    res
}

/// `s` with every `from` in it, read from the left, replaced by `to`.
pub open spec fn replace_spec(s: Seq<char>, from: Seq<char>, to: Seq<char>) -> Seq<char>
    decreases s.len(),
    via replace_shrinks
{
    if from.len() == 0 {
        s
    } else {
        match find_spec(s, from) {
            Some(i) => s.take(i) + to + replace_spec(s.skip(i + from.len()), from, to),
            None => s,
        }
    }
}

#[via_fn]
proof fn replace_shrinks(s: Seq<char>, from: Seq<char>, to: Seq<char>) {
    lemma_find_sound(s, from);
}

/// `s` with every `from` in it replaced by `to`.
pub fn replace(s: &str, from: &str, to: &str) -> (res: String)
    requires
        from@.len() > 0,
    ensures
        res@ == replace_spec(s@, from@, to@),
{
    let x = chars_of(s);
    let end: usize = x.len();
    let needle = chars_of(from);
    let mut res = String::new();
    let mut at: usize = 0;
    assert(x@.skip(0) =~= s@);
    assert(res@ + replace_spec(s@, from@, to@) =~= replace_spec(s@, from@, to@));
    loop
        invariant
            end == x@.len(),
            at <= end,
            needle@ == from@,
            from@.len() > 0,
            res@ + replace_spec(x@.skip(at as int), from@, to@) == replace_spec(s@, from@, to@),
        decreases end - at,
    {
        let ghost rest = x@.skip(at as int);
        let ghost before = res@;
        match find_from(&x, at, &needle) {
            Some(i) => {
                let head = text_of(&x, at, i);
                assert(head@ =~= rest.take(i - at));
                res.append(head.as_str());
                res.append(to);
                proof {
                    let tail = replace_spec(x@.skip(i + from@.len()), from@, to@);
                    assert(rest.skip(i - at + from@.len()) =~= x@.skip(i + from@.len()));
                    assert(before + (head@ + to@ + tail) =~= res@ + tail);
                }
                at = i + needle.len();
            },
            None => {
                let tail = text_of(&x, at, end);
                assert(tail@ =~= rest);
                res.append(tail.as_str());
                return res;
            },
        }
    }
}

/// A copy of optional text.
pub fn clone_text(s: &Option<String>) -> (res: Option<String>)
    ensures
        res == *s,
{
    match s {
        Some(t) => Some(t.clone()),
        None => None,
    }
}

/// A copy of a list of texts.
pub fn clone_texts(v: &Vec<String>) -> (res: Vec<String>)
    ensures
        res@ == v@,
        res.deep_view() == v.deep_view(),
{
    let mut res: Vec<String> = Vec::new();
    let mut i: usize = 0;
    while i < v.len()
        invariant
            i <= v@.len(),
            res@ == v@.take(i as int),
        decreases v@.len() - i,
    {
        res.push(v[i].clone());
        i = i + 1;
        assert(v@.take(i as int) =~= v@.take(i - 1).push(v@[i - 1]));
    }
    assert(v@.take(i as int) =~= v@);
    assert(res.deep_view() =~= v.deep_view());
    res
}

/// The decimal digit of `d`.
pub open spec fn digit_char(d: int) -> char {
    (('0' as int + d) as u8) as char
}

/// The decimal digits of `n`.
pub open spec fn decimal_spec(n: nat) -> Seq<char>
    decreases n,
{
    if n < 10 {
        seq![digit_char(n as int)]
    } else {
        decimal_spec(n / 10).push(digit_char((n % 10) as int))
    }
}

/// The decimal digits of `n`.
pub fn decimal(n: u64) -> (res: String)
    ensures
        res@ == decimal_spec(n as nat),
    decreases n,
{
    let mut res = if n < 10 {
        String::new()
    } else {
        decimal(n / 10)
    };
    let d: u8 = (n % 10) as u8;
    res.push((48u8 + d) as char);
    assert(n < 10 ==> res@ =~= seq![digit_char(n as int)]);
    res
}

/// The text of `n` in decimal, with a sign where it is negative.
pub open spec fn signed_spec(n: int) -> Seq<char> {
    if n < 0 {
        seq!['-'] + decimal_spec((-n) as nat)
    } else {
        decimal_spec(n as nat)
    }
}

/// The text of `n` in decimal.
pub fn signed(n: i64) -> (res: String)
    ensures
        res@ == signed_spec(n as int),
{
    if n < 0 {
        let mut res = String::new();
        res.push('-');
        let magnitude: u64 = (-(n as i128)) as u64;
        res.append(decimal(magnitude).as_str());
        assert(res@ =~= seq!['-'] + decimal_spec((-(n as int)) as nat));
        res
    } else {
        decimal(n as u64)
    }
}

/// `a`, `b` and `c` in a row.
pub fn cat(a: &str, b: &str, c: &str) -> (res: String)
    ensures
        res@ == a@ + b@ + c@,
{
    let mut res = a.to_owned();
    res.append(b);
    res.append(c);
    res
}

/// Whether `s` is one of `list`.
pub fn text_in(list: &Vec<String>, s: &str) -> (res: bool)
    ensures
        res == list.deep_view().contains(s@),
{
    let mut i: usize = 0;
    while i < list.len()
        invariant
            i <= list@.len(),
            forall|j: int| 0 <= j < i ==> list.deep_view()[j] != s@,
        decreases list@.len() - i,
    {
        if same_text(&list[i], s) {
            assert(list.deep_view()[i as int] == s@);
            return true;
        }
        i = i + 1;
    }
    false
}

/// `list` without every `s` in it.
pub open spec fn without_spec(list: Seq<Seq<char>>, s: Seq<char>) -> Seq<Seq<char>> {
    list.filter(|x: Seq<char>| x != s)
}

/// What is left is what was there, but for `s`.
pub proof fn lemma_without(list: Seq<Seq<char>>, s: Seq<char>)
    ensures
        !without_spec(list, s).contains(s),
        forall|x: Seq<char>| #[trigger]
            without_spec(list, s).contains(x) <==> list.contains(x) && x != s,
    decreases list.len(),
{
    reveal(Seq::filter);
    if list.len() > 0 {
        let head = list.drop_last();
        let kept = without_spec(head, s);
        lemma_without(head, s);
        assert(list == head.push(list.last()));
        assert forall|x: Seq<char>| #[trigger] without_spec(list, s).contains(x) <==> list.contains(
            x,
        ) && x != s by {
            vstd::seq_lib::lemma_seq_contains_after_push(head, list.last(), x);
            vstd::seq_lib::lemma_seq_contains_after_push(kept, list.last(), x);
            if list.last() != s {
                assert(without_spec(list, s) == kept.push(list.last()));
            } else {
                assert(without_spec(list, s) == kept);
            }
        }
    }
}

/// `list` without every `s` in it.
pub fn without(list: &Vec<String>, s: &str) -> (res: Vec<String>)
    ensures
        res.deep_view() == without_spec(list.deep_view(), s@),
{
    let ghost keep = |x: Seq<char>| x != s@;
    let ghost all = list.deep_view();
    let mut res: Vec<String> = Vec::new();
    let mut i: usize = 0;
    assert(all.take(0).filter(keep) =~= seq![]) by {
        reveal(Seq::filter);
    }
    assert(res.deep_view() =~= seq![]);
    while i < list.len()
        invariant
            all == list.deep_view(),
            keep == (|x: Seq<char>| x != s@),
            i <= list@.len(),
            res.deep_view() == all.take(i as int).filter(keep),
        decreases list@.len() - i,
    {
        let ghost before = res;
        proof {
            assert(all.take(i + 1) =~= all.take(i as int).push(all[i as int]));
            all.take(i as int).lemma_filter_push(all[i as int], keep);
        }
        if !same_text(&list[i], s) {
            let item = list[i].clone();
            res.push(item);
            proof {
                lemma_view_push(before, res, item);
            }
        }
        i = i + 1;
    }
    assert(all.take(i as int) =~= all);
    res
}

/// The lower case of a text that is not all ASCII, as Unicode has it.
pub uninterp spec fn unicode_lowercase(s: Seq<char>) -> Seq<char>;

/// The lower case of a text.
pub open spec fn lowercase(s: Seq<char>) -> Seq<char> {
    if is_ascii_chars(s) {
        ascii_lowercase(s)
    } else {
        unicode_lowercase(s)
    }
}

/// A text with each ASCII letter in lower case.
pub open spec fn ascii_lowercase(s: Seq<char>) -> Seq<char> {
    s.map_values(|c: char| ascii_lower(c))
}

/// A text with each ASCII letter in upper case.
pub open spec fn ascii_uppercase(s: Seq<char>) -> Seq<char> {
    s.map_values(|c: char| ascii_upper(c))
}

/// The upper case of an ASCII character.
pub open spec fn ascii_upper(c: char) -> char {
    if 'a' <= c && c <= 'z' {
        ((c as u32 - 32) as u8) as char
    } else {
        c
    }
}

/// The lower case of an ASCII character.
pub open spec fn ascii_lower(c: char) -> char {
    if 'A' <= c && c <= 'Z' {
        ((c as u32 + 32) as u8) as char
    } else {
        c
    }
}

/// Calls `str::to_lowercase`. Believed of it: on ASCII text it maps each
/// upper-case letter to its lower case and keeps every other character, and on
/// other text its result is a function of the text.
#[verifier::external_body]
pub(crate) fn to_lowercase(s: &str) -> (res: String)
    ensures
        is_ascii_chars(s@) ==> res@ == ascii_lowercase(s@),
        !is_ascii_chars(s@) ==> res@ == unicode_lowercase(s@),
{
    s.to_lowercase()
}

/// A text in double quotes, with its control characters, quotes and
/// backslashes escaped.
pub uninterp spec fn quoted_text(s: Seq<char>) -> Seq<char>;

/// Formats a text by `str`'s `Debug`. Believed of it: what comes out is a
/// function of the text, which `quoted_text` names. How each character is
/// escaped is left unsaid.
#[verifier::external_body]
pub(crate) fn quoted(s: &str) -> (res: String)
    ensures
        res@ == quoted_text(s@),
{
    format!("{:?}", s)
}

/// A list of texts, each quoted, in square brackets.
pub open spec fn listed_spec(parts: Seq<Seq<char>>) -> Seq<char> {
    "["@ + join_spec(parts.map_values(|part: Seq<char>| quoted_text(part)), ", "@) + "]"@
}

/// A list of texts, each quoted, in square brackets.
pub fn listed(parts: &Vec<String>) -> (res: String)
    ensures
        res@ == listed_spec(parts.deep_view()),
{
    let ghost all = parts.deep_view();
    let mut items: Vec<String> = Vec::new();
    let mut i: usize = 0;
    while i < parts.len()
        invariant
            all == parts.deep_view(),
            i <= parts@.len(),
            items.deep_view().len() == i,
            forall|j: int|
                0 <= j < i ==> #[trigger] items.deep_view()[j] == quoted_text(all[j]),
        decreases parts@.len() - i,
    {
        let ghost before = items;
        let item = quoted(parts[i].as_str());
        items.push(item);
        proof {
            lemma_view_push(before, items, item);
        }
        i = i + 1;
    }
    assert(items.deep_view() =~= all.map_values(|part: Seq<char>| quoted_text(part)));
    cat("[", &join(&items, ", "), "]")
}

/// The path of `name` in the directory `dir`.
pub open spec fn path_in(dir: Seq<char>, name: Seq<char>) -> Seq<char> {
    if dir.len() == 0 || dir.last() == '/' {
        dir + name
    } else {
        dir.push('/') + name
    }
}

/// The path of `name` in the directory `dir`.
pub fn join_path(dir: &str, name: &str) -> (res: String)
    ensures
        res@ == path_in(dir@, name@),
{
    let chars = chars_of(dir);
    let mut res = dir.to_owned();
    if chars.len() > 0 && chars[chars.len() - 1] != '/' {
        res.push('/');
    }
    res.append(name);
    res
}

/// Every character of the text is white space.
pub open spec fn is_blank(s: Seq<char>) -> bool {
    forall|i: int| 0 <= i < s.len() ==> is_white(#[trigger] s[i])
}

/// White space in front of a text that starts with none is cut off.
proof fn lemma_trim_start(pre: Seq<char>, rest: Seq<char>)
    requires
        is_blank(pre),
        rest.len() > 0 ==> !is_white(rest[0]),
    ensures
        trim_start_spec(pre + rest) == rest,
    decreases pre.len(),
{
    let whole = pre + rest;
    if pre.len() > 0 {
        assert(is_white(pre[0]));
        assert forall|i: int| 0 <= i < pre.skip(1).len() implies is_white(
            #[trigger] pre.skip(1)[i],
        ) by {
            assert(is_white(pre[i + 1]));
        }
        lemma_trim_start(pre.skip(1), rest);
        assert(whole[0] == pre[0]);
        assert(whole.skip(1) =~= pre.skip(1) + rest);
    } else {
        assert(whole =~= rest);
    }
}

/// White space behind a text that ends with none is cut off.
proof fn lemma_trim_end(rest: Seq<char>, post: Seq<char>)
    requires
        is_blank(post),
        rest.len() > 0 ==> !is_white(rest.last()),
    ensures
        trim_end_spec(rest + post) == rest,
    decreases post.len(),
{
    let whole = rest + post;
    if post.len() > 0 {
        assert(is_white(post[post.len() - 1]));
        assert forall|i: int| 0 <= i < post.drop_last().len() implies is_white(
            #[trigger] post.drop_last()[i],
        ) by {
            assert(is_white(post[i]));
        }
        lemma_trim_end(rest, post.drop_last());
        assert(whole.last() == post.last());
        assert(whole.drop_last() =~= rest + post.drop_last());
    } else {
        assert(whole =~= rest);
    }
}

/// Trimming takes away the white space around a text and nothing else: all of a
/// blank text, and of another neither its ends nor anything between them.
pub proof fn law_trimming_takes_only_white_space(pre: Seq<char>, core: Seq<char>, post: Seq<char>)
    requires
        is_blank(pre),
        is_blank(post),
        core.len() > 0 ==> !is_white(core[0]) && !is_white(core.last()),
    ensures
        trim_spec(pre + core + post) == core,
{
    if core.len() > 0 {
        let rest = core + post;
        assert(rest[0] == core[0]);
        lemma_trim_start(pre, rest);
        assert(pre + core + post =~= pre + rest);
        lemma_trim_end(core, post);
    } else {
        let blank = pre + core + post;
        assert forall|i: int| 0 <= i < blank.len() implies is_white(#[trigger] blank[i]) by {
            if i < pre.len() {
                assert(is_white(pre[i]));
            } else {
                assert(is_white(post[i - pre.len()]));
            }
        }
        lemma_trim_start(blank, seq![]);
        assert(blank + Seq::<char>::empty() =~= blank);
        lemma_trim_end(seq![], seq![]);
        assert(core =~= seq![]);
        assert(Seq::<char>::empty() + Seq::<char>::empty() =~= seq![]);
    }
}

/// A text is cut at the first separator, which neither part keeps; one without
/// a separator is not cut.
pub proof fn law_split_is_at_the_first_separator(head: Seq<char>, sep: char, tail: Seq<char>)
    requires
        !head.contains(sep),
    ensures
        split_once_spec(head + seq![sep] + tail, sep) == Some((head, tail)),
        split_once_spec(head, sep) is None,
        before_spec(head + seq![sep] + tail, sep) == head,
        before_spec(head, sep) == head,
{
    let whole = head + seq![sep] + tail;
    let n = head.len() as int;
    assert(whole.subrange(n, n + 1) =~= seq![sep]);
    assert forall|j: int| 0 <= j < n implies !#[trigger] occurs_at(whole, seq![sep], j) by {
        if occurs_at(whole, seq![sep], j) {
            assert(whole.subrange(j, j + 1)[0] == sep);
            assert(head[j] == sep);
        }
    }
    lemma_find_is(whole, seq![sep], n);
    assert(whole.take(n) =~= head);
    assert(whole.skip(n + 1) =~= tail);
    assert forall|j: int| !#[trigger] occurs_at(head, seq![sep], j) by {
        if occurs_at(head, seq![sep], j) {
            assert(head.subrange(j, j + 1)[0] == sep);
            assert(head[j] == sep);
        }
    }
    assert(absent(head, seq![sep]));
}

/// A joined list holds its parts in order, with the separator between each two
/// of them and nowhere else.
pub proof fn law_joining_keeps_every_part(parts: Seq<Seq<char>>, last: Seq<char>, sep: Seq<char>)
    ensures
        join_spec(seq![last], sep) == last,
        parts.len() > 0 ==> join_spec(parts.push(last), sep) == join_spec(parts, sep) + sep + last,
        parts.len() == 0 ==> join_spec(parts, sep).len() == 0,
{
    assert(parts.push(last).drop_last() =~= parts);
}

/// A text without the sought one stays as it is. Otherwise what is in front of
/// its first occurrence stays, the occurrence is replaced, and what is behind it
/// is treated in the same way.
pub proof fn law_replacing_touches_occurrences_only(
    head: Seq<char>,
    from: Seq<char>,
    tail: Seq<char>,
    to: Seq<char>,
)
    requires
        from.len() > 0,
        first_at(head + from + tail, from, head.len() as int),
    ensures
        replace_spec(head + from + tail, from, to) == head + to + replace_spec(tail, from, to),
        absent(tail, from) ==> replace_spec(tail, from, to) == tail,
        replace_spec(from, from, to) == to,
{
    let whole = head + from + tail;
    lemma_find_is(whole, from, head.len() as int);
    assert(whole.take(head.len() as int) =~= head);
    assert(whole.skip((head.len() + from.len()) as int) =~= tail);
    assert(from.subrange(0, from.len() as int) =~= from);
    assert(first_at(from, from, 0));
    lemma_find_is(from, from, 0);
    let none = Seq::<char>::empty();
    assert(from.take(0) =~= none);
    assert(from.skip(from.len() as int) =~= none);
    assert(absent(none, from));
    assert(replace_spec(none, from, to) =~= none);
    assert(none + to + none =~= to);
}

/// The number that a text of decimal digits stands for.
pub open spec fn decimal_value(digits: Seq<char>) -> int
    decreases digits.len(),
{
    if digits.len() == 0 {
        0
    } else {
        decimal_value(digits.drop_last()) * 10 + (digits.last() as int - '0' as int)
    }
}

/// A number is written in digits that stand for it, without a zero in front.
pub proof fn law_decimal_is_faithful(n: nat)
    ensures
        decimal_value(decimal_spec(n)) == n,
        decimal_spec(n).len() > 0,
        decimal_spec(n)[0] == '0' ==> n == 0,
        forall|i: int|
            0 <= i < decimal_spec(n).len() ==> '0' <= #[trigger] decimal_spec(n)[i] <= '9',
    decreases n,
{
    let digits = decimal_spec(n);
    if n < 10 {
        assert(digits.drop_last() =~= seq![]);
        assert(decimal_value(digits.drop_last()) == 0);
    } else {
        law_decimal_is_faithful(n / 10);
        let head = decimal_spec(n / 10);
        assert(digits.drop_last() =~= head);
        assert forall|i: int| 0 <= i < digits.len() implies '0' <= #[trigger] digits[i] <= '9' by {
            if i < head.len() {
                assert(digits[i] == head[i]);
            }
        }
        assert(digits[0] == head[0]);
    }
}

/// A number is written after its sign, which only a negative one has.
pub proof fn law_signed_numbers_are_faithful(n: int)
    ensures
        n >= 0 ==> signed_spec(n) == decimal_spec(n as nat),
        n < 0 ==> signed_spec(n)[0] == '-' && signed_spec(n).skip(1) == decimal_spec((-n) as nat),
{
    if n < 0 {
        assert(signed_spec(n).skip(1) =~= decimal_spec((-n) as nat));
    }
}

/// A path in a directory is the directory, one separator and the name; nothing
/// is put where the directory is empty or ends with a separator.
pub proof fn law_paths_lie_in_their_directory(dir: Seq<char>, name: Seq<char>)
    ensures
        path_in(dir.push('/'), name) == dir.push('/') + name,
        dir.len() > 0 && dir.last() != '/' ==> path_in(dir, name) == path_in(dir.push('/'), name),
        path_in(seq![], name) == name,
{
    assert(Seq::<char>::empty() + name =~= name);
}

/// Texts stand in the order of a dictionary: one in front of what goes on from
/// it, and of two that part, the one with the lower character first.
pub proof fn law_texts_stand_in_dictionary_order(
    head: Seq<char>,
    a: char,
    b: char,
    tail: Seq<char>,
    other: Seq<char>,
)
    ensures
        tail.len() > 0 ==> text_before(head, head + tail),
        a < b ==> text_before(head + seq![a] + tail, head + seq![b] + other),
        !text_before(head, head),
        text_before(head, tail) ==> !text_before(tail, head),
{
    let n = head.len() as int;
    if tail.len() > 0 {
        assert(parts_at(head, head + tail, n));
    }
    if a < b {
        let x = head + seq![a] + tail;
        let y = head + seq![b] + other;
        assert(x[n] == a && y[n] == b);
        assert forall|k: int| 0 <= k < n implies #[trigger] x[k] == y[k] by {
            assert(x[k] == head[k] && y[k] == head[k]);
        }
        assert(parts_at(x, y, n));
    }
    if text_before(head, tail) && text_before(tail, head) {
        lemma_before_passes_on(head, tail, head);
    }
}

/// The lower case of an ASCII text has each letter in lower case and every other
/// character as it is; taking it again changes nothing.
pub proof fn law_lower_case_changes_capitals_only(s: Seq<char>, i: int)
    requires
        is_ascii_chars(s),
        0 <= i < s.len(),
    ensures
        lowercase(s).len() == s.len(),
        'A' <= s[i] <= 'Z' ==> lowercase(s)[i] as int - 'a' as int == s[i] as int - 'A' as int,
        !('A' <= s[i] <= 'Z') ==> lowercase(s)[i] == s[i],
{
    assert(lowercase(s)[i] == ascii_lower(s[i]));
}

} // verus!

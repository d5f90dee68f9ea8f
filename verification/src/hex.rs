//! Hexadecimal text.

use vstd::prelude::*;

verus! {

/// The lower-case digit of a half byte.
pub open spec fn lower_digit(n: u8) -> char {
    if n < 10 {
        (48 + n) as u8 as char
    } else {
        (87 + n) as u8 as char
    }
}

/// The upper-case digit of a half byte.
pub open spec fn upper_digit(n: u8) -> char {
    if n < 10 {
        (48 + n) as u8 as char
    } else {
        (55 + n) as u8 as char
    }
}

/// `bytes` in lower-case hexadecimal, two digits each.
pub open spec fn hex_spec(bytes: Seq<u8>) -> Seq<char> {
    Seq::new(
        2 * bytes.len(),
        |i: int|
            if i % 2 == 0 {
                lower_digit((bytes[i / 2] / 16) as u8)
            } else {
                lower_digit((bytes[i / 2] % 16) as u8)
            },
    )
}

/// `bytes` in upper-case hexadecimal, two digits each, with a colon between
/// each two bytes.
pub open spec fn colon_hex_spec(bytes: Seq<u8>) -> Seq<char>
    decreases bytes.len(),
{
    if bytes.len() == 0 {
        seq![]
    } else {
        let head = colon_hex_spec(bytes.drop_last());
        let sep: Seq<char> = if bytes.len() == 1 { seq![] } else { seq![':'] };
        head + sep + seq![
            upper_digit((bytes.last() / 16) as u8),
            upper_digit((bytes.last() % 16) as u8),
        ]
    }
}

/// Whether `c` is a hexadecimal digit in either case.
pub open spec fn is_hex_digit(c: char) -> bool {
    ('0' <= c && c <= '9') || ('a' <= c && c <= 'f') || ('A' <= c && c <= 'F')
}

/// `bytes` in lower-case hexadecimal.
pub fn hex_encode(bytes: &[u8]) -> (res: String)
    ensures
        res@ == hex_spec(bytes@),
{
    let mut res = String::new();
    let mut i: usize = 0;
    while i < bytes.len()
        invariant
            i <= bytes@.len(),
            res@ == hex_spec(bytes@.take(i as int)),
        decreases bytes@.len() - i,
    {
        let high: u8 = bytes[i] / 16;
        let low: u8 = bytes[i] % 16;
        res.push(if high < 10 { (48 + high) as char } else { (87 + high) as char });
        res.push(if low < 10 { (48 + low) as char } else { (87 + low) as char });
        i = i + 1;
        assert(res@ =~= hex_spec(bytes@.take(i as int)));
    }
    assert(bytes@.take(i as int) =~= bytes@);
    res
}

/// `bytes` in upper-case hexadecimal with colons.
pub fn colon_hex_encode(bytes: &[u8]) -> (res: String)
    ensures
        res@ == colon_hex_spec(bytes@),
{
    let mut res = String::new();
    let mut i: usize = 0;
    while i < bytes.len()
        invariant
            i <= bytes@.len(),
            res@ == colon_hex_spec(bytes@.take(i as int)),
        decreases bytes@.len() - i,
    {
        let ghost before = bytes@.take(i as int);
        let ghost now = bytes@.take(i + 1);
        assert(now.drop_last() =~= before);
        if i > 0 {
            res.push(':');
        }
        let high: u8 = bytes[i] / 16;
        let low: u8 = bytes[i] % 16;
        res.push(if high < 10 { (48 + high) as char } else { (55 + high) as char });
        res.push(if low < 10 { (48 + low) as char } else { (55 + low) as char });
        assert(res@ =~= colon_hex_spec(now));
        i = i + 1;
    }
    assert(bytes@.take(i as int) =~= bytes@);
    res
}

/// A lower-case hexadecimal text has two digits for each byte, all of them
/// lower-case digits, and no two byte strings share one.
pub proof fn law_hex_is_faithful(a: Seq<u8>, b: Seq<u8>)
    ensures
        hex_spec(a).len() == 2 * a.len(),
        forall|i: int| 0 <= i < hex_spec(a).len() ==> is_hex_digit(#[trigger] hex_spec(a)[i]),
        hex_spec(a) == hex_spec(b) ==> a == b,
{
    if hex_spec(a) == hex_spec(b) {
        assert(hex_spec(a).len() == 2 * a.len());
        assert(hex_spec(b).len() == 2 * b.len());
        assert forall|i: int| 0 <= i < a.len() implies a[i] == b[i] by {
            assert(hex_spec(a)[2 * i] == hex_spec(b)[2 * i]);
            assert(hex_spec(a)[2 * i + 1] == hex_spec(b)[2 * i + 1]);
        }
        assert(a =~= b);
    }
}

/// What a hexadecimal digit in either case stands for.
pub open spec fn digit_value(c: char) -> int {
    if '0' <= c && c <= '9' {
        c as int - '0' as int
    } else if 'a' <= c && c <= 'f' {
        c as int - 'a' as int + 10
    } else {
        c as int - 'A' as int + 10
    }
}

/// Each byte is written in place, its high half in front of its low half, in
/// digits that stand for them; the letters are lower case.
pub proof fn law_hex_reads_back(bytes: Seq<u8>, i: int)
    requires
        0 <= i < bytes.len(),
    ensures
        digit_value(hex_spec(bytes)[2 * i]) * 16 + digit_value(hex_spec(bytes)[2 * i + 1])
            == bytes[i],
        forall|j: int|
            0 <= j < hex_spec(bytes).len() ==> {
                let c = #[trigger] hex_spec(bytes)[j];
                ('0' <= c && c <= '9') || ('a' <= c && c <= 'f')
            },
{
    let text = hex_spec(bytes);
    assert((2 * i) / 2 == i && (2 * i) % 2 == 0);
    assert((2 * i + 1) / 2 == i && (2 * i + 1) % 2 == 1);
    assert(text[2 * i] == lower_digit((bytes[i] / 16) as u8));
    assert(text[2 * i + 1] == lower_digit((bytes[i] % 16) as u8));
}

/// Each byte is written in place in two upper-case digits that stand for it,
/// with a colon in front of all but the first and nothing else.
pub proof fn law_colon_hex_reads_back(bytes: Seq<u8>, i: int)
    requires
        0 <= i < bytes.len(),
    ensures
        colon_hex_spec(bytes).len() == 3 * bytes.len() - 1,
        digit_value(colon_hex_spec(bytes)[3 * i]) * 16 + digit_value(
            colon_hex_spec(bytes)[3 * i + 1],
        ) == bytes[i],
        i > 0 ==> colon_hex_spec(bytes)[3 * i - 1] == ':',
        !('a' <= colon_hex_spec(bytes)[3 * i] <= 'f'),
        !('a' <= colon_hex_spec(bytes)[3 * i + 1] <= 'f'),
        is_hex_digit(colon_hex_spec(bytes)[3 * i]),
        is_hex_digit(colon_hex_spec(bytes)[3 * i + 1]),
    decreases bytes.len(),
{
    let head = bytes.drop_last();
    let text = colon_hex_spec(bytes);
    if head.len() == 0 {
        assert(colon_hex_spec(head) =~= seq![]);
    } else {
        law_colon_hex_reads_back(head, if i < head.len() { i } else { 0 });
        let before = colon_hex_spec(head);
        if i < head.len() {
            assert(text[3 * i] == before[3 * i]);
            assert(text[3 * i + 1] == before[3 * i + 1]);
            if i > 0 {
                assert(text[3 * i - 1] == before[3 * i - 1]);
            }
            assert(head[i] == bytes[i]);
        }
    }
}

/// The characters that count as hexadecimal digits are those of some half byte,
/// in lower or upper case.
pub proof fn law_hex_digits_are_half_bytes(c: char, n: u8)
    ensures
        is_hex_digit(c) ==> 0 <= digit_value(c) < 16 && (c == lower_digit(digit_value(c) as u8) || c
            == upper_digit(digit_value(c) as u8)),
        n < 16 ==> is_hex_digit(lower_digit(n)) && digit_value(lower_digit(n)) == n,
        n < 16 ==> is_hex_digit(upper_digit(n)) && digit_value(upper_digit(n)) == n,
{
}

} // verus!

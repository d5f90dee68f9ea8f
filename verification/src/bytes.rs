//! Searching and classifying byte strings.

use crate::search::{absent, find_spec, first_at, lemma_find_is, occurs_at};
use vstd::prelude::*;

verus! {

/// `s` is a proper prefix of `whole`.
pub open spec fn strict_prefix(s: Seq<u8>, whole: Seq<u8>) -> bool {
    s.len() < whole.len() && s.is_prefix_of(whole)
}

/// The ASCII white space bytes: space, tab, line feed, form feed, carriage return.
pub open spec fn is_space(b: u8) -> bool {
    b == 0x20 || b == 0x09 || b == 0x0a || b == 0x0c || b == 0x0d
}

/// `s` without the white space it starts with.
pub open spec fn trim_front(s: Seq<u8>) -> Seq<u8>
    decreases s.len(),
{
    if s.len() > 0 && is_space(s[0]) {
        trim_front(s.skip(1))
    } else {
        s
    }
}

/// Whether `data` starts with `prefix`.
pub fn starts_with(data: &[u8], prefix: &[u8]) -> (res: bool)
    ensures
        res == prefix@.is_prefix_of(data@),
{
    if data.len() < prefix.len() {
        return false;
    }
    let mut i: usize = 0;
    while i < prefix.len()
        invariant
            i <= prefix@.len() <= data@.len(),
            forall|j: int| 0 <= j < i ==> data@[j] == prefix@[j],
        decreases prefix@.len() - i,
    {
        if data[i] != prefix[i] {
            assert(data@.subrange(0, prefix@.len() as int)[i as int] != prefix@[i as int]);
            return false;
        }
        i = i + 1;
    }
    assert(data@.subrange(0, prefix@.len() as int) =~= prefix@);
    true
}

/// Whether `data` is a proper prefix of `whole`.
pub fn is_strict_prefix_of(data: &[u8], whole: &[u8]) -> (res: bool)
    ensures
        res == strict_prefix(data@, whole@),
{
    data.len() < whole.len() && starts_with(whole, data)
}

/// Whether `needle` stands in `hay` at offset `i`.
fn occurs(hay: &[u8], needle: &[u8], i: usize) -> (res: bool)
    requires
        i + needle@.len() <= hay@.len(),
    ensures
        res == occurs_at(hay@, needle@, i as int),
{
    let end: usize = hay.len();
    let mut k: usize = 0;
    while k < needle.len()
        invariant
            k <= needle@.len(),
            end == hay@.len(),
            i + needle@.len() <= end,
            forall|j: int| 0 <= j < k ==> hay@[i + j] == needle@[j],
        decreases needle@.len() - k,
    {
        if hay[i + k] != needle[k] {
            assert(hay@.subrange(i as int, i + needle@.len())[k as int] != needle@[k as int]);
            return false;
        }
        k = k + 1;
    }
    assert(hay@.subrange(i as int, i + needle@.len()) =~= needle@);
    true
}

/// The offset of the first occurrence of `needle` in `hay`.
pub fn find(hay: &[u8], needle: &[u8]) -> (res: Option<usize>)
    ensures
        match res {
            Some(i) => find_spec(hay@, needle@) == Some(i as int) && first_at(hay@, needle@, i as int),
            None => find_spec(hay@, needle@) is None,
        },
{
    if needle.len() > hay.len() {
        assert(absent(hay@, needle@));
        return None;
    }
    let last: usize = hay.len() - needle.len();
    let mut i: usize = 0;
    while i <= last
        invariant
            last == hay@.len() - needle@.len(),
            i <= last + 1,
            hay@.len() <= usize::MAX,
            forall|j: int| 0 <= j < i ==> !#[trigger] occurs_at(hay@, needle@, j),
        decreases last + 1 - i,
    {
        if occurs(hay, needle, i) {
            proof {
                lemma_find_is(hay@, needle@, i as int);
            }
            return Some(i);
        }
        if i == last {
            assert(absent(hay@, needle@));
            return None;
        }
        i = i + 1;
    }
    assert(absent(hay@, needle@));
    None
}

/// How many white space bytes `data` starts with.
pub fn leading_space(data: &[u8]) -> (n: usize)
    ensures
        n <= data@.len(),
        data@.skip(n as int) == trim_front(data@),
{
    let mut n: usize = 0;
    assert(data@.skip(0) =~= data@);
    while n < data.len() && (data[n] == 0x20 || data[n] == 0x09 || data[n] == 0x0a || data[n] == 0x0c
        || data[n] == 0x0d)
        invariant
            n <= data@.len(),
            trim_front(data@.skip(n as int)) == trim_front(data@),
        decreases data@.len() - n,
    {
        assert(data@.skip(n as int).skip(1) =~= data@.skip(n + 1));
        assert(data@.skip(n as int)[0] == data@[n as int]);
        n = n + 1;
    }
    if n < data.len() {
        assert(data@.skip(n as int)[0] == data@[n as int]);
    }
    n
}

} // verus!

//! Content addressed by its SHA-256 hash: which file holds what, and which
//! requests are refused.

use crate::digest::{hex_sha256, sha256_spec};
use crate::hex::{digit_value, hex_spec, is_hex_digit, law_hex_is_faithful, law_hex_reads_back};
use crate::text::{ascii_lower, ascii_lowercase, ascii_upper, ascii_uppercase, cat, chars_of, decimal,
    decimal_spec, join_path, law_decimal_is_faithful, law_split_is_at_the_first_separator, lowercase,
    path_in, same_text, to_lowercase};
use vstd::prelude::*;
use vstd::utf8::is_ascii_chars;

verus! {

/// Why content is not stored or found.
#[derive(Debug)]
pub enum ContentStoreError {
    /// The file system failed.
    Io(String),
    /// The content is not what was claimed.
    HashMismatch { claimed: String, actual: String },
    /// Not the text of a hash.
    InvalidHash(String),
}

impl ContentStoreError {
    /// What `message` says.
    pub open spec fn message_spec(&self) -> Seq<char> {
        match *self {
            ContentStoreError::Io(error) => "I/O error: "@ + error@ + ""@,
            ContentStoreError::HashMismatch { claimed, actual } =>
                "uploaded content's actual hash "@ + actual@ + (
            " does not match the claimed hash "@ + claimed@ + ""@),
            ContentStoreError::InvalidHash(hash) => "'"@ + hash@
                + "' is not a valid content hash (expected 64 lowercase hex characters)"@,
        }
    }

    /// The error in words.
    pub fn message(&self) -> (res: String)
        ensures
            res@ == self.message_spec(),
    {
        match self {
            ContentStoreError::Io(error) => cat("I/O error: ", error, ""),
            ContentStoreError::HashMismatch { claimed, actual } => cat(
                "uploaded content's actual hash ",
                actual,
                &cat(" does not match the claimed hash ", claimed, ""),
            ),
            ContentStoreError::InvalidHash(hash) => cat(
                "'",
                hash,
                "' is not a valid content hash (expected 64 lowercase hex characters)",
            ),
        }
    }
}

/// The key of `bytes`: their SHA-256 hash in lower-case hexadecimal.
pub open spec fn key_of(bytes: Seq<u8>) -> Seq<char> {
    hex_spec(sha256_spec(bytes))
}

/// The text of a hash: 64 hexadecimal digits.
pub open spec fn is_hash_text(text: Seq<char>) -> bool {
    &&& text.len() == 64
    &&& forall|i: int| 0 <= i < text.len() ==> is_hex_digit(#[trigger] text[i])
}

/// The hash that `hash` stands for: its lower case, if that is one.
pub fn validate_hash(hash: &str) -> (res: Result<String, ContentStoreError>)
    ensures
        match res {
            Ok(lower) => lower@ == lowercase(hash@) && is_hash_text(lower@),
            Err(ContentStoreError::InvalidHash(h)) => h@ == hash@ && !is_hash_text(
                lowercase(hash@),
            ),
            Err(_) => false,
        },
{
    let lower = to_lowercase(hash);
    let chars = chars_of(&lower);
    if chars.len() != 64 {
        return Err(ContentStoreError::InvalidHash(hash.to_owned()));
    }
    let mut i: usize = 0;
    while i < chars.len()
        invariant
            chars@ == lower@,
            lower@ == lowercase(hash@),
            i <= chars@.len(),
            forall|j: int| 0 <= j < i ==> is_hex_digit(#[trigger] chars@[j]),
        decreases chars@.len() - i,
    {
        let c: char = chars[i];
        if !(('0' <= c && c <= '9') || ('a' <= c && c <= 'f') || ('A' <= c && c <= 'F')) {
            assert(!is_hex_digit(chars@[i as int]));
            return Err(ContentStoreError::InvalidHash(hash.to_owned()));
        }
        i = i + 1;
    }
    Ok(lower)
}

/// Whether `hash` stands for a hash.
pub fn is_valid_hash(hash: &str) -> (res: bool)
    ensures
        res == is_hash_text(lowercase(hash@)),
{
    validate_hash(hash).is_ok()
}

/// Whether content is what a claimed hash says, upper and lower case aside; a
/// missing claim says nothing.
pub open spec fn claim_fits(bytes: Seq<u8>, claimed: Option<Seq<char>>) -> bool {
    claimed matches Some(hash) ==> lowercase(hash) == key_of(bytes)
}

/// Where content goes.
#[derive(Debug, PartialEq)]
pub struct Placement {
    /// The key of the content.
    pub hash: String,
    /// The file that holds it.
    pub path: String,
}

/// What is left to do for an upload.
#[derive(Debug, PartialEq, Eq)]
pub enum UploadStep {
    /// The content is there already.
    Done,
    /// Write it to this file, force it out, and rename that to its place.
    WriteThenRename(String),
}

/// What reading a file gave.
#[derive(Debug)]
pub enum ReadOutcome {
    Bytes(Vec<u8>),
    Missing,
    Failed(String),
}

/// A directory of content.
#[derive(Debug)]
pub struct ContentStore {
    dir: String,
}

impl ContentStore {
    /// The directory.
    pub closed spec fn dir(&self) -> Seq<char> {
        self.dir@
    }

    /// A store in this directory.
    pub fn open(dir: String) -> (res: Self)
        ensures
            res.dir() == dir@,
    {
        ContentStore { dir }
    }

    /// The file that holds the content with this hash.
    pub fn path_for(&self, hash: &str) -> (res: String)
        ensures
            res@ == path_in(self.dir(), hash@),
    {
        join_path(&self.dir, hash)
    }

    /// Where `bytes` go: always under their real hash. A claimed hash that
    /// differs, upper and lower case aside, is refused.
    pub fn place(&self, bytes: &[u8], claimed_hash: Option<&str>) -> (res: Result<
        Placement,
        ContentStoreError,
    >)
        ensures
            res is Ok <==> claim_fits(
                bytes@,
                match claimed_hash {
                    Some(c) => Some(c@),
                    None => None,
                },
            ),
            match res {
                Ok(place) => {
                    &&& place.hash@ == key_of(bytes@)
                    &&& is_hash_text(place.hash@)
                    &&& place.path@ == path_in(self.dir(), key_of(bytes@))
                    &&& claimed_hash matches Some(c) ==> lowercase(c@) == key_of(bytes@)
                },
                Err(ContentStoreError::HashMismatch { claimed, actual }) => {
                    &&& claimed_hash matches Some(c)
                    &&& claimed@ == lowercase(c@)
                    &&& actual@ == key_of(bytes@)
                    &&& claimed@ != actual@
                },
                Err(_) => false,
            },
    {
        let actual = hex_sha256(bytes);
        proof {
            law_hex_is_faithful(sha256_spec(bytes@), sha256_spec(bytes@));
            law_keys_are_hashes(bytes@);
        }
        if let Some(claimed) = claimed_hash {
            let lower = to_lowercase(claimed);
            if !same_text(&lower, &actual) {
                return Err(ContentStoreError::HashMismatch { claimed: lower, actual });
            }
        }
        let path = self.path_for(&actual);
        Ok(Placement { hash: actual, path })
    }

    /// What an upload has left to do, given whether its file exists already.
    /// The temporary file is one of this process, told apart by `nonce`.
    pub fn upload_step(&self, exists: bool, process: u64, nonce: u64) -> (res: UploadStep)
        ensures
            match res {
                UploadStep::Done => exists,
                UploadStep::WriteThenRename(path) => {
                    &&& !exists
                    &&& path@ == path_in(self.dir(), temp_name(process, nonce))
                },
            },
    {
        if exists {
            UploadStep::Done
        } else {
            let numbers = cat(&decimal(process), "-", &decimal(nonce));
            let name = cat(".tmp-", &numbers, "");
            proof {
                reveal_strlit("");
                assert(name@ =~= temp_name(process, nonce));
            }
            UploadStep::WriteThenRename(join_path(&self.dir, &name))
        }
    }

    /// The file to read for `hash`; what is no hash is refused and never
    /// becomes a path.
    pub fn locate(&self, hash: &str) -> (res: Result<String, ContentStoreError>)
        ensures
            match res {
                Ok(path) => {
                    &&& is_hash_text(lowercase(hash@))
                    &&& path@ == path_in(self.dir(), lowercase(hash@))
                },
                Err(ContentStoreError::InvalidHash(h)) => h@ == hash@ && !is_hash_text(
                    lowercase(hash@),
                ),
                Err(_) => false,
            },
    {
        match validate_hash(hash) {
            Ok(lower) => Ok(self.path_for(&lower)),
            Err(error) => Err(error),
        }
    }

    /// What a read of a located file means: a missing file is no error.
    pub fn found(outcome: ReadOutcome) -> (res: Result<Option<Vec<u8>>, ContentStoreError>)
        ensures
            match outcome {
                ReadOutcome::Bytes(bytes) => res == Ok::<Option<Vec<u8>>, ContentStoreError>(
                    Some(bytes),
                ),
                ReadOutcome::Missing => res == Ok::<Option<Vec<u8>>, ContentStoreError>(None),
                ReadOutcome::Failed(error) => res == Err::<Option<Vec<u8>>, ContentStoreError>(
                    ContentStoreError::Io(error),
                ),
            },
    {
        match outcome {
            ReadOutcome::Bytes(bytes) => Ok(Some(bytes)),
            ReadOutcome::Missing => Ok(None),
            ReadOutcome::Failed(error) => Err(ContentStoreError::Io(error)),
        }
    }
}

/// The name of a temporary file.
pub open spec fn temp_name(process: u64, nonce: u64) -> Seq<char> {
    ".tmp-"@ + (decimal_spec(process as nat) + "-"@ + decimal_spec(nonce as nat))
}

/// Files by path.
pub type Files = Map<Seq<char>, Seq<u8>>;

/// The files once `bytes` are stored in `dir`: a file that is there already
/// is left alone.
pub open spec fn stored(files: Files, dir: Seq<char>, bytes: Seq<u8>) -> Files {
    let path = path_in(dir, key_of(bytes));
    if files.contains_key(path) {
        files
    } else {
        files.insert(path, bytes)
    }
}

/// Every file of `dir` that is named like a hash holds content with that hash.
pub open spec fn addressed(files: Files, dir: Seq<char>) -> bool {
    forall|hash: Seq<char>|
        is_hash_text(hash) && #[trigger] files.contains_key(path_in(dir, hash)) ==> key_of(
            files[path_in(dir, hash)],
        ) == hash
}

/// Two names give two paths in a directory.
pub proof fn lemma_path_in_injective(dir: Seq<char>, a: Seq<char>, b: Seq<char>)
    requires
        path_in(dir, a) == path_in(dir, b),
    ensures
        a == b,
{
    let head = if dir.len() == 0 || dir.last() == '/' { dir } else { dir.push('/') };
    assert(path_in(dir, a) == head + a);
    assert(path_in(dir, b) == head + b);
    head.lemma_concat_injective(a, b);
}

/// The key of content is the text of a hash, a digest having 32 bytes.
pub proof fn law_keys_are_hashes(bytes: Seq<u8>)
    ensures
        sha256_spec(bytes).len() == 32 ==> is_hash_text(key_of(bytes)),
{
    law_hex_is_faithful(sha256_spec(bytes), sha256_spec(bytes));
}

/// What was stored is found under its key: the very bytes where the file is
/// new, and in any case content with the same hash. Storing keeps every file
/// under its real hash.
pub proof fn law_stored_content_is_found(files: Files, dir: Seq<char>, bytes: Seq<u8>)
    requires
        addressed(files, dir),
        is_hash_text(key_of(bytes)),
    ensures
        ({
            let now = stored(files, dir, bytes);
            let path = path_in(dir, key_of(bytes));
            &&& addressed(now, dir)
            &&& now.contains_key(path)
            &&& key_of(now[path]) == key_of(bytes)
            &&& !files.contains_key(path) ==> now[path] == bytes
        }),
{
    let now = stored(files, dir, bytes);
    let path = path_in(dir, key_of(bytes));
    assert forall|hash: Seq<char>|
        is_hash_text(hash) && #[trigger] now.contains_key(path_in(dir, hash)) implies key_of(
        now[path_in(dir, hash)],
    ) == hash by {
        if path_in(dir, hash) == path {
            lemma_path_in_injective(dir, hash, key_of(bytes));
            if files.contains_key(path) {
                assert(files.contains_key(path_in(dir, hash)));
            }
        } else {
            assert(files.contains_key(path_in(dir, hash)));
        }
    }
    assert(now.contains_key(path_in(dir, key_of(bytes))));
}

/// The files once each of `uploads` was stored in `dir`, in order.
pub open spec fn stored_all(files: Files, dir: Seq<char>, uploads: Seq<Seq<u8>>) -> Files
    decreases uploads.len(),
{
    if uploads.len() == 0 {
        files
    } else {
        stored(stored_all(files, dir, uploads.drop_last()), dir, uploads.last())
    }
}

/// What is found in `dir` under a hash in either case: what `locate` and
/// `found` give.
pub open spec fn found_under(files: Files, dir: Seq<char>, hash: Seq<char>) -> Option<Seq<u8>> {
    let path = path_in(dir, lowercase(hash));
    if is_hash_text(lowercase(hash)) && files.contains_key(path) {
        Some(files[path])
    } else {
        None
    }
}

/// A file that is there stays as it is, whatever is stored later.
proof fn lemma_files_stay(files: Files, dir: Seq<char>, uploads: Seq<Seq<u8>>, path: Seq<char>)
    requires
        files.contains_key(path),
    ensures
        stored_all(files, dir, uploads).contains_key(path),
        stored_all(files, dir, uploads)[path] == files[path],
    decreases uploads.len(),
{
    if uploads.len() > 0 {
        lemma_files_stay(files, dir, uploads.drop_last(), path);
    }
}

/// The key of content is its own lower case, and that of its upper case.
proof fn lemma_key_case(bytes: Seq<u8>)
    ensures
        lowercase(key_of(bytes)) == key_of(bytes),
        lowercase(ascii_uppercase(key_of(bytes))) == key_of(bytes),
{
    let key = key_of(bytes);
    let upper = ascii_uppercase(key);
    assert forall|i: int| 0 <= i < key.len() implies ('0' <= #[trigger] key[i] && key[i] <= '9') || (
    'a' <= key[i] && key[i] <= 'f') by {}
    assert(is_ascii_chars(key));
    assert(ascii_lowercase(key) =~= key);
    assert forall|i: int| 0 <= i < upper.len() implies #[trigger] upper[i] == ascii_upper(key[i])
        && (upper[i] as u32) < 128 && ascii_lower(upper[i]) == key[i] by {}
    assert(is_ascii_chars(upper));
    assert(ascii_lowercase(upper) =~= key);
}

/// What was stored stays found, under its key in either case, whatever is
/// stored later: the very bytes where the file was new, and in any case
/// content with the same hash.
pub proof fn law_content_stays_found(
    files: Files,
    dir: Seq<char>,
    bytes: Seq<u8>,
    later: Seq<Seq<u8>>,
)
    requires
        addressed(files, dir),
        is_hash_text(key_of(bytes)),
    ensures
        ({
            let now = stored_all(stored(files, dir, bytes), dir, later);
            let key = key_of(bytes);
            &&& found_under(now, dir, key) matches Some(found) && key_of(found) == key
            &&& found_under(now, dir, ascii_uppercase(key)) == found_under(now, dir, key)
            &&& found_under(files, dir, key) is None ==> found_under(now, dir, key) == Some(bytes)
            &&& found_under(files, dir, key) is Some ==> found_under(now, dir, key) == found_under(
                files,
                dir,
                key,
            )
            &&& stored(now, dir, bytes) == now
        }),
{
    let first = stored(files, dir, bytes);
    let path = path_in(dir, key_of(bytes));
    lemma_key_case(bytes);
    law_stored_content_is_found(files, dir, bytes);
    lemma_files_stay(first, dir, later, path);
}

/// Storing the same bytes again changes nothing.
pub proof fn law_storing_is_idempotent(files: Files, dir: Seq<char>, bytes: Seq<u8>)
    ensures
        stored(stored(files, dir, bytes), dir, bytes) == stored(files, dir, bytes),
{
}

/// The text of a hash is a plain file name: no separator and no dot, so that
/// no path leaves the directory.
pub proof fn law_hash_cannot_leave_the_directory(text: Seq<char>)
    requires
        is_hash_text(text),
    ensures
        !text.contains('/'),
        !text.contains('.'),
        !text.contains('\\'),
        !text.contains('\0'),
{
    assert forall|i: int| 0 <= i < text.len() implies text[i] != '/' && text[i] != '.' && text[i]
        != '\\' && text[i] != '\0' by {
        assert(is_hex_digit(text[i]));
    }
}

/// The key of content is written in the lower-case digits of its digest, and the
/// text of a hash is 64 digits in either case and nothing else.
pub proof fn law_keys_are_written_digests(bytes: Seq<u8>, i: int, text: Seq<char>)
    ensures
        key_of(bytes).len() == 2 * sha256_spec(bytes).len(),
        0 <= i < sha256_spec(bytes).len() ==> digit_value(key_of(bytes)[2 * i]) * 16 + digit_value(
            key_of(bytes)[2 * i + 1],
        ) == sha256_spec(bytes)[i],
        is_hash_text(text) <==> text.len() == 64 && forall|k: int|
            0 <= k < 64 ==> ('0' <= #[trigger] text[k] <= '9' || 'a' <= text[k] <= 'f' || 'A'
                <= text[k] <= 'F'),
{
    if 0 <= i < sha256_spec(bytes).len() {
        law_hex_reads_back(sha256_spec(bytes), i);
    }
    if text.len() == 64 && forall|k: int|
        0 <= k < 64 ==> ('0' <= #[trigger] text[k] <= '9' || 'a' <= text[k] <= 'f' || 'A' <= text[k]
            <= 'F') {
        assert forall|k: int| 0 <= k < text.len() implies is_hex_digit(#[trigger] text[k]) by {}
    }
    if is_hash_text(text) {
        assert forall|k: int| 0 <= k < 64 implies ('0' <= #[trigger] text[k] <= '9' || 'a'
            <= text[k] <= 'f' || 'A' <= text[k] <= 'F') by {
            assert(is_hex_digit(text[k]));
        }
    }
}

/// No two uploads share a temporary file, in one process or in two, and none is
/// mistaken for content.
pub proof fn law_temporary_files_are_told_apart(
    process: u64,
    nonce: u64,
    other_process: u64,
    other_nonce: u64,
)
    ensures
        temp_name(process, nonce) == temp_name(other_process, other_nonce) ==> process
            == other_process && nonce == other_nonce,
        !is_hash_text(temp_name(process, nonce)),
{
    reveal_strlit(".tmp-");
    reveal_strlit("-");
    let a = decimal_spec(process as nat);
    let b = decimal_spec(nonce as nat);
    let c = decimal_spec(other_process as nat);
    let d = decimal_spec(other_nonce as nat);
    law_decimal_is_faithful(process as nat);
    law_decimal_is_faithful(nonce as nat);
    law_decimal_is_faithful(other_process as nat);
    law_decimal_is_faithful(other_nonce as nat);
    assert(temp_name(process, nonce)[0] == '.');
    assert(!is_hex_digit(temp_name(process, nonce)[0]));
    assert("-"@ =~= seq!['-']);
    if temp_name(process, nonce) == temp_name(other_process, other_nonce) {
        let x = a + "-"@ + b;
        let y = c + "-"@ + d;
        assert(temp_name(process, nonce).skip(5) =~= x);
        assert(temp_name(other_process, other_nonce).skip(5) =~= y);
        assert(!a.contains('-')) by {
            if a.contains('-') {
                assert('0' <= a[a.index_of('-')] <= '9');
            }
        }
        assert(!c.contains('-')) by {
            if c.contains('-') {
                assert('0' <= c[c.index_of('-')] <= '9');
            }
        }
        law_split_is_at_the_first_separator(a, '-', b);
        law_split_is_at_the_first_separator(c, '-', d);
        assert(a == c && b == d);
    }
}

/// Content is taken without a claim, and under its own hash in either case; a
/// claim that names the hash of other content is refused.
pub proof fn law_claims_are_held_against_the_content(bytes: Seq<u8>, other: Seq<u8>)
    ensures
        claim_fits(bytes, None),
        claim_fits(bytes, Some(key_of(bytes))),
        claim_fits(bytes, Some(ascii_uppercase(key_of(bytes)))),
        key_of(other) != key_of(bytes) ==> !claim_fits(bytes, Some(key_of(other))),
        key_of(other) != key_of(bytes) ==> !claim_fits(
            bytes,
            Some(ascii_uppercase(key_of(other))),
        ),
{
    lemma_key_case(bytes);
    lemma_key_case(other);
}

} // verus!

//! Backups of the data directory: what each pass copies, and the command that
//! ships the result elsewhere.
//!
//! Every file either only grows or never changes, so a pass copies what the
//! backup lacks at the end.

use crate::content_store::{is_hash_text, temp_name};
use crate::hex::is_hex_digit;
use crate::search::{absent, first_at};
use crate::text::{cat, law_replacing_touches_occurrences_only, listed, listed_spec, replace,
    replace_spec, text_starts_with};
use crate::views::lemma_view_push;
use vstd::prelude::*;

verus! {

/// Why a backup pass failed.
#[derive(Debug)]
pub enum BackupError {
    /// The file system failed.
    Io(String),
    /// The offsite command did not succeed.
    OffsiteCommandFailed { command: Vec<String>, status: String },
}

impl BackupError {
    /// What `message` says.
    pub open spec fn message_spec(&self) -> Seq<char> {
        match *self {
            BackupError::Io(error) => "I/O error: "@ + error@ + ""@,
            BackupError::OffsiteCommandFailed { command, status } => "offsite command "@
                + listed_spec(command.deep_view()) + (" exited with status "@ + status@ + ""@),
        }
    }

    /// The error in words.
    pub fn message(&self) -> (res: String)
        ensures
            res@ == self.message_spec(),
    {
        match self {
            BackupError::Io(error) => cat("I/O error: ", error, ""),
            BackupError::OffsiteCommandFailed { command, status } => cat(
                "offsite command ",
                &listed(command),
                &cat(" exited with status ", status, ""),
            ),
        }
    }
}

/// A command that ships the backup directory elsewhere. Wherever `{src}`
/// stands in it, the path of that directory is put.
#[derive(Debug, Clone, PartialEq, Eq)]
pub struct OffsiteTarget {
    pub command: Vec<String>,
}

/// `command` with the directory `src` put wherever `{src}` stands.
pub open spec fn resolved_command(command: Seq<Seq<char>>, src: Seq<char>) -> Seq<Seq<char>> {
    command.map_values(|part: Seq<char>| replace_spec(part, "{src}"@, src))
}

impl OffsiteTarget {
    /// A target, or none where there is no command.
    pub fn new(command: Vec<String>) -> (res: Option<Self>)
        ensures
            match res {
                Some(target) => command@.len() > 0 && target.command == command,
                None => command@.len() == 0,
            },
    {
        if command.is_empty() {
            None
        } else {
            Some(OffsiteTarget { command })
        }
    }

    /// The command to run for the directory `src`.
    pub fn resolve(&self, src: &str) -> (res: Vec<String>)
        ensures
            res.deep_view() == resolved_command(self.command.deep_view(), src@),
    {
        let ghost all = self.command.deep_view();
        let mut res: Vec<String> = Vec::new();
        let mut i: usize = 0;
        proof {
            reveal_strlit("{src}");
        }
        assert(res.deep_view() =~= resolved_command(all.take(0), src@));
        while i < self.command.len()
            invariant
                "{src}"@.len() > 0,
                all == self.command.deep_view(),
                i <= self.command@.len(),
                res.deep_view() == resolved_command(all.take(i as int), src@),
            decreases self.command@.len() - i,
        {
            let ghost before = res;
            let part = replace(&self.command[i], "{src}", src);
            res.push(part);
            proof {
                lemma_view_push(before, res, part);
                assert(res.deep_view() =~= resolved_command(all.take(i + 1), src@));
            }
            i = i + 1;
        }
        assert(all.take(i as int) =~= all);
        res
    }
}

/// What a backup pass did.
#[derive(Debug, Clone, Copy, PartialEq, Eq, Structural)]
pub struct BackupReport {
    /// How many files got new bytes.
    pub files_synced: usize,
    /// How many bytes were copied.
    pub bytes_copied: u64,
    /// Whether the offsite command ran.
    pub offsite_ran: bool,
}

impl Default for BackupReport {
    fn default() -> (res: Self)
        ensures
            res == (BackupReport { files_synced: 0, bytes_copied: 0, offsite_ran: false }),
    {
        BackupReport { files_synced: 0, bytes_copied: 0, offsite_ran: false }
    }
}

/// A report with one more file in it, of which `copied` bytes were copied.
pub open spec fn counted(report: BackupReport, copied: u64) -> BackupReport {
    if copied > 0 {
        BackupReport {
            files_synced: (report.files_synced + 1) as usize,
            bytes_copied: (report.bytes_copied + copied) as u64,
            ..report
        }
    } else {
        report
    }
}

impl BackupReport {
    /// Counts a file of which `copied` bytes were copied; one that was up to
    /// date does not count.
    pub fn count(&mut self, copied: u64)
        requires
            copied > 0 ==> old(self).files_synced < usize::MAX,
            old(self).bytes_copied + copied <= u64::MAX,
        ensures
            *final(self) == counted(*old(self), copied),
            *final(self) == if copied > 0 {
                BackupReport {
                    files_synced: (old(self).files_synced + 1) as usize,
                    bytes_copied: (old(self).bytes_copied + copied) as u64,
                    ..*old(self)
                }
            } else {
                *old(self)
            },
    {
        if copied > 0 {
            self.files_synced = self.files_synced + 1;
            self.bytes_copied = self.bytes_copied + copied;
        }
    }
}

/// What a directory entry is.
#[derive(Debug, Clone, Copy, PartialEq, Eq, Structural)]
pub enum EntryKind {
    Directory,
    File,
    Other,
}

/// What a pass does with a directory entry.
#[derive(Debug, Clone, Copy, PartialEq, Eq, Structural)]
pub enum EntryAction {
    /// Leave it out.
    Skip,
    /// Mirror the directory.
    Descend,
    /// Bring the file up to date.
    Sync,
}

/// What a pass does with an entry: files that are still being uploaded are
/// left out, and so is what is neither a directory nor a file.
pub open spec fn entry_action_spec(name: Seq<char>, kind: EntryKind) -> EntryAction {
    if ".tmp-"@.is_prefix_of(name) {
        EntryAction::Skip
    } else {
        match kind {
            EntryKind::Directory => EntryAction::Descend,
            EntryKind::File => EntryAction::Sync,
            EntryKind::Other => EntryAction::Skip,
        }
    }
}

/// What a pass does with an entry of this name.
pub fn entry_action(name: &str, kind: EntryKind) -> (res: EntryAction)
    ensures
        res == entry_action_spec(name@, kind),
{
    if text_starts_with(name, ".tmp-") {
        return EntryAction::Skip;
    }
    match kind {
        EntryKind::Directory => EntryAction::Descend,
        EntryKind::File => EntryAction::Sync,
        EntryKind::Other => EntryAction::Skip,
    }
}

/// The next step that brings a backed-up file up to date.
#[derive(Debug, Clone, Copy, PartialEq, Eq, Structural)]
pub enum SyncStep {
    /// It is up to date.
    Done,
    /// It is longer than its source: remove it and start over.
    Discard,
    /// Append what the source holds from this offset on.
    AppendFrom(u64),
}

/// The next step, given how long the source and the backed-up file are; a
/// missing backup counts as empty.
pub fn sync_step(src_len: u64, dest_len: Option<u64>) -> (res: SyncStep)
    ensures
        res is Done <==> (dest_len matches Some(n) && n == src_len) || (dest_len is None && src_len
            == 0),
        res is Discard <==> (dest_len matches Some(n) && n > src_len),
        res matches SyncStep::AppendFrom(at) ==> at < src_len && (dest_len matches Some(n) ==> at
            == n) && (dest_len is None ==> at == 0),
        res == sync_step_spec(
            src_len as nat,
            match dest_len {
                Some(n) => n as nat,
                None => 0,
            },
        ),
{
    let have: u64 = match dest_len {
        Some(n) => n,
        None => 0,
    };
    if have > src_len {
        SyncStep::Discard
    } else if have == src_len {
        SyncStep::Done
    } else {
        SyncStep::AppendFrom(have)
    }
}

/// The next step for a backup of `have` bytes of a source of `src_len`.
pub open spec fn sync_step_spec(src_len: nat, have: nat) -> SyncStep {
    if have > src_len {
        SyncStep::Discard
    } else if have == src_len {
        SyncStep::Done
    } else {
        SyncStep::AppendFrom(have as u64)
    }
}

/// The backed-up file after its steps: `dest` is what it held, `None` if it
/// was missing.
pub open spec fn synced(src: Seq<u8>, dest: Option<Seq<u8>>) -> Option<Seq<u8>> {
    let have = match dest {
        Some(d) => d,
        None => seq![],
    };
    match sync_step_spec(src.len(), have.len()) {
        SyncStep::Done => dest,
        SyncStep::AppendFrom(_) => Some(have + src.skip(have.len() as int)),
        SyncStep::Discard => if src.len() == 0 {
            None
        } else {
            Some(src)
        },
    }
}

/// How many bytes those steps copy.
pub open spec fn copied(src: Seq<u8>, dest: Option<Seq<u8>>) -> nat {
    let have = match dest {
        Some(d) => d.len(),
        None => 0,
    };
    if have > src.len() {
        src.len()
    } else {
        (src.len() - have) as nat
    }
}

/// What a backed-up file holds, a missing one nothing.
pub open spec fn content(file: Option<Seq<u8>>) -> Seq<u8> {
    match file {
        Some(bytes) => bytes,
        None => seq![],
    }
}

/// A backup whose source only grew ends up with what the source holds, and so
/// does one that is longer than its source; only what was missing is copied.
pub proof fn law_backup_mirrors_its_source(src: Seq<u8>, dest: Option<Seq<u8>>)
    requires
        content(dest).is_prefix_of(src) || content(dest).len() > src.len(),
    ensures
        content(synced(src, dest)) == src,
        content(dest).is_prefix_of(src) ==> copied(src, dest) == src.len() - content(dest).len(),
{
    let have = content(dest);
    if have.is_prefix_of(src) {
        assert(have + src.skip(have.len() as int) =~= src);
        if have.len() == src.len() {
            assert(src.subrange(0, have.len() as int) =~= src);
        }
    } else if src.len() == 0 {
        assert(content(synced(src, dest)) =~= src);
    }
}

/// The backed-up file once `step` was carried out: bytes are only ever appended
/// to it, read from the source at the offset that the step names.
pub open spec fn carried_out(src: Seq<u8>, dest: Option<Seq<u8>>, step: SyncStep) -> Option<
    Seq<u8>,
> {
    match step {
        SyncStep::Done => dest,
        SyncStep::Discard => None,
        SyncStep::AppendFrom(at) => Some(content(dest) + src.skip(at as int)),
    }
}

/// A step appends exactly what the source holds behind the bytes that are
/// backed up, and discards only what is longer than its source: a backup that
/// is a beginning of its source is a copy of it after one step, and none is
/// more than two steps away. Carried out one after another, the steps do what
/// `synced` says.
pub proof fn law_steps_lead_to_a_copy(src: Seq<u8>, dest: Option<Seq<u8>>)
    requires
        src.len() <= u64::MAX,
    ensures
        ({
            let step = sync_step_spec(src.len(), content(dest).len());
            let once = carried_out(src, dest, step);
            let next = sync_step_spec(src.len(), content(once).len());
            let twice = carried_out(src, once, next);
            &&& step is Discard <==> content(dest).len() > src.len()
            &&& step is Done <==> content(dest).len() == src.len()
            &&& content(dest).is_prefix_of(src) ==> content(once) == src && next is Done
            &&& content(dest).len() > src.len() ==> content(twice) == src
            &&& !(step is Discard) ==> content(dest).is_prefix_of(content(once)) && content(
                once,
            ).len() == src.len()
            &&& sync_step_spec(src.len(), content(twice).len()) is Done
            &&& twice == synced(src, dest)
            &&& copied(src, dest) == if step is Discard {
                content(twice).len() as int
            } else {
                content(twice).len() - content(dest).len()
            }
        }),
{
    let have = content(dest);
    let step = sync_step_spec(src.len(), have.len());
    let once = carried_out(src, dest, step);
    if have.len() < src.len() {
        let now = have + src.skip(have.len() as int);
        assert(content(once) == now);
        assert(now.subrange(0, have.len() as int) =~= have);
        if have.is_prefix_of(src) {
            assert(now =~= src);
        }
    } else if have.len() == src.len() {
        assert(have.subrange(0, have.len() as int) =~= have);
        if have.is_prefix_of(src) {
            assert(src.subrange(0, have.len() as int) =~= src);
        }
    } else {
        assert(content(once) =~= seq![]);
        assert(seq![] + src.skip(0) =~= src);
        if src.len() == 0 {
            assert(content(once) =~= src);
        }
    }
}

/// What is left out of a backup: what is still being uploaded and what is no
/// file and no directory. Content under its hash is backed up.
pub proof fn law_only_unfinished_uploads_are_left_out(
    name: Seq<char>,
    process: u64,
    nonce: u64,
    hash: Seq<char>,
)
    ensures
        forall|kind: EntryKind| #[trigger]
            entry_action_spec(temp_name(process, nonce), kind) == EntryAction::Skip,
        entry_action_spec(name, EntryKind::Other) == EntryAction::Skip,
        !(name.len() >= 5 && name.take(5) == ".tmp-"@) ==> entry_action_spec(name, EntryKind::File)
            == EntryAction::Sync && entry_action_spec(name, EntryKind::Directory)
            == EntryAction::Descend,
        is_hash_text(hash) ==> entry_action_spec(hash, EntryKind::File) == EntryAction::Sync,
{
    reveal_strlit(".tmp-");
    assert(temp_name(process, nonce).subrange(0, 5) =~= ".tmp-"@);
    assert(".tmp-"@.is_prefix_of(temp_name(process, nonce)));
    if ".tmp-"@.is_prefix_of(name) {
        assert(name.take(5) =~= ".tmp-"@);
    }
    if is_hash_text(hash) && ".tmp-"@.is_prefix_of(hash) {
        assert(is_hex_digit(hash[0]));
        assert(hash.subrange(0, 5)[0] == '.');
    }
}

/// A second pass over an unchanged source copies nothing and changes nothing.
pub proof fn law_second_pass_copies_nothing(src: Seq<u8>, dest: Option<Seq<u8>>)
    ensures
        copied(src, synced(src, dest)) == 0,
        synced(src, synced(src, dest)) == synced(src, dest),
{
}

/// A pass after the source grew copies exactly what was appended.
pub proof fn law_growth_is_copied(src: Seq<u8>, more: Seq<u8>)
    ensures
        content(synced(src + more, Some(src))) == src + more,
        copied(src + more, Some(src)) == more.len(),
{
    assert((src + more).subrange(0, src.len() as int) =~= src);
    law_backup_mirrors_its_source(src + more, Some(src));
}

/// A data directory, where its backup goes, and where that is shipped.
#[derive(Debug)]
pub struct BackupRunner {
    data_dir: String,
    backup_dir: String,
    offsite: Option<OffsiteTarget>,
}

impl BackupRunner {
    /// The directory that is backed up.
    pub closed spec fn source(&self) -> Seq<char> {
        self.data_dir@
    }

    /// The directory that the backup goes to.
    pub closed spec fn target(&self) -> Seq<char> {
        self.backup_dir@
    }

    /// The offsite command, before its directory is put in.
    pub closed spec fn offsite_command(&self) -> Option<Seq<Seq<char>>> {
        match self.offsite {
            Some(target) => Some(target.command.deep_view()),
            None => None,
        }
    }

    /// A runner for these directories.
    pub fn new(data_dir: String, backup_dir: String, offsite: Option<OffsiteTarget>) -> (res: Self)
        ensures
            res.source() == data_dir@,
            res.target() == backup_dir@,
            res.offsite_command() == match offsite {
                Some(target) => Some(target.command.deep_view()),
                None => None,
            },
    {
        BackupRunner { data_dir, backup_dir, offsite }
    }

    /// The directory that is backed up.
    pub fn data_dir(&self) -> (res: String)
        ensures
            res@ == self.source(),
    {
        self.data_dir.clone()
    }

    /// The directory that the backup goes to.
    pub fn backup_dir(&self) -> (res: String)
        ensures
            res@ == self.target(),
    {
        self.backup_dir.clone()
    }

    /// The command to run once the mirror is up to date, if one is configured.
    pub fn shipping(&self) -> (res: Option<Vec<String>>)
        ensures
            res.deep_view() == match self.offsite_command() {
                Some(command) => Some(resolved_command(command, self.target())),
                None => None,
            },
    {
        match &self.offsite {
            Some(target) => Some(target.resolve(&self.backup_dir)),
            None => None,
        }
    }

    /// How a pass ends, given what the mirror copied and, where a command was
    /// run, the command and how it ended: `None` for success.
    pub fn conclude(report: BackupReport, shipped: Option<(Vec<String>, Option<String>)>) -> (res:
        Result<BackupReport, BackupError>)
        ensures
            match shipped {
                None => res == Ok::<BackupReport, BackupError>(report),
                Some((_, None)) => res == Ok::<BackupReport, BackupError>(
                    BackupReport { offsite_ran: true, ..report },
                ),
                Some((command, Some(status))) => res == Err::<BackupReport, BackupError>(
                    BackupError::OffsiteCommandFailed { command, status },
                ),
            },
    {
        match shipped {
            None => Ok(report),
            Some((_, None)) => Ok(BackupReport { offsite_ran: true, ..report }),
            Some((command, Some(status))) => {
                Err(BackupError::OffsiteCommandFailed { command, status })
            },
        }
    }
}

/// Files by their path below a directory.
pub type Tree = Map<Seq<char>, Seq<u8>>;

/// The file at a path, if there is one.
pub open spec fn file_at(tree: Tree, path: Seq<char>) -> Option<Seq<u8>> {
    if tree.contains_key(path) {
        Some(tree[path])
    } else {
        None
    }
}

/// The backup after a pass that brought every file of `src` up to date.
pub open spec fn passed(src: Tree, dest: Tree) -> Tree {
    Map::new(
        |path: Seq<char>|
            if src.contains_key(path) {
                synced(src[path], file_at(dest, path)) is Some
            } else {
                dest.contains_key(path)
            },
        |path: Seq<char>|
            if src.contains_key(path) {
                synced(src[path], file_at(dest, path))->0
            } else {
                dest[path]
            },
    )
}

/// After a pass the backup holds every file of the source as it is, and keeps
/// what the source no longer has; a second pass changes nothing.
pub proof fn law_pass_mirrors_every_file(src: Tree, dest: Tree)
    requires
        forall|path: Seq<char>|
            #![trigger src.contains_key(path)]
            src.contains_key(path) ==> (content(file_at(dest, path)).is_prefix_of(src[path])
                || content(file_at(dest, path)).len() > src[path].len()),
    ensures
        forall|path: Seq<char>|
            #![trigger src.contains_key(path)]
            src.contains_key(path) ==> content(file_at(passed(src, dest), path)) == src[path],
        forall|path: Seq<char>|
            #![trigger dest.contains_key(path)]
            dest.contains_key(path) && !src.contains_key(path) ==> file_at(passed(src, dest), path)
                == Some(dest[path]),
        passed(src, passed(src, dest)) == passed(src, dest),
{
    let once = passed(src, dest);
    assert forall|path: Seq<char>|
        #![trigger src.contains_key(path)]
        src.contains_key(path) implies content(file_at(once, path)) == src[path] by {
        law_backup_mirrors_its_source(src[path], file_at(dest, path));
    }
    let twice = passed(src, once);
    assert forall|path: Seq<char>| #[trigger] twice.contains_key(path) <==> once.contains_key(
        path,
    ) by {
        if src.contains_key(path) {
            law_second_pass_copies_nothing(src[path], file_at(dest, path));
            assert(file_at(once, path) == synced(src[path], file_at(dest, path)));
        }
    }
    assert forall|path: Seq<char>| #[trigger] once.contains_key(path) implies twice[path]
        == once[path] by {
        if src.contains_key(path) {
            law_second_pass_copies_nothing(src[path], file_at(dest, path));
            assert(file_at(once, path) == synced(src[path], file_at(dest, path)));
        }
    }
    assert(twice =~= once);
}

/// In every part of an offsite command each place holder is put in, wherever it
/// stands, and nothing else changes: a part without one stays as it is, and one
/// that is nothing else becomes the directory.
pub proof fn law_place_holders_are_filled_in_everywhere(
    command: Seq<Seq<char>>,
    src: Seq<char>,
    i: int,
    head: Seq<char>,
    tail: Seq<char>,
)
    requires
        0 <= i < command.len(),
    ensures
        resolved_command(command, src).len() == command.len(),
        absent(command[i], "{src}"@) ==> resolved_command(command, src)[i] == command[i],
        command[i] == "{src}"@ ==> resolved_command(command, src)[i] == src,
        command[i] == head + "{src}"@ + tail && first_at(command[i], "{src}"@, head.len() as int)
            && absent(tail, "{src}"@) ==> resolved_command(command, src)[i] == head + src + tail,
{
    reveal_strlit("{src}");
    let part = command[i];
    let mark = "{src}"@;
    let none = Seq::<char>::empty();
    assert(resolved_command(command, src)[i] == replace_spec(part, mark, src));
    assert(none + mark + none =~= mark);
    assert(mark.subrange(0, mark.len() as int) =~= mark);
    assert(first_at(none + mark + none, mark, 0));
    law_replacing_touches_occurrences_only(none, mark, none, src);
    if part == head + mark + tail && first_at(part, mark, head.len() as int) {
        law_replacing_touches_occurrences_only(head, mark, tail, src);
    }
}

/// A report counts the files that got new bytes and all of these bytes, and no
/// file that was up to date.
pub proof fn law_reports_count_what_was_copied(report: BackupReport, copied: u64)
    requires
        report.files_synced < usize::MAX,
        report.bytes_copied + copied <= u64::MAX,
    ensures
        counted(report, copied).bytes_copied - report.bytes_copied == copied,
        copied > 0 ==> counted(report, copied).files_synced - report.files_synced == 1,
        copied == 0 ==> counted(report, copied).files_synced == report.files_synced,
        counted(report, copied).offsite_ran == report.offsite_ran,
{
}

} // verus!

use microtak_server::backup::{
    entry_action, sync_step, BackupError, BackupReport, BackupRunner, EntryAction, EntryKind,
    OffsiteTarget, SyncStep,
};
use std::collections::BTreeMap;

type Files = BTreeMap<String, Vec<u8>>;

/// Brings one file of `dest` up to date, in memory.
fn sync_file(src: &[u8], dest: &mut Files, name: &str) -> u64 {
    loop {
        let have = dest.get(name).map(|d| d.len() as u64);
        match sync_step(src.len() as u64, have) {
            SyncStep::Done => return 0,
            SyncStep::Discard => {
                dest.remove(name);
            }
            SyncStep::AppendFrom(offset) => {
                let tail = src[offset as usize..].to_vec();
                let copied = tail.len() as u64;
                dest.entry(name.to_string()).or_default().extend(tail);
                return copied;
            }
        }
    }
}

/// One pass over files that stand side by side.
fn pass(src: &Files, dest: &mut Files) -> BackupReport {
    let mut report = BackupReport::default();
    for (name, bytes) in src {
        let leaf = name.rsplit('/').next().unwrap();
        if entry_action(leaf, EntryKind::File) == EntryAction::Sync {
            let copied = sync_file(bytes, dest, name);
            report.count(copied);
        }
    }
    report
}

fn files(list: &[(&str, &[u8])]) -> Files {
    list.iter().map(|(name, bytes)| (name.to_string(), bytes.to_vec())).collect()
}

#[test]
fn copies_new_files_including_nested_directories() {
    let src = files(&[("devices.log", b"line one\n"), ("content/abc123", b"blob bytes")]);
    let mut dest = Files::new();
    let report = pass(&src, &mut dest);
    assert_eq!(report.files_synced, 2);
    assert_eq!(dest["devices.log"], b"line one\n");
    assert_eq!(dest["content/abc123"], b"blob bytes");
    assert_eq!(entry_action("content", EntryKind::Directory), EntryAction::Descend);
}

#[test]
fn subsequent_passes_only_copy_appended_growth() {
    let mut src = files(&[("missions.log", b"event-one\n")]);
    let mut dest = Files::new();
    let first = pass(&src, &mut dest);
    assert_eq!(first.bytes_copied, "event-one\n".len() as u64);

    // No change: a second pass copies nothing.
    let second = pass(&src, &mut dest);
    assert_eq!(second.files_synced, 0);
    assert_eq!(second.bytes_copied, 0);

    // Append-only growth: a third pass copies only the new tail.
    src.get_mut("missions.log").unwrap().extend(b"event-two\n");
    let third = pass(&src, &mut dest);
    assert_eq!(third.files_synced, 1);
    assert_eq!(third.bytes_copied, "event-two\n".len() as u64);
    assert_eq!(dest["missions.log"], b"event-one\nevent-two\n");
}

#[test]
fn a_destination_larger_than_source_is_fully_recopied() {
    let src = files(&[("devices.log", b"short")]);
    let mut dest = files(&[("devices.log", b"this is much longer than short")]);
    let report = pass(&src, &mut dest);
    assert_eq!(report.bytes_copied, 5);
    assert_eq!(dest["devices.log"], b"short");
}

#[test]
fn skips_in_progress_content_store_temp_files() {
    let src = files(&[(".tmp-12345-1", b"partial upload")]);
    let mut dest = Files::new();
    let report = pass(&src, &mut dest);
    assert_eq!(report.files_synced, 0);
    assert!(!dest.contains_key(".tmp-12345-1"));
    assert_eq!(entry_action(".tmp-12345-1", EntryKind::Directory), EntryAction::Skip);
    assert_eq!(entry_action("socket", EntryKind::Other), EntryAction::Skip);
    assert_eq!(entry_action("a.tmp-1", EntryKind::File), EntryAction::Sync);
}

#[test]
fn runs_the_configured_offsite_command_against_the_backup_dir() {
    let offsite = OffsiteTarget::new(vec![
        "cp".to_string(),
        "-r".to_string(),
        "{src}".to_string(),
        "/offsite-destination".to_string(),
    ]);
    let runner = BackupRunner::new("/live".to_string(), "/backup".to_string(), offsite);
    assert_eq!(runner.data_dir(), "/live");
    assert_eq!(runner.backup_dir(), "/backup");
    let command = runner.shipping().unwrap();
    assert_eq!(command, vec!["cp", "-r", "/backup", "/offsite-destination"]);
    let report = BackupRunner::conclude(BackupReport::default(), Some((command, None))).unwrap();
    assert!(report.offsite_ran);
}

#[test]
fn a_failing_offsite_command_is_a_reported_error() {
    let offsite = OffsiteTarget::new(vec!["false".to_string()]);
    let runner = BackupRunner::new("/live".to_string(), "/backup".to_string(), offsite);
    let command = runner.shipping().unwrap();
    let ended = Some("exit status: 1".to_string());
    let result = BackupRunner::conclude(BackupReport::default(), Some((command, ended)));
    assert!(matches!(
        result,
        Err(BackupError::OffsiteCommandFailed { .. })
    ));
}

#[test]
fn no_command_means_offsite_shipping_is_disabled() {
    assert!(OffsiteTarget::new(vec![]).is_none());
    let runner = BackupRunner::new("/live".to_string(), "/backup".to_string(), None);
    assert!(runner.shipping().is_none());
    let report = BackupRunner::conclude(BackupReport::default(), None).unwrap();
    assert!(!report.offsite_ran);
}

#[test]
fn every_mention_of_the_directory_is_replaced() {
    let target = OffsiteTarget::new(vec![
        "{src}/{src}".to_string(),
        "src{s{src}rc}".to_string(),
        "plain".to_string(),
    ])
    .unwrap();
    assert_eq!(
        target.resolve("/b{src}"),
        vec!["/b{src}//b{src}", "src{s/b{src}rc}", "plain"]
    );
}

#[test]
fn an_empty_source_needs_no_copy() {
    assert_eq!(sync_step(0, None), SyncStep::Done);
    assert_eq!(sync_step(0, Some(0)), SyncStep::Done);
    assert_eq!(sync_step(0, Some(3)), SyncStep::Discard);
    assert_eq!(sync_step(5, Some(3)), SyncStep::AppendFrom(3));
    assert_eq!(sync_step(5, None), SyncStep::AppendFrom(0));
}

#[test]
fn errors_are_reported_in_words() {
    let error = BackupError::Io("disk full".to_string());
    assert_eq!(error.message(), "I/O error: disk full");
    let failed = |command: &[&str]| BackupError::OffsiteCommandFailed {
        command: command.iter().map(|part| part.to_string()).collect(),
        status: "exit status: 1".to_string(),
    };
    assert_eq!(
        failed(&["rsync", "-a", "/backup dir"]).message(),
        "offsite command [\"rsync\", \"-a\", \"/backup dir\"] exited with status exit status: 1"
    );
    assert_eq!(
        failed(&["say \"hi\"\n", "a\\b"]).message(),
        "offsite command [\"say \\\"hi\\\"\\n\", \"a\\\\b\"] exited with status exit status: 1"
    );
    assert_eq!(failed(&[]).message(), "offsite command [] exited with status exit status: 1");
    let odd = ["it's", "caf\u{e9}", "\u{200b}", "e\u{301}", "\t\r\0\u{7f}"];
    let command: Vec<String> = odd.iter().map(|part| part.to_string()).collect();
    assert_eq!(
        failed(&odd).message(),
        format!("offsite command {command:?} exited with status exit status: 1")
    );
}

#[test]
fn a_target_can_be_copied() {
    let target = OffsiteTarget::new(vec!["cp".to_string(), "{src}".to_string()]).unwrap();
    assert_eq!(target.clone(), target);
}

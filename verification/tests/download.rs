use local_models::model_download::{
    content_range, failure_message, manifest_total, metadata_verdict, range_header,
    validate_manifest, Action, DownloadMachine, Event, Failure, FileDigest, FileMeta, Manifest,
    PartState, Progress, Step, Verification,
};

const WEIGHTS_SHA256: &str = "a2d42c4aa884e21216cbb8da4c7ba2fcf9b6033b2331666e666145c24caf7a38";

fn manifest(sha: &str) -> Manifest {
    Manifest {
        repo: "owner/model".to_owned(),
        revision: "pinned".to_owned(),
        files: vec!["weights".to_owned()],
        sizes: vec![("weights".to_owned(), 13)],
        sha256: vec![("weights".to_owned(), sha.to_owned())],
        sources: Vec::new(),
    }
}

fn action(step: Step) -> Action {
    step.action
}

#[test]
fn resumes_partial_download_and_verifies_before_rename() {
    let (mut dm, first) = DownloadMachine::new(&manifest(WEIGHTS_SHA256), "http://127.0.0.1:1").ok().unwrap();
    assert_eq!(first.action, Action::Lock);
    assert_eq!(dm.source_url(0), "http://127.0.0.1:1/owner/model/resolve/pinned/weights");
    assert_eq!(dm.part_name(0), "weights.part");
    assert_eq!(dm.revision(), "pinned");
    assert_eq!(
        dm.step(Event::Locked),
        Step {
            progress: Some(Progress::Verifying { index: 0, completed: 0, total: 13 }),
            action: Action::CheckFinal
        }
    );
    assert_eq!(
        action(dm.step(Event::FinalChecked { verification: Verification::Absent, exists: false })),
        Action::PreparePart
    );
    assert_eq!(action(dm.step(Event::PartFound(PartState::Regular(5)))), Action::Fetch { resume_from: 5 });
    assert_eq!(range_header(5), "bytes=5-");
    assert_eq!(
        action(dm.step(Event::Responded { status: 206, content_range: Some("bytes 5-12/13".to_owned()) })),
        Action::OpenPart { truncate: false }
    );
    assert_eq!(action(dm.step(Event::Opened)), Action::ReadChunk);
    assert_eq!(action(dm.step(Event::Chunk(Some(8)))), Action::WriteChunk);
    assert_eq!(
        dm.step(Event::Written),
        Step {
            progress: Some(Progress::Downloading { index: 0, done: 13, total: 13 }),
            action: Action::ReadChunk
        }
    );
    assert_eq!(action(dm.step(Event::Chunk(None))), Action::SyncPart);
    assert_eq!(
        dm.step(Event::Synced),
        Step { progress: Some(Progress::VerifyingDigest { index: 0 }), action: Action::CheckPart }
    );
    let mut digest = FileDigest::new();
    digest.feed(b"model");
    digest.feed(b" weights");
    let matches = digest.matches(&dm.sha256(0));
    assert!(matches);
    assert_eq!(action(dm.step(Event::PartChecked(Verification::Digest(matches)))), Action::Rename);
    assert_eq!(action(dm.step(Event::Renamed)), Action::Finish);
    assert_eq!(
        dm.step(Event::Finished),
        Step { progress: Some(Progress::Ready), action: Action::Done }
    );
}

#[test]
fn rejects_bad_hash_without_publishing_checkpoint() {
    let (mut dm, _) = DownloadMachine::new(&manifest("bad-hash"), "http://h").ok().unwrap();
    dm.step(Event::Locked);
    dm.step(Event::FinalChecked { verification: Verification::Absent, exists: false });
    assert_eq!(action(dm.step(Event::PartFound(PartState::Absent))), Action::Fetch { resume_from: 0 });
    assert_eq!(
        action(dm.step(Event::Responded { status: 200, content_range: None })),
        Action::OpenPart { truncate: true }
    );
    dm.step(Event::Opened);
    dm.step(Event::Chunk(Some(3)));
    dm.step(Event::Written);
    dm.step(Event::Chunk(None));
    dm.step(Event::Synced);
    let mut digest = FileDigest::new();
    digest.feed(b"bad");
    let matches = digest.matches(&dm.sha256(0));
    assert!(!matches);
    assert_eq!(action(dm.step(Event::PartChecked(Verification::Digest(matches)))), Action::DiscardPart);
    assert_eq!(action(dm.step(Event::PartDiscarded)), Action::Fail(Failure::IntegrityFailed));
    assert_eq!(
        failure_message(Failure::IntegrityFailed, "weights"),
        "Integrity check failed for weights; retry the download"
    );
}

#[test]
fn server_ignoring_range_restarts_partial_file_and_bad_ranges_are_rejected() {
    let (mut dm, _) = DownloadMachine::new(&manifest(WEIGHTS_SHA256), "http://h").ok().unwrap();
    dm.step(Event::Locked);
    dm.step(Event::FinalChecked { verification: Verification::Absent, exists: false });
    assert_eq!(action(dm.step(Event::PartFound(PartState::Regular(3)))), Action::Fetch { resume_from: 3 });
    assert_eq!(range_header(3), "bytes=3-");
    assert_eq!(
        action(dm.step(Event::Responded { status: 200, content_range: None })),
        Action::OpenPart { truncate: true }
    );

    let (mut dm, _) = DownloadMachine::new(&manifest(WEIGHTS_SHA256), "http://h").ok().unwrap();
    dm.step(Event::Locked);
    dm.step(Event::FinalChecked { verification: Verification::Absent, exists: false });
    dm.step(Event::PartFound(PartState::Regular(3)));
    assert_eq!(content_range(3, 13), "bytes 3-12/13");
    assert_eq!(
        action(dm.step(Event::Responded { status: 206, content_range: Some("bytes 0-10/11".to_owned()) })),
        Action::Fail(Failure::UnexpectedContentRange)
    );
}

#[test]
fn rejects_concurrent_downloads_and_never_overwrites_existing_corrupt_files() {
    let (mut dm, _) = DownloadMachine::new(&manifest("bad-hash"), "http://127.0.0.1:1").ok().unwrap();
    dm.step(Event::Locked);
    assert_eq!(
        action(dm.step(Event::FinalChecked { verification: Verification::Digest(false), exists: true })),
        Action::Fail(Failure::ExistingFileCorrupt)
    );
    assert_eq!(
        failure_message(Failure::ExistingFileCorrupt, "weights"),
        "Existing file weights failed verification. Move it aside before retrying; it has not been overwritten."
    );
}

#[test]
fn after_a_corrupt_existing_file_nothing_more_is_done() {
    let (mut dm, _) = DownloadMachine::new(&manifest("bad-hash"), "http://127.0.0.1:1").ok().unwrap();
    dm.step(Event::Locked);
    assert_eq!(
        action(dm.step(Event::FinalChecked { verification: Verification::SizeMismatch, exists: true })),
        Action::Fail(Failure::ExistingFileCorrupt)
    );
    assert_eq!(action(dm.step(Event::PartFound(PartState::Absent))), Action::Fail(Failure::OutOfOrder));
    assert_eq!(action(dm.step(Event::Renamed)), Action::Fail(Failure::OutOfOrder));
}

#[test]
fn verified_files_are_skipped_and_oversized_parts_restart() {
    let mut m = manifest(WEIGHTS_SHA256);
    m.files.push("config.json".to_owned());
    m.sizes.push(("config.json".to_owned(), 4));
    m.sha256.push(("config.json".to_owned(), "00".to_owned()));
    let (mut dm, _) = DownloadMachine::new(&m, "o").ok().unwrap();
    dm.step(Event::Locked);
    assert_eq!(
        dm.step(Event::FinalChecked { verification: Verification::Digest(true), exists: true }),
        Step {
            progress: Some(Progress::Verifying { index: 1, completed: 13, total: 17 }),
            action: Action::CheckFinal
        }
    );
    dm.step(Event::FinalChecked { verification: Verification::SizeMismatch, exists: false });
    assert_eq!(action(dm.step(Event::PartFound(PartState::Regular(9)))), Action::RemovePart);
    assert_eq!(action(dm.step(Event::PartRemoved)), Action::Fetch { resume_from: 0 });
    dm.step(Event::Responded { status: 200, content_range: None });
    dm.step(Event::Opened);
    assert_eq!(action(dm.step(Event::Chunk(Some(5)))), Action::Fail(Failure::ExceedsPinnedSize));
}

#[test]
fn complete_parts_are_checked_without_fetching_and_errors_are_reported() {
    let (mut dm, _) = DownloadMachine::new(&manifest(WEIGHTS_SHA256), "o").ok().unwrap();
    dm.step(Event::Locked);
    dm.step(Event::FinalChecked { verification: Verification::Absent, exists: false });
    assert_eq!(action(dm.step(Event::PartFound(PartState::Regular(13)))), Action::CheckPart);

    let (mut dm, _) = DownloadMachine::new(&manifest(WEIGHTS_SHA256), "o").ok().unwrap();
    dm.step(Event::Locked);
    dm.step(Event::FinalChecked { verification: Verification::Absent, exists: false });
    dm.step(Event::PartFound(PartState::Absent));
    assert_eq!(
        action(dm.step(Event::Responded { status: 404, content_range: None })),
        Action::Fail(Failure::HttpStatus(404))
    );
    assert_eq!(
        failure_message(Failure::HttpStatus(404), "weights"),
        "Model download returned HTTP 404 Not Found"
    );
    assert_eq!(
        failure_message(Failure::HttpStatus(599), "weights"),
        "Model download returned HTTP 599 <unknown status code>"
    );

    let (mut dm, _) = DownloadMachine::new(&manifest(WEIGHTS_SHA256), "o").ok().unwrap();
    assert_eq!(action(dm.step(Event::Opened)), Action::Fail(Failure::OutOfOrder));

    let (mut dm, _) = DownloadMachine::new(&manifest(WEIGHTS_SHA256), "o").ok().unwrap();
    dm.step(Event::Locked);
    assert_eq!(
        action(dm.step(Event::FinalChecked { verification: Verification::NotRegular, exists: true })),
        Action::Fail(Failure::NotRegularFile)
    );
    let (mut dm, _) = DownloadMachine::new(&manifest(WEIGHTS_SHA256), "o").ok().unwrap();
    dm.step(Event::Locked);
    dm.step(Event::FinalChecked { verification: Verification::Absent, exists: false });
    assert_eq!(
        action(dm.step(Event::PartFound(PartState::NotRegular))),
        Action::Fail(Failure::PartNotRegular)
    );
}

#[test]
fn manifests_with_unsafe_or_incomplete_entries_are_refused() {
    assert!(validate_manifest(&manifest("x")).is_some());
    let mut m = manifest("x");
    m.files = vec!["../weights".to_owned()];
    assert!(validate_manifest(&m).is_none());
    assert!(matches!(DownloadMachine::new(&m, "o"), Err(Failure::InvalidManifest)));
    let mut m = manifest("x");
    m.files = vec!["dir/weights".to_owned()];
    assert!(validate_manifest(&m).is_none());
    let mut m = manifest("x");
    m.sha256.clear();
    assert!(validate_manifest(&m).is_none());
    let mut m = manifest("x");
    m.sources = vec![("weights".to_owned(), "/etc/passwd".to_owned())];
    assert!(validate_manifest(&m).is_none());
    let mut m = manifest("x");
    m.sources = vec![("weights".to_owned(), "sub/weights.bin".to_owned())];
    let entries = validate_manifest(&m).unwrap();
    assert_eq!(entries[0].source, "sub/weights.bin");
    let (dm, _) = DownloadMachine::new(&m, "https://huggingface.co").ok().unwrap();
    assert_eq!(
        dm.source_url(0),
        "https://huggingface.co/owner/model/resolve/pinned/sub/weights.bin"
    );
    assert_eq!(
        failure_message(Failure::InvalidManifest, ""),
        "Invalid pinned model manifest"
    );
}

#[test]
fn manifest_totals_and_digests() {
    assert_eq!(manifest_total(&vec![("a".to_owned(), u64::MAX), ("b".to_owned(), 1)]), 1u128 << 64);
    let mut d = FileDigest::new();
    d.feed(b"abc");
    assert!(d.matches("ba7816bf8f01cfea414140de5dae2223b00361a396177a9cb410ff61f20015ad"));
    assert!(FileDigest::new().matches("e3b0c44298fc1c149afbf4c8996fb92427ae41e4649b934ca495991b7852b855"));
}

#[test]
fn metadata_decides_before_hashing() {
    assert_eq!(metadata_verdict(None, 5), Some(Verification::Absent));
    let file = FileMeta { is_file: true, is_symlink: false, len: 5 };
    assert_eq!(metadata_verdict(Some(file), 5), None);
    assert_eq!(metadata_verdict(Some(file), 6), Some(Verification::SizeMismatch));
    let link = FileMeta { is_file: true, is_symlink: true, len: 5 };
    assert_eq!(metadata_verdict(Some(link), 5), Some(Verification::NotRegular));
}

#[test]
fn repeated_manifest_keys_are_refused() {
    let mut m = manifest("x");
    m.sizes.push(("weights".to_owned(), 14));
    assert!(validate_manifest(&m).is_none());
    let mut m = manifest("x");
    m.sources = vec![("a".to_owned(), "b".to_owned()), ("a".to_owned(), "c".to_owned())];
    assert!(validate_manifest(&m).is_none());
}

#[test]
fn a_second_download_of_verified_files_only_checks_them() {
    let (mut dm, first) = DownloadMachine::new(&manifest(WEIGHTS_SHA256), "o").ok().unwrap();
    assert_eq!(first.action, Action::Lock);
    assert_eq!(action(dm.step(Event::Locked)), Action::CheckFinal);
    assert_eq!(
        action(dm.step(Event::FinalChecked { verification: Verification::Digest(true), exists: true })),
        Action::Finish
    );
    assert_eq!(action(dm.step(Event::Finished)), Action::Done);
}

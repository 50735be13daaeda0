use freqhole::batch::{BatchWriter, FLUSH_INTERVAL_MILLIS, MAX_BATCH};
use freqhole::catalog::{AudioMetadata, AudioProps, FileFacts, SongFile};
use freqhole::hashing::hash_bytes;
use freqhole::scan::{ScanCheckpoint, ScanStep, Scanner};
use freqhole::select::FsEntry;

fn file_entry(path: &str) -> FsEntry {
    FsEntry { path: path.to_owned(), is_file: true }
}

fn metadata() -> AudioMetadata {
    AudioMetadata {
        tags: Vec::new(),
        properties: AudioProps {
            duration_secs: 1,
            sample_rate: Some(44100),
            channels: Some(2),
            bitrate: None,
            bit_depth: None,
        },
        file: FileFacts {
            modified_secs: Some(10),
            created_secs: None,
            len_bytes: 3,
            ext: Some("mp3".to_owned()),
        },
    }
}

fn song(path: &str, content: &[u8]) -> SongFile {
    SongFile {
        path: path.to_owned(),
        id: hash_bytes(content),
        metadata: metadata(),
        base_path: "base".to_owned(),
    }
}

#[test]
fn forty_nine_entries_do_not_trigger_a_flush() {
    let mut batch = BatchWriter::new(MAX_BATCH, FLUSH_INTERVAL_MILLIS, 0);
    for i in 0..49u32 {
        batch.append(song(&format!("base/{i:03}.mp3"), &i.to_le_bytes()));
    }
    assert!(!batch.should_flush(1000));
}

#[test]
fn the_fiftieth_entry_triggers_a_flush() {
    let mut batch = BatchWriter::new(MAX_BATCH, FLUSH_INTERVAL_MILLIS, 0);
    for i in 0..50u32 {
        batch.append(song(&format!("base/{i:03}.mp3"), &i.to_le_bytes()));
    }
    assert!(batch.should_flush(1000));
}

#[test]
fn thirty_one_seconds_of_silence_trigger_a_flush() {
    let mut batch = BatchWriter::new(MAX_BATCH, FLUSH_INTERVAL_MILLIS, 0);
    batch.append(song("base/a.mp3", b"a"));
    assert!(!batch.should_flush(30_000));
    assert!(batch.should_flush(31_000));
}

#[test]
fn taking_the_batch_resets_both_triggers() {
    let mut batch = BatchWriter::new(MAX_BATCH, FLUSH_INTERVAL_MILLIS, 0);
    batch.append(song("base/a.mp3", b"a"));
    let taken = batch.take(40_000);
    assert_eq!(taken.len(), 1);
    assert_eq!(batch.len(), 0);
    assert!(!batch.should_flush(60_000));
    assert!(batch.should_flush(71_000));
}

fn three_file_entries() -> Vec<FsEntry> {
    vec![
        file_entry("base/c.ogg"),
        file_entry("base/a.mp3"),
        file_entry("base/b.wav"),
    ]
}

#[test]
fn a_full_scan_with_batches_of_two() {
    let entries = three_file_entries();
    let mut scan = Scanner::new("base".to_owned(), &entries, None, 0, 2, FLUSH_INTERVAL_MILLIS);

    assert_eq!(scan.next_step(1), ScanStep::Process);
    assert_eq!(scan.current_path(), "base/a.mp3");
    scan.record(song("base/a.mp3", b"aaa"));

    assert_eq!(scan.next_step(2), ScanStep::Process);
    assert_eq!(scan.current_path(), "base/b.wav");
    scan.record(song("base/b.wav", b"bbb"));

    // the second entry fills the batch
    assert_eq!(scan.next_step(3), ScanStep::Flush);
    let (flushed, cp) = scan.take_flush(3);
    assert_eq!(flushed.len(), 2);
    assert_eq!(flushed[0].path, "base/a.mp3");
    assert_eq!(flushed[1].path, "base/b.wav");
    assert_eq!(cp.base_path, "base");
    assert_eq!(cp.last_scanned.as_deref(), Some("base/b.wav"));

    assert_eq!(scan.next_step(4), ScanStep::Process);
    assert_eq!(scan.current_path(), "base/c.ogg");
    scan.record(song("base/c.ogg", b"ccc"));

    // the remainder is flushed at completion
    assert_eq!(scan.next_step(5), ScanStep::Flush);
    let (rest, cp2) = scan.take_flush(5);
    assert_eq!(rest.len(), 1);
    assert_eq!(rest[0].path, "base/c.ogg");
    assert_eq!(cp2.last_scanned.as_deref(), Some("base/c.ogg"));

    // done: the driver now deletes the checkpoint artifact
    assert_eq!(scan.next_step(6), ScanStep::Finish);
}

#[test]
fn a_failed_file_leaves_the_checkpoint_at_the_last_flushed_path() {
    let entries = three_file_entries();
    let mut scan = Scanner::new("base".to_owned(), &entries, None, 0, 2, FLUSH_INTERVAL_MILLIS);
    scan.record(song("base/a.mp3", b"aaa"));
    scan.record(song("base/b.wav", b"bbb"));
    let (_, cp) = scan.take_flush(3);
    assert_eq!(cp.last_scanned.as_deref(), Some("base/b.wav"));

    // probing base/c.ogg fails here: the scan aborts, nothing more is
    // flushed, and the stored checkpoint still names base/b.wav; the next
    // invocation resumes strictly after it and re-emits nothing.
    let resumed = Scanner::new("base".to_owned(), &entries, Some(cp), 100, 2, FLUSH_INTERVAL_MILLIS);
    assert_eq!(resumed.current_path(), "base/c.ogg");
}

#[test]
fn a_resumed_scan_skips_every_committed_path() {
    let entries = three_file_entries();
    let cp = ScanCheckpoint {
        base_path: "base".to_owned(),
        last_scanned: Some("base/b.wav".to_owned()),
    };
    let mut scan = Scanner::new("base".to_owned(), &entries, Some(cp), 0, 2, FLUSH_INTERVAL_MILLIS);
    assert_eq!(scan.next_step(1), ScanStep::Process);
    assert_eq!(scan.current_path(), "base/c.ogg");
    scan.record(song("base/c.ogg", b"ccc"));
    let (flushed, cp2) = scan.take_flush(2);
    assert_eq!(flushed.len(), 1);
    assert_eq!(cp2.last_scanned.as_deref(), Some("base/c.ogg"));
    assert_eq!(scan.next_step(3), ScanStep::Finish);
}

#[test]
fn a_second_scan_over_unchanged_files_yields_the_same_ids() {
    let entries = three_file_entries();

    let mut first = Scanner::new("base".to_owned(), &entries, None, 0, 3, FLUSH_INTERVAL_MILLIS);
    let mut first_ids = Vec::new();
    while first.next_step(1) == ScanStep::Process {
        let path = first.current_path();
        let entry = song(&path, path.as_bytes());
        first_ids.push(entry.id.clone());
        first.record(entry);
    }
    let (flushed, _) = first.take_flush(2);
    assert_eq!(flushed.len(), 3);
    assert_eq!(first.next_step(3), ScanStep::Finish);

    // completion cleared the checkpoint, so the second run scans afresh
    // over the same unchanged content and derives the same ids
    let mut second = Scanner::new("base".to_owned(), &entries, None, 10, 3, FLUSH_INTERVAL_MILLIS);
    let mut second_ids = Vec::new();
    while second.next_step(11) == ScanStep::Process {
        let path = second.current_path();
        let entry = song(&path, path.as_bytes());
        second_ids.push(entry.id.clone());
        second.record(entry);
    }
    assert_eq!(first_ids, second_ids);
}

#[test]
fn an_empty_tree_finishes_at_once() {
    let entries: Vec<FsEntry> = Vec::new();
    let scan = Scanner::new("base".to_owned(), &entries, None, 0, 2, FLUSH_INTERVAL_MILLIS);
    assert_eq!(scan.next_step(0), ScanStep::Finish);
}

#[test]
fn the_time_trigger_flushes_mid_scan() {
    let entries = three_file_entries();
    let mut scan = Scanner::new("base".to_owned(), &entries, None, 0, 50, FLUSH_INTERVAL_MILLIS);
    scan.record(song("base/a.mp3", b"aaa"));
    // within the window nothing is due
    assert_eq!(scan.next_step(10_000), ScanStep::Process);
    // once 31 seconds have passed, the single buffered entry is flushed
    // before the next file is processed
    assert_eq!(scan.next_step(31_000), ScanStep::Flush);
    let (flushed, cp) = scan.take_flush(31_000);
    assert_eq!(flushed.len(), 1);
    assert_eq!(cp.last_scanned.as_deref(), Some("base/a.mp3"));
}

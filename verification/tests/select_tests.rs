use freqhole::order::{str_le, str_lt};
use freqhole::select::{select_candidates, FsEntry};

fn entry(path: &str, is_file: bool) -> FsEntry {
    FsEntry { path: path.to_owned(), is_file }
}

#[test]
fn order_is_lexicographic_by_bytes() {
    assert!(str_lt("a", "b"));
    assert!(str_lt("a", "ab"));
    assert!(str_le("a", "a"));
    assert!(!str_lt("a", "a"));
    assert!(!str_le("b", "a"));
    assert!(str_lt("a/b.mp3", "a/c.mp3"));
    assert!(str_lt("A", "a"));
}

#[test]
fn keeps_only_audio_files_sorted() {
    let entries = vec![
        entry("base/c.ogg", true),
        entry("base/sub", false),
        entry("base/readme.txt", true),
        entry("base/a.mp3", true),
        entry("base/b.wav", true),
    ];
    let got = select_candidates(&entries, &None);
    assert_eq!(got, vec!["base/a.mp3", "base/b.wav", "base/c.ogg"]);
}

#[test]
fn resume_drops_everything_at_or_below_the_cursor() {
    let entries = vec![
        entry("base/a.mp3", true),
        entry("base/b.wav", true),
        entry("base/c.ogg", true),
    ];
    let resume = Some("base/b.wav".to_owned());
    let got = select_candidates(&entries, &resume);
    assert_eq!(got, vec!["base/c.ogg"]);
}

#[test]
fn resume_works_when_the_cursor_file_is_gone() {
    // the cursor compares by value, not existence
    let entries = vec![entry("base/a.mp3", true), entry("base/c.ogg", true)];
    let resume = Some("base/b.wav".to_owned());
    let got = select_candidates(&entries, &resume);
    assert_eq!(got, vec!["base/c.ogg"]);
}

#[test]
fn empty_directory_selects_nothing() {
    let entries: Vec<FsEntry> = Vec::new();
    let got = select_candidates(&entries, &None);
    assert!(got.is_empty());
}

#[test]
fn a_directory_named_like_audio_is_not_selected() {
    let entries = vec![entry("base/fake.mp3", false), entry("base/real.mp3", true)];
    let got = select_candidates(&entries, &None);
    assert_eq!(got, vec!["base/real.mp3"]);
}

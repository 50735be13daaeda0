use freqhole::paths::{audio_kind, is_audio_path, AudioKind};

#[test]
fn accepts_the_three_formats() {
    assert!(is_audio_path("song.mp3"));
    assert!(is_audio_path("song.ogg"));
    assert!(is_audio_path("song.wav"));
}

#[test]
fn accepts_uppercase_extensions() {
    assert!(is_audio_path("song.MP3"));
    assert!(is_audio_path("song.OgG"));
    assert!(is_audio_path("SONG.WAV"));
}

#[test]
fn rejects_other_extensions() {
    assert!(!is_audio_path("song.mp4"));
    assert!(!is_audio_path("song.flac"));
    assert!(!is_audio_path("song.wa"));
    assert!(!is_audio_path("song.wavv"));
    assert!(!is_audio_path("song"));
    assert!(!is_audio_path(""));
}

#[test]
fn rejects_paths_without_a_real_extension() {
    // a hidden file's single leading dot is not an extension
    assert!(!is_audio_path(".mp3"));
    assert!(!is_audio_path("dir/.mp3"));
    // a trailing dot gives an empty extension
    assert!(!is_audio_path("song.mp3."));
    // the dot in a parent directory does not count
    assert!(!is_audio_path("music.mp3/song"));
}

#[test]
fn reads_the_extension_of_the_final_component() {
    assert!(is_audio_path("a/b/c.ogg"));
    assert!(is_audio_path("a.b/c.tar.wav"));
    assert!(!is_audio_path("a.mp3/c.txt"));
}

#[test]
fn classifies_the_kind() {
    assert_eq!(audio_kind("x/y.mp3"), Some(AudioKind::Mp3));
    assert_eq!(audio_kind("x/y.OGG"), Some(AudioKind::Ogg));
    assert_eq!(audio_kind("y.WaV"), Some(AudioKind::Wav));
    assert_eq!(audio_kind("y.txt"), None);
}

#[test]
fn kind_names_are_the_lowercased_extensions() {
    assert_eq!(AudioKind::Mp3.ext_name(), "mp3");
    assert_eq!(AudioKind::Ogg.ext_name(), "ogg");
    assert_eq!(AudioKind::Wav.ext_name(), "wav");
}

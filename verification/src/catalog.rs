//! The records the scanner produces: normalized audio metadata and the
//! catalog entry stored for each file, keyed by its content-addressed id.

use vstd::prelude::*;

verus! {

/// Playback properties read from the audio container. Each field other than
/// the duration is absent when the format does not report it; the duration
/// is truncated to whole seconds.
#[derive(Clone, Debug)]
pub struct AudioProps {
    pub duration_secs: u64,
    pub sample_rate: Option<u32>,
    pub channels: Option<u8>,
    pub bitrate: Option<u32>,
    pub bit_depth: Option<u8>,
}

/// Filesystem facts about the scanned file. Timestamps are seconds since the
/// epoch and absent when the platform does not provide them; the extension
/// is lowercased and absent when the path has none.
#[derive(Clone, Debug)]
pub struct FileFacts {
    pub modified_secs: Option<u64>,
    pub created_secs: Option<u64>,
    pub len_bytes: u64,
    pub ext: Option<String>,
}

/// Normalized metadata for one audio file: textual tags keyed by the tag
/// item's canonical key, playback properties, and filesystem facts.
#[derive(Clone, Debug)]
pub struct AudioMetadata {
    pub tags: Vec<(String, String)>,
    pub properties: AudioProps,
    pub file: FileFacts,
}

/// One catalog entry. `id` is derived from the file's byte content alone,
/// so it is stable across renames and changes only when the content does.
#[derive(Clone, Debug)]
pub struct SongFile {
    pub path: String,
    pub id: String,
    pub metadata: AudioMetadata,
    pub base_path: String,
}

} // verus!

//! The records the storage and serving layers exchange, and the storage
//! interface they implement. The scanner itself only produces catalog
//! entries; turning one into a `Song` and persisting it is the storage
//! backend's side of the handoff.

use vstd::prelude::*;

verus! {

/// One song as the storage backend keeps it, keyed by the scanner's
/// content-addressed id.
#[derive(Clone, Debug)]
pub struct Song {
    pub id: String,
    pub title: String,
    pub path: String,
}

/// A named list of songs, by id.
#[derive(Clone, Debug)]
pub struct Playlist {
    pub id: String,
    pub name: String,
    pub song_ids: Vec<String>,
}

/// The player's persisted interface state.
#[derive(Clone, Debug)]
pub struct UIState {
    pub current_song_id: Option<String>,
    pub is_playing: bool,
    pub queue: Vec<String>,
}

/// A storage backend failure, with its backend's message.
#[derive(Clone, Debug)]
pub struct StorageError {
    pub message: String,
}

/// A storage backend for songs. Implementations must treat `id` as the
/// unique key: storing a song under a held id overwrites, never
/// duplicates.
pub trait Storage: Sized {
    /// Opens the backend at the given location.
    fn new_with_path(path: &str) -> Result<Self, StorageError>;

    /// Opens the backend at its default location.
    fn new() -> Result<Self, StorageError> {
        Self::new_with_path("library")
    }

    /// Persists one song, keyed by its id.
    fn store_song(&mut self, song: Song) -> Result<(), StorageError>;

    /// Hands out every stored song.
    fn get_all_songs(&self) -> Result<Vec<Song>, StorageError>;
}

} // verus!

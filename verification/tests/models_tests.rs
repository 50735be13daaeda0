use freqhole::models::{Playlist, Song, Storage, StorageError, UIState};

/// An in-memory backend, keyed by id with upsert semantics.
struct MemoryStorage {
    songs: Vec<Song>,
}

impl Storage for MemoryStorage {
    fn new_with_path(_path: &str) -> Result<Self, StorageError> {
        Ok(MemoryStorage { songs: Vec::new() })
    }

    fn store_song(&mut self, song: Song) -> Result<(), StorageError> {
        if let Some(held) = self.songs.iter_mut().find(|s| s.id == song.id) {
            *held = song;
        } else {
            self.songs.push(song);
        }
        Ok(())
    }

    fn get_all_songs(&self) -> Result<Vec<Song>, StorageError> {
        Ok(self.songs.clone())
    }
}

fn song(id: &str, title: &str) -> Song {
    Song { id: id.to_owned(), title: title.to_owned(), path: format!("base/{title}.mp3") }
}

#[test]
fn storing_under_a_held_id_overwrites() {
    let mut store = MemoryStorage::new().unwrap();
    store.store_song(song("id-1", "one")).unwrap();
    store.store_song(song("id-2", "two")).unwrap();
    store.store_song(song("id-1", "one again")).unwrap();
    let all = store.get_all_songs().unwrap();
    assert_eq!(all.len(), 2);
    assert_eq!(all.iter().find(|s| s.id == "id-1").unwrap().title, "one again");
}

#[test]
fn the_models_hold_their_fields() {
    let p = Playlist {
        id: "p".to_owned(),
        name: "road".to_owned(),
        song_ids: vec!["id-1".to_owned()],
    };
    assert_eq!(p.song_ids.len(), 1);
    let ui = UIState { current_song_id: None, is_playing: false, queue: Vec::new() };
    assert!(!ui.is_playing);
    assert!(ui.current_song_id.is_none());
}

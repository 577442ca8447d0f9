//! The core of a music player: song identifiers, the pool of songs, the
//! order of play, the session that plays, and playlists with their search,
//! sorting and selection.
//!
//! Nothing here reads or writes a file or touches the audio device. What is
//! to be written comes back as bytes, and what was read is handed in.

pub mod hex;
pub mod id_eq;
pub mod id_generator;
pub mod import;
pub mod instance;
pub mod manager;
pub mod outside;
pub mod playlist;
pub mod playlist_data;
pub mod queue;
pub mod registry;
pub mod search;
pub mod selection;
pub mod sidecar;
pub mod song;
pub mod song_data;
pub mod song_eq;
pub mod song_list;
pub mod song_pool;
pub mod song_ref;
pub mod song_source;
pub mod sort;
pub mod text;
pub mod wire;

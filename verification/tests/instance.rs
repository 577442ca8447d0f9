use napoleon_amp_core::id_generator::Id;
use napoleon_amp_core::instance::NapoleonInstance;
use napoleon_amp_core::playlist::Playlist;
use napoleon_amp_core::playlist_data::{PlaybackMode, PlaylistData};
use napoleon_amp_core::song::Song;
use napoleon_amp_core::song_data::{Artist, SongData};
use napoleon_amp_core::song_pool::SongPool;
use napoleon_amp_core::song_source::SongSource;

fn id(n: u8) -> Id {
    Id { header: 0, increment: n, time: 0x0102, data: [n; 12] }
}

fn source(n: u8, title: &str) -> SongSource {
    let data = SongData {
        artist: Artist::new("a".to_string()),
        album: "b".to_string(),
        title: title.to_string(),
        custom_song_tags: Vec::new(),
    };
    SongSource { id: id(n), original_name: None, sidecar: Some(data.to_bytes()), tags: Vec::new() }
}

fn playlist_of(pool: &mut SongPool, songs: &[(u8, &str)]) -> Playlist {
    let mut playlist = Playlist::new_file(None);
    let sources: Vec<SongSource> = songs.iter().map(|(n, title)| source(*n, title)).collect();
    playlist.get_or_load_songs_unfiltered(pool, &sources);
    playlist
}

#[test]
fn copy_and_paste_selected_songs() {
    let mut pool = SongPool::new();
    let mut from = playlist_of(&mut pool, &[(1, "d"), (2, "c"), (3, "b"), (4, "a")]);
    let mut to = playlist_of(&mut pool, &[(3, "b"), (5, "e")]);
    let mut instance = NapoleonInstance::new();

    assert!(instance.copied_songs().is_none());
    assert!(instance.paste_copied_songs(&mut to, &mut pool).is_none());
    assert_eq!(to.songs_unfiltered().len(), 2);

    assert_eq!(from.select_range(1, 2), Ok(()));
    instance.copy_selected_songs(&from, &mut pool);
    let copied = instance.copied_songs().expect("copies").clone();
    assert_eq!(copied.len(), 2);
    assert_eq!(copied[0].id, id(2));
    assert_eq!(copied[1].id, id(3));
    assert!(copied[0].is_same_object(&from.songs_unfiltered()[1]));
    assert_eq!(pool.strong_count(&id(2)), 2);
    assert_eq!(pool.strong_count(&id(3)), 3);

    let bytes = instance.paste_copied_songs(&mut to, &mut pool).expect("file");
    let stored = PlaylistData::from_bytes(&bytes).expect("decode");
    assert_eq!(stored.song_ids, vec![id(3), id(2), id(5)]);
    assert_eq!(pool.strong_count(&id(2)), 3);
    assert_eq!(pool.strong_count(&id(3)), 3);

    // Copying again gives the handles of the copies before back.
    from.select_single(0);
    instance.copy_selected_songs(&from, &mut pool);
    assert_eq!(instance.copied_songs().expect("copies").len(), 1);
    assert_eq!(pool.strong_count(&id(1)), 2);
    assert_eq!(pool.strong_count(&id(2)), 2);
    assert_eq!(pool.strong_count(&id(3)), 2);
}

#[test]
fn only_one_playlist_plays() {
    let mut pool = SongPool::new();
    let mut first = playlist_of(&mut pool, &[(1, "a"), (2, "b")]);
    let mut second = playlist_of(&mut pool, &[(3, "c")]);
    let mut instance = NapoleonInstance::new();
    assert_eq!(instance.currently_playing_playlist(), None);

    let start = instance.start_play_song(10, &mut first, 1);
    assert_eq!(start.stop_playlist, None);
    assert!(!start.start.stop_previous);
    assert_eq!(start.start.session.expect("session").queue().get_next_song_index(), 1);
    assert_eq!(instance.currently_playing_playlist(), Some(10));

    let start = instance.start_play_song(10, &mut first, 0);
    assert_eq!(start.stop_playlist, None);
    assert!(start.start.stop_previous);

    let start = instance.start_play_playlist(20, &mut second);
    assert_eq!(start.stop_playlist, Some(10));
    assert!(!start.start.stop_previous);
    assert!(start.start.session.is_some());
    assert_eq!(instance.currently_playing_playlist(), Some(20));

    assert_eq!(instance.stop_music(), Some(20));
    assert_eq!(instance.currently_playing_playlist(), None);
    assert_eq!(instance.stop_music(), None);
}

#[test]
fn a_shuffled_playlist_starts_with_a_song_of_its_own() {
    let mut pool = SongPool::new();
    let mut playlist = playlist_of(&mut pool, &[(1, "a"), (2, "b"), (3, "c")]);
    playlist.set_playback_mode(PlaybackMode::Shuffle);
    let mut instance = NapoleonInstance::new();
    for _ in 0..20 {
        let start = instance.start_play_playlist(1, &mut playlist);
        let session = start.start.session.expect("session");
        assert!(session.queue().get_next_song_index() < 3);
        assert_eq!(session.queue().cursor(), 0);
    }

    let mut empty = Playlist::new_file(None);
    empty.set_playback_mode(PlaybackMode::Shuffle);
    let start = instance.start_play_playlist(2, &mut empty);
    assert!(start.start.session.is_none());
    assert_eq!(start.stop_playlist, Some(1));
    assert_eq!(instance.currently_playing_playlist(), None);
}

#[test]
fn songs_are_equal_when_their_identifiers_are() {
    let mut first = Song::new(id(1));
    let second = Song::new(Id { header: 0x80, ..id(1) });
    let mut data = SongData::default();
    data.title = "changed".to_string();
    first.set_song_data(data);
    assert!(first == second);
    assert!(first != Song::new(id(2)));
}

#[test]
fn a_shuffled_start_is_drawn_by_lot() {
    let mut pool = SongPool::new();
    let mut playlist =
        playlist_of(&mut pool, &[(1, "a"), (2, "b"), (3, "c"), (4, "d"), (5, "e")]);
    playlist.set_playback_mode(PlaybackMode::Shuffle);
    let mut instance = NapoleonInstance::new();
    let mut seen = [false; 5];
    for _ in 0..200 {
        let start = instance.start_play_playlist(1, &mut playlist);
        seen[start.start.session.expect("session").queue().get_next_song_index()] = true;
    }
    assert!(seen.iter().filter(|s| **s).count() > 1);
}

#[test]
fn a_playlist_starts_with_a_song_on_display() {
    let mut pool = SongPool::new();
    let mut playlist = playlist_of(&mut pool, &[(1, "one"), (2, "two"), (3, "twelve")]);
    let mut instance = NapoleonInstance::new();

    playlist.set_search_query_filter("$title:tw", &pool);
    let start = instance.start_play_playlist(1, &mut playlist);
    assert_eq!(start.start.session.expect("session").queue().get_next_song_index(), 1);
    let start = instance.start_play_song(1, &mut playlist, 1);
    assert_eq!(start.start.session.expect("session").queue().get_next_song_index(), 2);
    assert!(instance.start_play_song(1, &mut playlist, 2).start.session.is_none());

    playlist.set_playback_mode(PlaybackMode::Shuffle);
    for _ in 0..20 {
        let start = instance.start_play_playlist(1, &mut playlist);
        let next = start.start.session.expect("session").queue().get_next_song_index();
        assert!(next == 1 || next == 2);
    }

    playlist.set_search_query_filter("$title:zzz", &pool);
    let start = instance.start_play_playlist(1, &mut playlist);
    assert!(start.start.session.is_none());
    assert_eq!(instance.currently_playing_playlist(), None);
}

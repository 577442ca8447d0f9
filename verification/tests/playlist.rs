use napoleon_amp_core::id_generator::{Id, IdGenerator};
use napoleon_amp_core::import::{plan_import, ImportFile, ImportedSong};
use napoleon_amp_core::manager::{DecodeOutcome, MusicCommand, PlaybackPhase};
use napoleon_amp_core::playlist::{Playlist, PlaylistVariant};
use napoleon_amp_core::playlist_data::{PlaybackMode, PlaylistData, DEFAULT_VOLUME};
use napoleon_amp_core::selection::SelectedSongsVariant;
use napoleon_amp_core::song_data::{Artist, ProbedTag, SongData, TagKey};
use napoleon_amp_core::song_list::{SongList, SortBy, SortByVariant};
use napoleon_amp_core::song_pool::SongPool;
use napoleon_amp_core::song_ref::SongRef;
use napoleon_amp_core::song_source::SongSource;
use napoleon_amp_core::sort::sorted_order;

fn id(n: u8) -> Id {
    Id { header: 0, increment: n, time: 0x0102, data: [n; 12] }
}

fn sidecar(title: &str, artist: &str, album: &str) -> Vec<u8> {
    SongData {
        artist: Artist::new(artist.to_string()),
        album: album.to_string(),
        title: title.to_string(),
        custom_song_tags: Vec::new(),
    }
    .to_bytes()
}

fn source(n: u8, title: &str, artist: &str, album: &str) -> SongSource {
    SongSource {
        id: id(n),
        original_name: None,
        sidecar: Some(sidecar(title, artist, album)),
        tags: Vec::new(),
    }
}

fn library() -> Vec<SongSource> {
    vec![
        source(1, "Come Together", "The Beatles", "Abbey Road"),
        source(2, "Bicycle Race", "Queen", "Jazz"),
        source(3, "Killer Queen", "Queen", "Sheer Heart Attack"),
        source(4, "Abbey Road Medley", "Someone", "Covers"),
        source(5, "Under Pressure", "Queen/David Bowie", "Hot Space"),
    ]
}

fn file_of(ids: &[u8]) -> Vec<u8> {
    let mut data = PlaylistData::new_empty();
    data.song_ids = ids.iter().map(|n| id(*n)).collect();
    data.to_bytes()
}

/// A playlist with a file that names the five songs of the library, loaded.
fn loaded_playlist(pool: &mut SongPool) -> Playlist {
    let mut playlist = Playlist::new_file(Some(&file_of(&[1, 2, 3, 4, 5])));
    let ids = playlist.song_ids_to_load(&Vec::new());
    assert_eq!(ids, vec![id(1), id(2), id(3), id(4), id(5)]);
    let (songs, writes) = playlist.get_or_load_songs_unfiltered(pool, &library());
    assert_eq!(songs.len(), 5);
    assert!(writes.is_empty());
    playlist
}

fn titles(pool: &SongPool, songs: &[SongRef]) -> Vec<String> {
    songs.iter().map(|s| pool.song_data(s).expect("live").title.clone()).collect()
}

#[test]
fn a_file_that_cannot_be_read_is_an_empty_playlist() {
    for file in [None, Some(&[9u8, 9, 9][..])] {
        let playlist = Playlist::new_file(file);
        assert_eq!(playlist.variant, PlaylistVariant::PlaylistFile);
        assert!(playlist.song_ids_to_load(&Vec::new()).is_empty());
        assert_eq!(playlist.playback_mode(), PlaybackMode::Sequential);
        assert_eq!(playlist.get_volume(), DEFAULT_VOLUME);
        assert_eq!(playlist.get_volume(), 1.0f32.to_bits());
        assert_eq!(playlist.get_sorting_by(), SortBy::default());
        assert!(!playlist.has_loaded_songs());
        assert!(playlist.get_or_load_songs().is_empty());
    }
}

#[test]
fn all_songs_come_from_the_names_in_the_folder() {
    let playlist = Playlist::all_songs();
    assert_eq!(playlist.variant, PlaylistVariant::SongFolder);
    let stems = vec![id(2).to_string(), "readme".to_string(), id(1).to_string()];
    assert_eq!(playlist.song_ids_to_load(&stems), vec![id(2), id(1)]);
}

#[test]
fn songs_are_loaded_once_and_none_comes_twice() {
    let mut pool = SongPool::new();
    let mut playlist = Playlist::new_file(Some(&file_of(&[1, 2, 1])));
    let sources = vec![
        source(1, "One", "a", "b"),
        source(2, "Two", "a", "b"),
        source(1, "One again", "a", "b"),
    ];
    {
        let (songs, _) = playlist.get_or_load_songs_unfiltered(&mut pool, &sources);
        assert_eq!(songs.len(), 2);
        assert_eq!(songs[0].id, id(1));
        assert_eq!(songs[1].id, id(2));
    }
    assert!(playlist.has_loaded_songs());
    assert_eq!(pool.strong_count(&id(1)), 1);
    assert_eq!(pool.strong_count(&id(2)), 1);
    {
        let (songs, writes) =
            playlist.get_or_load_songs_unfiltered(&mut pool, &vec![source(3, "Three", "a", "b")]);
        assert_eq!(songs.len(), 2);
        assert!(writes.is_empty());
    }
    assert_eq!(pool.strong_count(&id(3)), 0);
    assert_eq!(titles(&pool, playlist.songs_unfiltered()), vec!["One", "Two"]);
}

#[test]
fn a_song_without_title_gets_one_and_its_sidecar_is_written() {
    let mut pool = SongPool::new();
    let mut list = SongList::new();
    let outcome = list.push_song0(
        &mut pool,
        &SongSource { id: id(1), original_name: None, sidecar: None, tags: Vec::new() },
    );
    assert!(outcome.added);
    let written = SongData::from_bytes(&outcome.to_write.expect("sidecar")).expect("decode");
    assert_eq!(written.title, "Unnamed Song");
    assert_eq!(written.artist.artist_string, "Unknown Artist");
    assert_eq!(pool.song_data(&list.songs()[0]).expect("live").title, "Unnamed Song");

    let outcome =
        list.push_new_song(&mut pool, id(2), "my recording", Some(vec![1, 2]), Vec::new());
    assert!(outcome.added);
    let written = SongData::from_bytes(&outcome.to_write.expect("sidecar")).expect("decode");
    assert_eq!(written.title, "my recording");
    assert_eq!(pool.registered_songs().lookup("my recording"), Some(id(2)));

    // A song with a title in its tags keeps it.
    let outcome = list.push_new_song(
        &mut pool,
        id(3),
        "file name",
        None,
        vec![ProbedTag { key: TagKey::TrackTitle, value: "Tagged".to_string() }],
    );
    assert!(outcome.added);
    let written = SongData::from_bytes(&outcome.to_write.expect("sidecar")).expect("decode");
    assert_eq!(written.title, "Tagged");
    assert_eq!(pool.song_data(&list.songs()[2]).expect("live").title, "Tagged");

    // A song that is in the list already is not put there again.
    let outcome = list.push_song0(&mut pool, &source(1, "Other", "a", "b"));
    assert!(!outcome.added);
    assert!(outcome.to_write.is_none());
    assert_eq!(list.len(), 3);
    assert_eq!(pool.strong_count(&id(1)), 1);
    assert_eq!(pool.song_data(&list.songs()[0]).expect("live").title, "Unnamed Song");
}

#[test]
fn search_filter() {
    let mut pool = SongPool::new();
    let mut playlist = loaded_playlist(&mut pool);

    playlist.set_search_query_filter("Abbey", &pool);
    assert_eq!(
        titles(&pool, playlist.get_or_load_songs()),
        vec!["Come Together", "Abbey Road Medley"]
    );

    playlist.set_search_query_filter("$artist:queen", &pool);
    assert_eq!(
        titles(&pool, playlist.get_or_load_songs()),
        vec!["Bicycle Race", "Killer Queen", "Under Pressure"]
    );

    playlist.set_search_query_filter("$title:queen", &pool);
    assert_eq!(titles(&pool, playlist.get_or_load_songs()), vec!["Killer Queen"]);

    playlist.set_search_query_filter("$!artist:queen", &pool);
    assert_eq!(
        titles(&pool, playlist.get_or_load_songs()),
        vec!["Come Together", "Abbey Road Medley"]
    );

    playlist.set_search_query_filter("", &pool);
    assert_eq!(playlist.get_or_load_songs().len(), 5);
    assert_eq!(
        titles(&pool, playlist.get_or_load_songs()),
        titles(&pool, playlist.songs_unfiltered())
    );

    // A query that cannot be taken apart ends the search.
    playlist.set_search_query_filter("$artist:queen", &pool);
    assert!(playlist.is_filtered());
    playlist.set_search_query_filter("$genre:rock", &pool);
    assert!(!playlist.is_filtered());
    assert_eq!(playlist.get_or_load_songs().len(), 5);
}

#[test]
fn a_search_that_finds_nothing_shows_nothing() {
    let mut pool = SongPool::new();
    let mut playlist = loaded_playlist(&mut pool);

    playlist.set_search_query_filter("no such song", &pool);
    assert!(playlist.is_filtered());
    assert!(playlist.get_or_load_songs().is_empty());
    assert_eq!(playlist.songs_unfiltered().len(), 5);

    playlist.set_search_query_filter("$artist:abba", &pool);
    assert!(playlist.is_filtered());
    assert!(playlist.get_or_load_songs().is_empty());
    assert_eq!(playlist.select_range(0, 0), Err(()));
    assert!(playlist.delete_song(0, &mut pool).is_some());
    assert_eq!(playlist.songs_unfiltered().len(), 5);
    assert!(playlist.start_play_song(0).session.is_none());

    playlist.set_search_query_filter("", &pool);
    assert!(!playlist.is_filtered());
    assert_eq!(playlist.get_or_load_songs().len(), 5);
}

#[test]
fn a_search_drops_the_selection() {
    let mut pool = SongPool::new();
    let mut playlist = loaded_playlist(&mut pool);
    playlist.select_all();
    assert_eq!(playlist.get_selected_songs_variant(), SelectedSongsVariant::All);
    playlist.set_search_query_filter("queen", &pool);
    assert_eq!(playlist.get_selected_songs_variant(), SelectedSongsVariant::Nothing);
}

#[test]
fn selection_keeps_to_the_songs_on_display() {
    let mut pool = SongPool::new();
    let mut playlist = loaded_playlist(&mut pool);

    assert_eq!(playlist.select_range(1, 3), Ok(()));
    assert_eq!(
        playlist.get_selected_songs_variant(),
        SelectedSongsVariant::Range { start: 1, end: 3 }
    );
    assert_eq!(playlist.select_range(3, 1), Err(()));
    assert_eq!(playlist.select_range(0, 5), Err(()));
    assert_eq!(playlist.select_range(5, 5), Err(()));
    assert_eq!(
        playlist.get_selected_songs_variant(),
        SelectedSongsVariant::Range { start: 1, end: 3 }
    );
    assert_eq!(playlist.select_range(4, 4), Ok(()));

    playlist.select_single(2);
    assert_eq!(playlist.get_selected_songs_variant(), SelectedSongsVariant::Single(2));
    playlist.select_single(5);
    assert_eq!(playlist.get_selected_songs_variant(), SelectedSongsVariant::Single(2));

    playlist.set_search_query_filter("$title:queen", &pool);
    assert_eq!(playlist.select_range(0, 1), Err(()));
    assert_eq!(playlist.select_range(0, 0), Ok(()));
    playlist.select_single(1);
    assert_eq!(
        playlist.get_selected_songs_variant(),
        SelectedSongsVariant::Range { start: 0, end: 0 }
    );
}

#[test]
fn selected_songs_are_those_at_the_selected_places() {
    let songs: Vec<SongRef> = (0..5u8).map(|n| SongRef { id: id(n), object: n as u64 }).collect();
    let objects = |selected: &[SongRef]| selected.iter().map(|s| s.object).collect::<Vec<u64>>();

    let all = SelectedSongsVariant::All;
    assert!(all.is_selected(0) && all.is_selected(99));
    assert_eq!(objects(all.get_selected_songs(&songs)), vec![0, 1, 2, 3, 4]);

    let nothing = SelectedSongsVariant::Nothing;
    assert!(!nothing.is_selected(0));
    assert!(nothing.get_selected_songs(&songs).is_empty());

    let single = SelectedSongsVariant::Single(3);
    assert!(single.is_selected(3) && !single.is_selected(2));
    assert_eq!(objects(single.get_selected_songs(&songs)), vec![3]);
    assert!(SelectedSongsVariant::Single(5).get_selected_songs(&songs).is_empty());

    let range = SelectedSongsVariant::Range { start: 1, end: 3 };
    assert!(!range.is_selected(0) && range.is_selected(1) && range.is_selected(3));
    assert!(!range.is_selected(4));
    assert_eq!(objects(range.get_selected_songs(&songs)), vec![1, 2, 3]);
    let beyond = SelectedSongsVariant::Range { start: 3, end: 9 };
    assert_eq!(objects(beyond.get_selected_songs(&songs)), vec![3, 4]);
    let backwards = SelectedSongsVariant::Range { start: 3, end: 1 };
    assert!(!backwards.is_selected(2));
    assert!(backwards.get_selected_songs(&songs).is_empty());
    let at_the_end = SelectedSongsVariant::Range { start: 0, end: usize::MAX };
    assert_eq!(at_the_end.get_selected_songs(&songs).len(), 5);
}

#[test]
fn delete_song_takes_the_song_on_display_out() {
    let mut pool = SongPool::new();
    let mut playlist = loaded_playlist(&mut pool);

    let bytes = playlist.delete_song(1, &mut pool).expect("file");
    assert_eq!(bytes, file_of(&[1, 3, 4, 5]));
    assert_eq!(pool.strong_count(&id(2)), 0);
    assert_eq!(
        titles(&pool, playlist.songs_unfiltered()),
        vec!["Come Together", "Killer Queen", "Abbey Road Medley", "Under Pressure"]
    );

    // With a search on, the place counts among the songs on display.
    playlist.set_search_query_filter("$artist:queen", &pool);
    assert_eq!(titles(&pool, playlist.get_or_load_songs()), vec!["Killer Queen", "Under Pressure"]);
    let bytes = playlist.delete_song(1, &mut pool).expect("file");
    assert_eq!(bytes, file_of(&[1, 3, 4]));
    assert_eq!(titles(&pool, playlist.get_or_load_songs()), vec!["Killer Queen"]);
    assert_eq!(
        titles(&pool, playlist.songs_unfiltered()),
        vec!["Come Together", "Killer Queen", "Abbey Road Medley"]
    );
    assert_eq!(pool.strong_count(&id(5)), 0);
    assert_eq!(pool.strong_count(&id(3)), 1);

    // No song at that place: nothing is taken out.
    let bytes = playlist.delete_song(1, &mut pool).expect("file");
    assert_eq!(bytes, file_of(&[1, 3, 4]));
    assert_eq!(playlist.songs_unfiltered().len(), 3);

    // Taking the last song on display out leaves the search on.
    let bytes = playlist.delete_song(0, &mut pool).expect("file");
    assert_eq!(bytes, file_of(&[1, 4]));
    assert!(playlist.is_filtered());
    assert!(playlist.get_or_load_songs().is_empty());
    assert_eq!(
        titles(&pool, playlist.songs_unfiltered()),
        vec!["Come Together", "Abbey Road Medley"]
    );
}

#[test]
fn sorting_is_stable_and_can_go_downwards() {
    let mut pool = SongPool::new();
    let mut playlist = loaded_playlist(&mut pool);

    let by_artist = SortBy { sort_by_variant: SortByVariant::Artist, inverted: false };
    let bytes = playlist.sort_by_and_save(by_artist, &pool).expect("file");
    assert_eq!(
        titles(&pool, playlist.songs_unfiltered()),
        vec!["Bicycle Race", "Killer Queen", "Under Pressure", "Abbey Road Medley", "Come Together"]
    );
    assert_eq!(playlist.get_sorting_by(), by_artist);
    let stored = PlaylistData::from_bytes(&bytes).expect("decode");
    assert_eq!(stored.song_ids, vec![id(2), id(3), id(5), id(4), id(1)]);
    assert_eq!(stored.sort_by, by_artist);

    let downwards = SortBy { sort_by_variant: SortByVariant::Artist, inverted: true };
    playlist.sort_by_and_save(downwards, &pool);
    assert_eq!(
        titles(&pool, playlist.songs_unfiltered()),
        vec!["Come Together", "Abbey Road Medley", "Under Pressure", "Bicycle Race", "Killer Queen"]
    );

    let by_title = SortBy { sort_by_variant: SortByVariant::Title, inverted: false };
    playlist.sort_by_and_save(by_title, &pool);
    assert_eq!(
        titles(&pool, playlist.songs_unfiltered()),
        vec!["Abbey Road Medley", "Bicycle Race", "Come Together", "Killer Queen", "Under Pressure"]
    );

    playlist.next_sorting_by(&pool);
    assert_eq!(playlist.get_sorting_by().sort_by_variant, SortByVariant::Artist);
    playlist.next_sorting_by(&pool);
    assert_eq!(playlist.get_sorting_by().sort_by_variant, SortByVariant::Album);
    assert_eq!(
        titles(&pool, playlist.songs_unfiltered()),
        vec!["Come Together", "Abbey Road Medley", "Under Pressure", "Bicycle Race", "Killer Queen"]
    );
    playlist.next_sorting_by(&pool);
    assert_eq!(playlist.get_sorting_by().sort_by_variant, SortByVariant::Title);
}

#[test]
fn sorted_order_keeps_equal_keys_in_place() {
    let keys: Vec<Vec<char>> =
        ["b", "a", "b", "", "a", "B"].iter().map(|k| k.chars().collect()).collect();
    assert_eq!(sorted_order(&keys, false), vec![3, 5, 1, 4, 0, 2]);
    assert_eq!(sorted_order(&keys, true), vec![0, 2, 1, 4, 5, 3]);
    assert_eq!(sorted_order(&Vec::new(), false), Vec::<usize>::new());
    assert_eq!(SortByVariant::default(), SortByVariant::Title);
    assert_eq!(SortByVariant::Artist.to_string(), "Artist");
    assert_eq!(SortByVariant::Album.to_string(), "Album");
    assert_eq!(SortByVariant::Title.to_string(), "Title");
}

#[test]
fn plan_import_passes_over_sidecars() {
    let mut generator = IdGenerator::new();
    generator.generate_new_id();
    let files = vec![
        ImportFile { file_name: "one".to_string(), extension: "mp3".to_string() },
        ImportFile { file_name: "one".to_string(), extension: "snap".to_string() },
        ImportFile { file_name: "two".to_string(), extension: "flac".to_string() },
    ];
    let steps = plan_import(&files, &mut generator);
    assert_eq!(steps.len(), 2);
    assert_eq!(steps[0].index, 0);
    assert_eq!(steps[0].original_name, "one");
    assert_eq!(steps[0].song_id.increment, 1);
    assert_eq!(steps[1].index, 2);
    assert_eq!(steps[1].original_name, "two");
    assert_eq!(steps[1].song_id.increment, 2);
    assert!(!steps[1].song_id.has_header());
    assert_eq!(generator.increment(), 3);
}

#[test]
fn import_reports_what_was_there_already_and_takes_the_rest() {
    let mut pool = SongPool::new();
    let mut playlist = Playlist::new_file(None);
    playlist.get_or_load_songs_unfiltered(&mut pool, &Vec::new());

    let mut generator = IdGenerator::new();
    let files: Vec<ImportFile> = ["delta", "alpha", "charlie", "bravo"]
        .iter()
        .map(|name| ImportFile { file_name: name.to_string(), extension: "mp3".to_string() })
        .collect();
    let steps = plan_import(&files, &mut generator);
    assert_eq!(steps.len(), 4);
    let imported: Vec<ImportedSong> = steps
        .iter()
        .map(|step| ImportedSong {
            index: step.index,
            already_exists: step.index == 2,
            source: SongSource {
                id: step.song_id,
                original_name: Some(step.original_name.clone()),
                sidecar: None,
                tags: Vec::new(),
            },
        })
        .collect();

    let outcome = playlist.import_songs(&mut pool, &imported);
    assert_eq!(outcome.result, Err(vec![2]));

    // The three others came in: they have their files, stand in the registry
    // and in the playlist, sorted by title. The one that collided did not.
    assert_eq!(outcome.sidecar_writes.len(), 3);
    assert_eq!(outcome.sidecar_writes[1].id, steps[1].song_id);
    assert_eq!(outcome.sidecar_writes[2].id, steps[3].song_id);
    let written = SongData::from_bytes(&outcome.sidecar_writes[1].bytes).expect("decode");
    assert_eq!(written.title, "alpha");
    assert_eq!(outcome.registry_bytes, pool.save_registered_songs());
    assert_eq!(pool.registered_songs().len(), 3);
    assert_eq!(pool.registered_songs().lookup("bravo"), Some(steps[3].song_id));
    assert_eq!(pool.registered_songs().lookup("charlie"), None);
    assert_eq!(pool.strong_count(&steps[2].song_id), 0);
    assert_eq!(titles(&pool, playlist.songs_unfiltered()), vec!["alpha", "bravo", "delta"]);
    let stored =
        PlaylistData::from_bytes(&outcome.playlist_bytes.expect("file")).expect("decode");
    assert_eq!(stored.song_ids, vec![steps[1].song_id, steps[3].song_id, steps[0].song_id]);

    let none_collides: Vec<ImportedSong> = Vec::new();
    assert_eq!(playlist.import_songs(&mut pool, &none_collides).result, Ok(()));
}

#[test]
fn the_playlist_of_all_songs_keeps_no_file() {
    let mut pool = SongPool::new();
    let mut playlist = Playlist::all_songs();
    playlist.get_or_load_songs_unfiltered(&mut pool, &library());
    assert_eq!(playlist.songs_unfiltered().len(), 5);
    assert!(playlist.save_contents().is_none());
    assert!(playlist.set_playback_mode(PlaybackMode::Shuffle).is_none());
    assert_eq!(playlist.playback_mode(), PlaybackMode::Shuffle);
    assert!(playlist.delete_song(0, &mut pool).is_none());
    assert_eq!(playlist.songs_unfiltered().len(), 4);
}

#[test]
fn settings_are_kept_in_the_file() {
    let mut pool = SongPool::new();
    let mut playlist = loaded_playlist(&mut pool);

    let bytes = playlist.next_playback_mode().expect("file");
    assert_eq!(playlist.playback_mode(), PlaybackMode::Shuffle);
    assert_eq!(PlaylistData::from_bytes(&bytes).expect("decode").playback_mode, PlaybackMode::Shuffle);
    playlist.next_playback_mode();
    assert_eq!(playlist.playback_mode(), PlaybackMode::Sequential);

    let (command, bytes) = playlist.set_volume(0.25f32.to_bits());
    assert_eq!(command, None);
    assert_eq!(playlist.get_volume(), 0.25f32.to_bits());
    let stored = PlaylistData::from_bytes(&bytes.expect("file")).expect("decode");
    assert_eq!(f32::from_bits(stored.volume), 0.25);
    assert_eq!(stored.song_ids.len(), 5);

    // A playlist whose songs were not loaded keeps the songs of its file.
    let mut unloaded = Playlist::new_file(Some(&file_of(&[4, 2])));
    let bytes = unloaded.set_playback_mode(PlaybackMode::Shuffle).expect("file");
    assert_eq!(PlaylistData::from_bytes(&bytes).expect("decode").song_ids, vec![id(4), id(2)]);
}

#[test]
fn playlist_file_bytes() {
    let mut data = PlaylistData::new_capacity(2);
    data.song_ids = vec![id(1), Id { header: 0x80, ..id(2) }];
    data.playback_mode = PlaybackMode::Shuffle;
    data.volume = 0x3F00_0001;
    data.sort_by = SortBy { sort_by_variant: SortByVariant::Album, inverted: true };
    let bytes = data.to_bytes();
    let mut expected = vec![2, 0, 0, 0, 0, 0, 0, 0];
    expected.extend_from_slice(&id(1).headerless_bytes());
    expected.push(0x80);
    expected.extend_from_slice(&id(2).headerless_bytes());
    expected.extend_from_slice(&[1, 1, 1, 0x3F, 0x00, 0x00, 0x01, 1, 2, 1]);
    assert_eq!(bytes, expected);

    let read = PlaylistData::from_bytes(&bytes).expect("decode");
    assert_eq!(read.song_ids, data.song_ids);
    assert_eq!(read.song_ids[1].header, 0x80);
    assert_eq!(read.playback_mode, PlaybackMode::Shuffle);
    assert_eq!(read.volume, 0x3F00_0001);
    assert_eq!(read.sort_by, data.sort_by);
}

#[test]
fn a_playlist_file_may_miss_its_later_fields() {
    let full = file_of(&[1, 2]);
    let ids_end = full.len() - 10;

    let read = PlaylistData::from_bytes(&full[..ids_end]).expect("only the songs");
    assert_eq!(read.song_ids, vec![id(1), id(2)]);
    assert_eq!(read.playback_mode, PlaybackMode::Sequential);
    assert_eq!(read.volume, DEFAULT_VOLUME);
    assert_eq!(read.sort_by, SortBy::default());

    let mut with_mode = full[..ids_end].to_vec();
    with_mode.extend_from_slice(&[1, 1]);
    let read = PlaylistData::from_bytes(&with_mode).expect("songs and mode");
    assert_eq!(read.playback_mode, PlaybackMode::Shuffle);
    assert_eq!(read.volume, DEFAULT_VOLUME);

    let mut marked_missing = full[..ids_end].to_vec();
    marked_missing.extend_from_slice(&[0, 1, 0x3E, 0x80, 0, 0, 0]);
    let read = PlaylistData::from_bytes(&marked_missing).expect("mode marked as missing");
    assert_eq!(read.playback_mode, PlaybackMode::Sequential);
    assert_eq!(f32::from_bits(read.volume), 0.25);
    assert_eq!(read.sort_by, SortBy::default());
}

#[test]
fn a_broken_playlist_file_is_rejected() {
    let full = file_of(&[1, 2]);
    assert!(PlaylistData::from_bytes(&[]).is_none());
    assert!(PlaylistData::from_bytes(&full[..20]).is_none());
    let mut longer = full.clone();
    longer.push(0);
    assert!(PlaylistData::from_bytes(&longer).is_none());
    let ids_end = full.len() - 10;
    for tail in [&[2u8][..], &[1, 2], &[1], &[1, 0, 1, 0, 0], &[1, 0, 1, 0, 0, 0, 0, 1, 3, 0],
        &[1, 0, 1, 0, 0, 0, 0, 1, 0, 2]]
    {
        let mut broken = full[..ids_end].to_vec();
        broken.extend_from_slice(tail);
        assert!(PlaylistData::from_bytes(&broken).is_none());
    }
}

#[test]
fn artist_and_album_lists_name_each_once() {
    let mut pool = SongPool::new();
    let playlist = loaded_playlist(&mut pool);
    assert_eq!(
        playlist.get_artist_list(&pool),
        vec!["The Beatles", "Queen", "Someone", "Queen/David Bowie"]
    );
    assert_eq!(
        playlist.get_album_list(&pool),
        vec!["Abbey Road", "Jazz", "Sheer Heart Attack", "Covers", "Hot Space"]
    );
}

#[test]
fn pasted_songs_share_their_objects() {
    let mut pool = SongPool::new();
    let playlist = loaded_playlist(&mut pool);
    let copied = SelectedSongsVariant::Range { start: 1, end: 2 }
        .get_selected_songs(playlist.get_or_load_songs())
        .to_vec();

    let mut other = Playlist::new_file(None);
    other.get_or_load_songs_unfiltered(&mut pool, &vec![source(3, "Killer Queen", "Queen", "x")]);
    let bytes = other.import_existing_songs(&mut pool, &copied).expect("file");
    assert_eq!(titles(&pool, other.songs_unfiltered()), vec!["Bicycle Race", "Killer Queen"]);
    assert_eq!(PlaylistData::from_bytes(&bytes).expect("decode").song_ids, vec![id(2), id(3)]);
    assert_eq!(pool.strong_count(&id(2)), 2);
    assert_eq!(pool.strong_count(&id(3)), 2);
    assert!(other.songs_unfiltered()[0].is_same_object(&copied[0]));

    // A change of the song is seen in both playlists.
    let mut data = SongData::default();
    data.title = "Fat Bottomed Girls".to_string();
    pool.set_song_data(&copied[0], data);
    assert_eq!(titles(&pool, playlist.songs_unfiltered())[1], "Fat Bottomed Girls");
    assert_eq!(titles(&pool, other.songs_unfiltered())[0], "Fat Bottomed Girls");
}

#[test]
fn start_play_song_makes_a_session_and_asks_to_stop_the_one_before() {
    let mut pool = SongPool::new();
    let mut playlist = loaded_playlist(&mut pool);
    assert!(!playlist.has_session());
    assert_eq!(playlist.stop_music(), None);

    let start = playlist.start_play_song(0);
    assert!(!start.stop_previous);
    let mut session = start.session.expect("session");
    assert!(playlist.has_session());
    assert_eq!(session.phase(), PlaybackPhase::Starting);
    assert_eq!(session.volume(), DEFAULT_VOLUME);

    let songs = playlist.songs_unfiltered().clone();
    let index = session.sink_empty(songs.len()).expect("song");
    session.song_attempted(songs[index], DecodeOutcome::Decoded { total_duration: None });
    assert!(session.get_song_status().song.is_same_object(&songs[0]));

    let (command, _) = playlist.set_volume(0.5f32.to_bits());
    assert_eq!(command, Some(MusicCommand::SetVolume(0.5f32.to_bits())));

    let again = playlist.start_play_song(3);
    assert!(again.stop_previous);
    assert_eq!(again.session.expect("session").queue().get_next_song_index(), 3);

    let none = playlist.start_play_song(5);
    assert!(none.stop_previous);
    assert!(none.session.is_none());
    assert!(!playlist.has_session());

    // During a search the index counts among the songs on display.
    playlist.set_search_query_filter("$artist:queen", &pool);
    assert_eq!(
        titles(&pool, playlist.get_or_load_songs()),
        vec!["Bicycle Race", "Killer Queen", "Under Pressure"]
    );
    let filtered = playlist.start_play_song(2);
    let mut session = filtered.session.expect("session");
    assert_eq!(session.queue().len(), 5);
    assert_eq!(session.queue().get_next_song_index(), 4);
    let index = session.sink_empty(songs.len()).expect("song");
    session.song_attempted(songs[index], DecodeOutcome::Decoded { total_duration: None });
    assert_eq!(pool.song_data(&session.get_song_status().song).expect("live").title, "Under Pressure");
    assert!(playlist.start_play_song(3).session.is_none());
    playlist.set_search_query_filter("", &pool);

    playlist.start_play_song(1);
    assert_eq!(playlist.stop_music(), Some(MusicCommand::Stop { send_stop_action: true }));
    assert!(!playlist.has_session());
}

#[test]
fn song_list_keeps_each_song_once() {
    let mut list = SongList::new();
    let first = SongRef { id: id(1), object: 0 };
    assert!(list.push(first));
    assert!(list.push(SongRef { id: id(2), object: 1 }));
    assert!(!list.push(SongRef { id: Id { header: 0x80, ..id(1) }, object: 9 }));
    list.reserve(10);
    assert_eq!(list.len(), 2);
    assert!(list.contains(&id(1)));
    assert!(!list.contains(&id(3)));
    assert_eq!(list.position_of(&id(2)), Some(1));
    assert_eq!(list.position_of(&id(3)), None);
    assert_eq!(list.songs_arc().len(), 2);

    assert!(list.remove_song_at(2).is_none());
    let removed = list.remove_song_at(0).expect("a song");
    assert!(removed.is_same_object(&first));
    assert!(!list.contains(&id(1)));
    assert_eq!(list.position_of(&id(2)), Some(0));
    assert!(list.push(first));
    assert_eq!(list.songs()[1].object, 0);
}

use napoleon_amp_core::id_generator::Id;
use napoleon_amp_core::song_data::SongData;
use napoleon_amp_core::song_pool::SongPool;

fn id(n: u8) -> Id {
    Id { header: 0, increment: n, time: 0x0102, data: [n; 12] }
}

#[test]
fn two_requests_give_one_object_while_a_handle_is_out() {
    let mut pool = SongPool::new();
    let first = pool.get_song_by_id(id(1)).expect("handle");
    let second = pool.get_song_by_id(id(1)).expect("handle");
    assert!(first.is_same_object(&second));
    assert_eq!(first.object, second.object);
    assert_eq!(pool.strong_count(&id(1)), 2);
    assert_eq!(pool.created(), 1);

    // A change through one handle is seen through the other.
    let mut data = SongData::default();
    data.title = "Abbey Road".to_string();
    assert!(pool.set_song_data(&first, data).is_some());
    assert_eq!(pool.song_data(&second).expect("live").title, "Abbey Road");
}

#[test]
fn a_new_object_is_made_once_all_handles_are_back() {
    let mut pool = SongPool::new();
    let first = pool.get_song_by_id(id(1)).expect("handle");
    let second = pool.get_song_by_id(id(1)).expect("handle");
    let mut data = SongData::default();
    data.title = "kept while held".to_string();
    pool.set_song_data(&first, data);

    pool.release(first);
    assert_eq!(pool.strong_count(&id(1)), 1);
    assert!(pool.song(&second).is_some());
    pool.release(second);
    assert_eq!(pool.strong_count(&id(1)), 0);
    assert!(pool.song(&first).is_none());
    assert!(pool.song(&second).is_none());

    let third = pool.get_song_by_id(id(1)).expect("handle");
    assert!(!third.is_same_object(&first));
    assert_ne!(third.object, first.object);
    assert!(third.is_same_song(&first));
    assert_eq!(pool.created(), 2);
    let held = pool.song(&third).expect("live");
    assert_eq!(held.get_song_data().title, "");
    assert!(!held.has_loaded_song_data);
    // The old handles stay dead.
    assert!(pool.song(&first).is_none());
}

#[test]
fn different_songs_have_objects_of_their_own() {
    let mut pool = SongPool::new();
    let a = pool.get_song_by_id(id(1)).expect("handle");
    let b = pool.get_song_by_id(id(2)).expect("handle");
    assert!(!a.is_same_song(&b));
    assert_ne!(a.object, b.object);
    assert_eq!(pool.strong_count(&id(1)), 1);
    assert_eq!(pool.strong_count(&id(2)), 1);
    assert_eq!(pool.strong_count(&id(3)), 0);
}

#[test]
fn the_header_does_not_tell_songs_apart() {
    let mut pool = SongPool::new();
    let plain = pool.get_song_by_id(id(1)).expect("handle");
    let headed = pool.get_song_by_id(Id { header: 0x80, ..id(1) }).expect("handle");
    assert_eq!(plain.object, headed.object);
    assert_eq!(pool.strong_count(&id(1)), 2);
}

#[test]
fn releasing_a_dead_handle_changes_nothing() {
    let mut pool = SongPool::new();
    let first = pool.get_song_by_id(id(1)).expect("handle");
    pool.release(first);
    let second = pool.get_song_by_id(id(1)).expect("handle");
    pool.release(first);
    assert_eq!(pool.strong_count(&id(1)), 1);
    assert!(pool.song(&second).is_some());
    assert!(pool.set_song_data(&first, SongData::default()).is_none());
}

#[test]
fn the_registry_keeps_the_last_song_under_a_name() {
    let mut pool = SongPool::new();
    pool.register_song(id(1), "first".to_string());
    pool.register_song(id(2), "second".to_string());
    pool.register_song(id(3), "first".to_string());
    let registry = pool.registered_songs();
    assert_eq!(registry.len(), 2);
    assert_eq!(registry.lookup("first"), Some(id(3)));
    assert_eq!(registry.lookup("second"), Some(id(2)));
    assert_eq!(registry.lookup("third"), None);

    let bytes = pool.save_registered_songs();
    let mut expected = vec![2, 0, 0, 0, 0, 0, 0, 0];
    expected.extend_from_slice(&[5, 0, 0, 0, 0, 0, 0, 0]);
    expected.extend_from_slice(b"first");
    expected.extend_from_slice(&id(3).headerless_bytes());
    expected.extend_from_slice(&[6, 0, 0, 0, 0, 0, 0, 0]);
    expected.extend_from_slice(b"second");
    expected.extend_from_slice(&id(2).headerless_bytes());
    assert_eq!(bytes, expected);
}

#[test]
fn the_registry_is_read_back_from_its_bytes() {
    let mut pool = SongPool::new();
    pool.register_song(id(1), "first".to_string());
    pool.register_song(Id { header: 0x85, ..id(2) }, "zweites Stück".to_string());
    let bytes = pool.save_registered_songs();

    let mut other = SongPool::new();
    other.register_song(id(9), "dropped".to_string());
    other.load_registered_songs(Some(&bytes));
    assert_eq!(other.registered_songs().len(), 2);
    assert_eq!(other.registered_songs().lookup("first"), Some(id(1)));
    let second = other.registered_songs().lookup("zweites Stück").expect("entry");
    assert_eq!(second, id(2));
    assert_eq!(second.header, 0x85);
    assert_eq!(other.registered_songs().lookup("dropped"), None);
    assert_eq!(other.save_registered_songs(), bytes);

    // A file that cannot be read, or makes no sense, leaves an empty registry.
    other.load_registered_songs(None);
    assert_eq!(other.registered_songs().len(), 0);
    other.load_registered_songs(Some(&bytes));
    other.load_registered_songs(Some(&bytes[..bytes.len() - 1]));
    assert_eq!(other.registered_songs().len(), 0);
    let mut longer = bytes.clone();
    longer.push(0);
    other.load_registered_songs(Some(&longer));
    assert_eq!(other.registered_songs().len(), 0);
}

#[test]
fn the_pool_knows_which_songs_were_read() {
    let mut pool = SongPool::new();
    assert!(!pool.is_loaded(&id(1)));
    let song = pool.get_song_by_id(id(1)).expect("handle");
    assert!(!pool.is_loaded(&id(1)));
    assert!(pool.load_song_data(&song, None, &Vec::new()).is_some());
    assert!(pool.is_loaded(&id(1)));
    assert_eq!(pool.song_data(&song).expect("live").artist.artist_string, "Unknown Artist");
    // What was read once is not read again.
    assert!(pool.load_song_data(&song, None, &Vec::new()).is_none());
    pool.release(song);
    assert!(!pool.is_loaded(&id(1)));
    assert!(pool.load_song_data(&song, None, &Vec::new()).is_none());
}

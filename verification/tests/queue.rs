use napoleon_amp_core::playlist_data::PlaybackMode;
use napoleon_amp_core::queue::Queue;

#[test]
fn sequential_queue_is_the_identity() {
    let queue = Queue::new(2, 5, PlaybackMode::Sequential);
    assert_eq!(queue.len(), 5);
    assert_eq!(queue.cursor(), 2);
    assert_eq!(queue.current_queue(), &[2, 3, 4]);
    assert_eq!(queue.get_next_song_index(), 2);
    assert_eq!(queue.get_current_song_index(), 1);
    assert_eq!(queue.first_entry(), 0);
}

#[test]
fn sequential_queue_wraps_once_through_all_entries() {
    for len in 1..8usize {
        for start in 0..len {
            let mut queue = Queue::new(start, len, PlaybackMode::Sequential);
            let mut seen = vec![false; len];
            for step in 0..len {
                let song = queue.get_next_song_index();
                assert_eq!(song, (start + step) % len);
                assert!(!seen[song]);
                seen[song] = true;
                queue.next();
            }
            assert!(seen.iter().all(|s| *s));
            assert_eq!(queue.get_next_song_index(), start);
            assert_eq!(queue.cursor(), start);
        }
    }
}

#[test]
fn shuffle_queue_is_a_permutation_that_starts_with_the_start() {
    for len in 1..20usize {
        for start in 0..len {
            let queue = Queue::new(start, len, PlaybackMode::Shuffle);
            assert_eq!(queue.cursor(), 0);
            let entries = queue.current_queue().to_vec();
            assert_eq!(entries.len(), len);
            assert_eq!(entries[0], start);
            assert_eq!(queue.get_next_song_index(), start);
            let mut sorted = entries.clone();
            sorted.sort();
            let identity: Vec<usize> = (0..len).collect();
            assert_eq!(sorted, identity);
        }
    }
}

#[test]
fn next_wraps_at_the_end() {
    let mut queue = Queue::new(2, 3, PlaybackMode::Sequential);
    queue.next();
    assert_eq!(queue.cursor(), 0);
    assert_eq!(queue.get_next_song_index(), 0);
    assert_eq!(queue.get_current_song_index(), 2);
    assert_eq!(queue.current_queue(), &[0, 1, 2]);
}

#[test]
fn previous_goes_two_back_and_restart_one() {
    let mut queue = Queue::new(0, 5, PlaybackMode::Sequential);
    queue.previous();
    assert_eq!(queue.cursor(), 3);
    queue.restart_song();
    assert_eq!(queue.cursor(), 2);
    queue.restart_song();
    queue.restart_song();
    queue.restart_song();
    assert_eq!(queue.cursor(), 4);
    queue.previous();
    assert_eq!(queue.cursor(), 2);
}

#[test]
fn next_then_previous_replays_what_played_before() {
    for len in 1..6usize {
        for start in 0..len {
            let mut queue = Queue::new(start, len, PlaybackMode::Sequential);
            let current_before = queue.get_current_song_index();
            queue.next();
            queue.previous();
            assert_eq!(queue.cursor(), (start + len - 1) % len);
            assert_eq!(queue.get_next_song_index(), current_before);
        }
    }
}

#[test]
fn cursor_moves_wrap_in_a_queue_of_one() {
    let mut queue = Queue::new(0, 1, PlaybackMode::Shuffle);
    queue.next();
    assert_eq!(queue.cursor(), 0);
    queue.previous();
    assert_eq!(queue.cursor(), 0);
    queue.restart_song();
    assert_eq!(queue.cursor(), 0);
    queue.set_index_from_queue(7);
    assert_eq!(queue.cursor(), 0);
    assert_eq!(queue.get_current_song_index(), 0);
}

#[test]
fn skip_goes_to_the_entry_of_what_is_up_next() {
    let mut queue = Queue::new(1, 6, PlaybackMode::Sequential);
    let up_next = queue.current_queue().to_vec();
    queue.set_index_from_queue(3);
    assert_eq!(queue.get_next_song_index(), up_next[3]);
    assert_eq!(queue.cursor(), 4);
    queue.set_index_from_queue(usize::MAX);
    assert_eq!(queue.cursor(), (4 + usize::MAX % 6) % 6);
}

#[test]
fn sub_index_and_wrapped_index_take_any_amount() {
    let mut queue = Queue::new(1, 4, PlaybackMode::Sequential);
    queue.sub_index(6);
    assert_eq!(queue.cursor(), 3);
    assert_eq!(queue.get_wrapped_index(3, 1), 0);
    assert_eq!(queue.get_wrapped_index(2, 9), 3);
    queue.reset_queue();
    assert_eq!(queue.cursor(), 0);
}

#[test]
fn a_clone_is_a_queue_of_its_own() {
    let mut queue = Queue::new(1, 4, PlaybackMode::Sequential);
    let copy = queue.clone();
    queue.next();
    assert_eq!(copy.cursor(), 1);
    assert_eq!(queue.cursor(), 2);
    assert_eq!(copy.current_queue(), &[1, 2, 3]);
}

#[test]
fn playback_mode_names_and_default() {
    assert_eq!(PlaybackMode::default(), PlaybackMode::Sequential);
    assert_eq!(PlaybackMode::Sequential.to_string(), "Sequential");
    assert_eq!(PlaybackMode::Shuffle.to_string(), "Shuffle");
}

#[test]
fn shuffles_differ_from_one_another() {
    let first = Queue::new(0, 10, PlaybackMode::Shuffle).current_queue().to_vec();
    let mut differs = false;
    for _ in 0..50 {
        let other = Queue::new(0, 10, PlaybackMode::Shuffle).current_queue().to_vec();
        assert_eq!(other[0], 0);
        if other != first {
            differs = true;
        }
    }
    assert!(differs);
}

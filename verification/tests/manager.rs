use napoleon_amp_core::id_generator::Id;
use napoleon_amp_core::manager::{
    CommandEffect, DecodeOutcome, DevicePoll, MusicCommand, MusicManager, Notification,
    PlaybackPhase, SinkAction, SongStatus, SwitchSongMusicCommand,
};
use napoleon_amp_core::playlist_data::PlaybackMode;
use napoleon_amp_core::song_ref::SongRef;

fn song(n: u8) -> SongRef {
    SongRef { id: Id { header: 0, increment: n, time: 7, data: [n; 12] }, object: n as u64 }
}

fn songs(count: u8) -> Vec<SongRef> {
    (0..count).map(song).collect()
}

/// Plays what the sink asks for next, as the loop does when the sink is
/// empty and the song decodes.
fn play_next(manager: &mut MusicManager, list: &Vec<SongRef>) -> SongRef {
    let index = manager.sink_empty(list.len()).expect("a song to decode");
    let notification =
        manager.song_attempted(list[index], DecodeOutcome::Decoded { total_duration: Some(1000) });
    assert_eq!(notification, Some(Notification::SongChanged));
    manager.get_song_status().song
}

#[test]
fn no_session_over_an_empty_list() {
    assert!(MusicManager::try_create(&Vec::new(), 0, 0x3F80_0000, PlaybackMode::Sequential)
        .is_none());
    assert!(MusicManager::try_create(&Vec::new(), 0, 0x3F80_0000, PlaybackMode::Shuffle).is_none());
    assert!(MusicManager::try_create(&songs(3), 3, 0x3F80_0000, PlaybackMode::Sequential).is_none());
}

#[test]
fn a_new_session_is_starting() {
    let list = songs(3);
    let manager =
        MusicManager::try_create(&list, 1, 0x3F00_0000, PlaybackMode::Sequential).expect("session");
    assert_eq!(manager.phase(), PlaybackPhase::Starting);
    assert!(manager.is_playing());
    assert_eq!(manager.volume(), 0x3F00_0000);
    assert_eq!(manager.queue().cursor(), 1);
    assert_eq!(manager.queue().current_queue(), &[1, 2]);
    let status = manager.get_song_status();
    assert!(status.song().is_same_object(&list[0]));
    assert_eq!(status.total_duration(), None);
    assert_eq!(manager.finish(), Some(Notification::StopMusic));
}

#[test]
fn end_to_end_three_songs_in_sequence() {
    let list = songs(3);
    let mut manager =
        MusicManager::try_create(&list, 0, 0x3F80_0000, PlaybackMode::Sequential).expect("session");

    assert!(!manager.begin_tick());
    let playing = play_next(&mut manager, &list);
    assert!(playing.is_same_object(&list[0]));
    assert_eq!(manager.phase(), PlaybackPhase::Playing);
    assert_eq!(manager.get_song_status().total_duration, Some(1000));

    let next = MusicCommand::SwitchSong(SwitchSongMusicCommand::Next);
    let cleared = CommandEffect {
        sink_action: SinkAction::Clear,
        notification: None,
        terminated: false,
    };

    assert_eq!(manager.handle_command(next, 1000), cleared);
    assert!(play_next(&mut manager, &list).is_same_object(&list[1]));
    assert_eq!(manager.handle_command(next, 1000), cleared);
    assert!(play_next(&mut manager, &list).is_same_object(&list[2]));
    assert_eq!(manager.handle_command(next, 1000), cleared);
    assert!(play_next(&mut manager, &list).is_same_object(&list[0]));

    // More than three seconds into the song, going back plays it again.
    let previous = MusicCommand::SwitchSong(SwitchSongMusicCommand::Previous);
    assert_eq!(manager.handle_command(previous, 3500), cleared);
    assert!(play_next(&mut manager, &list).is_same_object(&list[0]));
    assert_eq!(manager.handle_command(previous, 3001), cleared);
    assert!(play_next(&mut manager, &list).is_same_object(&list[0]));

    // Within three seconds, going back plays the song before it.
    assert_eq!(manager.handle_command(previous, 3000), cleared);
    assert!(play_next(&mut manager, &list).is_same_object(&list[2]));
    assert_eq!(manager.handle_command(previous, 0), cleared);
    assert!(play_next(&mut manager, &list).is_same_object(&list[1]));
}

#[test]
fn play_and_pause_change_the_phase_and_tell() {
    let list = songs(2);
    let mut manager =
        MusicManager::try_create(&list, 0, 0x3F80_0000, PlaybackMode::Sequential).expect("session");
    play_next(&mut manager, &list);

    assert_eq!(manager.toggle_playback(), MusicCommand::Pause);
    let effect = manager.handle_command(MusicCommand::Pause, 0);
    assert_eq!(
        effect,
        CommandEffect {
            sink_action: SinkAction::Pause,
            notification: Some(Notification::StopMusic),
            terminated: false,
        }
    );
    assert_eq!(manager.phase(), PlaybackPhase::Paused);
    assert!(!manager.is_playing());

    // Going to another song leaves the session paused.
    manager.handle_command(MusicCommand::SwitchSong(SwitchSongMusicCommand::Next), 0);
    assert_eq!(manager.phase(), PlaybackPhase::Paused);
    play_next(&mut manager, &list);
    assert_eq!(manager.phase(), PlaybackPhase::Paused);

    assert_eq!(manager.toggle_playback(), MusicCommand::Play);
    let effect = manager.handle_command(MusicCommand::Play, 0);
    assert_eq!(
        effect,
        CommandEffect {
            sink_action: SinkAction::Play,
            notification: Some(Notification::Resume),
            terminated: false,
        }
    );
    assert_eq!(manager.phase(), PlaybackPhase::Playing);
}

#[test]
fn set_volume_goes_to_the_sink() {
    let list = songs(2);
    let mut manager =
        MusicManager::try_create(&list, 0, 0x3F80_0000, PlaybackMode::Sequential).expect("session");
    let effect = manager.handle_command(MusicCommand::SetVolume(0x3E80_0000), 0);
    assert_eq!(effect.sink_action, SinkAction::SetVolume(0x3E80_0000));
    assert_eq!(effect.notification, None);
    assert!(!effect.terminated);
    assert_eq!(manager.volume(), 0x3E80_0000);
    assert_eq!(manager.phase(), PlaybackPhase::Starting);
}

#[test]
fn stop_is_final() {
    let list = songs(3);
    let mut manager =
        MusicManager::try_create(&list, 0, 0x3F80_0000, PlaybackMode::Sequential).expect("session");
    play_next(&mut manager, &list);
    let effect = manager.handle_command(MusicCommand::Stop { send_stop_action: false }, 9000);
    assert_eq!(
        effect,
        CommandEffect { sink_action: SinkAction::Stop, notification: None, terminated: true }
    );
    assert_eq!(manager.phase(), PlaybackPhase::Stopped);
    assert_eq!(manager.finish(), None);

    let cursor = manager.queue().cursor();
    let status_song = manager.get_song_status().song;
    let nothing = CommandEffect {
        sink_action: SinkAction::Nothing,
        notification: None,
        terminated: true,
    };
    assert_eq!(manager.handle_command(MusicCommand::Play, 0), nothing);
    assert_eq!(
        manager.handle_command(MusicCommand::SwitchSong(SwitchSongMusicCommand::Previous), 0),
        nothing
    );
    assert_eq!(manager.handle_command(MusicCommand::Stop { send_stop_action: true }, 0), nothing);
    assert_eq!(manager.sink_empty(3), None);
    assert_eq!(
        manager.song_attempted(list[1], DecodeOutcome::Decoded { total_duration: None }),
        None
    );
    assert_eq!(manager.phase(), PlaybackPhase::Stopped);
    assert_eq!(manager.queue().cursor(), cursor);
    assert!(manager.get_song_status().song.is_same_object(&status_song));
    assert_eq!(manager.finish(), None);
    assert_eq!(manager.device_polled(Some(&"a".to_string()), None), DevicePoll::Unchanged);
}

#[test]
fn a_song_that_does_not_decode_is_passed_over() {
    let list = songs(3);
    let mut manager =
        MusicManager::try_create(&list, 0, 0x3F80_0000, PlaybackMode::Sequential).expect("session");
    let index = manager.sink_empty(list.len()).expect("song");
    assert_eq!(index, 0);
    assert_eq!(manager.song_attempted(list[index], DecodeOutcome::Failed), None);
    assert_eq!(manager.phase(), PlaybackPhase::Starting);
    assert!(manager.get_song_status().song.is_same_object(&list[0]));
    assert_eq!(manager.get_song_status().total_duration, None);
    assert_eq!(manager.sink_empty(list.len()), Some(1));
}

#[test]
fn a_shrunken_list_sends_the_queue_to_its_front() {
    let list = songs(4);
    let mut manager =
        MusicManager::try_create(&list, 3, 0x3F80_0000, PlaybackMode::Sequential).expect("session");
    assert_eq!(manager.sink_empty(2), None);
    assert_eq!(manager.queue().cursor(), 0);
    assert_eq!(manager.sink_empty(2), Some(0));
}

#[test]
fn skip_to_queue_index_picks_from_what_is_up_next() {
    let list = songs(5);
    let mut manager =
        MusicManager::try_create(&list, 0, 0x3F80_0000, PlaybackMode::Sequential).expect("session");
    play_next(&mut manager, &list);
    let up_next = manager.queue().current_queue().to_vec();
    assert_eq!(up_next, vec![1, 2, 3, 4]);
    manager.handle_command(
        MusicCommand::SwitchSong(SwitchSongMusicCommand::SkipToQueueIndex(2)),
        0,
    );
    assert!(play_next(&mut manager, &list).is_same_object(&list[3]));
}

#[test]
fn a_changed_device_is_rebuilt_in_the_next_round() {
    let list = songs(2);
    let mut manager =
        MusicManager::try_create(&list, 0, 0x3F80_0000, PlaybackMode::Sequential).expect("session");
    let speakers = "speakers".to_string();
    let headset = "headset".to_string();

    assert_eq!(manager.device_polled(Some(&speakers), Some(&speakers)), DevicePoll::Unchanged);
    assert!(!manager.begin_tick());
    assert_eq!(manager.device_polled(None, Some(&speakers)), DevicePoll::Unchanged);
    assert!(!manager.begin_tick());
    assert_eq!(manager.device_polled(Some(&headset), Some(&speakers)), DevicePoll::Changed);
    assert_eq!(manager.phase(), PlaybackPhase::Starting);
    assert!(manager.begin_tick());
    assert!(!manager.begin_tick());
    assert_eq!(manager.device_polled(Some(&headset), None), DevicePoll::ChangedAtOnce);
    assert!(manager.begin_tick());

    manager.handle_command(MusicCommand::Pause, 0);
    assert_eq!(manager.device_polled(Some(&headset), Some(&speakers)), DevicePoll::Unchanged);
    assert!(!manager.begin_tick());
}

#[test]
fn shuffle_session_starts_with_the_chosen_song() {
    let list = songs(9);
    for start in 0..9usize {
        let mut manager = MusicManager::try_create(&list, start, 0, PlaybackMode::Shuffle)
            .expect("session");
        assert_eq!(manager.queue().cursor(), 0);
        assert!(manager.get_song_status().song.is_same_object(&list[start]));
        let mut played = Vec::new();
        for _ in 0..9 {
            played.push(play_next(&mut manager, &list).object);
        }
        assert_eq!(played[0], start as u64);
        played.sort();
        assert_eq!(played, (0..9u64).collect::<Vec<u64>>());
    }
}

#[test]
fn song_status_hands_out_its_parts() {
    let status = SongStatus { song: song(4), total_duration: Some(250) };
    assert!(status.song().is_same_object(&song(4)));
    assert_eq!(status.total_duration(), Some(250));
}

#[test]
fn the_session_names_the_commands_to_send() {
    let list = songs(2);
    let manager =
        MusicManager::try_create(&list, 0, 0x3F80_0000, PlaybackMode::Sequential).expect("session");
    assert_eq!(manager.play(), MusicCommand::Play);
    assert_eq!(manager.pause(), MusicCommand::Pause);
    assert_eq!(manager.next(), MusicCommand::SwitchSong(SwitchSongMusicCommand::Next));
    assert_eq!(manager.previous(), MusicCommand::SwitchSong(SwitchSongMusicCommand::Previous));
    assert_eq!(
        manager.set_queue_index(4),
        MusicCommand::SwitchSong(SwitchSongMusicCommand::SkipToQueueIndex(4))
    );
    assert_eq!(manager.set_volume(7), MusicCommand::SetVolume(7));
    assert_eq!(
        manager.send_stop_command(false),
        MusicCommand::Stop { send_stop_action: false }
    );
}

#[test]
fn going_back_restarts_above_three_seconds_and_keeps_the_flag() {
    let list = songs(4);
    for (elapsed_millis, restarts) in
        [(0u64, false), (2999, false), (3000, false), (3001, true), (3500, true), (60_000, true)]
    {
        let mut manager = MusicManager::try_create(&list, 1, 0, PlaybackMode::Sequential)
            .expect("session");
        let playing = play_next(&mut manager, &list);
        assert!(playing.is_same_object(&list[1]));
        manager.handle_command(MusicCommand::Pause, elapsed_millis);
        manager.handle_command(
            MusicCommand::SwitchSong(SwitchSongMusicCommand::Previous),
            elapsed_millis,
        );
        assert_eq!(manager.phase(), PlaybackPhase::Paused);
        let expected = if restarts { 1 } else { 0 };
        assert_eq!(manager.queue().get_next_song_index(), expected);
        assert!(play_next(&mut manager, &list).is_same_object(&list[expected]));
        assert_eq!(manager.phase(), PlaybackPhase::Paused);
    }
}

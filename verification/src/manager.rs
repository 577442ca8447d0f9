//! One session of play: the decisions of the loop that feeds the audio
//! device.
//!
//! The loop itself runs outside this crate. It hands each thing that
//! happens to the session (a command, an empty sink, a decoded song, the
//! name of the output device) and does what the session answers.

use crate::playlist_data::PlaybackMode;
use crate::queue::{lemma_at_wf, lemma_replay_and_step_back, spec_wrap, Queue, QueueView};
use crate::song_ref::SongRef;
use vstd::prelude::*;

verus! {

/// After this many milliseconds of a song, going back starts the song
/// again in place of going to the song before it.
pub const RESTART_THRESHOLD_MILLIS: u64 = 3000;

/// The time between two rounds of the loop, in milliseconds.
pub const TICK_MILLIS: u64 = 100;

/// The ways to go to another song.
#[derive(Copy, Clone, Debug, PartialEq, Eq, Structural)]
pub enum SwitchSongMusicCommand {
    Previous,
    Next,
    SkipToQueueIndex(usize),
}

/// What the loop can be told to do. A volume travels in the bits of its
/// `f32`.
#[derive(Copy, Clone, Debug, PartialEq, Eq, Structural)]
pub enum MusicCommand {
    Play,
    Pause,
    Stop { send_stop_action: bool },
    SwitchSong(SwitchSongMusicCommand),
    SetVolume(u32),
}

/// The song that plays and its length in milliseconds, where the decoder
/// told it.
#[derive(Copy, Clone, Debug)]
pub struct SongStatus {
    pub song: SongRef,
    pub total_duration: Option<u64>,
}

impl SongStatus {
    pub fn song(&self) -> (song: &SongRef)
        ensures
            *song == self.song,
    {
        &self.song
    }

    pub fn total_duration(&self) -> (total_duration: Option<u64>)
        ensures
            total_duration == self.total_duration,
    {
        self.total_duration
    }
}

/// Where a session stands. `Stopped` is final.
#[derive(Copy, Clone, Debug, PartialEq, Eq, Structural)]
pub enum PlaybackPhase {
    Starting,
    Playing,
    Paused,
    Stopped,
}

/// What the loop does to the sink in answer to a command.
#[derive(Copy, Clone, Debug, PartialEq, Eq, Structural)]
pub enum SinkAction {
    Nothing,
    Play,
    Pause,
    Stop,
    Clear,
    SetVolume(u32),
}

/// What the loop tells whoever shows what is playing.
#[derive(Copy, Clone, Debug, PartialEq, Eq, Structural)]
pub enum Notification {
    SongChanged,
    StopMusic,
    Resume,
}

/// The answer to a command: what to do to the sink, what to tell, and
/// whether the loop ends.
#[derive(Copy, Clone, Debug, PartialEq, Eq, Structural)]
pub struct CommandEffect {
    pub sink_action: SinkAction,
    pub notification: Option<Notification>,
    pub terminated: bool,
}

/// How the attempt to decode a song ended: with its length in milliseconds
/// where the decoder knows it, or without a song to play.
#[derive(Copy, Clone, Debug, PartialEq, Eq, Structural)]
pub enum DecodeOutcome {
    Decoded { total_duration: Option<u64> },
    Failed,
}

/// What a look at the output device asks for.
#[derive(Copy, Clone, Debug, PartialEq, Eq, Structural)]
pub enum DevicePoll {
    /// The device is the one in use, or none is there.
    Unchanged,
    /// Another device is there: the sink is built anew in the next round.
    Changed,
    /// A device is there and none was in use: the next round starts at
    /// once, without the wait between rounds.
    ChangedAtOnce,
}

/// A session, as plain values.
pub struct MusicManagerView {
    pub queue: QueueView,
    pub song_status: SongStatus,
    pub phase: PlaybackPhase,
    pub change_audio_device: bool,
    pub should_send_stop_action: bool,
    pub volume: u32,
}

/// The phase after a command.
pub open spec fn spec_phase_after(phase: PlaybackPhase, command: MusicCommand) -> PlaybackPhase {
    if phase == PlaybackPhase::Stopped {
        PlaybackPhase::Stopped
    } else {
        match command {
            MusicCommand::Play => PlaybackPhase::Playing,
            MusicCommand::Pause => PlaybackPhase::Paused,
            MusicCommand::Stop { .. } => PlaybackPhase::Stopped,
            MusicCommand::SwitchSong(_) => phase,
            MusicCommand::SetVolume(_) => phase,
        }
    }
}

/// The queue after a command, `elapsed_millis` milliseconds into the song.
///
/// Going back starts the song again where more than three seconds of it
/// have played, and goes to the song before it otherwise. Going on leaves
/// the cursor, which stands on the next song already.
pub open spec fn spec_queue_after(
    queue: QueueView,
    command: MusicCommand,
    elapsed_millis: u64,
) -> QueueView {
    match command {
        MusicCommand::SwitchSong(SwitchSongMusicCommand::Previous) => if elapsed_millis
            > RESTART_THRESHOLD_MILLIS {
            queue.restart_song()
        } else {
            queue.previous()
        },
        MusicCommand::SwitchSong(SwitchSongMusicCommand::Next) => queue,
        MusicCommand::SwitchSong(SwitchSongMusicCommand::SkipToQueueIndex(index)) => queue.skip(
            index as int,
        ),
        _ => queue,
    }
}

/// What the loop does in answer to a command.
pub open spec fn spec_effect_of(command: MusicCommand) -> CommandEffect {
    match command {
        MusicCommand::Play => CommandEffect {
            sink_action: SinkAction::Play,
            notification: Some(Notification::Resume),
            terminated: false,
        },
        MusicCommand::Pause => CommandEffect {
            sink_action: SinkAction::Pause,
            notification: Some(Notification::StopMusic),
            terminated: false,
        },
        MusicCommand::Stop { .. } => CommandEffect {
            sink_action: SinkAction::Stop,
            notification: None,
            terminated: true,
        },
        MusicCommand::SwitchSong(_) => CommandEffect {
            sink_action: SinkAction::Clear,
            notification: None,
            terminated: false,
        },
        MusicCommand::SetVolume(volume) => CommandEffect {
            sink_action: SinkAction::SetVolume(volume),
            notification: None,
            terminated: false,
        },
    }
}

/// The answer of a session that has stopped: nothing is done.
pub open spec fn spec_no_effect() -> CommandEffect {
    CommandEffect { sink_action: SinkAction::Nothing, notification: None, terminated: true }
}

impl MusicManagerView {
    pub open spec fn wf(self) -> bool {
        self.queue.wf()
    }

    /// The session has not stopped and is not paused.
    pub open spec fn is_playing(self) -> bool {
        self.phase == PlaybackPhase::Starting || self.phase == PlaybackPhase::Playing
    }

    /// The session after a command.
    pub open spec fn after_command(self, command: MusicCommand, elapsed_millis: u64) -> Self {
        if self.phase == PlaybackPhase::Stopped {
            self
        } else {
            MusicManagerView {
                queue: spec_queue_after(self.queue, command, elapsed_millis),
                phase: spec_phase_after(self.phase, command),
                should_send_stop_action: match command {
                    MusicCommand::Stop { send_stop_action } => send_stop_action,
                    _ => self.should_send_stop_action,
                },
                volume: match command {
                    MusicCommand::SetVolume(volume) => volume,
                    _ => self.volume,
                },
                ..self
            }
        }
    }

    /// What the loop does in answer to a command.
    pub open spec fn effect_of(self, command: MusicCommand) -> CommandEffect {
        if self.phase == PlaybackPhase::Stopped {
            spec_no_effect()
        } else {
            spec_effect_of(command)
        }
    }

    /// The session after the sink ran empty over a list of `song_count`
    /// songs: where the next song is no song of the list, the queue starts
    /// again at its front.
    pub open spec fn after_sink_empty(self, song_count: usize) -> Self {
        if self.phase != PlaybackPhase::Stopped && self.queue.next_song() >= song_count {
            MusicManagerView { queue: self.queue.reset(), ..self }
        } else {
            self
        }
    }

    /// The song to decode after the sink ran empty, where there is one.
    pub open spec fn song_to_decode(self, song_count: usize) -> Option<usize> {
        if self.phase != PlaybackPhase::Stopped && self.queue.next_song() < song_count {
            Some(self.queue.next_song())
        } else {
            None
        }
    }

    /// The session after the attempt to decode `song`: the queue goes one
    /// step on either way; a decoded song becomes the song that plays, and a
    /// session that was starting is playing.
    pub open spec fn after_song_attempt(self, song: SongRef, outcome: DecodeOutcome) -> Self {
        if self.phase == PlaybackPhase::Stopped {
            self
        } else {
            match outcome {
                DecodeOutcome::Decoded { total_duration } => MusicManagerView {
                    queue: self.queue.next(),
                    song_status: SongStatus { song, total_duration },
                    phase: if self.phase == PlaybackPhase::Starting {
                        PlaybackPhase::Playing
                    } else {
                        self.phase
                    },
                    ..self
                },
                DecodeOutcome::Failed => MusicManagerView { queue: self.queue.next(), ..self },
            }
        }
    }

    /// What a look at the output device asks for: `polled` is the name of
    /// the device that is there now, `in_use` that of the device of the
    /// sink.
    pub open spec fn poll_of(self, polled: Option<Seq<char>>, in_use: Option<Seq<char>>) -> DevicePoll {
        if !self.is_playing() {
            DevicePoll::Unchanged
        } else {
            match polled {
                None => DevicePoll::Unchanged,
                Some(polled) => match in_use {
                    None => DevicePoll::ChangedAtOnce,
                    Some(in_use) => if polled != in_use {
                        DevicePoll::Changed
                    } else {
                        DevicePoll::Unchanged
                    },
                },
            }
        }
    }
}

/// One session of play.
pub struct MusicManager {
    queue: Queue,
    song_status: SongStatus,
    phase: PlaybackPhase,
    change_audio_device: bool,
    should_send_stop_action: bool,
    volume: u32,
}

impl View for MusicManager {
    type V = MusicManagerView;

    closed spec fn view(&self) -> MusicManagerView {
        MusicManagerView {
            queue: self.queue@,
            song_status: self.song_status,
            phase: self.phase,
            change_audio_device: self.change_audio_device,
            should_send_stop_action: self.should_send_stop_action,
            volume: self.volume,
        }
    }
}

/// The names as plain values.
pub open spec fn spec_name(name: Option<&String>) -> Option<Seq<char>> {
    match name {
        Some(name) => Some(name@),
        None => None,
    }
}

impl MusicManager {
    /// A session over `songs` that starts with the song `start_index`, or
    /// `None` where there is no such song: where the list is empty or
    /// `start_index` lies behind its end.
    ///
    /// The session is starting; the first song of its queue counts as the
    /// song that plays until one was decoded.
    pub fn try_create(
        songs: &Vec<SongRef>,
        start_index: usize,
        volume: u32,
        playback_mode: PlaybackMode,
    ) -> (manager: Option<Self>)
        ensures
            manager is Some <==> start_index < songs@.len(),
            manager matches Some(manager) ==> {
                &&& manager@.wf()
                &&& manager@.queue.indexes.len() == songs@.len()
                &&& manager@.queue.next_song() == start_index
                &&& playback_mode == PlaybackMode::Sequential ==> manager@.queue.cursor
                    == start_index && manager@.queue.indexes == crate::queue::spec_identity(
                    songs@.len(),
                )
                &&& playback_mode == PlaybackMode::Shuffle ==> manager@.queue.cursor == 0
                &&& manager@.song_status == (SongStatus {
                    song: songs@[manager@.queue.indexes[0] as int],
                    total_duration: None,
                })
                &&& manager@.phase == PlaybackPhase::Starting
                &&& !manager@.change_audio_device
                &&& manager@.should_send_stop_action
                &&& manager@.volume == volume
            },
    {
        if start_index >= songs.len() {
            return None;
        }
        let queue = Queue::new(start_index, songs.len(), playback_mode);
        let first = queue.first_entry();
        let song_status = SongStatus { song: songs[first], total_duration: None };
        Some(
            MusicManager {
                queue,
                song_status,
                phase: PlaybackPhase::Starting,
                change_audio_device: false,
                should_send_stop_action: true,
                volume,
            },
        )
    }

    /// The queue of the session.
    pub fn queue(&self) -> (queue: &Queue)
        ensures
            queue@ == self@.queue,
            self@.wf(),
    {
        let queue = &self.queue;
        let _ = queue.len();
        queue
    }

    pub fn get_song_status(&self) -> (status: SongStatus)
        ensures
            status == self@.song_status,
    {
        self.song_status
    }

    /// Where the session stands.
    pub fn phase(&self) -> (phase: PlaybackPhase)
        ensures
            phase == self@.phase,
    {
        self.phase
    }

    /// The volume last set, in the bits of its `f32`.
    pub fn volume(&self) -> (volume: u32)
        ensures
            volume == self@.volume,
    {
        self.volume
    }

    pub fn is_playing(&self) -> (playing: bool)
        ensures
            playing == self@.is_playing(),
    {
        match self.phase {
            PlaybackPhase::Starting => true,
            PlaybackPhase::Playing => true,
            PlaybackPhase::Paused => false,
            PlaybackPhase::Stopped => false,
        }
    }

    /// The command that `toggle_playback` sends: a pause while the session
    /// plays, and play otherwise.
    pub fn toggle_playback(&self) -> (command: MusicCommand)
        ensures
            command == (if self@.is_playing() {
                MusicCommand::Pause
            } else {
                MusicCommand::Play
            }),
    {
        if self.is_playing() {
            MusicCommand::Pause
        } else {
            MusicCommand::Play
        }
    }

    /// The command that asks the session to play.
    pub fn play(&self) -> (command: MusicCommand)
        ensures
            command == MusicCommand::Play,
    {
        MusicCommand::Play
    }

    /// The command that asks the session to pause.
    pub fn pause(&self) -> (command: MusicCommand)
        ensures
            command == MusicCommand::Pause,
    {
        MusicCommand::Pause
    }

    /// The command that asks the session to go back.
    pub fn previous(&self) -> (command: MusicCommand)
        ensures
            command == MusicCommand::SwitchSong(SwitchSongMusicCommand::Previous),
    {
        MusicCommand::SwitchSong(SwitchSongMusicCommand::Previous)
    }

    /// The command that asks the session to go on.
    pub fn next(&self) -> (command: MusicCommand)
        ensures
            command == MusicCommand::SwitchSong(SwitchSongMusicCommand::Next),
    {
        MusicCommand::SwitchSong(SwitchSongMusicCommand::Next)
    }

    /// The command that asks the session to go to the entry at `index` of
    /// what is up next.
    pub fn set_queue_index(&self, index: usize) -> (command: MusicCommand)
        ensures
            command == MusicCommand::SwitchSong(SwitchSongMusicCommand::SkipToQueueIndex(index)),
    {
        MusicCommand::SwitchSong(SwitchSongMusicCommand::SkipToQueueIndex(index))
    }

    /// The command that sets the volume, given in the bits of its `f32`.
    pub fn set_volume(&self, volume: u32) -> (command: MusicCommand)
        ensures
            command == MusicCommand::SetVolume(volume),
    {
        MusicCommand::SetVolume(volume)
    }

    /// The command that ends the session; `send_stop_action` says whether
    /// the end is to be told.
    pub fn send_stop_command(&self, send_stop_action: bool) -> (command: MusicCommand)
        ensures
            command == (MusicCommand::Stop { send_stop_action }),
    {
        MusicCommand::Stop { send_stop_action }
    }

    /// Starts a round of the loop: whether the sink must be built anew on
    /// the device that is there now, because the round before saw another
    /// device. The song that plays is then decoded again and sought to where
    /// it was.
    pub fn begin_tick(&mut self) -> (rebuild_sink: bool)
        ensures
            rebuild_sink == old(self)@.change_audio_device,
            final(self)@ == (MusicManagerView { change_audio_device: false, ..old(self)@ }),
    {
        let rebuild_sink = self.change_audio_device;
        self.change_audio_device = false;
        rebuild_sink
    }

    /// Takes a command, `elapsed_millis` milliseconds into the song that
    /// plays. A session that has stopped takes no command.
    pub fn handle_command(&mut self, command: MusicCommand, elapsed_millis: u64) -> (effect:
        CommandEffect)
        ensures
            final(self)@ == old(self)@.after_command(command, elapsed_millis),
            effect == old(self)@.effect_of(command),
            final(self)@.wf(),
    {
        let _ = self.queue.len();
        if self.phase == PlaybackPhase::Stopped {
            return CommandEffect {
                sink_action: SinkAction::Nothing,
                notification: None,
                terminated: true,
            };
        }
        match command {
            MusicCommand::Stop { send_stop_action } => {
                self.should_send_stop_action = send_stop_action;
                self.phase = PlaybackPhase::Stopped;
                CommandEffect {
                    sink_action: SinkAction::Stop,
                    notification: None,
                    terminated: true,
                }
            },
            MusicCommand::Pause => {
                self.phase = PlaybackPhase::Paused;
                CommandEffect {
                    sink_action: SinkAction::Pause,
                    notification: Some(Notification::StopMusic),
                    terminated: false,
                }
            },
            MusicCommand::Play => {
                self.phase = PlaybackPhase::Playing;
                CommandEffect {
                    sink_action: SinkAction::Play,
                    notification: Some(Notification::Resume),
                    terminated: false,
                }
            },
            MusicCommand::SwitchSong(switch_song_command) => {
                match switch_song_command {
                    SwitchSongMusicCommand::Previous => {
                        if elapsed_millis > RESTART_THRESHOLD_MILLIS {
                            self.queue.restart_song();
                        } else {
                            self.queue.previous();
                        }
                    },
                    SwitchSongMusicCommand::Next => {},
                    SwitchSongMusicCommand::SkipToQueueIndex(index) => {
                        self.queue.set_index_from_queue(index);
                    },
                }
                CommandEffect {
                    sink_action: SinkAction::Clear,
                    notification: None,
                    terminated: false,
                }
            },
            MusicCommand::SetVolume(volume) => {
                self.volume = volume;
                CommandEffect {
                    sink_action: SinkAction::SetVolume(volume),
                    notification: None,
                    terminated: false,
                }
            },
        }
    }

    /// The sink ran empty over a list of `song_count` songs: the song to
    /// decode, or `None` where the next song of the queue is no song of the
    /// list any more. The queue then starts again at its front, and the next
    /// round tries again.
    pub fn sink_empty(&mut self, song_count: usize) -> (song_index: Option<usize>)
        ensures
            final(self)@ == old(self)@.after_sink_empty(song_count),
            song_index == old(self)@.song_to_decode(song_count),
            final(self)@.wf(),
    {
        let _ = self.queue.len();
        if self.phase == PlaybackPhase::Stopped {
            return None;
        }
        let song_index = self.queue.get_next_song_index();
        if song_index < song_count {
            Some(song_index)
        } else {
            self.queue.reset_queue();
            None
        }
    }

    /// The attempt to decode `song` has ended. What is to be told: that the
    /// song changed, where it was decoded.
    pub fn song_attempted(&mut self, song: SongRef, outcome: DecodeOutcome) -> (notification:
        Option<Notification>)
        ensures
            final(self)@ == old(self)@.after_song_attempt(song, outcome),
            notification == (if old(self)@.phase != PlaybackPhase::Stopped && outcome
                != DecodeOutcome::Failed {
                Some(Notification::SongChanged)
            } else {
                None
            }),
            final(self)@.wf(),
    {
        let _ = self.queue.len();
        if self.phase == PlaybackPhase::Stopped {
            return None;
        }
        self.queue.next();
        match outcome {
            DecodeOutcome::Decoded { total_duration } => {
                self.song_status = SongStatus { song, total_duration };
                if self.phase == PlaybackPhase::Starting {
                    self.phase = PlaybackPhase::Playing;
                }
                Some(Notification::SongChanged)
            },
            DecodeOutcome::Failed => None,
        }
    }

    /// A look at the output device: `polled` is the name of the device that
    /// is there now, `in_use` that of the device of the sink. A session that
    /// does not play does not look.
    pub fn device_polled(&mut self, polled: Option<&String>, in_use: Option<&String>) -> (poll:
        DevicePoll)
        ensures
            poll == old(self)@.poll_of(spec_name(polled), spec_name(in_use)),
            final(self)@ == (MusicManagerView {
                change_audio_device: old(self)@.change_audio_device || poll
                    != DevicePoll::Unchanged,
                ..old(self)@
            }),
    {
        if !self.is_playing() {
            return DevicePoll::Unchanged;
        }
        match polled {
            None => DevicePoll::Unchanged,
            Some(polled) => match in_use {
                None => {
                    self.change_audio_device = true;
                    DevicePoll::ChangedAtOnce
                },
                Some(in_use) => {
                    if *polled == *in_use {
                        DevicePoll::Unchanged
                    } else {
                        self.change_audio_device = true;
                        DevicePoll::Changed
                    }
                },
            },
        }
    }

    /// The loop has ended: what is to be told at its end.
    pub fn finish(&self) -> (notification: Option<Notification>)
        ensures
            notification == (if self@.should_send_stop_action {
                Some(Notification::StopMusic)
            } else {
                None
            }),
    {
        if self.should_send_stop_action {
            Some(Notification::StopMusic)
        } else {
            None
        }
    }
}

/// A session that has stopped stays as it is, whatever happens, and
/// answers every command with nothing.
pub proof fn lemma_stopped_is_final(
    manager: MusicManagerView,
    command: MusicCommand,
    elapsed_millis: u64,
    song_count: usize,
    song: SongRef,
    outcome: DecodeOutcome,
)
    requires
        manager.phase == PlaybackPhase::Stopped,
    ensures
        manager.after_command(command, elapsed_millis) == manager,
        manager.effect_of(command) == spec_no_effect(),
        manager.after_sink_empty(song_count) == manager,
        manager.song_to_decode(song_count) is None,
        manager.after_song_attempt(song, outcome) == manager,
{
}

/// Only a stop command ends a session, and only play and pause change
/// whether it plays: going to another song and setting the volume leave
/// the phase as it is.
pub proof fn lemma_phase_changes(manager: MusicManagerView, command: MusicCommand, elapsed_millis: u64)
    ensures
        manager.after_command(command, elapsed_millis).phase == PlaybackPhase::Stopped <==> (
        manager.phase == PlaybackPhase::Stopped || command is Stop),
        (command is SwitchSong || command is SetVolume) ==> manager.after_command(
            command,
            elapsed_millis,
        ).phase == manager.phase,
        manager.after_command(command, elapsed_millis).change_audio_device
            == manager.change_audio_device,
        manager.after_command(command, elapsed_millis).song_status == manager.song_status,
{
}

/// Going back more than three seconds into a song plays that song again;
/// going back earlier plays the song before it. Going on plays the song
/// under the cursor.
pub proof fn lemma_previous_rule(manager: MusicManagerView, elapsed_millis: u64)
    requires
        manager.wf(),
        manager.phase != PlaybackPhase::Stopped,
    ensures
        ({
            let back = manager.after_command(
                MusicCommand::SwitchSong(SwitchSongMusicCommand::Previous),
                elapsed_millis,
            );
            &&& back.wf()
            &&& elapsed_millis > RESTART_THRESHOLD_MILLIS ==> back.queue.next_song()
                == manager.queue.current_song()
            &&& elapsed_millis <= RESTART_THRESHOLD_MILLIS ==> back.queue.next_song()
                == manager.queue.indexes[spec_wrap(manager.queue.cursor - 2, manager.queue.len())]
        }),
        manager.after_command(
            MusicCommand::SwitchSong(SwitchSongMusicCommand::Next),
            elapsed_millis,
        ).queue == manager.queue,
{
    lemma_replay_and_step_back(manager.queue);
    lemma_at_wf(manager.queue, manager.queue.cursor - 1);
    lemma_at_wf(manager.queue, manager.queue.cursor - 2);
}

/// A decoded song becomes the song that plays, and the queue goes one step
/// on whether or not the song was decoded: a song that cannot be decoded is
/// passed over.
pub proof fn lemma_song_attempt(manager: MusicManagerView, song: SongRef, outcome: DecodeOutcome)
    requires
        manager.wf(),
        manager.phase != PlaybackPhase::Stopped,
    ensures
        manager.after_song_attempt(song, outcome).queue == manager.queue.next(),
        manager.after_song_attempt(song, outcome).wf(),
        outcome matches DecodeOutcome::Decoded { total_duration } ==> manager.after_song_attempt(
            song,
            outcome,
        ).song_status == (SongStatus { song, total_duration }),
        outcome is Failed ==> manager.after_song_attempt(song, outcome).song_status
            == manager.song_status,
        manager.after_song_attempt(song, outcome).is_playing() == manager.is_playing(),
{
    lemma_at_wf(manager.queue, manager.queue.cursor + 1);
}

} // verus!

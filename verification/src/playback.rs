//! Playback of a module: one synth per track, and the scheduler that turns
//! elapsed time into ticks and dispatches the events that fall due.
//!
//! In the methods that take a `track`, 0 can be used for notes played by
//! hand, since track 0 never sequences notes.

use crate::backend::{Command, Sequencer, SequencerView};
use crate::module::{
    tempo_changed, within, EventData, LocatedEvent, Module, ModuleView, Selection, TrackEdit,
    spec_tempo_changed,
};
use crate::settings::{Settings, SettingsView};
use crate::synth::{
    lemma_changed_keeps_wf, lemma_note_on_keeps_wf, lemma_without_keeps_wf, Change,
    Key, KeyOrigin, Selector, Synth, SynthView,
};
use crate::tempo::{
    elapsed, lemma_clock_keeps_time, lemma_reduced, lemma_scaling_composes, lemma_step_ticks, rate,
    span, Clock, ClockView, Tempo,
};
use vstd::prelude::*;

verus! {

/// Pressure of a note that comes without one, in thousandths.
pub const DEFAULT_PRESSURE: i32 = 667;

/// Time, in nanoseconds, over which a rendering fades out once the module
/// has looped.
pub const LOOP_FADEOUT_TIME: u64 = 10_000_000_000;

/// Greatest pressure that a pattern holds.
pub const MAX_PRESSURE: u8 = 9;

/// Greatest modulation that a pattern holds.
pub const MAX_MODULATION: u8 = 9;

/// The digit `v` out of `max`, in thousandths, rounded; 0 out of 0.
pub open spec fn spec_digit_level(v: u8, max: u8) -> i32 {
    if max == 0 {
        0
    } else {
        ((v * 1000 + max / 2) / (max as int)) as i32
    }
}

#[verifier::when_used_as_spec(spec_digit_level)]
pub fn digit_level(v: u8, max: u8) -> (level: i32)
    ensures
        level == spec_digit_level(v, max),
{
    if max == 0 {
        return 0;
    }
    let level = (v as i32 * 1000 + (max / 2) as i32) / max as i32;
    level
}

/// The key of the note that a channel of a pattern plays.
pub open spec fn spec_pattern_key(channel: usize) -> Key {
    Key { origin: KeyOrigin::Pattern, channel: (channel % 256) as u8, key: 0 }
}

#[verifier::when_used_as_spec(spec_pattern_key)]
pub fn pattern_key(channel: usize) -> (key: Key)
    ensures
        key == spec_pattern_key(channel),
{
    Key { origin: KeyOrigin::Pattern, channel: (channel % 256) as u8, key: 0 }
}

/// The tick `ticks` after `tick`, or the last tick there is.
pub open spec fn tick_after(tick: u32, ticks: int) -> u32 {
    if tick + ticks > u32::MAX {
        u32::MAX
    } else {
        (tick + ticks) as u32
    }
}

/// Handles module playback.
#[derive(Debug)]
pub struct Player {
    pub seq: Sequencer,
    synths: Vec<Synth>,
    playing: bool,
    tick: u32,
    clock: Clock,
    tempo: Tempo,
    looped: bool,
}

pub struct PlayerView {
    pub seq: SequencerView,
    /// One synth per track.
    pub synths: Seq<SynthView>,
    pub playing: bool,
    pub tick: u32,
    pub clock: ClockView,
    pub tempo: Tempo,
    /// Whether playback has gone back to a loop start.
    pub looped: bool,
}

pub open spec fn synths_view(synths: Seq<Synth>) -> Seq<SynthView> {
    Seq::new(synths.len(), |i: int| synths[i]@)
}

impl View for Player {
    type V = PlayerView;

    closed spec fn view(&self) -> PlayerView {
        PlayerView {
            seq: self.seq@,
            synths: synths_view(self.synths@),
            playing: self.playing,
            tick: self.tick,
            clock: self.clock@,
            tempo: self.tempo,
            looped: self.looped,
        }
    }
}

impl PlayerView {
    /// A player at rest with `n` new synths.
    pub open spec fn initial(seq: SequencerView, n: nat) -> PlayerView {
        PlayerView {
            seq,
            synths: Seq::new(n, |i: int| SynthView::initial()),
            playing: false,
            tick: 0,
            clock: ClockView { carry: 0, num: 0 },
            tempo: Tempo::spec_standard(),
            looped: false,
        }
    }

    /// The state with one synth and the sequencer replaced.
    pub open spec fn with_synth(self, track: usize, synth: SynthView, seq: SequencerView) -> PlayerView {
        PlayerView { synths: self.synths.update(track as int, synth), seq, ..self }
    }

    /// The state after a note-on: the synth of the track takes over the
    /// patch and starts the note. Nothing happens if there is no such
    /// track.
    pub open spec fn note_on(
        self,
        track: usize,
        key: Key,
        pitch: i32,
        pressure: Option<i32>,
        patch: SettingsView,
    ) -> PlayerView {
        if track < self.synths.len() {
            let synth = SynthView { settings: patch, ..self.synths[track as int] };
            let pressure = match pressure {
                Some(p) => p,
                None => DEFAULT_PRESSURE,
            };
            self.with_synth(
                track,
                synth.note_on(key, pitch, pressure, self.seq.next_voice),
                self.seq.issued(
                    synth.note_on_commands(key, pitch, pressure, self.seq.next_voice),
                    !synth.reuses_voice(),
                ),
            )
        } else {
            self
        }
    }

    /// The state after the voices of a track that `selector` picks were
    /// released and left the pool.
    pub open spec fn released(self, track: usize, selector: Selector) -> PlayerView {
        if track < self.synths.len() {
            self.with_synth(
                track,
                self.synths[track as int].without(selector),
                self.seq.issued(self.synths[track as int].releases(selector), false),
            )
        } else {
            self
        }
    }

    /// The state after `change` was applied to the voices of a track that
    /// `selector` picks.
    pub open spec fn changed(self, track: usize, selector: Selector, change: Change) -> PlayerView {
        if track < self.synths.len() {
            self.with_synth(
                track,
                self.synths[track as int].changed(selector, change),
                self.seq.issued(self.synths[track as int].changes(selector, change), false),
            )
        } else {
            self
        }
    }

    pub open spec fn pitch_bend(self, track: usize, channel: u8, bend: i32) -> PlayerView {
        if track < self.synths.len() {
            self.with_synth(
                track,
                self.synths[track as int].pitch_bend(channel, bend),
                self.seq.issued(
                    self.synths[track as int].changes(
                        Selector::OnChannel(channel),
                        Change::Bend(bend),
                    ),
                    false,
                ),
            )
        } else {
            self
        }
    }

    pub open spec fn modulate(self, track: usize, channel: u8, depth: i32) -> PlayerView {
        if track < self.synths.len() {
            self.with_synth(
                track,
                self.synths[track as int].modulate(channel, depth),
                self.seq.issued(
                    self.synths[track as int].changes(
                        Selector::OnChannel(channel),
                        Change::Modulation(depth),
                    ),
                    false,
                ),
            )
        } else {
            self
        }
    }

    /// The state after the notes of `origin` were cleared on the first
    /// `upto` tracks.
    pub open spec fn cleared_upto(self, origin: KeyOrigin, upto: int) -> PlayerView
        decreases upto,
    {
        if upto <= 0 {
            self
        } else {
            self.cleared_upto(origin, upto - 1).released(
                (upto - 1) as usize,
                Selector::From(origin),
            )
        }
    }

    /// The state after every note of `origin` was released, track by track.
    pub open spec fn cleared(self, origin: KeyOrigin) -> PlayerView {
        self.cleared_upto(origin, self.synths.len() as int)
    }

    pub open spec fn stop(self) -> PlayerView {
        PlayerView { playing: false, ..self }.cleared(KeyOrigin::Pattern)
    }

    pub open spec fn play(self) -> PlayerView {
        PlayerView {
            playing: true,
            clock: ClockView { carry: 0, num: 0 },
            looped: false,
            ..self
        }
    }

    pub open spec fn play_from(self, tick: u32) -> PlayerView {
        PlayerView {
            synths: Seq::new(self.synths.len(), |i: int| self.synths[i].reset_memory()),
            tempo: Tempo::spec_standard(),
            tick,
            ..self
        }.play()
    }

    /// The synths after a track came or went. An edit that names no place
    /// among the synths changes nothing.
    pub open spec fn track_edited(synths: Seq<SynthView>, edit: TrackEdit) -> Seq<SynthView> {
        match edit {
            TrackEdit::Insert(i) => if i <= synths.len() {
                synths.insert(i as int, SynthView::initial())
            } else {
                synths
            },
            TrackEdit::Remove(i) => if i < synths.len() {
                synths.remove(i as int)
            } else {
                synths
            },
        }
    }

    /// The synths after the edits, in their order.
    pub open spec fn tracks_edited(synths: Seq<SynthView>, edits: Seq<TrackEdit>) -> Seq<SynthView>
        decreases edits.len(),
    {
        if edits.len() == 0 {
            synths
        } else {
            PlayerView::track_edited(
                PlayerView::tracks_edited(synths, edits.drop_last()),
                edits.last(),
            )
        }
    }

    /// The state after an event of a pattern was handled.
    ///
    /// A pitch starts the note that the track maps it to, if it maps it to
    /// any. A note-off ends the note of the channel. Pressure and
    /// modulation go to the synth of the track as channel pressure and
    /// modulation. Tempo events change the tempo. At an end, playback goes
    /// back to the last loop start at or before the current tick, or stops
    /// if there is none. Every other event is passed over.
    pub open spec fn handle(
        self,
        module: ModuleView,
        data: EventData,
        track: usize,
        channel: usize,
    ) -> PlayerView {
        match data {
            EventData::Pitch(note) => match module.map_note(note, track) {
                Some((patch, note)) => self.note_on(
                    track,
                    spec_pattern_key(channel),
                    note.pitch,
                    None,
                    module.patches[patch as int].settings,
                ),
                None => self,
            },
            EventData::Pressure(v) => self.changed(
                track,
                Selector::OnChannel((channel % 256) as u8),
                Change::Pressure(spec_digit_level(v, MAX_PRESSURE)),
            ),
            EventData::Modulation(v) => self.modulate(
                track,
                (channel % 256) as u8,
                spec_digit_level(v, MAX_MODULATION),
            ),
            EventData::NoteOff => self.released(
                track,
                Selector::WithKey(spec_pattern_key(channel)),
            ),
            EventData::Tempo(_) => PlayerView {
                tempo: spec_tempo_changed(self.tempo, data),
                ..self
            },
            EventData::RationalTempo(_, _) => PlayerView {
                tempo: spec_tempo_changed(self.tempo, data),
                ..self
            },
            EventData::End => match module.loop_start(self.tick) {
                Some(tick) => PlayerView { tick, looped: true, ..self },
                None => self.stop(),
            },
            _ => self,
        }
    }

    /// The state after the first `upto` of the events were dispatched:
    /// each is handled if its tick is not before `prev` and is before the
    /// tick that playback is at when its turn comes.
    pub open spec fn dispatched(
        self,
        module: ModuleView,
        prev: u32,
        events: Seq<LocatedEvent>,
        upto: int,
    ) -> PlayerView
        decreases upto,
    {
        if upto <= 0 {
            self
        } else {
            let before = self.dispatched(module, prev, events, upto - 1);
            let e = events[upto - 1];
            if prev <= e.event.tick < before.tick {
                before.handle(module, e.event.data, e.track, e.channel)
            } else {
                before
            }
        }
    }

    /// The state as the clock has it after `dt` nanoseconds, before any
    /// event is dispatched.
    pub open spec fn advanced(self, dt: u64) -> PlayerView {
        PlayerView {
            tick: tick_after(self.tick, self.clock.ticks(dt, self.tempo)),
            clock: self.clock.advanced(dt, self.tempo),
            ..self
        }
    }

    /// The state after a frame of `dt` nanoseconds. At rest nothing
    /// happens. In play the tick moves on by the ticks that the clock
    /// counts, and the events of the module from the old tick up to the new
    /// one are dispatched: track by track, channel by channel.
    pub open spec fn frame(self, module: ModuleView, dt: u64) -> PlayerView {
        if !self.playing {
            self
        } else {
            let events = module.events().filter(within(self.tick, self.advanced(dt).tick));
            self.advanced(dt).dispatched(module, self.tick, events, events.len() as int)
        }
    }
}

impl Player {
    /// A player at rest, with one synth per track and one before them.
    pub fn new(seq: Sequencer, num_tracks: usize) -> (p: Player)
        ensures
            p@ == PlayerView::initial(seq@, (num_tracks + 1) as nat),
            p@.wf(),
    {
        let synths = Player::make_synths(num_tracks);
        Player {
            seq,
            synths,
            playing: false,
            tick: 0,
            clock: Clock::new(),
            tempo: Tempo::standard(),
            looped: false,
        }
    }

    fn make_synths(num_tracks: usize) -> (synths: Vec<Synth>)
        ensures
            synths_view(synths@) == Seq::new(
                (num_tracks + 1) as nat,
                |i: int| SynthView::initial(),
            ),
    {
        let mut synths: Vec<Synth> = Vec::new();
        synths.push(Synth::new());
        let mut i: usize = 0;
        while i < num_tracks
            invariant
                i <= num_tracks,
                synths@.len() == i + 1,
                forall|k: int| 0 <= k < synths@.len() ==> (#[trigger] synths@[k])@ == SynthView::initial(),
            decreases num_tracks - i,
        {
            synths.push(Synth::new());
            i += 1;
        }
        synths
    }

    /// Puts the player at rest with new synths, one per track and one
    /// before them.
    pub fn reinit(&mut self, num_tracks: usize)
        ensures
            final(self)@ == PlayerView::initial(old(self)@.seq, (num_tracks + 1) as nat),
    {
        self.synths = Player::make_synths(num_tracks);
        self.playing = false;
        self.tick = 0;
        self.clock.reset();
        self.tempo = Tempo::standard();
        self.looped = false;
    }

    pub fn get_tick(&self) -> (tick: u32)
        ensures
            tick == self@.tick,
    {
        self.tick
    }

    pub fn is_playing(&self) -> (playing: bool)
        ensures
            playing == self@.playing,
    {
        self.playing
    }

    /// Whether playback has gone back to a loop start since it began.
    pub fn has_looped(&self) -> (looped: bool)
        ensures
            looped == self@.looped,
    {
        self.looped
    }

    /// The tempo that playback is at.
    pub fn tempo(&self) -> (tempo: Tempo)
        ensures
            tempo == self@.tempo,
    {
        self.tempo
    }

    /// Number of synths.
    pub fn synth_count(&self) -> (n: usize)
        ensures
            n == self@.synths.len(),
    {
        self.synths.len()
    }

    /// Number of voices in the pool of a track, or 0 if there is no such
    /// track.
    pub fn voice_count(&self, track: usize) -> (n: usize)
        ensures
            n == (if track < self@.synths.len() {
                self@.synths[track as int].voices.len()
            } else {
                0
            }),
    {
        if track < self.synths.len() {
            self.synths[track].voice_count()
        } else {
            0
        }
    }

    /// Stops playback and releases the notes that the pattern plays.
    pub fn stop(&mut self)
        ensures
            final(self)@ == old(self)@.stop(),
            old(self)@.wf() ==> final(self)@.wf(),
    {
        self.playing = false;
        assert(old(self)@.wf() ==> self@.wf()) by {
            assert(self@.synths == old(self)@.synths);
        }
        self.clear_notes_with_origin(KeyOrigin::Pattern);
    }

    /// Starts playback at the tick that the player is at.
    pub fn play(&mut self)
        ensures
            final(self)@ == old(self)@.play(),
    {
        self.playing = true;
        self.clock.reset();
        self.looped = false;
    }

    /// Starts playback at `tick`, at the standard tempo and with the
    /// memories of every synth cleared.
    pub fn play_from(&mut self, tick: u32)
        ensures
            final(self)@ == old(self)@.play_from(tick),
    {
        let n: usize = self.synths.len();
        let mut i: usize = 0;
        while i < n
            invariant
                i <= n,
                n == self.synths@.len(),
                n == old(self).synths@.len(),
                forall|k: int| 0 <= k < i ==> (#[trigger] self.synths@[k])@ == old(
                    self,
                ).synths@[k]@.reset_memory(),
                forall|k: int| i <= k < n ==> (#[trigger] self.synths@[k])@ == old(self).synths@[k]@,
                self.seq == old(self).seq,
                self.playing == old(self).playing,
                self.clock == old(self).clock,
                self.looped == old(self).looped,
            decreases n - i,
        {
            self.synths[i].reset_memory();
            i += 1;
        }
        self.tempo = Tempo::standard();
        self.tick = tick;
        self.play();
        assert(self@.synths =~= old(self)@.play_from(tick).synths);
    }

    /// Follows the tracks that came and went: a synth comes or goes at the
    /// same place.
    pub fn update_synths(&mut self, edits: Vec<TrackEdit>)
        ensures
            final(self)@ == (PlayerView {
                synths: PlayerView::tracks_edited(old(self)@.synths, edits@),
                ..old(self)@
            }),
    {
        let n: usize = edits.len();
        let mut k: usize = 0;
        while k < n
            invariant
                k <= n,
                n == edits@.len(),
                synths_view(self.synths@) == PlayerView::tracks_edited(
                    old(self)@.synths,
                    edits@.take(k as int),
                ),
                self.seq == old(self).seq,
                self.playing == old(self).playing,
                self.tick == old(self).tick,
                self.clock == old(self).clock,
                self.tempo == old(self).tempo,
                self.looped == old(self).looped,
            decreases n - k,
        {
            assert(edits@.take(k + 1).drop_last() =~= edits@.take(k as int));
            match edits[k] {
                TrackEdit::Insert(i) => if i <= self.synths.len() {
                    self.synths.insert(i, Synth::new());
                },
                TrackEdit::Remove(i) => if i < self.synths.len() {
                    self.synths.remove(i);
                },
            }
            k += 1;
        }
        assert(edits@.take(n as int) == edits@);
    }

    /// Starts a note on a track with the given patch. A note without
    /// pressure gets the default.
    pub fn note_on(
        &mut self,
        track: usize,
        key: Key,
        pitch: i32,
        pressure: Option<i32>,
        patch: &Settings,
    )
        ensures
            final(self)@ == old(self)@.note_on(track, key, pitch, pressure, patch@),
            old(self)@.wf() ==> final(self)@.wf(),
    {
        proof {
            if self@.wf() {
                lemma_player_note_on_keeps_wf(self@, track, key, pitch, pressure, patch@);
            }
        }
        if track < self.synths.len() {
            let pressure = match pressure {
                Some(p) => p,
                None => DEFAULT_PRESSURE,
            };
            self.synths[track].load(patch);
            self.synths[track].note_on(key, pitch, pressure, &mut self.seq);
            assert(self@.synths =~= old(self)@.note_on(track, key, pitch, Some(pressure), patch@).synths);
        }
    }

    /// Ends a note on a track.
    pub fn note_off(&mut self, track: usize, key: Key)
        ensures
            final(self)@ == old(self)@.released(track, Selector::WithKey(key)),
            old(self)@.wf() ==> final(self)@.wf(),
    {
        proof {
            if self@.wf() {
                lemma_player_change_keeps_wf(
                    self@,
                    track,
                    Selector::WithKey(key),
                    Change::Release,
                    0,
                    0,
                );
            }
        }
        if track < self.synths.len() {
            self.synths[track].note_off(key, &mut self.seq);
            assert(self@.synths =~= old(self)@.released(track, Selector::WithKey(key)).synths);
        }
    }

    /// Sets the pressure of a note that sounds on a track.
    pub fn poly_pressure(&mut self, track: usize, key: Key, pressure: i32)
        ensures
            final(self)@ == old(self)@.changed(
                track,
                Selector::WithKey(key),
                Change::Pressure(pressure),
            ),
    {
        if track < self.synths.len() {
            self.synths[track].poly_pressure(key, pressure, &mut self.seq);
            assert(self@.synths =~= old(self)@.changed(
                track,
                Selector::WithKey(key),
                Change::Pressure(pressure),
            ).synths);
        }
    }

    /// Moves the modulation wheel of a MIDI channel on a track.
    pub fn modulate(&mut self, track: usize, channel: u8, depth: i32)
        ensures
            final(self)@ == old(self)@.modulate(track, channel, depth),
    {
        if track < self.synths.len() {
            self.synths[track].modulate(channel, depth, &mut self.seq);
            assert(self@.synths =~= old(self)@.modulate(track, channel, depth).synths);
        }
    }

    /// Sets the pressure of the notes of a MIDI channel on a track.
    pub fn channel_pressure(&mut self, track: usize, channel: u8, pressure: i32)
        ensures
            final(self)@ == old(self)@.changed(
                track,
                Selector::OnChannel(channel),
                Change::Pressure(pressure),
            ),
    {
        if track < self.synths.len() {
            self.synths[track].channel_pressure(channel, pressure, &mut self.seq);
            assert(self@.synths =~= old(self)@.changed(
                track,
                Selector::OnChannel(channel),
                Change::Pressure(pressure),
            ).synths);
        }
    }

    /// Bends the pitch of a MIDI channel on a track.
    pub fn pitch_bend(&mut self, track: usize, channel: u8, bend: i32)
        ensures
            final(self)@ == old(self)@.pitch_bend(track, channel, bend),
    {
        if track < self.synths.len() {
            self.synths[track].pitch_bend(channel, bend, &mut self.seq);
            assert(self@.synths =~= old(self)@.pitch_bend(track, channel, bend).synths);
        }
    }

    /// Releases every note of the given origin, on every track.
    pub fn clear_notes_with_origin(&mut self, origin: KeyOrigin)
        ensures
            final(self)@ == old(self)@.cleared(origin),
            old(self)@.wf() ==> final(self)@.wf(),
    {
        proof {
            if self@.wf() {
                lemma_cleared_keeps_wf(self@, origin, self@.synths.len() as int);
            }
        }
        let n: usize = self.synths.len();
        let mut i: usize = 0;
        while i < n
            invariant
                i <= n,
                n == self.synths@.len(),
                n == old(self)@.synths.len(),
                self@ == old(self)@.cleared_upto(origin, i as int),
            decreases n - i,
        {
            let ghost before = self@;
            self.synths[i].clear_notes_with_origin(&mut self.seq, origin);
            assert(self@.synths =~= before.released(i, Selector::From(origin)).synths);
            i += 1;
        }
    }

    /// Handles one event of a pattern, found on the given track and
    /// channel.
    pub fn handle_event(&mut self, data: &EventData, module: &Module, track: usize, channel: usize)
        ensures
            final(self)@ == old(self)@.handle(module@, *data, track, channel),
            old(self)@.wf() ==> final(self)@.wf(),
    {
        proof {
            if self@.wf() {
                lemma_handle_keeps_wf(self@, module@, *data, track, channel);
            }
        }
        let key = pattern_key(channel);
        match *data {
            EventData::Pitch(note) => {
                if let Some((patch, note)) = module.map_note(note, track) {
                    self.note_on(track, key, note.pitch, None, &patch.settings);
                }
            },
            EventData::Pressure(v) => {
                self.channel_pressure(track, (channel % 256) as u8, digit_level(v, MAX_PRESSURE));
            },
            EventData::Modulation(v) => {
                self.modulate(track, (channel % 256) as u8, digit_level(v, MAX_MODULATION));
            },
            EventData::NoteOff => {
                self.note_off(track, key);
            },
            EventData::Tempo(_) | EventData::RationalTempo(_, _) => {
                self.tempo = tempo_changed(self.tempo, *data);
            },
            EventData::End => match module.find_loop_start(self.tick) {
                Some(tick) => {
                    self.go_to(tick);
                    self.looped = true;
                },
                None => {
                    self.stop();
                },
            },
            _ => {},
        }
    }

    fn go_to(&mut self, tick: u32)
        ensures
            final(self)@ == (PlayerView { tick, ..old(self)@ }),
    {
        self.tick = tick;
    }

    /// Lets `dt` nanoseconds pass: in play, the tick moves on and the
    /// events that fall due are dispatched.
    pub fn frame(&mut self, module: &Module, dt: u64)
        ensures
            final(self)@ == old(self)@.frame(module@, dt),
            old(self)@.wf() ==> final(self)@.wf(),
    {
        proof {
            if self@.wf() {
                lemma_frame_keeps_wf(self@, module@, dt);
            }
        }
        if !self.playing {
            return ;
        }
        let prev = self.tick;
        let ticks = self.clock.advance(dt, self.tempo);
        self.tick = if ticks > (u32::MAX - prev) as u128 {
            u32::MAX
        } else {
            prev + ticks as u32
        };
        let events = module.select_events(Selection::Within { from: prev, to: self.tick });
        let n: usize = events.len();
        let mut k: usize = 0;
        while k < n
            invariant
                k <= n,
                n == events@.len(),
                self@ == old(self)@.advanced(dt).dispatched(module@, prev, events@, k as int),
            decreases n - k,
        {
            let e = events[k];
            if e.event.tick >= prev && e.event.tick < self.tick {
                self.handle_event(&e.event.data, module, e.track, e.channel);
            }
            k += 1;
        }
    }
}


/// What the renderer asks for after a step.
#[derive(PartialEq, Eq, Structural, Clone, Copy, Debug)]
pub enum RenderStep {
    /// Carry out the commands issued, render one block, then set the
    /// output gain to `fade`, in thousandths, if there is one.
    Block { fade: Option<i32> },
    /// The rendering is complete.
    Finished,
}

/// Renders a module offline: playback in steps of one block of samples,
/// with a fade-out once the module has looped.
#[derive(Debug)]
pub struct Render {
    player: Player,
    block_time: u64,
    time_since_loop: u64,
}

pub struct RenderView {
    pub player: PlayerView,
    /// Duration of a block, in nanoseconds.
    pub block_time: u64,
    /// Time rendered since the module first looped, in nanoseconds.
    pub time_since_loop: u64,
}

impl View for Render {
    type V = RenderView;

    closed spec fn view(&self) -> RenderView {
        RenderView {
            player: self.player@,
            block_time: self.block_time,
            time_since_loop: self.time_since_loop,
        }
    }
}

/// Duration in nanoseconds of `block_size` samples at `sample_rate`,
/// rounded down; 0 at a sample rate of 0.
pub open spec fn spec_block_time(block_size: u32, sample_rate: u32) -> u64 {
    if sample_rate == 0 {
        0
    } else {
        (block_size * 1_000_000_000 / (sample_rate as int)) as u64
    }
}

#[verifier::when_used_as_spec(spec_block_time)]
pub fn block_time(block_size: u32, sample_rate: u32) -> (t: u64)
    ensures
        t == spec_block_time(block_size, sample_rate),
{
    if sample_rate == 0 {
        0
    } else {
        block_size as u64 * 1_000_000_000 / sample_rate as u64
    }
}

/// The output gain, in thousandths, once `time` nanoseconds of the
/// fade-out have passed: from 1000 straight down to 0.
pub open spec fn spec_fade_gain(time: u64) -> i32 {
    if time >= LOOP_FADEOUT_TIME {
        0
    } else {
        (1000 - time * 1000 / (LOOP_FADEOUT_TIME as int)) as i32
    }
}

#[verifier::when_used_as_spec(spec_fade_gain)]
pub fn fade_gain(time: u64) -> (gain: i32)
    ensures
        gain == spec_fade_gain(time),
        0 <= gain <= 1000,
{
    if time >= LOOP_FADEOUT_TIME {
        0
    } else {
        let done: u64 = time * 1000 / LOOP_FADEOUT_TIME;
        1000 - done as i32
    }
}

impl RenderView {
    /// Whether the rendering is complete: playback has stopped or the
    /// fade-out is over.
    pub open spec fn finished(self) -> bool {
        !self.player.playing || self.time_since_loop >= LOOP_FADEOUT_TIME
    }

    /// The state after a step: unless the rendering is complete, playback
    /// moves on by one block, and once it has looped the time of the
    /// fade-out moves on with it.
    pub open spec fn stepped(self, module: ModuleView) -> RenderView {
        if self.finished() {
            self
        } else {
            let player = self.player.frame(module, self.block_time);
            RenderView {
                player,
                time_since_loop: if player.looped {
                    if self.time_since_loop + self.block_time > u64::MAX {
                        u64::MAX
                    } else {
                        (self.time_since_loop + self.block_time) as u64
                    }
                } else {
                    self.time_since_loop
                },
                ..self
            }
        }
    }

    /// What a step asks for.
    pub open spec fn asks(self, module: ModuleView) -> RenderStep {
        if self.finished() {
            RenderStep::Finished
        } else if self.player.frame(module, self.block_time).looped {
            RenderStep::Block { fade: Some(spec_fade_gain(self.time_since_loop)) }
        } else {
            RenderStep::Block { fade: None }
        }
    }
}

impl Render {
    /// A rendering at its start: playback runs from the tick that a new
    /// player is at.
    pub fn new(seq: Sequencer, num_tracks: usize, block_size: u32, sample_rate: u32) -> (r: Render)
        ensures
            r@ == (RenderView {
                player: PlayerView::initial(seq@, (num_tracks + 1) as nat).play(),
                block_time: spec_block_time(block_size, sample_rate),
                time_since_loop: 0,
            }),
    {
        let mut player = Player::new(seq, num_tracks);
        player.play();
        Render { player, block_time: block_time(block_size, sample_rate), time_since_loop: 0 }
    }

    /// Moves the rendering on by one block.
    pub fn step(&mut self, module: &Module) -> (asks: RenderStep)
        ensures
            asks == old(self)@.asks(module@),
            final(self)@ == old(self)@.stepped(module@),
    {
        if !self.player.is_playing() || self.time_since_loop >= LOOP_FADEOUT_TIME {
            return RenderStep::Finished;
        }
        self.player.frame(module, self.block_time);
        if self.player.has_looped() {
            let fade = fade_gain(self.time_since_loop);
            self.time_since_loop = if self.time_since_loop > u64::MAX - self.block_time {
                u64::MAX
            } else {
                self.time_since_loop + self.block_time
            };
            RenderStep::Block { fade: Some(fade) }
        } else {
            RenderStep::Block { fade: None }
        }
    }

    /// Hands over the commands issued since the last call.
    pub fn take_commands(&mut self) -> (commands: Vec<Command>)
        ensures
            commands@ == old(self)@.player.seq.commands,
            final(self)@ == (RenderView {
                player: PlayerView {
                    seq: SequencerView {
                        next_voice: old(self)@.player.seq.next_voice,
                        commands: Seq::empty(),
                    },
                    ..old(self)@.player
                },
                ..old(self)@
            }),
    {
        self.player.seq.take()
    }
}

/// Once the module has looped, each step moves the fade-out on by one
/// block: a rendering with blocks that last is complete after finitely
/// many steps.
pub proof fn lemma_fade_out_moves_on(r: RenderView, module: ModuleView)
    requires
        !r.finished(),
        r.player.frame(module, r.block_time).looped,
    ensures
        r.stepped(module).time_since_loop == r.time_since_loop + r.block_time
            || r.stepped(module).time_since_loop == u64::MAX,
        r.stepped(module).time_since_loop >= r.time_since_loop,
{
}

impl Player {
    /// Hands over the commands issued since the last call.
    pub fn take_commands(&mut self) -> (commands: Vec<Command>)
        ensures
            commands@ == old(self)@.seq.commands,
            final(self)@ == (PlayerView {
                seq: SequencerView {
                    next_voice: old(self)@.seq.next_voice,
                    commands: Seq::empty(),
                },
                ..old(self)@
            }),
    {
        self.seq.take()
    }
}


impl PlayerView {
    /// Every synth is well formed: none holds two voices of one key.
    pub open spec fn wf(self) -> bool {
        forall|i: int| 0 <= i < self.synths.len() ==> (#[trigger] self.synths[i]).wf()
    }
}

/// A note-on keeps every synth well formed.
pub proof fn lemma_player_note_on_keeps_wf(
    p: PlayerView,
    track: usize,
    key: Key,
    pitch: i32,
    pressure: Option<i32>,
    patch: SettingsView,
)
    requires
        p.wf(),
    ensures
        p.note_on(track, key, pitch, pressure, patch).wf(),
{
    if track < p.synths.len() {
        let synth = SynthView { settings: patch, ..p.synths[track as int] };
        let pressure = match pressure {
            Some(p) => p,
            None => DEFAULT_PRESSURE,
        };
        lemma_note_on_keeps_wf(synth, key, pitch, pressure, p.seq.next_voice);
    }
}

/// Releasing voices, or changing them, keeps every synth well formed.
pub proof fn lemma_player_change_keeps_wf(
    p: PlayerView,
    track: usize,
    selector: Selector,
    change: Change,
    channel: u8,
    value: i32,
)
    requires
        p.wf(),
    ensures
        p.released(track, selector).wf(),
        p.changed(track, selector, change).wf(),
        p.pitch_bend(track, channel, value).wf(),
        p.modulate(track, channel, value).wf(),
{
    if track < p.synths.len() {
        let synth = p.synths[track as int];
        lemma_without_keeps_wf(synth, selector);
        lemma_changed_keeps_wf(synth, selector, change);
        lemma_changed_keeps_wf(synth, Selector::OnChannel(channel), Change::Bend(value));
        lemma_changed_keeps_wf(synth, Selector::OnChannel(channel), Change::Modulation(value));
    }
}

/// Clearing the notes of an origin keeps every synth well formed.
pub proof fn lemma_cleared_keeps_wf(p: PlayerView, origin: KeyOrigin, upto: int)
    requires
        p.wf(),
    ensures
        p.cleared_upto(origin, upto).wf(),
        p.cleared_upto(origin, upto).synths.len() == p.synths.len(),
    decreases upto,
{
    if upto > 0 {
        lemma_cleared_keeps_wf(p, origin, upto - 1);
        lemma_player_change_keeps_wf(
            p.cleared_upto(origin, upto - 1),
            (upto - 1) as usize,
            Selector::From(origin),
            Change::Release,
            0,
            0,
        );
    }
}

/// Handling an event of a pattern keeps every synth well formed.
pub proof fn lemma_handle_keeps_wf(
    p: PlayerView,
    module: ModuleView,
    data: EventData,
    track: usize,
    channel: usize,
)
    requires
        p.wf(),
    ensures
        p.handle(module, data, track, channel).wf(),
{
    match data {
        EventData::Pitch(note) => {
            if let Some((patch, note)) = module.map_note(note, track) {
                lemma_player_note_on_keeps_wf(
                    p,
                    track,
                    spec_pattern_key(channel),
                    note.pitch,
                    None,
                    module.patches[patch as int].settings,
                );
            }
        },
        EventData::Pressure(v) => {
            lemma_player_change_keeps_wf(
                p,
                track,
                Selector::OnChannel((channel % 256) as u8),
                Change::Pressure(spec_digit_level(v, MAX_PRESSURE)),
                0,
                0,
            );
        },
        EventData::Modulation(v) => {
            lemma_player_change_keeps_wf(
                p,
                track,
                Selector::All,
                Change::Release,
                (channel % 256) as u8,
                spec_digit_level(v, MAX_MODULATION),
            );
        },
        EventData::NoteOff => {
            lemma_player_change_keeps_wf(
                p,
                track,
                Selector::WithKey(spec_pattern_key(channel)),
                Change::Release,
                0,
                0,
            );
        },
        EventData::End => {
            if module.loop_start(p.tick) is None {
                let stopped = PlayerView { playing: false, ..p };
                lemma_cleared_keeps_wf(stopped, KeyOrigin::Pattern, stopped.synths.len() as int);
            }
        },
        _ => {},
    }
}

/// A frame keeps every synth well formed: whatever a pattern plays, no
/// synth ever holds two voices of one key.
pub proof fn lemma_frame_keeps_wf(p: PlayerView, module: ModuleView, dt: u64)
    requires
        p.wf(),
    ensures
        p.frame(module, dt).wf(),
{
    if p.playing {
        let events = module.events().filter(within(p.tick, p.advanced(dt).tick));
        lemma_dispatched_keeps_wf(p.advanced(dt), module, p.tick, events, events.len() as int);
    }
}

/// Dispatching events keeps every synth well formed.
pub proof fn lemma_dispatched_keeps_wf(
    p: PlayerView,
    module: ModuleView,
    prev: u32,
    events: Seq<LocatedEvent>,
    upto: int,
)
    requires
        p.wf(),
    ensures
        p.dispatched(module, prev, events, upto).wf(),
    decreases upto,
{
    if upto > 0 {
        lemma_dispatched_keeps_wf(p, module, prev, events, upto - 1);
        let before = p.dispatched(module, prev, events, upto - 1);
        let e = events[upto - 1];
        lemma_handle_keeps_wf(before, module, e.event.data, e.track, e.channel);
    }
}


impl PlayerView {
    /// The state after one frame for each of the steps, in their order.
    pub open spec fn frames(self, module: ModuleView, dts: Seq<u64>) -> PlayerView
        decreases dts.len(),
    {
        if dts.len() == 0 {
            self
        } else {
            self.frames(module, dts.drop_last()).frame(module, dts.last())
        }
    }
}

/// Clearing notes changes pools and commands and nothing else.
pub proof fn lemma_cleared_keeps_time(p: PlayerView, origin: KeyOrigin, upto: int)
    ensures
        p.cleared_upto(origin, upto).tick == p.tick,
        p.cleared_upto(origin, upto).clock == p.clock,
        p.cleared_upto(origin, upto).tempo == p.tempo,
        p.cleared_upto(origin, upto).playing == p.playing,
        p.cleared_upto(origin, upto).looped == p.looped,
        p.cleared_upto(origin, upto).synths.len() == p.synths.len(),
    decreases upto,
{
    if upto > 0 {
        lemma_cleared_keeps_time(p, origin, upto - 1);
    }
}

/// What an event of a pattern leaves alone: no event touches the clock,
/// only an end moves the tick, stops playback or marks a loop, and only a
/// tempo event changes the tempo.
pub proof fn lemma_handle_keeps_time(
    p: PlayerView,
    module: ModuleView,
    data: EventData,
    track: usize,
    channel: usize,
)
    ensures
        p.handle(module, data, track, channel).clock == p.clock,
        p.handle(module, data, track, channel).synths.len() == p.synths.len(),
        !(data is End) ==> p.handle(module, data, track, channel).tick == p.tick && p.handle(
            module,
            data,
            track,
            channel,
        ).playing == p.playing && p.handle(module, data, track, channel).looped == p.looped,
        !(data is Tempo) && !(data is RationalTempo) ==> p.handle(
            module,
            data,
            track,
            channel,
        ).tempo == p.tempo,
{
    if data is End && module.loop_start(p.tick) is None {
        let stopped = PlayerView { playing: false, ..p };
        lemma_cleared_keeps_time(stopped, KeyOrigin::Pattern, stopped.synths.len() as int);
    }
}

/// Events without an end among them leave the tick, the clock and the
/// state of playback as they are.
pub proof fn lemma_dispatched_keeps_time(
    p: PlayerView,
    module: ModuleView,
    prev: u32,
    events: Seq<LocatedEvent>,
    upto: int,
)
    requires
        upto <= events.len(),
        forall|i: int| 0 <= i < upto ==> !((#[trigger] events[i]).event.data is End),
    ensures
        p.dispatched(module, prev, events, upto).tick == p.tick,
        p.dispatched(module, prev, events, upto).clock == p.clock,
        p.dispatched(module, prev, events, upto).playing == p.playing,
        p.dispatched(module, prev, events, upto).looped == p.looped,
    decreases upto,
{
    if upto > 0 {
        lemma_dispatched_keeps_time(p, module, prev, events, upto - 1);
        let before = p.dispatched(module, prev, events, upto - 1);
        let e = events[upto - 1];
        lemma_handle_keeps_time(before, module, e.event.data, e.track, e.channel);
    }
}

/// No event is picked where the condition holds of none.
pub proof fn lemma_filter_none(events: Seq<LocatedEvent>, pred: spec_fn(LocatedEvent) -> bool)
    requires
        forall|i: int| 0 <= i < events.len() ==> !pred(#[trigger] events[i]),
    ensures
        events.filter(pred) == Seq::<LocatedEvent>::empty(),
    decreases events.len(),
{
    reveal(Seq::filter);
    if events.len() > 0 {
        lemma_filter_none(events.drop_last(), pred);
    }
}

/// A frame in play moves the tick on by the ticks that the clock counts:
/// the time carried plus the time of the frame, in ticks, rounded, and
/// never back. The clock keeps the rest, which is less than half a tick
/// either way where the clock was settled. This holds of every frame in
/// whose window no end falls due; the tick stops at the last tick there is.
pub proof fn lemma_frame_moves_tick(p: PlayerView, module: ModuleView, dt: u64)
    requires
        p.playing,
        forall|i: int|
            0 <= i < module.events().len() && p.tick <= (#[trigger] module.events()[i]).event.tick
                < p.advanced(dt).tick ==> !(module.events()[i].event.data is End),
    ensures
        p.frame(module, dt).tick == tick_after(p.tick, p.clock.ticks(dt, p.tempo)),
        p.frame(module, dt).tick >= p.tick,
        p.frame(module, dt).clock == p.clock.advanced(dt, p.tempo),
        p.frame(module, dt).playing,
        p.frame(module, dt).looped == p.looped,
        p.tempo.den > 0 && p.clock.settled_at(p.tempo) ==> p.clock.ticks(dt, p.tempo) * span(
            p.tempo,
        ) + p.frame(module, dt).clock.carry == p.clock.carry + dt * rate(p.tempo) && -span(p.tempo)
            <= 2 * p.frame(module, dt).clock.carry < span(p.tempo),
{
    let pred = within(p.tick, p.advanced(dt).tick);
    let events = module.events().filter(pred);
    assert forall|i: int| 0 <= i < events.len() implies !((#[trigger] events[i]).event.data is End) by {
        module.events().lemma_filter_pred(pred, i);
        assert(events.contains(events[i]));
        module.events().lemma_filter_contains_rev(pred, events[i]);
        let j = choose|j: int| 0 <= j < module.events().len() && module.events()[j] == events[i];
        assert(pred(module.events()[j]));
    }
    lemma_dispatched_keeps_time(p.advanced(dt), module, p.tick, events, events.len() as int);
    lemma_step_ticks(p.clock, dt, p.tempo);
    if p.tempo.den > 0 && p.clock.settled_at(p.tempo) {
        let one = seq![dt];
        assert(elapsed(one.drop_last()) == 0);
        assert(p.clock.ticks_over(one.drop_last(), p.tempo) == 0);
        lemma_clock_keeps_time(p.clock, one, p.tempo);
    }
}

/// Playback does not drift. Over any number of frames at one tempo, while
/// no event falls due, the tick moves on by the ticks that the clock counts
/// over all of them, and those are the elapsed time in ticks, rounded: they
/// and what the clock carries add up to what it carried before and the time
/// that elapsed, and it carries less than half a tick either way, however
/// many the frames. The tick stops at the last tick there is.
pub proof fn lemma_frames_keep_time(p: PlayerView, module: ModuleView, dts: Seq<u64>)
    requires
        p.playing,
        p.tempo.den > 0,
        p.clock.settled_at(p.tempo),
        forall|i: int|
            0 <= i < module.events().len() ==> !(p.tick <= (#[trigger] module.events()[i]).event.tick
                < tick_after(p.tick, p.clock.ticks_over(dts, p.tempo))),
    ensures
        p.frames(module, dts) == (PlayerView {
            tick: tick_after(p.tick, p.clock.ticks_over(dts, p.tempo)),
            clock: p.clock.advanced_over(dts, p.tempo),
            ..p
        }),
        p.clock.ticks_over(dts, p.tempo) >= 0,
        p.clock.ticks_over(dts, p.tempo) * span(p.tempo) + p.frames(module, dts).clock.carry
            == p.clock.carry + elapsed(dts) * rate(p.tempo),
        -span(p.tempo) <= 2 * p.frames(module, dts).clock.carry < span(p.tempo),
    decreases dts.len(),
{
    lemma_clock_keeps_time(p.clock, dts, p.tempo);
    if dts.len() > 0 {
        let rest = dts.drop_last();
        let dt = dts.last();
        lemma_clock_keeps_time(p.clock, rest, p.tempo);
        let before = p.clock.advanced_over(rest, p.tempo);
        lemma_step_ticks(before, dt, p.tempo);
        lemma_frames_keep_time(p, module, rest);
        let q = p.frames(module, rest);
        let pred = within(q.tick, q.advanced(dt).tick);
        lemma_filter_none(module.events(), pred);
    }
}

/// A rational tempo event scales the tempo by `n / d` exactly, wherever the
/// scaled tempo can be held as a ratio of two 32-bit numbers; where it
/// cannot, or `d` is 0, the tempo stays as it was. Nothing else changes.
pub proof fn lemma_rational_tempo_event(
    p: PlayerView,
    module: ModuleView,
    n: u8,
    d: u8,
    track: usize,
    channel: usize,
)
    ensures
        p.handle(module, EventData::RationalTempo(n, d), track, channel) == (PlayerView {
            tempo: match p.tempo.spec_scaled(n, d) {
                Some(t) => t,
                None => p.tempo,
            },
            ..p
        }),
        p.tempo.spec_scaled(n, d) is Some ==> p.tempo.spec_scaled(n, d).unwrap().den > 0
            && p.tempo.spec_scaled(n, d).unwrap().num * (p.tempo.den * d) == (p.tempo.num * n)
            * p.tempo.spec_scaled(n, d).unwrap().den,
        d == 0 ==> p.tempo.spec_scaled(n, d) is None,
{
    if p.tempo.spec_scaled(n, d) is Some {
        lemma_reduced((p.tempo.num * n) as nat, (p.tempo.den * d) as nat);
    }
}

/// Two rational tempo events in a row leave the tempo that one event with
/// the product of their factors leaves, wherever each of the three scaled
/// tempos can be held.
pub proof fn lemma_rational_tempo_events_compose(
    p: PlayerView,
    module: ModuleView,
    n1: u8,
    d1: u8,
    n2: u8,
    d2: u8,
    track: usize,
    channel: usize,
)
    requires
        n1 * n2 <= 255,
        d1 * d2 <= 255,
        p.tempo.spec_scaled(n1, d1) is Some,
        p.tempo.spec_scaled(n1, d1).unwrap().spec_scaled(n2, d2) is Some,
        p.tempo.spec_scaled((n1 * n2) as u8, (d1 * d2) as u8) is Some,
    ensures
        p.handle(module, EventData::RationalTempo(n1, d1), track, channel).handle(
            module,
            EventData::RationalTempo(n2, d2),
            track,
            channel,
        ) == p.handle(
            module,
            EventData::RationalTempo((n1 * n2) as u8, (d1 * d2) as u8),
            track,
            channel,
        ),
{
    lemma_scaling_composes(p.tempo, n1, d1, n2, d2);
}

} // verus!

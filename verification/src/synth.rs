//! The voice pool of one track.
//!
//! A synth holds the voices that sound on its track, at most one for each
//! key, and remembers the pitch bend and modulation wheel position of each
//! MIDI channel so that they apply to the notes that follow. How a note-on
//! allocates a voice depends on the play mode of the settings.

use crate::backend::{Command, Sequencer, SequencerView};
use crate::settings::{PlayMode, Settings, SettingsView};
use vstd::prelude::*;

verus! {

/// Where a note came from.
#[derive(PartialEq, Eq, Structural, Hash, Clone, Copy, Debug)]
pub enum KeyOrigin {
    Keyboard,
    Midi,
    Pattern,
}

/// Identifies a note that sounds: no two voices of a synth share a key.
#[derive(PartialEq, Eq, Structural, Hash, Clone, Copy, Debug)]
pub struct Key {
    pub origin: KeyOrigin,
    pub channel: u8,
    pub key: u8,
}

/// One sounding note. Pitches are in thousandths of a semitone on the MIDI
/// scale, pressure and modulation in thousandths of full scale, the release
/// time in milliseconds.
#[derive(PartialEq, Eq, Structural, Clone, Copy, Debug)]
pub struct Voice {
    pub key: Key,
    /// Number of the voice in the backend.
    pub id: u64,
    /// Pitch of the note, before any bend.
    pub base_pitch: i32,
    /// Pitch that the voice sounds at.
    pub pitch: i64,
    pub pressure: i32,
    pub modulation: i32,
    /// Whether the key is still held: the voice is not yet releasing.
    pub held: bool,
    pub release_time: i32,
}

/// Picks voices of a pool.
#[derive(PartialEq, Eq, Structural, Clone, Copy, Debug)]
pub enum Selector {
    /// Every voice.
    All,
    /// The voice with this key.
    WithKey(Key),
    /// The voices of MIDI origin on this channel.
    OnChannel(u8),
    /// The voices of this origin.
    From(KeyOrigin),
}

impl Selector {
    pub open spec fn spec_picks(&self, v: Voice) -> bool {
        match self {
            Selector::All => true,
            Selector::WithKey(key) => v.key == *key,
            Selector::OnChannel(channel) => v.key.origin == KeyOrigin::Midi && v.key.channel
                == *channel,
            Selector::From(origin) => v.key.origin == *origin,
        }
    }

    #[verifier::when_used_as_spec(spec_picks)]
    pub fn picks(&self, v: Voice) -> (b: bool)
        ensures
            b == self.spec_picks(v),
    {
        match self {
            Selector::All => true,
            Selector::WithKey(key) => v.key == *key,
            Selector::OnChannel(channel) => v.key.origin == KeyOrigin::Midi && v.key.channel
                == *channel,
            Selector::From(origin) => v.key.origin == *origin,
        }
    }
}

/// A change to a voice.
#[derive(PartialEq, Eq, Structural, Clone, Copy, Debug)]
pub enum Change {
    /// Sound at the base pitch plus this bend.
    Bend(i32),
    /// Sound at this pitch, whatever the base pitch.
    Retune(i32),
    Pressure(i32),
    Modulation(i32),
    /// Let go of the key.
    Release,
}

impl Change {
    pub open spec fn spec_applied(&self, v: Voice) -> Voice {
        match self {
            Change::Bend(bend) => Voice { pitch: (v.base_pitch + *bend) as i64, ..v },
            Change::Retune(pitch) => Voice { pitch: *pitch as i64, ..v },
            Change::Pressure(pressure) => Voice { pressure: *pressure, ..v },
            Change::Modulation(depth) => Voice { modulation: *depth, ..v },
            Change::Release => Voice { held: false, ..v },
        }
    }

    /// The voice after the change.
    #[verifier::when_used_as_spec(spec_applied)]
    pub fn applied(&self, v: Voice) -> (r: Voice)
        ensures
            r == self.spec_applied(v),
    {
        match self {
            Change::Bend(bend) => Voice { pitch: v.base_pitch as i64 + *bend as i64, ..v },
            Change::Retune(pitch) => Voice { pitch: *pitch as i64, ..v },
            Change::Pressure(pressure) => Voice { pressure: *pressure, ..v },
            Change::Modulation(depth) => Voice { modulation: *depth, ..v },
            Change::Release => Voice { held: false, ..v },
        }
    }

    /// The command that carries the change out on the voice.
    pub open spec fn command(&self, v: Voice) -> Command {
        match self {
            Change::Bend(bend) => Command::SetPitch {
                voice: v.id,
                pitch: (v.base_pitch + *bend) as i64,
            },
            Change::Retune(pitch) => Command::SetPitch { voice: v.id, pitch: *pitch as i64 },
            Change::Pressure(pressure) => Command::SetPressure { voice: v.id, pressure: *pressure },
            Change::Modulation(depth) => Command::SetModulation { voice: v.id, depth: *depth },
            Change::Release => Command::Release { voice: v.id, release_time: v.release_time },
        }
    }

    fn issue(&self, v: Voice, seq: &mut Sequencer)
        ensures
            final(seq)@ == old(seq)@.issued(seq![self.command(v)], false),
    {
        match self {
            Change::Bend(bend) => seq.set_pitch(v.id, v.base_pitch as i64 + *bend as i64),
            Change::Retune(pitch) => seq.set_pitch(v.id, *pitch as i64),
            Change::Pressure(pressure) => seq.set_pressure(v.id, *pressure),
            Change::Modulation(depth) => seq.set_modulation(v.id, *depth),
            Change::Release => seq.release(v.id, v.release_time),
        }
    }
}

/// The change applied to the voices that the selector picks.
pub open spec fn changing(selector: Selector, change: Change) -> spec_fn(Voice) -> Voice {
    |v: Voice|
        if selector.spec_picks(v) {
            change.spec_applied(v)
        } else {
            v
        }
}

/// The commands that carry the change out on the voices that the selector
/// picks.
pub open spec fn commanding(selector: Selector, change: Change) -> spec_fn(Voice) -> Option<
    Command,
> {
    |v: Voice|
        if selector.spec_picks(v) {
            Some(change.command(v))
        } else {
            None
        }
}

/// The voices that the selector does not pick.
pub open spec fn sparing(selector: Selector) -> spec_fn(Voice) -> bool {
    |v: Voice| !selector.spec_picks(v)
}

/// No two voices share a key.
pub open spec fn keys_unique(voices: Seq<Voice>) -> bool {
    forall|a: int, b: int|
        0 <= a < b < voices.len() ==> (#[trigger] voices[a]).key != (#[trigger] voices[b]).key
}

/// Applies `change` to the voices that `selector` picks, in pool order, and
/// issues the command for each.
pub fn change_voices(
    voices: &mut Vec<Voice>,
    selector: Selector,
    change: Change,
    seq: &mut Sequencer,
)
    ensures
        final(voices)@ == old(voices)@.map_values(changing(selector, change)),
        final(seq)@ == old(seq)@.issued(
            old(voices)@.filter_map(commanding(selector, change)),
            false,
        ),
{
    let n: usize = voices.len();
    let mut k: usize = 0;
    while k < n
        invariant
            k <= n,
            n == old(voices)@.len(),
            voices@.len() == n,
            forall|x: int| 0 <= x < k ==> voices@[x] == changing(selector, change)(old(voices)@[x]),
            forall|x: int| k <= x < n ==> voices@[x] == old(voices)@[x],
            seq@ == old(seq)@.issued(
                old(voices)@.take(k as int).filter_map(commanding(selector, change)),
                false,
            ),
        decreases n - k,
    {
        proof {
            old(voices)@.lemma_filter_map_take_succ(commanding(selector, change), k as int);
        }
        let v = voices[k];
        if selector.picks(v) {
            change.issue(v, seq);
            voices[k] = change.applied(v);
        }
        assert(seq@.commands =~= old(seq)@.commands + old(voices)@.take(k + 1).filter_map(
            commanding(selector, change),
        ));
        k += 1;
    }
    assert(old(voices)@.take(n as int) == old(voices)@);
}

/// Takes the voices that `selector` picks out of the pool, and releases
/// each of them if `release` is set.
pub fn remove_voices(
    voices: &mut Vec<Voice>,
    selector: Selector,
    release: bool,
    seq: &mut Sequencer,
)
    ensures
        final(voices)@ == old(voices)@.filter(sparing(selector)),
        final(seq)@ == old(seq)@.issued(
            if release {
                old(voices)@.filter_map(commanding(selector, Change::Release))
            } else {
                Seq::empty()
            },
            false,
        ),
{
    let mut kept: Vec<Voice> = Vec::new();
    let n: usize = voices.len();
    let mut k: usize = 0;
    while k < n
        invariant
            k <= n,
            n == voices@.len(),
            voices@ == old(voices)@,
            kept@ == voices@.take(k as int).filter(sparing(selector)),
            seq@ == old(seq)@.issued(
                if release {
                    voices@.take(k as int).filter_map(commanding(selector, Change::Release))
                } else {
                    Seq::empty()
                },
                false,
            ),
        decreases n - k,
    {
        proof {
            voices@.lemma_filter_map_take_succ(commanding(selector, Change::Release), k as int);
            assert(voices@.take(k + 1) =~= voices@.take(k as int).push(voices@[k as int]));
            voices@.take(k as int).lemma_filter_push(voices@[k as int], sparing(selector));
        }
        let v = voices[k];
        if selector.picks(v) {
            if release {
                Change::Release.issue(v, seq);
            }
        } else {
            kept.push(v);
        }
        assert(seq@.commands =~= old(seq)@.commands + (if release {
            voices@.take(k + 1).filter_map(commanding(selector, Change::Release))
        } else {
            Seq::empty()
        }));
        k += 1;
    }
    assert(voices@.take(n as int) == voices@);
    *voices = kept;
}


/// The voice pool of one track, with its settings and channel memories.
#[derive(Debug)]
pub struct Synth {
    pub settings: Settings,
    voices: Vec<Voice>,
    bend_memory: [i32; 16],
    mod_memory: [i32; 16],
}

pub struct SynthView {
    pub settings: SettingsView,
    /// The voices in the pool, oldest first.
    pub voices: Seq<Voice>,
    /// Last pitch bend of each MIDI channel.
    pub bend_memory: Seq<i32>,
    /// Last modulation wheel position of each MIDI channel.
    pub mod_memory: Seq<i32>,
}

/// What a channel memory holds for the key: the value of its channel if the
/// key is of MIDI origin on one of the 16 channels, else 0.
pub open spec fn remembered(memory: Seq<i32>, key: Key) -> i32 {
    if key.origin == KeyOrigin::Midi && key.channel < 16 {
        memory[key.channel as int]
    } else {
        0
    }
}

/// The memory after `value` arrived on `channel`. A channel beyond the 16
/// has no memory.
pub open spec fn remembering(memory: Seq<i32>, channel: u8, value: i32) -> Seq<i32> {
    if channel < 16 {
        memory.update(channel as int, value)
    } else {
        memory
    }
}

impl SynthView {
    pub open spec fn initial() -> SynthView {
        SynthView {
            settings: SettingsView::initial(),
            voices: Seq::empty(),
            bend_memory: Seq::new(16, |i: int| 0i32),
            mod_memory: Seq::new(16, |i: int| 0i32),
        }
    }

    /// No two voices share a key, and each memory has its 16 channels.
    pub open spec fn wf(self) -> bool {
        &&& keys_unique(self.voices)
        &&& self.bend_memory.len() == 16
        &&& self.mod_memory.len() == 16
    }

    /// The voice that a note-on creates.
    pub open spec fn new_voice(self, key: Key, pitch: i32, pressure: i32, id: u64) -> Voice {
        Voice {
            key,
            id,
            base_pitch: pitch,
            pitch: (pitch + remembered(self.bend_memory, key)) as i64,
            pressure,
            modulation: remembered(self.mod_memory, key),
            held: true,
            release_time: self.settings.release_time(),
        }
    }

    /// The command that starts the voice that a note-on creates.
    pub open spec fn start_command(self, key: Key, pitch: i32, pressure: i32, id: u64) -> Command {
        Command::Start {
            voice: id,
            graph: self.settings.voice_signal(),
            pitch: (pitch + remembered(self.bend_memory, key)) as i64,
            pressure,
            modulation: remembered(self.mod_memory, key),
        }
    }

    /// Whether a note-on reuses a voice of the pool instead of starting one:
    /// in single trigger mode, whenever the pool holds a voice.
    pub open spec fn reuses_voice(self) -> bool {
        self.settings.play_mode == PlayMode::SingleTrigger && self.voices.len() > 0
    }

    /// The voices after a note-on, where `id` is the number a new voice
    /// gets.
    ///
    /// In poly mode the new voice joins the pool. In mono mode every voice
    /// of the pool is released first. In both, a voice that held the same
    /// key leaves the pool. In single trigger mode with a voice in the pool,
    /// the oldest voice is retuned to the new pitch and takes the new key,
    /// and it alone stays in the pool.
    pub open spec fn note_on_voices(self, key: Key, pitch: i32, pressure: i32, id: u64) -> Seq<
        Voice,
    > {
        if self.reuses_voice() {
            seq![Voice { key, ..Change::Retune(pitch).spec_applied(self.voices[0]) }]
        } else if self.settings.play_mode == PlayMode::Mono {
            self.voices.map_values(changing(Selector::All, Change::Release)).filter(
                sparing(Selector::WithKey(key)),
            ).push(self.new_voice(key, pitch, pressure, id))
        } else {
            self.voices.filter(sparing(Selector::WithKey(key))).push(
                self.new_voice(key, pitch, pressure, id),
            )
        }
    }

    /// The commands that a note-on issues.
    pub open spec fn note_on_commands(self, key: Key, pitch: i32, pressure: i32, id: u64) -> Seq<
        Command,
    > {
        if self.reuses_voice() {
            seq![Change::Retune(pitch).command(self.voices[0])]
        } else if self.settings.play_mode == PlayMode::Mono {
            self.voices.filter_map(commanding(Selector::All, Change::Release)).push(
                self.start_command(key, pitch, pressure, id),
            )
        } else {
            seq![self.start_command(key, pitch, pressure, id)]
        }
    }

    pub open spec fn note_on(self, key: Key, pitch: i32, pressure: i32, id: u64) -> SynthView {
        SynthView { voices: self.note_on_voices(key, pitch, pressure, id), ..self }
    }

    /// The state after the voices that `selector` picks left the pool.
    pub open spec fn without(self, selector: Selector) -> SynthView {
        SynthView { voices: self.voices.filter(sparing(selector)), ..self }
    }

    /// The state after `change` was applied to the voices that `selector`
    /// picks.
    pub open spec fn changed(self, selector: Selector, change: Change) -> SynthView {
        SynthView { voices: self.voices.map_values(changing(selector, change)), ..self }
    }

    /// The commands that release the voices that `selector` picks.
    pub open spec fn releases(self, selector: Selector) -> Seq<Command> {
        self.voices.filter_map(commanding(selector, Change::Release))
    }

    /// The commands that apply `change` to the voices that `selector` picks.
    pub open spec fn changes(self, selector: Selector, change: Change) -> Seq<Command> {
        self.voices.filter_map(commanding(selector, change))
    }

    pub open spec fn pitch_bend(self, channel: u8, bend: i32) -> SynthView {
        SynthView {
            bend_memory: remembering(self.bend_memory, channel, bend),
            ..self.changed(Selector::OnChannel(channel), Change::Bend(bend))
        }
    }

    pub open spec fn modulate(self, channel: u8, depth: i32) -> SynthView {
        SynthView {
            mod_memory: remembering(self.mod_memory, channel, depth),
            ..self.changed(Selector::OnChannel(channel), Change::Modulation(depth))
        }
    }

    pub open spec fn reset_memory(self) -> SynthView {
        SynthView {
            bend_memory: Seq::new(16, |i: int| 0i32),
            mod_memory: Seq::new(16, |i: int| 0i32),
            ..self
        }
    }

    /// Number of voices whose gate is open.
    pub open spec fn sounding(self) -> nat {
        self.voices.filter(holding()).len()
    }

    /// The state after the event, and the sequencer after it, from the state
    /// `self` with the sequencer `q`.
    pub open spec fn after(self, q: SequencerView, event: NoteEvent) -> (SynthView, SequencerView) {
        match event {
            NoteEvent::On { key, pitch, pressure } => (
                self.note_on(key, pitch, pressure, q.next_voice),
                q.issued(
                    self.note_on_commands(key, pitch, pressure, q.next_voice),
                    !self.reuses_voice(),
                ),
            ),
            NoteEvent::Off { key } => (
                self.without(Selector::WithKey(key)),
                q.issued(self.releases(Selector::WithKey(key)), false),
            ),
        }
    }

    /// The state and the sequencer after the events, in their order.
    pub open spec fn played(self, q: SequencerView, events: Seq<NoteEvent>) -> (
        SynthView,
        SequencerView,
    )
        decreases events.len(),
    {
        if events.len() == 0 {
            (self, q)
        } else {
            let before = self.played(q, events.drop_last());
            before.0.after(before.1, events.last())
        }
    }
}

/// The voices whose gate is open.
pub open spec fn holding() -> spec_fn(Voice) -> bool {
    |v: Voice| v.held
}

/// The keys of the voices in a pool.
pub open spec fn key_set(voices: Seq<Voice>) -> Set<Key> {
    Set::new(|k: Key| exists|i: int| 0 <= i < voices.len() && (#[trigger] voices[i]).key == k)
}

/// A note starts or a note ends.
pub enum NoteEvent {
    On { key: Key, pitch: i32, pressure: i32 },
    Off { key: Key },
}

/// The keys that are held down after the events, if `held` were before.
pub open spec fn held_after(held: Set<Key>, events: Seq<NoteEvent>) -> Set<Key>
    decreases events.len(),
{
    if events.len() == 0 {
        held
    } else {
        let before = held_after(held, events.drop_last());
        match events.last() {
            NoteEvent::On { key, pitch, pressure } => before.insert(key),
            NoteEvent::Off { key } => before.remove(key),
        }
    }
}

impl View for Synth {
    type V = SynthView;

    closed spec fn view(&self) -> SynthView {
        SynthView {
            settings: self.settings@,
            voices: self.voices@,
            bend_memory: self.bend_memory@,
            mod_memory: self.mod_memory@,
        }
    }
}

impl Synth {
    pub fn new() -> (s: Synth)
        ensures
            s@ == SynthView::initial(),
            s@.wf(),
    {
        let s = Synth {
            settings: Settings::new(),
            voices: Vec::new(),
            bend_memory: [0;16],
            mod_memory: [0;16],
        };
        assert(s.bend_memory@ =~= Seq::new(16, |i: int| 0i32));
        s
    }

    /// Replaces the settings by a copy of `patch`.
    pub fn load(&mut self, patch: &Settings)
        ensures
            final(self)@ == (SynthView { settings: patch@, ..old(self)@ }),
            old(self)@.wf() ==> final(self)@.wf(),
    {
        self.settings = patch.duplicate();
    }

    /// Number of voices in the pool.
    pub fn voice_count(&self) -> (n: usize)
        ensures
            n == self@.voices.len(),
    {
        self.voices.len()
    }

    /// The voices in the pool, oldest first.
    pub fn voices(&self) -> (v: Vec<Voice>)
        ensures
            v@ == self@.voices,
    {
        self.voices.clone()
    }

    /// Last pitch bend of the channel, or 0 beyond the 16 channels.
    pub fn bend_memory(&self, channel: u8) -> (bend: i32)
        ensures
            bend == (if channel < 16 {
                self@.bend_memory[channel as int]
            } else {
                0
            }),
    {
        if channel < 16 {
            self.bend_memory[channel as usize]
        } else {
            0
        }
    }

    /// Last modulation wheel position of the channel, or 0 beyond the 16
    /// channels.
    pub fn mod_memory(&self, channel: u8) -> (depth: i32)
        ensures
            depth == (if channel < 16 {
                self@.mod_memory[channel as int]
            } else {
                0
            }),
    {
        if channel < 16 {
            self.mod_memory[channel as usize]
        } else {
            0
        }
    }

    /// Starts a note, as the play mode of the settings says.
    pub fn note_on(&mut self, key: Key, pitch: i32, pressure: i32, seq: &mut Sequencer)
        ensures
            final(self)@ == old(self)@.note_on(key, pitch, pressure, old(seq)@.next_voice),
            final(seq)@ == old(seq)@.issued(
                old(self)@.note_on_commands(key, pitch, pressure, old(seq)@.next_voice),
                !old(self)@.reuses_voice(),
            ),
            old(self)@.wf() ==> final(self)@.wf(),
    {
        proof {
            if self@.wf() {
                lemma_note_on_keeps_wf(self@, key, pitch, pressure, seq@.next_voice);
            }
        }
        let midi = key.origin == KeyOrigin::Midi && key.channel < 16;
        let bend = if midi {
            self.bend_memory[key.channel as usize]
        } else {
            0
        };
        let modulation = if midi {
            self.mod_memory[key.channel as usize]
        } else {
            0
        };
        let sounding = pitch as i64 + bend as i64;
        match self.settings.play_mode {
            PlayMode::SingleTrigger => {
                if self.voices.len() > 0 {
                    let v = self.voices[0];
                    let change = Change::Retune(pitch);
                    change.issue(v, seq);
                    let mut pool: Vec<Voice> = Vec::new();
                    pool.push(Voice { key, ..change.applied(v) });
                    self.voices = pool;
                    return ;
                }
            },
            PlayMode::Mono => {
                change_voices(&mut self.voices, Selector::All, Change::Release, seq);
            },
            PlayMode::Poly => {},
        }
        remove_voices(&mut self.voices, Selector::WithKey(key), false, seq);
        let release_time = self.settings.release_time();
        let graph = self.settings.voice_signal();
        let id = seq.start(graph, sounding, pressure, modulation);
        self.voices.push(
            Voice { key, id, base_pitch: pitch, pitch: sounding, pressure, modulation, held: true, release_time },
        );
        assert(seq@.commands =~= old(seq)@.commands + old(self)@.note_on_commands(
            key,
            pitch,
            pressure,
            old(seq)@.next_voice,
        ));
    }

    /// Ends a note: the voice with the key, if there is one, is released
    /// and leaves the pool.
    pub fn note_off(&mut self, key: Key, seq: &mut Sequencer)
        ensures
            final(self)@ == old(self)@.without(Selector::WithKey(key)),
            final(seq)@ == old(seq)@.issued(old(self)@.releases(Selector::WithKey(key)), false),
            old(self)@.wf() ==> final(self)@.wf(),
    {
        proof {
            if self@.wf() {
                lemma_without_keeps_wf(self@, Selector::WithKey(key));
            }
        }
        remove_voices(&mut self.voices, Selector::WithKey(key), true, seq);
    }

    /// Bends the pitch of a MIDI channel: the voices of MIDI origin on the
    /// channel sound at their base pitch plus `bend` from now on, and so do
    /// the notes that follow on it.
    pub fn pitch_bend(&mut self, channel: u8, bend: i32, seq: &mut Sequencer)
        ensures
            final(self)@ == old(self)@.pitch_bend(channel, bend),
            final(seq)@ == old(seq)@.issued(
                old(self)@.changes(Selector::OnChannel(channel), Change::Bend(bend)),
                false,
            ),
            old(self)@.wf() ==> final(self)@.wf(),
    {
        proof {
            if self@.wf() {
                lemma_changed_keeps_wf(self@, Selector::OnChannel(channel), Change::Bend(bend));
            }
        }
        if channel < 16 {
            self.bend_memory[channel as usize] = bend;
        }
        change_voices(&mut self.voices, Selector::OnChannel(channel), Change::Bend(bend), seq);
    }

    /// Sets the pressure of the voice with the key, if there is one.
    pub fn poly_pressure(&mut self, key: Key, pressure: i32, seq: &mut Sequencer)
        ensures
            final(self)@ == old(self)@.changed(Selector::WithKey(key), Change::Pressure(pressure)),
            final(seq)@ == old(seq)@.issued(
                old(self)@.changes(Selector::WithKey(key), Change::Pressure(pressure)),
                false,
            ),
            old(self)@.wf() ==> final(self)@.wf(),
    {
        proof {
            if self@.wf() {
                lemma_changed_keeps_wf(self@, Selector::WithKey(key), Change::Pressure(pressure));
            }
        }
        change_voices(&mut self.voices, Selector::WithKey(key), Change::Pressure(pressure), seq);
    }

    /// Sets the pressure of the voices of MIDI origin on the channel.
    pub fn channel_pressure(&mut self, channel: u8, pressure: i32, seq: &mut Sequencer)
        ensures
            final(self)@ == old(self)@.changed(
                Selector::OnChannel(channel),
                Change::Pressure(pressure),
            ),
            final(seq)@ == old(seq)@.issued(
                old(self)@.changes(Selector::OnChannel(channel), Change::Pressure(pressure)),
                false,
            ),
            old(self)@.wf() ==> final(self)@.wf(),
    {
        proof {
            if self@.wf() {
                lemma_changed_keeps_wf(
                    self@,
                    Selector::OnChannel(channel),
                    Change::Pressure(pressure),
                );
            }
        }
        change_voices(
            &mut self.voices,
            Selector::OnChannel(channel),
            Change::Pressure(pressure),
            seq,
        );
    }

    /// Moves the modulation wheel of a MIDI channel: for the voices of MIDI
    /// origin on the channel, and for the notes that follow on it.
    pub fn modulate(&mut self, channel: u8, depth: i32, seq: &mut Sequencer)
        ensures
            final(self)@ == old(self)@.modulate(channel, depth),
            final(seq)@ == old(seq)@.issued(
                old(self)@.changes(Selector::OnChannel(channel), Change::Modulation(depth)),
                false,
            ),
            old(self)@.wf() ==> final(self)@.wf(),
    {
        proof {
            if self@.wf() {
                lemma_changed_keeps_wf(
                    self@,
                    Selector::OnChannel(channel),
                    Change::Modulation(depth),
                );
            }
        }
        if channel < 16 {
            self.mod_memory[channel as usize] = depth;
        }
        change_voices(
            &mut self.voices,
            Selector::OnChannel(channel),
            Change::Modulation(depth),
            seq,
        );
    }

    /// Releases every voice of the given origin and takes it out of the
    /// pool.
    pub fn clear_notes_with_origin(&mut self, seq: &mut Sequencer, origin: KeyOrigin)
        ensures
            final(self)@ == old(self)@.without(Selector::From(origin)),
            final(seq)@ == old(seq)@.issued(old(self)@.releases(Selector::From(origin)), false),
            old(self)@.wf() ==> final(self)@.wf(),
    {
        proof {
            if self@.wf() {
                lemma_without_keeps_wf(self@, Selector::From(origin));
            }
        }
        remove_voices(&mut self.voices, Selector::From(origin), true, seq);
    }

    /// Forgets the pitch bend and modulation of every channel.
    pub fn reset_memory(&mut self)
        ensures
            final(self)@ == old(self)@.reset_memory(),
            old(self)@.wf() ==> final(self)@.wf(),
    {
        proof {
            if self@.wf() {
                lemma_changed_keeps_wf(self@, Selector::All, Change::Release);
            }
        }
        self.bend_memory = [0;16];
        self.mod_memory = [0;16];
        assert(self.bend_memory@ =~= Seq::new(16, |i: int| 0i32));
    }
}


/// What holds of the voices that are left when those that a selector picks
/// leave the pool.
pub proof fn lemma_sparing(voices: Seq<Voice>, selector: Selector)
    ensures
        voices.filter(sparing(selector)).len() <= voices.len(),
        forall|i: int|
            0 <= i < voices.filter(sparing(selector)).len() ==> !selector.spec_picks(
                #[trigger] voices.filter(sparing(selector))[i],
            ) && voices.contains(voices.filter(sparing(selector))[i]),
        forall|j: int|
            0 <= j < voices.len() && !selector.spec_picks(#[trigger] voices[j])
                ==> voices.filter(sparing(selector)).contains(voices[j]),
        keys_unique(voices) ==> keys_unique(voices.filter(sparing(selector))),
        voices.filter(sparing(selector)).filter(holding()).len() <= voices.filter(
            holding(),
        ).len(),
    decreases voices.len(),
{
    reveal(Seq::filter);
    let p = sparing(selector);
    let left = voices.filter(p);
    if voices.len() > 0 {
        let rest = voices.drop_last();
        let last = voices.last();
        let sub = rest.filter(p);
        lemma_sparing(rest, selector);
        rest.lemma_filter_push(last, p);
        rest.lemma_filter_push(last, holding());
        sub.lemma_filter_push(last, holding());
    }
}

/// A pool without two voices of one key has as many voices as keys.
pub proof fn lemma_key_set_len(voices: Seq<Voice>)
    requires
        keys_unique(voices),
    ensures
        key_set(voices).finite(),
        key_set(voices).len() == voices.len(),
    decreases voices.len(),
{
    if voices.len() == 0 {
        assert(key_set(voices) =~= Set::empty());
    } else {
        let rest = voices.drop_last();
        let last = voices.last();
        lemma_key_set_len(rest);
        assert(key_set(voices) =~= key_set(rest).insert(last.key)) by {
            assert forall|k: Key| key_set(voices).contains(k) implies key_set(rest).insert(
                last.key,
            ).contains(k) by {
                let i = choose|i: int| 0 <= i < voices.len() && (#[trigger] voices[i]).key == k;
                if i < rest.len() {
                    assert(rest[i].key == k);
                }
            }
            assert forall|k: Key| key_set(rest).insert(last.key).contains(k) implies key_set(
                voices,
            ).contains(k) by {
                if k == last.key {
                    assert(voices[voices.len() - 1].key == k);
                } else {
                    let i = choose|i: int| 0 <= i < rest.len() && (#[trigger] rest[i]).key == k;
                    assert(voices[i].key == k);
                }
            }
        }
    }
}

/// The keys of a pool after the voice with `key` left it.
proof fn lemma_key_set_without(voices: Seq<Voice>, key: Key)
    ensures
        key_set(voices.filter(sparing(Selector::WithKey(key)))) == key_set(voices).remove(key),
{
    let selector = Selector::WithKey(key);
    let left = voices.filter(sparing(selector));
    lemma_sparing(voices, selector);
}

/// The keys of a pool after a voice joined it.
proof fn lemma_key_set_push(voices: Seq<Voice>, v: Voice)
    ensures
        key_set(voices.push(v)) == key_set(voices).insert(v.key),
{
    let more = voices.push(v);
    assert forall|k: Key| key_set(voices).insert(v.key).contains(k) implies key_set(more).contains(
        k,
    ) by {
        if k == v.key {
            assert(more[more.len() - 1].key == k);
        } else {
            let i = choose|i: int| 0 <= i < voices.len() && (#[trigger] voices[i]).key == k;
            assert(more[i].key == k);
        }
    }
}

/// A voice joins a pool that holds none with its key: no two voices share
/// a key afterwards.
proof fn lemma_push_keeps_unique(voices: Seq<Voice>, v: Voice)
    requires
        keys_unique(voices),
        !key_set(voices).contains(v.key),
    ensures
        keys_unique(voices.push(v)),
{
    let more = voices.push(v);
}

/// A note-on keeps the pool well formed: afterwards, too, no two voices
/// share a key.
pub proof fn lemma_note_on_keeps_wf(s: SynthView, key: Key, pitch: i32, pressure: i32, id: u64)
    requires
        s.wf(),
    ensures
        s.note_on(key, pitch, pressure, id).wf(),
        !s.reuses_voice() ==> key_set(s.note_on(key, pitch, pressure, id).voices) == key_set(
            s.voices,
        ).insert(key),
{
    if !s.reuses_voice() {
        let before = if s.settings.play_mode == PlayMode::Mono {
            s.voices.map_values(changing(Selector::All, Change::Release))
        } else {
            s.voices
        };
        assert(key_set(before) =~= key_set(s.voices)) by {
            assert forall|k: Key| key_set(before).contains(k) implies key_set(s.voices).contains(
                k,
            ) by {
                let i = choose|i: int| 0 <= i < before.len() && (#[trigger] before[i]).key == k;
                assert(s.voices[i].key == k);
            }
            assert forall|k: Key| key_set(s.voices).contains(k) implies key_set(before).contains(
                k,
            ) by {
                let i = choose|i: int| 0 <= i < s.voices.len() && (#[trigger] s.voices[i]).key == k;
                assert(before[i].key == k);
            }
        }
        let left = before.filter(sparing(Selector::WithKey(key)));
        lemma_sparing(before, Selector::WithKey(key));
        lemma_key_set_without(before, key);
        let v = s.new_voice(key, pitch, pressure, id);
        lemma_push_keeps_unique(left, v);
        lemma_key_set_push(left, v);
    }
}

/// Voices that leave the pool keep it well formed.
pub proof fn lemma_without_keeps_wf(s: SynthView, selector: Selector)
    requires
        s.wf(),
    ensures
        s.without(selector).wf(),
{
    lemma_sparing(s.voices, selector);
}

/// A change to voices keeps the pool well formed: it changes no key. So do
/// a pitch bend, a move of the modulation wheel and a reset of the
/// memories.
pub proof fn lemma_changed_keeps_wf(s: SynthView, selector: Selector, change: Change)
    requires
        s.wf(),
    ensures
        s.changed(selector, change).wf(),
        forall|channel: u8, value: i32|
            (SynthView {
                bend_memory: #[trigger] remembering(s.bend_memory, channel, value),
                ..s.changed(selector, change)
            }).wf(),
        forall|channel: u8, value: i32|
            (SynthView {
                mod_memory: #[trigger] remembering(s.mod_memory, channel, value),
                ..s.changed(selector, change)
            }).wf(),
        s.reset_memory().wf(),
{
    let after = s.voices.map_values(changing(selector, change));
}

/// In poly mode, whatever notes start and end, the pool holds one voice for
/// each key that is held down and no other: as many voices as held keys.
pub proof fn lemma_poly_voices_are_held_keys(
    s: SynthView,
    q: SequencerView,
    events: Seq<NoteEvent>,
)
    requires
        s.wf(),
        s.settings.play_mode == PlayMode::Poly,
    ensures
        s.played(q, events).0.wf(),
        s.played(q, events).0.settings == s.settings,
        key_set(s.played(q, events).0.voices) == held_after(key_set(s.voices), events),
        held_after(key_set(s.voices), events).finite(),
        s.played(q, events).0.voices.len() == held_after(key_set(s.voices), events).len(),
    decreases events.len(),
{
    if events.len() > 0 {
        lemma_poly_voices_are_held_keys(s, q, events.drop_last());
        let before = s.played(q, events.drop_last());
        match events.last() {
            NoteEvent::On { key, pitch, pressure } => {
                lemma_note_on_keeps_wf(before.0, key, pitch, pressure, before.1.next_voice);
            },
            NoteEvent::Off { key } => {
                lemma_without_keeps_wf(before.0, Selector::WithKey(key));
                lemma_key_set_without(before.0.voices, key);
            },
        }
    }
    lemma_key_set_len(s.played(q, events).0.voices);
}

/// In mono mode a note-on leaves exactly one voice with its gate open: the
/// new one.
pub proof fn lemma_mono_note_on_sounds_one(
    s: SynthView,
    key: Key,
    pitch: i32,
    pressure: i32,
    id: u64,
)
    requires
        s.settings.play_mode == PlayMode::Mono,
    ensures
        s.note_on(key, pitch, pressure, id).sounding() == 1,
        s.note_on(key, pitch, pressure, id).voices.last() == s.new_voice(key, pitch, pressure, id),
{
    let released = s.voices.map_values(changing(Selector::All, Change::Release));
    let left = released.filter(sparing(Selector::WithKey(key)));
    lemma_sparing(released, Selector::WithKey(key));
    left.lemma_all_neg_filter_empty(holding());
    left.lemma_filter_push(s.new_voice(key, pitch, pressure, id), holding());
}

/// In mono mode, whatever notes start and end, at most one voice has its
/// gate open at any time.
pub proof fn lemma_mono_sounds_at_most_one(s: SynthView, q: SequencerView, events: Seq<NoteEvent>)
    requires
        s.settings.play_mode == PlayMode::Mono,
        s.sounding() <= 1,
    ensures
        s.played(q, events).0.settings == s.settings,
        s.played(q, events).0.sounding() <= 1,
    decreases events.len(),
{
    if events.len() > 0 {
        lemma_mono_sounds_at_most_one(s, q, events.drop_last());
        let before = s.played(q, events.drop_last());
        match events.last() {
            NoteEvent::On { key, pitch, pressure } => {
                lemma_mono_note_on_sounds_one(before.0, key, pitch, pressure, before.1.next_voice);
            },
            NoteEvent::Off { key } => {
                lemma_sparing(before.0.voices, Selector::WithKey(key));
            },
        }
    }
}

/// In single trigger mode a note-on while a voice is in the pool starts no
/// voice: the oldest voice stays, under the same number, with the new key
/// and pitch, and the only command sets its pitch.
pub proof fn lemma_single_trigger_keeps_voice(
    s: SynthView,
    q: SequencerView,
    key: Key,
    pitch: i32,
    pressure: i32,
)
    requires
        s.settings.play_mode == PlayMode::SingleTrigger,
        s.voices.len() > 0,
    ensures
        s.note_on(key, pitch, pressure, q.next_voice).voices == seq![
            Voice { key, pitch: pitch as i64, ..s.voices[0] },
        ],
        s.note_on(key, pitch, pressure, q.next_voice).voices[0].id == s.voices[0].id,
        s.note_on(key, pitch, pressure, q.next_voice).voices[0].held == s.voices[0].held,
        s.note_on_commands(key, pitch, pressure, q.next_voice) == seq![
            Command::SetPitch { voice: s.voices[0].id, pitch: pitch as i64 },
        ],
        s.after(q, NoteEvent::On { key, pitch, pressure }).1.next_voice == q.next_voice,
{
}


/// A key that no voice holds picks nothing: a note-off or a pressure for it
/// changes no voice and issues no command.
pub proof fn lemma_absent_key_changes_nothing(s: SynthView, key: Key, change: Change)
    requires
        !key_set(s.voices).contains(key),
    ensures
        s.without(Selector::WithKey(key)) == s,
        s.releases(Selector::WithKey(key)) == Seq::<Command>::empty(),
        s.changed(Selector::WithKey(key), change) == s,
        s.changes(Selector::WithKey(key), change) == Seq::<Command>::empty(),
{
    lemma_picks_nothing(s.voices, Selector::WithKey(key), change);
    lemma_picks_nothing(s.voices, Selector::WithKey(key), Change::Release);
}

/// Where a selector picks no voice of a pool, removing or changing what it
/// picks leaves the pool as it is and issues no command.
pub proof fn lemma_picks_nothing(voices: Seq<Voice>, selector: Selector, change: Change)
    requires
        forall|i: int| 0 <= i < voices.len() ==> !selector.spec_picks(#[trigger] voices[i]),
    ensures
        voices.filter(sparing(selector)) == voices,
        voices.map_values(changing(selector, change)) == voices,
        voices.filter_map(commanding(selector, change)) == Seq::<Command>::empty(),
    decreases voices.len(),
{
    reveal(Seq::filter);
    if voices.len() > 0 {
        let rest = voices.drop_last();
        assert forall|i: int| 0 <= i < rest.len() implies !selector.spec_picks(
            #[trigger] rest[i],
        ) by {
            assert(rest[i] == voices[i]);
        }
        lemma_picks_nothing(rest, selector, change);
        assert(!selector.spec_picks(voices[voices.len() - 1]));
        assert(rest.push(voices.last()) =~= voices);
    }
    assert(voices.map_values(changing(selector, change)) =~= voices);
}

/// A change to voices that sound never rebuilds a graph: every command that
/// a pitch bend, a pressure or a modulation issues sets a parameter of a
/// voice that is in the pool.
pub proof fn lemma_changes_set_parameters(s: SynthView, selector: Selector, change: Change)
    requires
        change != Change::Release,
    ensures
        forall|i: int|
            0 <= i < s.changes(selector, change).len() ==> !(
            #[trigger] s.changes(selector, change)[i] is Start) && !(s.changes(
                selector,
                change,
            )[i] is Release),
{
    let commands = s.changes(selector, change);
    assert forall|i: int| 0 <= i < commands.len() implies !(#[trigger] commands[i] is Start) && !(
    commands[i] is Release) by {
        s.voices.lemma_filter_map_contains(commanding(selector, change), commands[i]);
    }
}

} // verus!

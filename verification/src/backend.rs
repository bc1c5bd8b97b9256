//! The control side of the audio backend.
//!
//! Structural changes to what sounds (a voice starts, a voice is released)
//! and writes to the live parameters of a voice are recorded here as
//! commands, in the order they were issued. Whoever drives the audio device
//! takes the commands and carries them out; nothing ever flows back.

use crate::graph::Signal;
use vstd::prelude::*;

verus! {

/// Time, in milliseconds, over which a released voice is faded out at the
/// end of its release.
pub const RELEASE_FADE: i32 = 10;

/// One instruction for the audio side. Pitches are in thousandths of a
/// semitone on the MIDI scale; pressure and modulation in thousandths of
/// full scale; times in milliseconds.
#[derive(PartialEq, Eq, Debug)]
pub enum Command {
    /// Build `graph` and let it sound from now on, with its frequency,
    /// pressure and modulation parameters set as given and its key held.
    Start { voice: u64, graph: Signal, pitch: i64, pressure: i32, modulation: i32 },
    /// Let the voice go into its release and take its graph away once
    /// `release_time` has passed.
    Release { voice: u64, release_time: i32 },
    /// Set the frequency of the voice to that of `pitch`.
    SetPitch { voice: u64, pitch: i64 },
    /// Set the pressure of the voice.
    SetPressure { voice: u64, pressure: i32 },
    /// Set the modulation wheel position of the voice.
    SetModulation { voice: u64, depth: i32 },
}

/// The commands issued and not yet taken, and the number the next voice
/// will get.
#[derive(Debug)]
pub struct Sequencer {
    pub next_voice: u64,
    pub commands: Vec<Command>,
}

pub struct SequencerView {
    pub next_voice: u64,
    pub commands: Seq<Command>,
}

/// The voice number after `id`. Numbers start over after the last one.
pub open spec fn next_id(id: u64) -> u64 {
    if id == u64::MAX {
        0
    } else {
        (id + 1) as u64
    }
}

impl SequencerView {
    /// The state after `commands` were issued, `started` of them having
    /// started a new voice.
    pub open spec fn issued(self, commands: Seq<Command>, started: bool) -> SequencerView {
        SequencerView {
            next_voice: if started {
                next_id(self.next_voice)
            } else {
                self.next_voice
            },
            commands: self.commands + commands,
        }
    }
}

impl View for Sequencer {
    type V = SequencerView;

    open spec fn view(&self) -> SequencerView {
        SequencerView { next_voice: self.next_voice, commands: self.commands@ }
    }
}

impl Sequencer {
    pub fn new() -> (s: Sequencer)
        ensures
            s@ == (SequencerView { next_voice: 0, commands: Seq::empty() }),
    {
        Sequencer { next_voice: 0, commands: Vec::new() }
    }

    fn issue(&mut self, command: Command)
        ensures
            final(self).next_voice == old(self).next_voice,
            final(self).commands@ == old(self).commands@ + seq![command],
    {
        self.commands.push(command);
    }

    /// Starts a voice and returns its number.
    pub fn start(&mut self, graph: Signal, pitch: i64, pressure: i32, modulation: i32) -> (voice:
        u64)
        ensures
            voice == old(self)@.next_voice,
            final(self)@ == old(self)@.issued(
                seq![Command::Start { voice, graph, pitch, pressure, modulation }],
                true,
            ),
    {
        let voice = self.next_voice;
        self.next_voice = if voice == u64::MAX {
            0
        } else {
            voice + 1
        };
        self.issue(Command::Start { voice, graph, pitch, pressure, modulation });
        voice
    }

    /// Releases a voice.
    pub fn release(&mut self, voice: u64, release_time: i32)
        ensures
            final(self)@ == old(self)@.issued(
                seq![Command::Release { voice, release_time }],
                false,
            ),
    {
        self.issue(Command::Release { voice, release_time });
    }

    pub fn set_pitch(&mut self, voice: u64, pitch: i64)
        ensures
            final(self)@ == old(self)@.issued(seq![Command::SetPitch { voice, pitch }], false),
    {
        self.issue(Command::SetPitch { voice, pitch });
    }

    pub fn set_pressure(&mut self, voice: u64, pressure: i32)
        ensures
            final(self)@ == old(self)@.issued(
                seq![Command::SetPressure { voice, pressure }],
                false,
            ),
    {
        self.issue(Command::SetPressure { voice, pressure });
    }

    pub fn set_modulation(&mut self, voice: u64, depth: i32)
        ensures
            final(self)@ == old(self)@.issued(
                seq![Command::SetModulation { voice, depth }],
                false,
            ),
    {
        self.issue(Command::SetModulation { voice, depth });
    }

    /// Hands over the commands issued since the last call, oldest first.
    pub fn take(&mut self) -> (commands: Vec<Command>)
        ensures
            commands@ == old(self)@.commands,
            final(self)@ == (SequencerView {
                next_voice: old(self)@.next_voice,
                commands: Seq::empty(),
            }),
    {
        let mut commands: Vec<Command> = Vec::new();
        std::mem::swap(&mut commands, &mut self.commands);
        commands
    }
}

} // verus!

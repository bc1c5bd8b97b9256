//! MIDI input: the messages of a device, and what they ask of a player.
//!
//! A message is decoded from its bytes; a message that is cut short or
//! that is none of the channel messages known here decodes to nothing.
//! Controllers keep a little state: the registered parameter that is
//! selected and, set through it, the range of the pitch wheel.

use crate::synth::{Key, KeyOrigin};
use vstd::prelude::*;

verus! {

pub const CC_MODULATION: u8 = 1;

pub const CC_DATA_ENTRY_MSB: u8 = 6;

pub const CC_DATA_ENTRY_LSB: u8 = 38;

pub const CC_RPN_LSB: u8 = 100;

pub const CC_RPN_MSB: u8 = 101;

/// Greatest value of a data byte.
pub const DATA_MAX: u8 = 127;

/// Value of the pitch wheel at rest.
pub const BEND_CENTER: i32 = 8192;

/// Range of the pitch wheel before a device sets it, in thousandths of a
/// semitone.
pub const DEFAULT_BEND_RANGE: i32 = 2000;

/// A channel message.
#[derive(PartialEq, Eq, Structural, Clone, Copy, Debug)]
pub enum MidiEvent {
    NoteOff { channel: u8, key: u8, velocity: u8 },
    NoteOn { channel: u8, key: u8, velocity: u8 },
    PolyPressure { channel: u8, key: u8, pressure: u8 },
    Controller { channel: u8, controller: u8, value: u8 },
    ChannelPressure { channel: u8, pressure: u8 },
    /// Position of the pitch wheel, from -8192 to 8191 with 0 at rest.
    Pitch { channel: u8, bend: i16 },
}

/// The message that the bytes hold: a status byte with the kind of message
/// in its high half and the channel in its low half, then one or two data
/// bytes. Bytes behind the message are passed over.
pub open spec fn spec_parse(data: Seq<u8>) -> Option<MidiEvent> {
    if data.len() < 2 {
        None
    } else {
        let channel = data[0] & 0x0f;
        let kind = data[0] & 0xf0;
        if kind == 0xd0 {
            Some(MidiEvent::ChannelPressure { channel, pressure: data[1] })
        } else if data.len() < 3 {
            None
        } else if kind == 0x80 {
            Some(MidiEvent::NoteOff { channel, key: data[1], velocity: data[2] })
        } else if kind == 0x90 {
            Some(MidiEvent::NoteOn { channel, key: data[1], velocity: data[2] })
        } else if kind == 0xa0 {
            Some(MidiEvent::PolyPressure { channel, key: data[1], pressure: data[2] })
        } else if kind == 0xb0 {
            Some(MidiEvent::Controller { channel, controller: data[1], value: data[2] })
        } else if kind == 0xe0 {
            Some(
                MidiEvent::Pitch {
                    channel,
                    bend: (((data[2] & 0x7f) as int) * 128 + ((data[1] & 0x7f) as int) - 8192) as i16,
                },
            )
        } else {
            None
        }
    }
}

impl MidiEvent {
    /// Decodes a message.
    pub fn parse(data: &[u8]) -> (r: Option<MidiEvent>)
        ensures
            r == spec_parse(data@),
    {
        if data.len() < 2 {
            return None;
        }
        let channel = data[0] & 0x0f;
        let kind = data[0] & 0xf0;
        if kind == 0xd0 {
            return Some(MidiEvent::ChannelPressure { channel, pressure: data[1] });
        }
        if data.len() < 3 {
            return None;
        }
        if kind == 0x80 {
            Some(MidiEvent::NoteOff { channel, key: data[1], velocity: data[2] })
        } else if kind == 0x90 {
            Some(MidiEvent::NoteOn { channel, key: data[1], velocity: data[2] })
        } else if kind == 0xa0 {
            Some(MidiEvent::PolyPressure { channel, key: data[1], pressure: data[2] })
        } else if kind == 0xb0 {
            Some(MidiEvent::Controller { channel, controller: data[1], value: data[2] })
        } else if kind == 0xe0 {
            let second = data[2];
            let first = data[1];
            let high = second & 0x7f;
            let low = first & 0x7f;
            Some(MidiEvent::Pitch { channel, bend: (high as i32 * 128 + low as i32 - 8192) as i16 })
        } else {
            None
        }
    }
}

/// A value of a data byte, in thousandths of its greatest value, rounded.
pub open spec fn spec_data_level(value: u8) -> i32 {
    ((value * 1000 + 63) / 127) as i32
}

#[verifier::when_used_as_spec(spec_data_level)]
pub fn data_level(value: u8) -> (level: i32)
    ensures
        level == spec_data_level(value),
{
    (value as i32 * 1000 + 63) / 127
}

/// What a message asks of the player, for the track that is played by
/// hand.
#[derive(PartialEq, Eq, Structural, Clone, Copy, Debug)]
pub enum MidiAction {
    /// Start the note of this MIDI key, with this pressure.
    NoteOn { key: Key, pressure: i32 },
    NoteOff { key: Key },
    PolyPressure { key: Key, pressure: i32 },
    ChannelPressure { channel: u8, pressure: i32 },
    Modulate { channel: u8, depth: i32 },
    /// Bend the pitch by so many thousandths of a semitone.
    PitchBend { channel: u8, bend: i32 },
}

/// Greatest range of the pitch wheel that is kept, in thousandths of a
/// semitone.
pub const MAX_BEND_RANGE: i32 = 500_000_000;

/// What is remembered of the controllers: the registered parameter that is
/// selected, and the range of the pitch wheel in thousandths of a
/// semitone.
#[derive(PartialEq, Eq, Clone, Copy, Debug)]
pub struct MidiState {
    rpn_msb: u8,
    rpn_lsb: u8,
    bend_range: i32,
}

pub struct MidiStateView {
    pub rpn: (u8, u8),
    pub bend_range: i32,
}

impl View for MidiState {
    type V = MidiStateView;

    closed spec fn view(&self) -> MidiStateView {
        MidiStateView { rpn: (self.rpn_msb, self.rpn_lsb), bend_range: self.bend_range }
    }
}

/// The registered parameter that sets the range of the pitch wheel.
pub open spec fn is_bend_sensitivity(rpn: (u8, u8)) -> bool {
    rpn.0 == 0 && rpn.1 == 0
}

/// The key of a note of a MIDI device.
pub open spec fn midi_key(channel: u8, key: u8) -> Key {
    Key { origin: KeyOrigin::Midi, channel, key }
}

/// The range with its whole semitones set to `value`. A value that is no
/// data byte changes nothing.
pub open spec fn with_semitones(range: i32, value: u8) -> i32 {
    if value <= DATA_MAX {
        (range % 1000 + value * 1000) as i32
    } else {
        range
    }
}

/// The range, rounded to whole semitones, plus `value` hundredths of a
/// semitone. A value that is no data byte changes nothing, nor does one
/// that would take the range beyond the greatest that is kept.
pub open spec fn with_cents(range: i32, value: u8) -> i32 {
    if value <= DATA_MAX && (range + 500) / 1000 * 1000 + value * 10 <= MAX_BEND_RANGE {
        ((range + 500) / 1000 * 1000 + value * 10) as i32
    } else {
        range
    }
}

/// How far the pitch wheel bends at a position, in thousandths of a
/// semitone: its share of the range, rounded toward 0.
pub open spec fn spec_bend(position: i16, range: i32) -> i32 {
    if position >= 0 {
        (position * range / 8192) as i32
    } else {
        (-((-position) * range / 8192)) as i32
    }
}

impl MidiStateView {
    /// The range is not negative and not beyond the greatest that is kept.
    pub open spec fn wf(self) -> bool {
        0 <= self.bend_range <= MAX_BEND_RANGE
    }

    /// The state after a message.
    pub open spec fn after(self, event: MidiEvent) -> MidiStateView {
        match event {
            MidiEvent::Controller { channel, controller, value } => if controller == CC_RPN_MSB {
                MidiStateView { rpn: (value, self.rpn.1), ..self }
            } else if controller == CC_RPN_LSB {
                MidiStateView { rpn: (self.rpn.0, value), ..self }
            } else if controller == CC_DATA_ENTRY_MSB && is_bend_sensitivity(self.rpn) {
                MidiStateView { bend_range: with_semitones(self.bend_range, value), ..self }
            } else if controller == CC_DATA_ENTRY_LSB && is_bend_sensitivity(self.rpn) {
                MidiStateView { bend_range: with_cents(self.bend_range, value), ..self }
            } else {
                self
            },
            _ => self,
        }
    }

    /// What a message asks for. A note-on without velocity ends the note.
    /// Pressure is passed on only where `send_pressure` is set. The pitch
    /// wheel bends by its share of the range.
    pub open spec fn asks(self, event: MidiEvent, send_pressure: bool) -> Option<MidiAction> {
        match event {
            MidiEvent::NoteOff { channel, key, velocity } => Some(
                MidiAction::NoteOff { key: midi_key(channel, key) },
            ),
            MidiEvent::NoteOn { channel, key, velocity } => if velocity != 0 {
                Some(
                    MidiAction::NoteOn {
                        key: midi_key(channel, key),
                        pressure: spec_data_level(velocity),
                    },
                )
            } else {
                Some(MidiAction::NoteOff { key: midi_key(channel, key) })
            },
            MidiEvent::PolyPressure { channel, key, pressure } => if send_pressure {
                Some(
                    MidiAction::PolyPressure {
                        key: midi_key(channel, key),
                        pressure: spec_data_level(pressure),
                    },
                )
            } else {
                None
            },
            MidiEvent::Controller { channel, controller, value } => if controller
                == CC_MODULATION {
                Some(MidiAction::Modulate { channel, depth: spec_data_level(value) })
            } else {
                None
            },
            MidiEvent::ChannelPressure { channel, pressure } => if send_pressure {
                Some(MidiAction::ChannelPressure { channel, pressure: spec_data_level(pressure) })
            } else {
                None
            },
            MidiEvent::Pitch { channel, bend } => Some(
                MidiAction::PitchBend { channel, bend: spec_bend(bend, self.bend_range) },
            ),
        }
    }
}

impl MidiState {
    #[verifier::type_invariant]
    spec fn inv(self) -> bool {
        self@.wf()
    }

    /// The state before any message: the range of the pitch wheel is
    /// selected, and it is two semitones.
    pub fn new() -> (s: MidiState)
        ensures
            s@ == (MidiStateView { rpn: (0, 0), bend_range: DEFAULT_BEND_RANGE }),
    {
        MidiState { rpn_msb: 0, rpn_lsb: 0, bend_range: DEFAULT_BEND_RANGE }
    }

    /// Range of the pitch wheel, in thousandths of a semitone.
    pub fn bend_range(&self) -> (range: i32)
        ensures
            range == self@.bend_range,
            self@.wf(),
    {
        proof {
            use_type_invariant(self);
        }
        self.bend_range
    }

    /// Takes a message in and returns what it asks of the player.
    pub fn handle(&mut self, event: MidiEvent, send_pressure: bool) -> (action: Option<MidiAction>)
        ensures
            final(self)@ == old(self)@.after(event),
            action == old(self)@.asks(event, send_pressure),
    {
        proof {
            use_type_invariant(&*self);
        }
        match event {
            MidiEvent::NoteOff { channel, key, velocity } => Some(
                MidiAction::NoteOff { key: Key { origin: KeyOrigin::Midi, channel, key } },
            ),
            MidiEvent::NoteOn { channel, key, velocity } => {
                let key = Key { origin: KeyOrigin::Midi, channel, key };
                if velocity != 0 {
                    Some(MidiAction::NoteOn { key, pressure: data_level(velocity) })
                } else {
                    Some(MidiAction::NoteOff { key })
                }
            },
            MidiEvent::PolyPressure { channel, key, pressure } => {
                if send_pressure {
                    Some(
                        MidiAction::PolyPressure {
                            key: Key { origin: KeyOrigin::Midi, channel, key },
                            pressure: data_level(pressure),
                        },
                    )
                } else {
                    None
                }
            },
            MidiEvent::Controller { channel, controller, value } => {
                if controller == CC_RPN_MSB {
                    self.rpn_msb = value;
                } else if controller == CC_RPN_LSB {
                    self.rpn_lsb = value;
                } else if controller == CC_DATA_ENTRY_MSB && self.rpn_msb == 0 && self.rpn_lsb == 0 {
                    if value <= DATA_MAX {
                        self.bend_range = self.bend_range % 1000 + value as i32 * 1000;
                    }
                } else if controller == CC_DATA_ENTRY_LSB && self.rpn_msb == 0 && self.rpn_lsb == 0 {
                    if value <= DATA_MAX {
                        let range = (self.bend_range + 500) / 1000 * 1000 + value as i32 * 10;
                        if range <= MAX_BEND_RANGE {
                            self.bend_range = range;
                        }
                    }
                }
                if controller == CC_MODULATION {
                    Some(MidiAction::Modulate { channel, depth: data_level(value) })
                } else {
                    None
                }
            },
            MidiEvent::ChannelPressure { channel, pressure } => {
                if send_pressure {
                    Some(MidiAction::ChannelPressure { channel, pressure: data_level(pressure) })
                } else {
                    None
                }
            },
            MidiEvent::Pitch { channel, bend } => {
                let range = self.bend_range as i64;
                let position = bend as i64;
                let bent = if position >= 0 {
                    assert(0 <= position * range / 8192 <= 4 * range) by (nonlinear_arith)
                        requires
                            0 <= position <= 32768,
                            range >= 0,
                    ;
                    position * range / 8192
                } else {
                    assert(0 <= (-position) * range / 8192 <= 4 * range) by (nonlinear_arith)
                        requires
                            0 < -position <= 32768,
                            range >= 0,
                    ;
                    -((-position) * range / 8192)
                };
                Some(MidiAction::PitchBend { channel, bend: bent as i32 })
            },
        }
    }
}

} // verus!

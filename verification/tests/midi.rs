use osctet::midi::{data_level, MidiAction, MidiEvent, MidiState};
use osctet::synth::{Key, KeyOrigin};

fn key(channel: u8, key: u8) -> Key {
    Key { origin: KeyOrigin::Midi, channel, key }
}

#[test]
fn channel_messages_are_decoded() {
    assert_eq!(
        MidiEvent::parse(&[0x93, 60, 100]),
        Some(MidiEvent::NoteOn { channel: 3, key: 60, velocity: 100 })
    );
    assert_eq!(
        MidiEvent::parse(&[0x80, 61, 0]),
        Some(MidiEvent::NoteOff { channel: 0, key: 61, velocity: 0 })
    );
    assert_eq!(
        MidiEvent::parse(&[0xaf, 62, 9]),
        Some(MidiEvent::PolyPressure { channel: 15, key: 62, pressure: 9 })
    );
    assert_eq!(
        MidiEvent::parse(&[0xb1, 1, 127]),
        Some(MidiEvent::Controller { channel: 1, controller: 1, value: 127 })
    );
    assert_eq!(
        MidiEvent::parse(&[0xd2, 77]),
        Some(MidiEvent::ChannelPressure { channel: 2, pressure: 77 })
    );
    assert_eq!(MidiEvent::parse(&[0xe0, 0, 64]), Some(MidiEvent::Pitch { channel: 0, bend: 0 }));
    assert_eq!(MidiEvent::parse(&[0xe0, 0, 0]), Some(MidiEvent::Pitch { channel: 0, bend: -8192 }));
    assert_eq!(
        MidiEvent::parse(&[0xe4, 127, 127, 9]),
        Some(MidiEvent::Pitch { channel: 4, bend: 8191 })
    );
}

#[test]
fn messages_cut_short_or_unknown_decode_to_nothing() {
    assert_eq!(MidiEvent::parse(&[]), None);
    assert_eq!(MidiEvent::parse(&[0x90]), None);
    assert_eq!(MidiEvent::parse(&[0x90, 60]), None);
    assert_eq!(MidiEvent::parse(&[0xd0]), None);
    assert_eq!(MidiEvent::parse(&[0xc0, 5, 0]), None);
    assert_eq!(MidiEvent::parse(&[0xf8, 0, 0]), None);
    assert_eq!(MidiEvent::parse(&[0x10, 60, 60]), None);
}

#[test]
fn notes_and_pressure() {
    let mut state = MidiState::new();
    assert_eq!(
        state.handle(MidiEvent::NoteOn { channel: 1, key: 60, velocity: 127 }, true),
        Some(MidiAction::NoteOn { key: key(1, 60), pressure: 1000 })
    );
    assert_eq!(
        state.handle(MidiEvent::NoteOn { channel: 1, key: 60, velocity: 0 }, true),
        Some(MidiAction::NoteOff { key: key(1, 60) })
    );
    assert_eq!(
        state.handle(MidiEvent::NoteOff { channel: 1, key: 60, velocity: 9 }, false),
        Some(MidiAction::NoteOff { key: key(1, 60) })
    );
    let poly = MidiEvent::PolyPressure { channel: 2, key: 1, pressure: 64 };
    assert_eq!(
        state.handle(poly, true),
        Some(MidiAction::PolyPressure { key: key(2, 1), pressure: 504 })
    );
    assert_eq!(state.handle(poly, false), None);
    let channel = MidiEvent::ChannelPressure { channel: 2, pressure: 1 };
    assert_eq!(state.handle(channel, true), Some(MidiAction::ChannelPressure { channel: 2, pressure: 8 }));
    assert_eq!(state.handle(channel, false), None);
    assert_eq!(data_level(0), 0);
    assert_eq!(data_level(127), 1000);
    assert_eq!(data_level(255), 2008);
}

#[test]
fn the_pitch_wheel_bends_by_its_share_of_the_range() {
    let mut state = MidiState::new();
    assert_eq!(state.bend_range(), 2000);
    let bend = |state: &mut MidiState, bend: i16| match state
        .handle(MidiEvent::Pitch { channel: 5, bend }, false)
    {
        Some(MidiAction::PitchBend { channel: 5, bend }) => bend,
        other => panic!("{:?}", other),
    };
    assert_eq!(bend(&mut state, 0), 0);
    assert_eq!(bend(&mut state, 4096), 1000);
    assert_eq!(bend(&mut state, -8192), -2000);
    assert_eq!(bend(&mut state, 8191), 1999);
    assert_eq!(bend(&mut state, -1), 0);
    let cc = |controller: u8, value: u8| MidiEvent::Controller { channel: 5, controller, value };
    assert_eq!(state.handle(cc(6, 12), true), None);
    assert_eq!(state.bend_range(), 12_000);
    assert_eq!(state.handle(cc(38, 50), true), None);
    assert_eq!(state.bend_range(), 12_500);
    assert_eq!(state.handle(cc(6, 7), true), None);
    assert_eq!(state.bend_range(), 7_500);
    assert_eq!(state.handle(cc(38, 25), true), None);
    assert_eq!(state.bend_range(), 8_250);
    assert_eq!(bend(&mut state, -8192), -8250);
    state.handle(cc(6, 200), true);
    assert_eq!(state.bend_range(), 8_250);
}

#[test]
fn data_entry_counts_only_for_the_bend_range_parameter() {
    let mut state = MidiState::new();
    let cc = |controller: u8, value: u8| MidiEvent::Controller { channel: 0, controller, value };
    state.handle(cc(101, 0), true);
    state.handle(cc(100, 1), true);
    state.handle(cc(6, 12), true);
    state.handle(cc(38, 12), true);
    assert_eq!(state.bend_range(), 2000);
    state.handle(cc(100, 0), true);
    state.handle(cc(101, 3), true);
    state.handle(cc(6, 12), true);
    assert_eq!(state.bend_range(), 2000);
    state.handle(cc(101, 0), true);
    state.handle(cc(6, 12), true);
    assert_eq!(state.bend_range(), 12_000);
    assert_eq!(state.handle(cc(1, 127), false), Some(MidiAction::Modulate { channel: 0, depth: 1000 }));
    assert_eq!(state.handle(cc(7, 127), true), None);
}

use osctet::backend::{Command, Sequencer};
use osctet::settings::PlayMode;
use osctet::synth::{Key, KeyOrigin, Synth, Voice};

fn key(origin: KeyOrigin, channel: u8, key: u8) -> Key {
    Key { origin, channel, key }
}

fn keyboard(k: u8) -> Key {
    key(KeyOrigin::Keyboard, 0, k)
}

fn starts(commands: &[Command]) -> usize {
    commands.iter().filter(|c| matches!(c, Command::Start { .. })).count()
}

#[test]
fn poly_holds_one_voice_per_held_key() {
    let mut synth = Synth::new();
    let mut seq = Sequencer::new();
    synth.note_on(keyboard(1), 60_000, 800, &mut seq);
    synth.note_on(keyboard(2), 64_000, 800, &mut seq);
    synth.note_on(keyboard(3), 67_000, 800, &mut seq);
    assert_eq!(synth.voice_count(), 3);
    synth.note_off(keyboard(2), &mut seq);
    assert_eq!(synth.voice_count(), 2);
    synth.note_off(keyboard(2), &mut seq);
    assert_eq!(synth.voice_count(), 2);
    let keys: Vec<Key> = synth.voices().iter().map(|v| v.key).collect();
    assert_eq!(keys, vec![keyboard(1), keyboard(3)]);
    let commands = seq.take();
    assert_eq!(commands.len(), 4);
    assert_eq!(starts(&commands), 3);
    assert_eq!(commands[3], Command::Release { voice: 1, release_time: 10 });
}

#[test]
fn poly_note_on_for_a_held_key_replaces_its_voice() {
    let mut synth = Synth::new();
    let mut seq = Sequencer::new();
    synth.note_on(keyboard(1), 60_000, 800, &mut seq);
    synth.note_on(keyboard(1), 72_000, 500, &mut seq);
    assert_eq!(synth.voice_count(), 1);
    assert_eq!(
        synth.voices()[0],
        Voice {
            key: keyboard(1),
            id: 1,
            base_pitch: 72_000,
            pitch: 72_000,
            pressure: 500,
            modulation: 0,
            held: true,
            release_time: 10,
        }
    );
}

#[test]
fn mono_releases_what_sounds_before_it_starts_a_note() {
    let mut synth = Synth::new();
    synth.settings.play_mode = PlayMode::Mono;
    let mut seq = Sequencer::new();
    synth.note_on(keyboard(1), 60_000, 800, &mut seq);
    synth.note_on(keyboard(2), 62_000, 800, &mut seq);
    let voices = synth.voices();
    assert_eq!(voices.len(), 2);
    assert!(!voices[0].held);
    assert!(voices[1].held);
    assert_eq!(voices.iter().filter(|v| v.held).count(), 1);
    let commands = seq.take();
    assert_eq!(commands.len(), 3);
    assert!(matches!(commands[0], Command::Start { voice: 0, .. }));
    assert_eq!(commands[1], Command::Release { voice: 0, release_time: 10 });
    assert!(matches!(commands[2], Command::Start { voice: 1, .. }));
    synth.note_off(keyboard(1), &mut seq);
    assert_eq!(synth.voice_count(), 1);
    assert_eq!(seq.take(), vec![Command::Release { voice: 0, release_time: 10 }]);
}

#[test]
fn single_trigger_keeps_the_voice_and_changes_its_pitch() {
    let mut synth = Synth::new();
    synth.settings.play_mode = PlayMode::SingleTrigger;
    let mut seq = Sequencer::new();
    synth.note_on(keyboard(1), 60_000, 800, &mut seq);
    let first = synth.voices()[0];
    synth.note_on(keyboard(2), 62_000, 300, &mut seq);
    let voices = synth.voices();
    assert_eq!(voices.len(), 1);
    assert_eq!(voices[0].id, first.id);
    assert_eq!(voices[0].key, keyboard(2));
    assert_eq!(voices[0].pitch, 62_000);
    assert_eq!(voices[0].base_pitch, 60_000);
    assert_eq!(voices[0].pressure, 800);
    assert!(voices[0].held);
    let commands = seq.take();
    assert_eq!(commands.len(), 2);
    assert_eq!(starts(&commands), 1);
    assert_eq!(commands[1], Command::SetPitch { voice: 0, pitch: 62_000 });
    assert_eq!(seq.next_voice, 1);
}

#[test]
fn single_trigger_starts_a_voice_when_none_sounds() {
    let mut synth = Synth::new();
    synth.settings.play_mode = PlayMode::SingleTrigger;
    let mut seq = Sequencer::new();
    synth.note_on(keyboard(1), 60_000, 800, &mut seq);
    synth.note_off(keyboard(1), &mut seq);
    synth.note_on(keyboard(2), 62_000, 800, &mut seq);
    assert_eq!(synth.voice_count(), 1);
    assert_eq!(synth.voices()[0].id, 1);
    assert_eq!(starts(&seq.take()), 2);
}

#[test]
fn pitch_bend_reaches_sounding_and_later_midi_notes() {
    let mut synth = Synth::new();
    let mut seq = Sequencer::new();
    let held = key(KeyOrigin::Midi, 3, 60);
    synth.note_on(held, 60_000, 1000, &mut seq);
    synth.note_on(key(KeyOrigin::Midi, 4, 60), 60_000, 1000, &mut seq);
    synth.note_on(keyboard(9), 60_000, 1000, &mut seq);
    seq.take();
    synth.pitch_bend(3, 250, &mut seq);
    assert_eq!(seq.take(), vec![Command::SetPitch { voice: 0, pitch: 60_250 }]);
    assert_eq!(synth.bend_memory(3), 250);
    assert_eq!(synth.bend_memory(4), 0);
    let pitches: Vec<i64> = synth.voices().iter().map(|v| v.pitch).collect();
    assert_eq!(pitches, vec![60_250, 60_000, 60_000]);
    synth.note_off(held, &mut seq);
    synth.note_on(key(KeyOrigin::Midi, 3, 64), 64_000, 1000, &mut seq);
    let newest = synth.voices()[2];
    assert_eq!(newest.base_pitch, 64_000);
    assert_eq!(newest.pitch, 64_250);
    synth.note_on(key(KeyOrigin::Pattern, 3, 0), 64_000, 1000, &mut seq);
    assert_eq!(synth.voices()[3].pitch, 64_000);
}

#[test]
fn pitch_bend_beyond_the_channels_has_no_memory() {
    let mut synth = Synth::new();
    let mut seq = Sequencer::new();
    synth.pitch_bend(16, 700, &mut seq);
    synth.modulate(200, 700, &mut seq);
    for channel in 0..=255u8 {
        assert_eq!(synth.bend_memory(channel), 0);
        assert_eq!(synth.mod_memory(channel), 0);
    }
    assert!(seq.take().is_empty());
}

#[test]
fn modulation_and_pressure_reach_the_voices_of_the_channel() {
    let mut synth = Synth::new();
    let mut seq = Sequencer::new();
    let a = key(KeyOrigin::Midi, 1, 60);
    let b = key(KeyOrigin::Midi, 1, 62);
    let c = key(KeyOrigin::Midi, 2, 60);
    synth.note_on(a, 60_000, 100, &mut seq);
    synth.note_on(b, 62_000, 100, &mut seq);
    synth.note_on(c, 60_000, 100, &mut seq);
    seq.take();
    synth.modulate(1, 400, &mut seq);
    assert_eq!(
        seq.take(),
        vec![
            Command::SetModulation { voice: 0, depth: 400 },
            Command::SetModulation { voice: 1, depth: 400 },
        ]
    );
    synth.channel_pressure(2, 900, &mut seq);
    assert_eq!(seq.take(), vec![Command::SetPressure { voice: 2, pressure: 900 }]);
    synth.poly_pressure(b, 650, &mut seq);
    assert_eq!(seq.take(), vec![Command::SetPressure { voice: 1, pressure: 650 }]);
    synth.poly_pressure(key(KeyOrigin::Midi, 9, 9), 650, &mut seq);
    assert!(seq.take().is_empty());
    let voices = synth.voices();
    assert_eq!((voices[0].modulation, voices[0].pressure), (400, 100));
    assert_eq!((voices[1].modulation, voices[1].pressure), (400, 650));
    assert_eq!((voices[2].modulation, voices[2].pressure), (0, 900));
    assert_eq!(synth.mod_memory(1), 400);
    synth.note_on(key(KeyOrigin::Midi, 1, 70), 70_000, 100, &mut seq);
    assert_eq!(synth.voices()[3].modulation, 400);
    synth.reset_memory();
    assert_eq!(synth.mod_memory(1), 0);
}

#[test]
fn clearing_an_origin_releases_its_notes_only() {
    let mut synth = Synth::new();
    let mut seq = Sequencer::new();
    synth.note_on(keyboard(1), 60_000, 100, &mut seq);
    synth.note_on(key(KeyOrigin::Pattern, 0, 0), 62_000, 100, &mut seq);
    synth.note_on(key(KeyOrigin::Pattern, 1, 0), 64_000, 100, &mut seq);
    seq.take();
    synth.clear_notes_with_origin(&mut seq, KeyOrigin::Pattern);
    assert_eq!(
        seq.take(),
        vec![
            Command::Release { voice: 1, release_time: 10 },
            Command::Release { voice: 2, release_time: 10 },
        ]
    );
    assert_eq!(synth.voice_count(), 1);
    assert_eq!(synth.voices()[0].key, keyboard(1));
}

#[test]
fn release_time_is_the_longest_release() {
    let mut synth = Synth::new();
    synth.settings.envs[0].release = 120;
    synth.settings.envs.push(osctet::settings::ADSR { attack: 1, decay: 1, sustain: 1, release: 750 });
    synth.settings.envs.push(osctet::settings::ADSR { attack: 1, decay: 1, sustain: 1, release: -5 });
    assert_eq!(synth.settings.release_time(), 750);
    let mut seq = Sequencer::new();
    synth.note_on(keyboard(1), 60_000, 100, &mut seq);
    synth.note_off(keyboard(1), &mut seq);
    assert_eq!(seq.take()[1], Command::Release { voice: 0, release_time: 750 });
    synth.settings.envs.clear();
    assert_eq!(synth.settings.release_time(), 0);
}

#[test]
fn loading_a_patch_copies_its_settings() {
    let mut patch = osctet::settings::Settings::new();
    patch.play_mode = PlayMode::Mono;
    patch.glide_time = 7;
    patch.oscs.push(osctet::settings::Oscillator::new());
    let mut synth = Synth::new();
    let mut seq = Sequencer::new();
    synth.note_on(keyboard(1), 60_000, 800, &mut seq);
    synth.load(&patch);
    assert_eq!(synth.settings.play_mode, PlayMode::Mono);
    assert_eq!(synth.settings.glide_time, 7);
    assert_eq!(synth.settings.oscs, patch.oscs);
    assert_eq!(synth.voice_count(), 1);
    let copy = patch.duplicate();
    assert_eq!(copy.envs, patch.envs);
    assert_eq!(copy.mod_matrix, patch.mod_matrix);
    assert_eq!(copy.filter, patch.filter);
}


use osctet::backend::{Command, Sequencer};
use osctet::fx::FXSettings;
use osctet::module::{Channel, Event, EventData, Module, Note, TrackEdit};
use osctet::playback::{
    block_time, digit_level, fade_gain, pattern_key, Player, Render, RenderStep, DEFAULT_PRESSURE,
};
use osctet::settings::Settings;
use osctet::synth::{Key, KeyOrigin};
use osctet::tempo::Tempo;

/// A quarter of a second: 60 ticks at the standard tempo.
const QUARTER: u64 = 250_000_000;

fn ev(tick: u32, data: EventData) -> Event {
    Event { tick, data }
}

fn module() -> Module {
    Module::new(FXSettings::default())
}

fn player(m: &Module) -> Player {
    Player::new(Sequencer::new(), m.tracks.len())
}

fn starts(commands: &[Command]) -> usize {
    commands.iter().filter(|c| matches!(c, Command::Start { .. })).count()
}

#[test]
fn a_player_has_a_synth_per_track_and_one_more() {
    let m = module();
    let p = player(&m);
    assert_eq!(p.synth_count(), 4);
    assert!(!p.is_playing());
    assert_eq!(p.get_tick(), 0);
    assert_eq!(p.tempo(), Tempo::standard());
    assert!(!p.has_looped());
}

#[test]
fn at_rest_a_frame_does_nothing() {
    let mut m = module();
    m.tracks[2].channels[0].events = vec![ev(0, EventData::Pitch(Note { pitch: 60_000 }))];
    let mut p = player(&m);
    p.frame(&m, QUARTER);
    assert_eq!(p.get_tick(), 0);
    assert!(p.take_commands().is_empty());
}

#[test]
fn one_note_and_an_end() {
    let mut m = module();
    m.tracks[2].channels[0].events = vec![ev(0, EventData::Pitch(Note { pitch: 60_000 }))];
    m.tracks[0].channels[0].events = vec![ev(100, EventData::End)];
    let mut p = player(&m);
    p.play_from(0);
    assert!(p.is_playing());
    p.frame(&m, QUARTER);
    assert_eq!(p.get_tick(), 60);
    let commands = p.take_commands();
    assert_eq!(commands.len(), 1);
    match &commands[0] {
        Command::Start { voice, graph, pitch, pressure, modulation } => {
            assert_eq!(*voice, 0);
            assert_eq!(*graph, Settings::new().voice_signal());
            assert_eq!(*pitch, 60_000);
            assert_eq!(*pressure, DEFAULT_PRESSURE);
            assert_eq!(*modulation, 0);
        }
        _ => panic!("not a start"),
    }
    assert_eq!(p.voice_count(2), 1);
    p.frame(&m, QUARTER);
    assert_eq!(p.get_tick(), 120);
    assert!(!p.is_playing());
    assert_eq!(p.take_commands(), vec![Command::Release { voice: 0, release_time: 10 }]);
    assert_eq!(p.voice_count(2), 0);
    p.frame(&m, QUARTER);
    assert_eq!(p.get_tick(), 120);
    assert!(p.take_commands().is_empty());
}

#[test]
fn an_end_goes_back_to_the_loop_start() {
    let mut m = module();
    m.tracks[0].channels[0].events = vec![
        ev(0, EventData::Tempo(60_000)),
        ev(30, EventData::Loop),
        ev(45, EventData::RationalTempo(2, 1)),
        ev(90, EventData::End),
    ];
    m.tracks[2].channels[0].events = vec![ev(40, EventData::Pitch(Note { pitch: 60_000 }))];
    let mut p = player(&m);
    p.play_from(0);
    p.frame(&m, QUARTER);
    assert_eq!(p.get_tick(), 60);
    assert_eq!(p.tempo(), Tempo::standard());
    assert!(!p.has_looped());
    assert_eq!(starts(&p.take_commands()), 1);
    p.frame(&m, QUARTER);
    assert_eq!(p.get_tick(), 30);
    assert!(p.has_looped());
    assert!(p.is_playing());
    assert_eq!(p.tempo(), Tempo::standard());
    assert!(p.take_commands().is_empty());
    p.frame(&m, QUARTER);
    assert_eq!(p.get_tick(), 90);
    assert_eq!(p.tempo(), Tempo { num: 240, den: 1 });
    assert_eq!(starts(&p.take_commands()), 1);
    assert_eq!(p.voice_count(2), 1);
    p.frame(&m, QUARTER);
    assert_eq!(p.get_tick(), 30);
    assert!(p.is_playing());
}

#[test]
fn events_are_dispatched_by_track_then_channel() {
    let mut m = module();
    m.tracks[1].target = osctet::module::TrackTarget::Patch(0);
    m.tracks[1].channels[0].events = vec![ev(10, EventData::Pitch(Note { pitch: 1000 }))];
    m.tracks[1].channels.push(Channel { events: vec![ev(0, EventData::Pitch(Note { pitch: 2000 }))] });
    m.tracks[2].channels[0].events = vec![ev(5, EventData::Pitch(Note { pitch: 3000 }))];
    let mut p = player(&m);
    p.play_from(0);
    p.frame(&m, QUARTER);
    let pitches: Vec<i64> = p
        .take_commands()
        .iter()
        .map(|c| match c {
            Command::Start { pitch, .. } => *pitch,
            _ => -1,
        })
        .collect();
    assert_eq!(pitches, vec![1000, 2000, 3000]);
}

#[test]
fn the_window_takes_the_old_tick_and_leaves_the_new() {
    let mut m = module();
    m.tracks[2].channels[0].events = vec![
        ev(59, EventData::Pitch(Note { pitch: 1000 })),
        ev(60, EventData::NoteOff),
    ];
    let mut p = player(&m);
    p.play_from(0);
    p.frame(&m, QUARTER);
    assert_eq!(p.take_commands().len(), 1);
    p.frame(&m, QUARTER);
    assert_eq!(p.take_commands(), vec![Command::Release { voice: 0, release_time: 10 }]);
}

#[test]
fn pattern_events_reach_the_synth_of_their_track() {
    let m = module();
    let mut p = player(&m);
    let midi = Key { origin: KeyOrigin::Midi, channel: 1, key: 60 };
    p.note_on(2, midi, 60_000, Some(500), &m.patches[0].settings);
    p.take_commands();
    p.handle_event(&EventData::Pressure(9), &m, 2, 1);
    assert_eq!(p.take_commands(), vec![Command::SetPressure { voice: 0, pressure: 1000 }]);
    p.handle_event(&EventData::Modulation(3), &m, 2, 1);
    assert_eq!(p.take_commands(), vec![Command::SetModulation { voice: 0, depth: 333 }]);
    p.handle_event(&EventData::Modulation(3), &m, 1, 1);
    p.handle_event(&EventData::Pressure(3), &m, 2, 0);
    p.handle_event(&EventData::Loop, &m, 0, 0);
    p.handle_event(&EventData::Section, &m, 0, 0);
    p.handle_event(&EventData::Bend(100), &m, 2, 1);
    p.handle_event(&EventData::Pitch(Note { pitch: 1 }), &m, 0, 0);
    p.handle_event(&EventData::Pitch(Note { pitch: 1 }), &m, 1, 0);
    p.handle_event(&EventData::Pitch(Note { pitch: 1 }), &m, 9, 0);
    assert!(p.take_commands().is_empty());
    p.handle_event(&EventData::Pitch(Note { pitch: 64_000 }), &m, 2, 257);
    p.handle_event(&EventData::NoteOff, &m, 2, 1);
    let commands = p.take_commands();
    assert_eq!(starts(&commands), 1);
    assert_eq!(commands[1], Command::Release { voice: 1, release_time: 10 });
    assert_eq!(pattern_key(257), Key { origin: KeyOrigin::Pattern, channel: 1, key: 0 });
    p.handle_event(&EventData::Tempo(99_900), &m, 0, 0);
    assert_eq!(p.tempo(), Tempo { num: 999, den: 10 });
    p.handle_event(&EventData::RationalTempo(1, 0), &m, 0, 0);
    assert_eq!(p.tempo(), Tempo { num: 999, den: 10 });
    p.handle_event(&EventData::RationalTempo(10, 9), &m, 0, 0);
    assert_eq!(p.tempo(), Tempo { num: 111, den: 1 });
}

#[test]
fn digits_scale_onto_thousandths() {
    assert_eq!(digit_level(0, 9), 0);
    assert_eq!(digit_level(1, 9), 111);
    assert_eq!(digit_level(6, 9), 667);
    assert_eq!(digit_level(9, 9), 1000);
    assert_eq!(digit_level(255, 9), 28_333);
    assert_eq!(DEFAULT_PRESSURE, 667);
}

#[test]
fn notes_on_tracks_that_are_not_there_are_passed_over() {
    let m = module();
    let mut p = player(&m);
    let key = Key { origin: KeyOrigin::Keyboard, channel: 0, key: 1 };
    p.note_on(4, key, 60_000, None, &m.patches[0].settings);
    p.note_off(4, key);
    p.poly_pressure(4, key, 1);
    p.modulate(4, 0, 1);
    p.channel_pressure(4, 0, 1);
    p.pitch_bend(4, 0, 1);
    assert!(p.take_commands().is_empty());
    p.note_on(0, key, 60_000, None, &m.patches[0].settings);
    assert_eq!(p.voice_count(0), 1);
    p.stop();
    assert_eq!(p.voice_count(0), 1);
    p.clear_notes_with_origin(KeyOrigin::Keyboard);
    assert_eq!(p.voice_count(0), 0);
    assert_eq!(p.take_commands().len(), 2);
}

#[test]
fn a_note_takes_the_play_mode_of_its_patch() {
    let m = module();
    let mut p = player(&m);
    let mut mono = Settings::new();
    mono.play_mode = osctet::settings::PlayMode::Mono;
    let a = Key { origin: KeyOrigin::Keyboard, channel: 0, key: 1 };
    let b = Key { origin: KeyOrigin::Keyboard, channel: 0, key: 2 };
    p.note_on(1, a, 60_000, None, &mono);
    p.note_on(1, b, 62_000, None, &mono);
    let commands = p.take_commands();
    assert_eq!(commands.len(), 3);
    assert_eq!(commands[1], Command::Release { voice: 0, release_time: 10 });
}

#[test]
fn synths_follow_the_tracks() {
    let m = module();
    let mut p = player(&m);
    let key = Key { origin: KeyOrigin::Keyboard, channel: 0, key: 1 };
    p.note_on(1, key, 60_000, None, &m.patches[0].settings);
    p.update_synths(vec![TrackEdit::Insert(1), TrackEdit::Insert(9), TrackEdit::Remove(9)]);
    assert_eq!(p.synth_count(), 5);
    assert_eq!(p.voice_count(1), 0);
    assert_eq!(p.voice_count(2), 1);
    p.update_synths(vec![TrackEdit::Remove(2), TrackEdit::Insert(4)]);
    assert_eq!(p.synth_count(), 5);
    assert_eq!(p.voice_count(2), 0);
    p.reinit(1);
    assert_eq!(p.synth_count(), 2);
}

#[test]
fn play_from_resets_tempo_and_memory() {
    let m = module();
    let mut p = player(&m);
    p.handle_event(&EventData::Tempo(60_000), &m, 0, 0);
    p.pitch_bend(1, 2, 500);
    p.play_from(77);
    assert_eq!(p.get_tick(), 77);
    assert_eq!(p.tempo(), Tempo::standard());
    assert!(p.is_playing());
    let midi = Key { origin: KeyOrigin::Midi, channel: 2, key: 60 };
    p.note_on(1, midi, 60_000, None, &m.patches[0].settings);
    match &p.take_commands()[0] {
        Command::Start { pitch, .. } => assert_eq!(*pitch, 60_000),
        _ => panic!("not a start"),
    }
}

#[test]
fn the_tick_stops_at_the_last_tick() {
    let m = module();
    let mut p = player(&m);
    p.play_from(u32::MAX - 10);
    p.frame(&m, QUARTER);
    assert_eq!(p.get_tick(), u32::MAX);
    p.frame(&m, QUARTER);
    assert_eq!(p.get_tick(), u32::MAX);
}

#[test]
fn rendering_ends_with_the_module() {
    let mut m = module();
    m.tracks[2].channels[0].events = vec![ev(0, EventData::Pitch(Note { pitch: 60_000 }))];
    m.tracks[0].channels[0].events = vec![ev(2, EventData::End)];
    // blocks of 64 samples at 44100 per second
    let mut r = Render::new(Sequencer::new(), m.tracks.len(), 64, 44_100);
    assert_eq!(block_time(64, 44_100), 1_451_247);
    let mut blocks = 0;
    let mut commands = Vec::new();
    loop {
        let step = r.step(&m);
        commands.extend(r.take_commands());
        match step {
            RenderStep::Block { fade } => {
                assert_eq!(fade, None);
                blocks += 1;
            }
            RenderStep::Finished => break,
        }
        assert!(blocks < 100);
    }
    // the end at tick 2 falls due once tick 3 is reached, after 2.5 ticks
    assert_eq!(blocks, 8);
    assert_eq!(commands.len(), 2);
    assert!(matches!(commands[0], Command::Start { .. }));
    assert_eq!(commands[1], Command::Release { voice: 0, release_time: 10 });
    assert_eq!(r.step(&m), RenderStep::Finished);
}

#[test]
fn rendering_fades_out_once_the_module_loops() {
    let mut m = module();
    m.tracks[0].channels[0].events = vec![ev(0, EventData::Loop), ev(1, EventData::End)];
    // blocks of one second
    let mut r = Render::new(Sequencer::new(), m.tracks.len(), 1000, 1000);
    assert_eq!(block_time(1000, 1000), 1_000_000_000);
    let mut fades = Vec::new();
    loop {
        match r.step(&m) {
            RenderStep::Block { fade } => fades.push(fade),
            RenderStep::Finished => break,
        }
        assert!(fades.len() < 100);
    }
    assert_eq!(
        fades,
        vec![
            Some(1000),
            Some(900),
            Some(800),
            Some(700),
            Some(600),
            Some(500),
            Some(400),
            Some(300),
            Some(200),
            Some(100),
        ]
    );
    assert_eq!(fade_gain(0), 1000);
    assert_eq!(fade_gain(2_500_000_000), 750);
    assert_eq!(fade_gain(9_999_999_999), 1);
    assert_eq!(fade_gain(10_000_000_000), 0);
    assert_eq!(fade_gain(u64::MAX), 0);
    assert_eq!(block_time(64, 0), 0);
}

#[test]
fn a_whole_run_starts_the_note_once() {
    let mut m = module();
    m.tracks[2].channels[0].events = vec![ev(0, EventData::Pitch(Note { pitch: 60_000 }))];
    m.tracks[0].channels[0].events = vec![ev(500, EventData::End)];
    for dt in [1_000_000u64, 7_000_000, 16_666_667, 250_000_000, 2_000_000_000] {
        let mut p = player(&m);
        p.play_from(0);
        let mut commands = Vec::new();
        let mut frames = 0;
        while p.is_playing() {
            p.frame(&m, dt);
            commands.extend(p.take_commands());
            frames += 1;
            assert!(frames < 10_000);
        }
        for _ in 0..10 {
            p.frame(&m, dt);
        }
        commands.extend(p.take_commands());
        assert_eq!(commands.len(), 2);
        assert!(matches!(commands[0], Command::Start { voice: 0, .. }));
        assert_eq!(commands[1], Command::Release { voice: 0, release_time: 10 });
        assert!(p.get_tick() > 500);
        for track in 0..4 {
            assert_eq!(p.voice_count(track), 0);
        }
    }
}

#[test]
fn many_frames_count_the_ticks_of_the_time_that_passed() {
    let m = module();
    let mut p = player(&m);
    p.play_from(0);
    let mut elapsed: u128 = 0;
    for frame in 1..=50_000u128 {
        p.frame(&m, 16_666_667);
        elapsed += 16_666_667;
        if frame % 7919 == 0 || frame == 50_000 {
            // 240 ticks to the second at the standard tempo, doubled to compare with halves
            let ticks = p.get_tick() as u128;
            let span = 1_000_000_000u128;
            assert!(2 * ticks * span <= 2 * elapsed * 240 + span);
            assert!(2 * elapsed * 240 < 2 * ticks * span + span);
        }
    }
    assert_eq!(p.get_tick(), 200_000);
}


use osctet::settings::{
    Modulation, ModSource, ModTarget, OscOutput, Oscillator, PlayMode, Settings, Waveform, ADSR,
};

fn osc(output: OscOutput) -> Oscillator {
    let mut o = Oscillator::new();
    o.output = output;
    o
}

fn entry(source: ModSource, target: ModTarget, depth: i32) -> Modulation {
    Modulation { source, target, depth }
}

#[test]
fn new_settings_hold_one_sine_and_one_envelope() {
    let s = Settings::new();
    assert_eq!(s.oscs, vec![Oscillator::new()]);
    assert_eq!(s.oscs[0].waveform, Waveform::Sine);
    assert_eq!(s.oscs[0].level, 500);
    assert_eq!(s.envs, vec![ADSR { attack: 10, decay: 1000, sustain: 1000, release: 10 }]);
    assert_eq!(s.play_mode, PlayMode::Poly);
    assert_eq!(s.glide_time, 50);
    assert_eq!(
        s.mod_matrix,
        vec![
            entry(ModSource::Envelope(0), ModTarget::Gain, 0),
            entry(ModSource::Pressure, ModTarget::Gain, 0),
        ]
    );
}

#[test]
fn remove_osc_renumbers_outputs_and_matrix() {
    let mut s = Settings::new();
    s.oscs = vec![
        osc(OscOutput::Mix(0)),
        osc(OscOutput::FM(0)),
        osc(OscOutput::AM(1)),
        osc(OscOutput::Mix(2)),
        osc(OscOutput::FM(0)),
    ];
    s.mod_matrix = vec![
        entry(ModSource::Pitch, ModTarget::Level(0), 1),
        entry(ModSource::Pitch, ModTarget::Pitch(1), 2),
        entry(ModSource::Random, ModTarget::FinePitch(2), 3),
        entry(ModSource::Pressure, ModTarget::Level(3), 4),
        entry(ModSource::Envelope(0), ModTarget::Gain, 5),
        entry(ModSource::Pressure, ModTarget::Duty(1), 6),
    ];
    s.remove_osc(1);
    let outputs: Vec<OscOutput> = s.oscs.iter().map(|o| o.output).collect();
    assert_eq!(
        outputs,
        vec![OscOutput::Mix(0), OscOutput::Mix(0), OscOutput::Mix(1), OscOutput::FM(0)]
    );
    assert_eq!(
        s.mod_matrix,
        vec![
            entry(ModSource::Pitch, ModTarget::Level(0), 1),
            entry(ModSource::Random, ModTarget::FinePitch(1), 3),
            entry(ModSource::Pressure, ModTarget::Level(2), 4),
            entry(ModSource::Envelope(0), ModTarget::Gain, 5),
        ]
    );
}

#[test]
fn remove_osc_out_of_range_changes_nothing() {
    let mut s = Settings::new();
    s.remove_osc(1);
    assert_eq!(s.oscs.len(), 1);
    assert_eq!(s.mod_matrix.len(), 2);
}

#[test]
fn remove_env_renumbers_sources() {
    let mut s = Settings::new();
    s.envs = vec![ADSR::new(), ADSR::new(), ADSR::new()];
    s.mod_matrix = vec![
        entry(ModSource::Envelope(0), ModTarget::Gain, 0),
        entry(ModSource::Envelope(1), ModTarget::FilterCutoff, 7),
        entry(ModSource::Envelope(2), ModTarget::Pitch(0), 8),
        entry(ModSource::Modulation, ModTarget::FilterCutoff, 9),
    ];
    s.remove_env(1);
    assert_eq!(s.envs.len(), 2);
    assert_eq!(
        s.mod_matrix,
        vec![
            entry(ModSource::Envelope(0), ModTarget::Gain, 0),
            entry(ModSource::Envelope(1), ModTarget::Pitch(0), 8),
            entry(ModSource::Modulation, ModTarget::FilterCutoff, 9),
        ]
    );
}

#[test]
fn choices_follow_the_number_of_oscillators_and_envelopes() {
    let mut s = Settings::new();
    s.oscs.push(Oscillator::new());
    s.envs.push(ADSR::new());
    assert_eq!(
        s.mod_sources(),
        vec![
            ModSource::Pitch,
            ModSource::Pressure,
            ModSource::Modulation,
            ModSource::Random,
            ModSource::Envelope(0),
            ModSource::Envelope(1),
        ]
    );
    assert_eq!(
        s.mod_targets(),
        vec![
            ModTarget::Gain,
            ModTarget::FilterCutoff,
            ModTarget::Level(0),
            ModTarget::Pitch(0),
            ModTarget::FinePitch(0),
            ModTarget::Duty(0),
            ModTarget::Level(1),
            ModTarget::Pitch(1),
            ModTarget::FinePitch(1),
            ModTarget::Duty(1),
        ]
    );
    assert_eq!(s.outputs(0), vec![OscOutput::Mix(0)]);
    assert_eq!(
        s.outputs(2),
        vec![
            OscOutput::Mix(0),
            OscOutput::AM(0),
            OscOutput::FM(0),
            OscOutput::Mix(1),
            OscOutput::AM(1),
            OscOutput::FM(1),
        ]
    );
}

#[test]
fn only_gain_and_level_multiply() {
    assert!(!ModTarget::Gain.is_additive());
    assert!(!ModTarget::Level(3).is_additive());
    assert!(ModTarget::Pitch(0).is_additive());
    assert!(ModTarget::FinePitch(0).is_additive());
    assert!(ModTarget::Duty(0).is_additive());
    assert!(ModTarget::FilterCutoff.is_additive());
}

#[test]
fn names_are_those_of_the_menus() {
    assert_eq!(PlayMode::SingleTrigger.name(), "Single trigger");
    assert_eq!(PlayMode::Poly.name(), "Poly");
    assert_eq!(Waveform::Sawtooth.name(), "Sawtooth");
    assert_eq!(PlayMode::VARIANTS, [PlayMode::Poly, PlayMode::Mono, PlayMode::SingleTrigger]);
    assert_eq!(Waveform::VARIANTS.len(), 4);
}

use osctet::graph::{Cell, Signal, VoiceCell};
use osctet::settings::{
    FilterType, KeyTracking, ModSource, ModTarget, Modulation, OscOutput, Oscillator, Settings,
    Waveform, ADSR,
};

fn sum(a: Signal, b: Signal) -> Signal {
    Signal::Sum(Box::new(a), Box::new(b))
}

fn product(a: Signal, b: Signal) -> Signal {
    Signal::Product(Box::new(a), Box::new(b))
}

fn smooth(a: Signal, time: i32) -> Signal {
    Signal::Smooth(Box::new(a), time)
}

fn frequency(i: usize, glide: i32, pitch: Signal, fine: Signal, fm: Signal) -> Signal {
    product(
        product(
            product(
                smooth(
                    product(
                        product(Signal::Voice(VoiceCell::Freq), Signal::Parameter(Cell::FreqRatio(i), 1000)),
                        Signal::SemitonePower(Box::new(Signal::Parameter(Cell::FinePitch(i), 0))),
                    ),
                    glide,
                ),
                Signal::PowerOfFour(Box::new(pitch)),
            ),
            Signal::SemitonePower(Box::new(fine)),
        ),
        sum(Signal::Constant(1000), Signal::Scaled(Box::new(fm), 100_000)),
    )
}

fn plain_frequency(i: usize) -> Signal {
    frequency(i, 50, Signal::Constant(0), Signal::Constant(0), Signal::Constant(0))
}

fn sine(freq: Signal) -> Signal {
    Signal::Scaled(Box::new(Signal::Wave(Waveform::Sine, Box::new(freq))), 500)
}

fn leveled(i: usize, wave: Signal, level: Signal, am: Signal, mixed: Signal) -> Signal {
    sum(product(product(product(wave, smooth(Signal::Parameter(Cell::Level(i), 500), 10)), level), am), mixed)
}

fn osc(waveform: Waveform, output: OscOutput) -> Oscillator {
    let mut o = Oscillator::new();
    o.waveform = waveform;
    o.output = output;
    o
}

#[test]
fn voice_of_new_settings() {
    let s = Settings::new();
    let osc0 = leveled(
        0,
        sine(plain_frequency(0)),
        Signal::Constant(1000),
        Signal::Constant(1000),
        Signal::Constant(0),
    );
    let filtered = Signal::Filtered {
        filter_type: FilterType::Ladder,
        input: Box::new(osc0),
        cutoff: Box::new(product(
            product(Signal::Parameter(Cell::Cutoff, 20_000_000), Signal::KeyTrack(KeyTracking::Off)),
            Signal::PowerOfFour(Box::new(Signal::Constant(0))),
        )),
        resonance: Box::new(Signal::Parameter(Cell::Resonance, 100)),
    };
    let gain = product(
        product(Signal::Constant(1000), Signal::Envelope(ADSR::new())),
        Signal::Voice(VoiceCell::Pressure),
    );
    assert_eq!(s.voice_signal(), product(filtered, gain));
}

#[test]
fn additive_targets_sum_from_zero_and_scale_by_depth() {
    let mut s = Settings::new();
    s.mod_matrix = vec![
        Modulation { source: ModSource::Modulation, target: ModTarget::FilterCutoff, depth: 300 },
        Modulation { source: ModSource::Pitch, target: ModTarget::Pitch(0), depth: 10 },
        Modulation { source: ModSource::Random, target: ModTarget::FilterCutoff, depth: -200 },
    ];
    assert_eq!(
        s.dsp_component(ModTarget::FilterCutoff),
        sum(
            sum(
                Signal::Constant(0),
                product(Signal::Voice(VoiceCell::Modulation), Signal::Parameter(Cell::Depth(0), 300)),
            ),
            product(Signal::Random, Signal::Parameter(Cell::Depth(2), -200)),
        )
    );
    assert_eq!(
        s.dsp_component(ModTarget::Pitch(0)),
        sum(Signal::Constant(0), product(Signal::PitchTrack, Signal::Parameter(Cell::Depth(1), 10)))
    );
    assert_eq!(s.dsp_component(ModTarget::Duty(0)), Signal::Constant(0));
}

#[test]
fn multiplicative_targets_multiply_from_one_without_depth() {
    let mut s = Settings::new();
    s.mod_matrix = vec![
        Modulation { source: ModSource::Pressure, target: ModTarget::Level(1), depth: 300 },
        Modulation { source: ModSource::Envelope(0), target: ModTarget::Level(1), depth: 300 },
        Modulation { source: ModSource::Envelope(5), target: ModTarget::Level(1), depth: 300 },
    ];
    assert_eq!(
        s.dsp_component(ModTarget::Level(1)),
        product(
            product(
                product(Signal::Constant(1000), Signal::Voice(VoiceCell::Pressure)),
                Signal::Envelope(ADSR::new()),
            ),
            Signal::Constant(0),
        )
    );
    assert_eq!(s.dsp_component(ModTarget::Gain), Signal::Constant(1000));
    assert_eq!(s.dsp_component(ModTarget::Level(0)), Signal::Constant(1000));
}

#[test]
fn oscillators_gather_those_that_route_into_them() {
    let mut s = Settings::new();
    s.mod_matrix.clear();
    s.oscs = vec![
        osc(Waveform::Sawtooth, OscOutput::Mix(0)),
        osc(Waveform::Triangle, OscOutput::FM(0)),
        osc(Waveform::Sine, OscOutput::AM(0)),
        osc(Waveform::Sawtooth, OscOutput::Mix(1)),
        osc(Waveform::Triangle, OscOutput::Mix(0)),
    ];
    let one = Signal::Constant(1000);
    let zero = Signal::Constant(0);
    let osc3 = leveled(
        3,
        Signal::Wave(Waveform::Sawtooth, Box::new(plain_frequency(3))),
        Signal::Constant(1000),
        Signal::Constant(1000),
        Signal::Constant(0),
    );
    let osc1 = leveled(
        1,
        Signal::Wave(Waveform::Triangle, Box::new(plain_frequency(1))),
        Signal::Constant(1000),
        Signal::Constant(1000),
        sum(Signal::Constant(0), osc3),
    );
    let osc2 = leveled(
        2,
        sine(plain_frequency(2)),
        Signal::Constant(1000),
        Signal::Constant(1000),
        Signal::Constant(0),
    );
    let osc4 = leveled(
        4,
        Signal::Wave(Waveform::Triangle, Box::new(plain_frequency(4))),
        Signal::Constant(1000),
        Signal::Constant(1000),
        Signal::Constant(0),
    );
    let freq0 = frequency(0, 50, Signal::Constant(0), Signal::Constant(0), sum(zero, osc1));
    let expected = leveled(
        0,
        Signal::Wave(Waveform::Sawtooth, Box::new(freq0)),
        Signal::Constant(1000),
        product(one, osc2),
        sum(Signal::Constant(0), osc4),
    );
    assert_eq!(s.make_osc(0), expected);
    assert_eq!(s.make_osc(5), Signal::Constant(0));
}

#[test]
fn an_oscillator_never_gathers_one_before_it() {
    let mut s = Settings::new();
    s.mod_matrix.clear();
    s.oscs = vec![osc(Waveform::Sawtooth, OscOutput::Mix(1)), osc(Waveform::Sawtooth, OscOutput::Mix(1))];
    let osc1 = leveled(
        1,
        Signal::Wave(Waveform::Sawtooth, Box::new(plain_frequency(1))),
        Signal::Constant(1000),
        Signal::Constant(1000),
        Signal::Constant(0),
    );
    assert_eq!(s.make_osc(1), osc1);
}

#[test]
fn pulse_takes_a_duty_signal() {
    let mut s = Settings::new();
    s.glide_time = 0;
    s.oscs = vec![osc(Waveform::Pulse, OscOutput::Mix(0))];
    s.mod_matrix = vec![Modulation {
        source: ModSource::Envelope(0),
        target: ModTarget::Duty(0),
        depth: 250,
    }];
    let duty_mod = sum(
        Signal::Constant(0),
        product(Signal::Envelope(ADSR::new()), Signal::Parameter(Cell::Depth(0), 250)),
    );
    let freq = frequency(0, 0, Signal::Constant(0), Signal::Constant(0), Signal::Constant(0));
    assert_eq!(
        s.wave_signal(0, Signal::Constant(0)),
        Signal::PulseWave(
            Box::new(freq),
            Box::new(smooth(sum(Signal::Parameter(Cell::Duty(0), 500), duty_mod), 10)),
        )
    );
}

#[test]
fn filter_cutoff_takes_key_tracking_and_modulation() {
    let mut s = Settings::new();
    s.filter.filter_type = FilterType::Bandpass;
    s.filter.key_tracking = KeyTracking::Partial;
    s.mod_matrix = vec![Modulation {
        source: ModSource::Pressure,
        target: ModTarget::FilterCutoff,
        depth: 2000,
    }];
    assert_eq!(
        s.filter_signal(Signal::Random),
        Signal::Filtered {
            filter_type: FilterType::Bandpass,
            input: Box::new(Signal::Random),
            cutoff: Box::new(product(
                product(Signal::Parameter(Cell::Cutoff, 20_000_000), Signal::KeyTrack(KeyTracking::Partial)),
                Signal::PowerOfFour(Box::new(sum(
                    Signal::Constant(0),
                    product(Signal::Voice(VoiceCell::Pressure), Signal::Parameter(Cell::Depth(0), 2000)),
                ))),
            )),
            resonance: Box::new(Signal::Parameter(Cell::Resonance, 100)),
        }
    );
}

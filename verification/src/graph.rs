//! Signal graphs: what a voice sounds like, as a tree the audio side can
//! build from.
//!
//! A graph is built once per voice from the patch settings. Oscillators are
//! gathered recursively: oscillator `i` takes in every oscillator of higher
//! index that routes into it, so the recursion only ever moves to higher
//! indices and ends at the last oscillator. Each modulation target gathers
//! the matrix entries bound to it, summed from 0 if the target is additive
//! and multiplied from 1 if it is not.

use crate::settings::{
    FilterType, KeyTracking, ModSource, ModTarget, OscOutput, Settings, SettingsView, Waveform, ADSR,
};
use vstd::prelude::*;

verus! {

/// Time, in milliseconds, over which level and duty changes are smoothed.
pub const SMOOTHING_TIME: i32 = 10;

/// Frequency deviation, in thousandths, that a frequency-modulation input
/// of 1 stands for.
pub const FM_DEPTH: i32 = 100_000;

/// Gain of the sine wave, in thousandths, which is loud beside the others.
pub const SINE_GAIN: i32 = 500;

/// A parameter of a voice, written while the voice sounds.
#[derive(PartialEq, Eq, Structural, Clone, Copy, Debug)]
pub enum VoiceCell {
    /// Frequency of the voice.
    Freq,
    /// Key pressure of the voice.
    Pressure,
    /// Modulation wheel position of the voice.
    Modulation,
}

/// A parameter of the patch, which can be changed while voices sound.
#[derive(PartialEq, Eq, Structural, Hash, Clone, Copy, Debug)]
pub enum Cell {
    /// Level of the oscillator with this index.
    Level(usize),
    /// Duty cycle of the oscillator with this index.
    Duty(usize),
    /// Frequency ratio of the oscillator with this index.
    FreqRatio(usize),
    /// Fine pitch of the oscillator with this index.
    FinePitch(usize),
    /// Filter cutoff.
    Cutoff,
    /// Filter resonance.
    Resonance,
    /// Depth of the matrix entry with this index.
    Depth(usize),
}

/// A signal, described by how it is computed.
#[derive(PartialEq, Eq, Debug)]
pub enum Signal {
    /// A fixed value, in thousandths.
    Constant(i32),
    /// The current value of a parameter of the voice.
    Voice(VoiceCell),
    /// The current value of a parameter of the patch, which is the given
    /// one, in thousandths, when the graph is built.
    Parameter(Cell, i32),
    /// A value drawn once, when the graph is built, from 0 up to 1.
    Random,
    /// The voice frequency, mapped exponentially from the range of pitches
    /// onto 0 to 1.
    PitchTrack,
    /// The envelope, which opens when the voice starts and closes when it
    /// is released.
    Envelope(ADSR),
    Sum(Box<Signal>, Box<Signal>),
    Product(Box<Signal>, Box<Signal>),
    /// The signal times a fixed factor, in thousandths.
    Scaled(Box<Signal>, i32),
    /// The signal, following its input with the given time constant in
    /// milliseconds.
    Smooth(Box<Signal>, i32),
    /// 4 to the power of the signal.
    PowerOfFour(Box<Signal>),
    /// The frequency ratio of a semitone to the power of the signal.
    SemitonePower(Box<Signal>),
    /// A sawtooth, triangle or sine wave at the frequency given by the
    /// signal.
    Wave(Waveform, Box<Signal>),
    /// A pulse wave at the frequency given by the first signal, with the
    /// duty cycle given by the second.
    PulseWave(Box<Signal>, Box<Signal>),
    /// The factor by which the filter cutoff follows the voice frequency.
    KeyTrack(KeyTracking),
    /// The filter applied to the `input`.
    Filtered { filter_type: FilterType, input: Box<Signal>, cutoff: Box<Signal>, resonance: Box<Signal> },
}

pub open spec fn sum(a: Signal, b: Signal) -> Signal {
    Signal::Sum(Box::new(a), Box::new(b))
}

pub open spec fn product(a: Signal, b: Signal) -> Signal {
    Signal::Product(Box::new(a), Box::new(b))
}

/// The neutral element a target starts from.
pub open spec fn neutral(target: ModTarget) -> Signal {
    if target.spec_is_additive() {
        Signal::Constant(0)
    } else {
        Signal::Constant(1000)
    }
}

impl SettingsView {
    /// The signal of the source of matrix entry `k`. An envelope that does
    /// not exist gives silence.
    pub open spec fn source_signal(self, k: int) -> Signal {
        match self.mod_matrix[k].source {
            ModSource::Pitch => Signal::PitchTrack,
            ModSource::Pressure => Signal::Voice(VoiceCell::Pressure),
            ModSource::Modulation => Signal::Voice(VoiceCell::Modulation),
            ModSource::Random => Signal::Random,
            ModSource::Envelope(i) => if i < self.envs.len() {
                Signal::Envelope(self.envs[i as int])
            } else {
                Signal::Constant(0)
            },
        }
    }

    /// What matrix entry `k` contributes to its target: its source, scaled
    /// by its depth if the target is additive.
    pub open spec fn entry_signal(self, k: int) -> Signal {
        if self.mod_matrix[k].target.spec_is_additive() {
            product(self.source_signal(k), Signal::Parameter(Cell::Depth(k as usize), self.mod_matrix[k].depth))
        } else {
            self.source_signal(k)
        }
    }

    /// What the first `upto` matrix entries contribute to `target`.
    pub open spec fn target_signal_upto(self, target: ModTarget, upto: int) -> Signal
        decreases upto,
    {
        if upto <= 0 {
            neutral(target)
        } else if self.mod_matrix[upto - 1].target == target {
            if target.spec_is_additive() {
                sum(self.target_signal_upto(target, upto - 1), self.entry_signal(upto - 1))
            } else {
                product(self.target_signal_upto(target, upto - 1), self.entry_signal(upto - 1))
            }
        } else {
            self.target_signal_upto(target, upto - 1)
        }
    }

    /// The modulation of `target`: the contributions of all entries bound
    /// to it, in matrix order, combined from the neutral element.
    pub open spec fn target_signal(self, target: ModTarget) -> Signal {
        self.target_signal_upto(target, self.mod_matrix.len() as int)
    }

    /// The frequency of oscillator `i`, given its frequency-modulation
    /// input.
    pub open spec fn osc_frequency(self, i: int, fm: Signal) -> Signal {
        product(
            product(
                product(
                    Signal::Smooth(
                        Box::new(
                            product(
                                product(
                                    Signal::Voice(VoiceCell::Freq),
                                    Signal::Parameter(Cell::FreqRatio(i as usize), self.oscs[i].freq_ratio),
                                ),
                                Signal::SemitonePower(
                                    Box::new(Signal::Parameter(Cell::FinePitch(i as usize), self.oscs[i].fine_pitch)),
                                ),
                            ),
                        ),
                        self.glide_time,
                    ),
                    Signal::PowerOfFour(
                        Box::new(self.target_signal(ModTarget::Pitch(i as usize))),
                    ),
                ),
                Signal::SemitonePower(
                    Box::new(self.target_signal(ModTarget::FinePitch(i as usize))),
                ),
            ),
            sum(Signal::Constant(1000), Signal::Scaled(Box::new(fm), FM_DEPTH)),
        )
    }

    /// The waveform of oscillator `i`, given its frequency-modulation input.
    pub open spec fn wave_signal(self, i: int, fm: Signal) -> Signal {
        let freq = self.osc_frequency(i, fm);
        match self.oscs[i].waveform {
            Waveform::Pulse => Signal::PulseWave(
                Box::new(freq),
                Box::new(
                    Signal::Smooth(
                        Box::new(
                            sum(
                                Signal::Parameter(Cell::Duty(i as usize), self.oscs[i].duty),
                                self.target_signal(ModTarget::Duty(i as usize)),
                            ),
                        ),
                        SMOOTHING_TIME,
                    ),
                ),
            ),
            Waveform::Sine => Signal::Scaled(
                Box::new(Signal::Wave(Waveform::Sine, Box::new(freq))),
                SINE_GAIN,
            ),
            w => Signal::Wave(w, Box::new(freq)),
        }
    }

    /// Whether oscillator `j` is gathered by oscillator `i` through
    /// `output`: it lies behind `i` and routes there.
    pub open spec fn feeds(self, j: int, output: OscOutput) -> bool {
        j > output.spec_index() && self.oscs[j].output == output
    }

    /// The oscillators before `upto` that feed `output`, combined from
    /// `start`: multiplied for amplitude modulation, summed otherwise.
    pub open spec fn gathered(self, output: OscOutput, start: Signal, upto: int) -> Signal
        decreases self.oscs.len() - output.spec_index(), upto,
    {
        if upto <= 0 || upto > self.oscs.len() {
            start
        } else if self.feeds(upto - 1, output) {
            if output is AM {
                product(self.gathered(output, start, upto - 1), self.osc_signal(upto - 1))
            } else {
                sum(self.gathered(output, start, upto - 1), self.osc_signal(upto - 1))
            }
        } else {
            self.gathered(output, start, upto - 1)
        }
    }

    /// The signal of oscillator `i` with everything that routes into it:
    /// its waveform times its level, the modulation of its level and its
    /// amplitude-modulation inputs, plus what is mixed into it. Silence if
    /// there is no such oscillator.
    pub open spec fn osc_signal(self, i: int) -> Signal
        decreases self.oscs.len() - i, self.oscs.len() + 1,
    {
        if 0 <= i < self.oscs.len() && i <= usize::MAX {
            let n = self.oscs.len() as int;
            let mixed = self.gathered(OscOutput::Mix(i as usize), Signal::Constant(0), n);
            let am = self.gathered(OscOutput::AM(i as usize), Signal::Constant(1000), n);
            let fm = self.gathered(OscOutput::FM(i as usize), Signal::Constant(0), n);
            sum(
                product(
                    product(
                        product(
                            self.wave_signal(i, fm),
                            Signal::Smooth(
                                Box::new(Signal::Parameter(Cell::Level(i as usize), self.oscs[i].level)),
                                SMOOTHING_TIME,
                            ),
                        ),
                        self.target_signal(ModTarget::Level(i as usize)),
                    ),
                    am,
                ),
                mixed,
            )
        } else {
            Signal::Constant(0)
        }
    }

    /// The filter applied to `input`: its cutoff is the cutoff parameter
    /// times the key tracking factor times 4 to the power of the cutoff
    /// modulation.
    pub open spec fn filter_signal(self, input: Signal) -> Signal {
        Signal::Filtered {
            filter_type: self.filter.filter_type,
            input: Box::new(input),
            cutoff: Box::new(
                product(
                    product(Signal::Parameter(Cell::Cutoff, self.filter.cutoff), Signal::KeyTrack(self.filter.key_tracking)),
                    Signal::PowerOfFour(Box::new(self.target_signal(ModTarget::FilterCutoff))),
                ),
            ),
            resonance: Box::new(Signal::Parameter(Cell::Resonance, self.filter.resonance)),
        }
    }

    /// The whole voice: oscillator 0 through the filter, times the gain
    /// modulation.
    pub open spec fn voice_signal(self) -> Signal {
        product(self.filter_signal(self.osc_signal(0)), self.target_signal(ModTarget::Gain))
    }

    /// The longest release among the first `upto` envelopes, and at least 0.
    pub open spec fn release_time_upto(self, upto: int) -> i32
        decreases upto,
    {
        if upto <= 0 {
            0
        } else {
            let rest = self.release_time_upto(upto - 1);
            if self.envs[upto - 1].release > rest {
                self.envs[upto - 1].release
            } else {
                rest
            }
        }
    }

    /// How long a voice takes to fade once released: the longest release
    /// among the envelopes.
    pub open spec fn release_time(self) -> i32 {
        self.release_time_upto(self.envs.len() as int)
    }
}

impl Settings {
    /// The signal of the source of matrix entry `k`.
    pub fn source_signal(&self, k: usize) -> (s: Signal)
        requires
            k < self.mod_matrix@.len(),
        ensures
            s == self@.source_signal(k as int),
    {
        match self.mod_matrix[k].source {
            ModSource::Pitch => Signal::PitchTrack,
            ModSource::Pressure => Signal::Voice(VoiceCell::Pressure),
            ModSource::Modulation => Signal::Voice(VoiceCell::Modulation),
            ModSource::Random => Signal::Random,
            ModSource::Envelope(i) => if i < self.envs.len() {
                Signal::Envelope(self.envs[i])
            } else {
                Signal::Constant(0)
            },
        }
    }

    /// What matrix entry `k` contributes to its target.
    pub fn entry_signal(&self, k: usize) -> (s: Signal)
        requires
            k < self.mod_matrix@.len(),
        ensures
            s == self@.entry_signal(k as int),
    {
        let source = self.source_signal(k);
        if self.mod_matrix[k].target.is_additive() {
            Signal::Product(Box::new(source), Box::new(Signal::Parameter(Cell::Depth(k), self.mod_matrix[k].depth)))
        } else {
            source
        }
    }

    /// The modulation of `target` by the matrix.
    pub fn dsp_component(&self, target: ModTarget) -> (s: Signal)
        ensures
            s == self@.target_signal(target),
    {
        let additive = target.is_additive();
        let mut net = if additive {
            Signal::Constant(0)
        } else {
            Signal::Constant(1000)
        };
        let n: usize = self.mod_matrix.len();
        let mut k: usize = 0;
        while k < n
            invariant
                k <= n,
                n == self.mod_matrix@.len(),
                additive == target.spec_is_additive(),
                net == self@.target_signal_upto(target, k as int),
            decreases n - k,
        {
            if self.mod_matrix[k].target == target {
                let entry = self.entry_signal(k);
                if additive {
                    net = Signal::Sum(Box::new(net), Box::new(entry));
                } else {
                    net = Signal::Product(Box::new(net), Box::new(entry));
                }
            }
            k += 1;
        }
        net
    }

    /// The waveform of oscillator `i`, given its frequency-modulation input.
    pub fn wave_signal(&self, i: usize, fm: Signal) -> (s: Signal)
        requires
            i < self.oscs@.len(),
        ensures
            s == self@.wave_signal(i as int, fm),
    {
        let base = Signal::Smooth(
            Box::new(
                Signal::Product(
                    Box::new(
                        Signal::Product(
                            Box::new(Signal::Voice(VoiceCell::Freq)),
                            Box::new(Signal::Parameter(Cell::FreqRatio(i), self.oscs[i].freq_ratio)),
                        ),
                    ),
                    Box::new(Signal::SemitonePower(Box::new(Signal::Parameter(Cell::FinePitch(i), self.oscs[i].fine_pitch)))),
                ),
            ),
            self.glide_time,
        );
        let coarse = Signal::PowerOfFour(Box::new(self.dsp_component(ModTarget::Pitch(i))));
        let fine = Signal::SemitonePower(Box::new(self.dsp_component(ModTarget::FinePitch(i))));
        let deviation = Signal::Sum(
            Box::new(Signal::Constant(1000)),
            Box::new(Signal::Scaled(Box::new(fm), FM_DEPTH)),
        );
        let freq = Signal::Product(
            Box::new(
                Signal::Product(
                    Box::new(Signal::Product(Box::new(base), Box::new(coarse))),
                    Box::new(fine),
                ),
            ),
            Box::new(deviation),
        );
        match self.oscs[i].waveform {
            Waveform::Pulse => {
                let duty = Signal::Smooth(
                    Box::new(
                        Signal::Sum(
                            Box::new(Signal::Parameter(Cell::Duty(i), self.oscs[i].duty)),
                            Box::new(self.dsp_component(ModTarget::Duty(i))),
                        ),
                    ),
                    SMOOTHING_TIME,
                );
                Signal::PulseWave(Box::new(freq), Box::new(duty))
            },
            Waveform::Sine => Signal::Scaled(
                Box::new(Signal::Wave(Waveform::Sine, Box::new(freq))),
                SINE_GAIN,
            ),
            Waveform::Sawtooth => Signal::Wave(Waveform::Sawtooth, Box::new(freq)),
            Waveform::Triangle => Signal::Wave(Waveform::Triangle, Box::new(freq)),
        }
    }

    /// The signal of oscillator `i` with everything that routes into it.
    pub fn make_osc(&self, i: usize) -> (s: Signal)
        ensures
            s == self@.osc_signal(i as int),
        decreases self.oscs@.len() - i,
    {
        let n: usize = self.oscs.len();
        if i >= n {
            return Signal::Constant(0);
        }
        let mut mixed = Signal::Constant(0);
        let mut am = Signal::Constant(1000);
        let mut fm = Signal::Constant(0);
        let mut j: usize = 0;
        while j < n
            invariant
                j <= n,
                i < n,
                n == self.oscs@.len(),
                mixed == self@.gathered(OscOutput::Mix(i), Signal::Constant(0), j as int),
                am == self@.gathered(OscOutput::AM(i), Signal::Constant(1000), j as int),
                fm == self@.gathered(OscOutput::FM(i), Signal::Constant(0), j as int),
            decreases n - j,
        {
            if j > i {
                let output = self.oscs[j].output;
                if output == OscOutput::Mix(i) {
                    mixed = Signal::Sum(Box::new(mixed), Box::new(self.make_osc(j)));
                } else if output == OscOutput::AM(i) {
                    am = Signal::Product(Box::new(am), Box::new(self.make_osc(j)));
                } else if output == OscOutput::FM(i) {
                    fm = Signal::Sum(Box::new(fm), Box::new(self.make_osc(j)));
                }
            }
            j += 1;
        }
        let wave = self.wave_signal(i, fm);
        let level = Signal::Smooth(Box::new(Signal::Parameter(Cell::Level(i), self.oscs[i].level)), SMOOTHING_TIME);
        Signal::Sum(
            Box::new(
                Signal::Product(
                    Box::new(
                        Signal::Product(
                            Box::new(Signal::Product(Box::new(wave), Box::new(level))),
                            Box::new(self.dsp_component(ModTarget::Level(i))),
                        ),
                    ),
                    Box::new(am),
                ),
            ),
            Box::new(mixed),
        )
    }

    /// The filter applied to `input`.
    pub fn filter_signal(&self, input: Signal) -> (s: Signal)
        ensures
            s == self@.filter_signal(input),
    {
        let cutoff = Signal::Product(
            Box::new(
                Signal::Product(
                    Box::new(Signal::Parameter(Cell::Cutoff, self.filter.cutoff)),
                    Box::new(Signal::KeyTrack(self.filter.key_tracking)),
                ),
            ),
            Box::new(Signal::PowerOfFour(Box::new(self.dsp_component(ModTarget::FilterCutoff)))),
        );
        Signal::Filtered {
            filter_type: self.filter.filter_type,
            input: Box::new(input),
            cutoff: Box::new(cutoff),
            resonance: Box::new(Signal::Parameter(Cell::Resonance, self.filter.resonance)),
        }
    }

    /// The graph of a whole voice.
    pub fn voice_signal(&self) -> (s: Signal)
        ensures
            s == self@.voice_signal(),
    {
        let filtered = self.filter_signal(self.make_osc(0));
        Signal::Product(Box::new(filtered), Box::new(self.dsp_component(ModTarget::Gain)))
    }

    /// How long a voice takes to fade once released.
    pub fn release_time(&self) -> (t: i32)
        ensures
            t == self@.release_time(),
    {
        let n: usize = self.envs.len();
        let mut t: i32 = 0;
        let mut k: usize = 0;
        while k < n
            invariant
                k <= n,
                n == self.envs@.len(),
                t == self@.release_time_upto(k as int),
            decreases n - k,
        {
            if self.envs[k].release > t {
                t = self.envs[k].release;
            }
            k += 1;
        }
        t
    }
}

} // verus!

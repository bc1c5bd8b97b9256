//! Patch configuration: oscillators, envelopes, filter and modulation matrix.
//!
//! Oscillator 0 is the output of a patch. Every other oscillator routes into
//! an oscillator of lower index, so the routing is acyclic by construction.
//! Removing an oscillator or an envelope renumbers every reference to the
//! ones behind it.

use vstd::prelude::*;

verus! {

/// Most envelopes a patch is meant to hold.
pub const MAX_ENVS: usize = 4;

/// Most oscillators a patch is meant to hold.
pub const MAX_OSCS: usize = 4;

/// How a synth allocates voices on note-on.
#[derive(PartialEq, Eq, Structural, Clone, Copy, Debug)]
pub enum PlayMode {
    Poly,
    Mono,
    SingleTrigger,
}

impl PlayMode {
    pub open spec fn spec_name(&self) -> Seq<char> {
        match self {
            PlayMode::Poly => "Poly"@,
            PlayMode::Mono => "Mono"@,
            PlayMode::SingleTrigger => "Single trigger"@,
        }
    }

    pub fn name(&self) -> (s: &'static str)
        ensures
            s@ == self.spec_name(),
    {
        match self {
            PlayMode::Poly => "Poly",
            PlayMode::Mono => "Mono",
            PlayMode::SingleTrigger => "Single trigger",
        }
    }

    /// Every play mode, in menu order.
    pub const VARIANTS: [PlayMode; 3] = [PlayMode::Poly, PlayMode::Mono, PlayMode::SingleTrigger];
}

#[derive(PartialEq, Eq, Structural, Clone, Copy, Debug)]
pub enum Waveform {
    Sawtooth,
    Pulse,
    Triangle,
    Sine,
}

impl Waveform {
    pub open spec fn spec_name(&self) -> Seq<char> {
        match self {
            Waveform::Sawtooth => "Sawtooth"@,
            Waveform::Pulse => "Pulse"@,
            Waveform::Triangle => "Triangle"@,
            Waveform::Sine => "Sine"@,
        }
    }

    pub fn name(&self) -> (s: &'static str)
        ensures
            s@ == self.spec_name(),
    {
        match self {
            Waveform::Sawtooth => "Sawtooth",
            Waveform::Pulse => "Pulse",
            Waveform::Triangle => "Triangle",
            Waveform::Sine => "Sine",
        }
    }

    /// Every waveform, in menu order.
    pub const VARIANTS: [Waveform; 4] = [Waveform::Sawtooth, Waveform::Pulse, Waveform::Triangle, Waveform::Sine];
}

#[derive(PartialEq, Eq, Structural, Clone, Copy, Debug)]
pub enum FilterType {
    Ladder,
    Lowpass,
    Highpass,
    Bandpass,
}

impl FilterType {
    pub open spec fn spec_name(&self) -> Seq<char> {
        match self {
            FilterType::Ladder => "Ladder"@,
            FilterType::Lowpass => "Lowpass"@,
            FilterType::Highpass => "Highpass"@,
            FilterType::Bandpass => "Bandpass"@,
        }
    }

    pub fn name(&self) -> (s: &'static str)
        ensures
            s@ == self.spec_name(),
    {
        match self {
            FilterType::Ladder => "Ladder",
            FilterType::Lowpass => "Lowpass",
            FilterType::Highpass => "Highpass",
            FilterType::Bandpass => "Bandpass",
        }
    }

    /// Every filter type, in menu order.
    pub const VARIANTS: [FilterType; 4] = [FilterType::Ladder, FilterType::Lowpass, FilterType::Highpass, FilterType::Bandpass];
}

/// How far the filter cutoff follows the pitch of the note.
#[derive(PartialEq, Eq, Structural, Clone, Copy, Debug)]
pub enum KeyTracking {
    Off,
    Partial,
    Full,
}

impl KeyTracking {
    pub open spec fn spec_name(&self) -> Seq<char> {
        match self {
            KeyTracking::Off => "None"@,
            KeyTracking::Partial => "Partial"@,
            KeyTracking::Full => "Full"@,
        }
    }

    pub fn name(&self) -> (s: &'static str)
        ensures
            s@ == self.spec_name(),
    {
        match self {
            KeyTracking::Off => "None",
            KeyTracking::Partial => "Partial",
            KeyTracking::Full => "Full",
        }
    }

    /// Every key tracking mode, in menu order.
    pub const VARIANTS: [KeyTracking; 3] = [KeyTracking::Off, KeyTracking::Partial, KeyTracking::Full];
}

/// What a reference to item `n` becomes once item `k` is gone: nothing if it
/// pointed at `k`, one less if it pointed behind `k`, itself otherwise.
pub open spec fn spec_reindex(n: usize, k: usize) -> Option<usize> {
    if n == k {
        None
    } else if n > k {
        Some((n - 1) as usize)
    } else {
        Some(n)
    }
}

#[verifier::when_used_as_spec(spec_reindex)]
pub fn reindex(n: usize, k: usize) -> (r: Option<usize>)
    ensures
        r == spec_reindex(n, k),
{
    if n == k {
        None
    } else if n > k {
        Some(n - 1)
    } else {
        Some(n)
    }
}

/// Where an oscillator's signal goes: mixed into, multiplied into, or
/// modulating the frequency of, the oscillator with the given index.
#[derive(PartialEq, Eq, Structural, Clone, Copy, Debug)]
pub enum OscOutput {
    Mix(usize),
    AM(usize),
    FM(usize),
}

impl OscOutput {
    pub open spec fn spec_index(&self) -> usize {
        match self {
            OscOutput::Mix(n) => *n,
            OscOutput::AM(n) => *n,
            OscOutput::FM(n) => *n,
        }
    }

    /// Index of the oscillator this output feeds.
    #[verifier::when_used_as_spec(spec_index)]
    pub fn index(&self) -> (n: usize)
        ensures
            n == self.spec_index(),
    {
        match self {
            OscOutput::Mix(n) => *n,
            OscOutput::AM(n) => *n,
            OscOutput::FM(n) => *n,
        }
    }

    pub open spec fn spec_with_index(&self, n: usize) -> OscOutput {
        match self {
            OscOutput::Mix(_) => OscOutput::Mix(n),
            OscOutput::AM(_) => OscOutput::AM(n),
            OscOutput::FM(_) => OscOutput::FM(n),
        }
    }

    /// The same kind of routing, into oscillator `n`.
    #[verifier::when_used_as_spec(spec_with_index)]
    pub fn with_index(&self, n: usize) -> (o: OscOutput)
        ensures
            o == self.spec_with_index(n),
    {
        match self {
            OscOutput::Mix(_) => OscOutput::Mix(n),
            OscOutput::AM(_) => OscOutput::AM(n),
            OscOutput::FM(_) => OscOutput::FM(n),
        }
    }

    /// The output once oscillator `k` is gone. An output that fed `k` falls
    /// back to the main mix.
    pub open spec fn spec_without_osc(&self, k: usize) -> OscOutput {
        match spec_reindex(self.spec_index(), k) {
            Some(n) => self.spec_with_index(n),
            None => OscOutput::Mix(0),
        }
    }

    #[verifier::when_used_as_spec(spec_without_osc)]
    pub fn without_osc(&self, k: usize) -> (o: OscOutput)
        ensures
            o == self.spec_without_osc(k),
    {
        match reindex(self.index(), k) {
            Some(n) => self.with_index(n),
            None => OscOutput::Mix(0),
        }
    }
}

/// One waveform generator. Scalars are in thousandths: `level` and `duty` of
/// full scale, `freq_ratio` of the voice frequency, `fine_pitch` of a
/// semitone.
#[derive(PartialEq, Eq, Structural, Clone, Copy, Debug)]
pub struct Oscillator {
    pub level: i32,
    pub duty: i32,
    pub freq_ratio: i32,
    pub fine_pitch: i32,
    pub waveform: Waveform,
    pub output: OscOutput,
}

impl Oscillator {
    pub fn new() -> (o: Oscillator)
        ensures
            o == (Oscillator {
                level: 500,
                duty: 500,
                freq_ratio: 1000,
                fine_pitch: 0,
                waveform: Waveform::Sine,
                output: OscOutput::Mix(0),
            }),
    {
        Oscillator {
            level: 500,
            duty: 500,
            freq_ratio: 1000,
            fine_pitch: 0,
            waveform: Waveform::Sine,
            output: OscOutput::Mix(0),
        }
    }

    /// The oscillator as it stands at index `j` once oscillator `k` is gone.
    pub open spec fn spec_rerouted(&self, j: int, k: usize) -> Oscillator {
        Oscillator {
            output: if j == 0 {
                OscOutput::Mix(0)
            } else {
                self.output.spec_without_osc(k)
            },
            ..*self
        }
    }
}

/// One resonant filter stage. `cutoff` is in thousandths of a hertz,
/// `resonance` in thousandths of full scale.
#[derive(PartialEq, Eq, Structural, Clone, Copy, Debug)]
pub struct Filter {
    pub filter_type: FilterType,
    pub cutoff: i32,
    pub resonance: i32,
    pub key_tracking: KeyTracking,
}

impl Filter {
    pub fn new() -> (f: Filter)
        ensures
            f == (Filter {
                filter_type: FilterType::Ladder,
                cutoff: 20_000_000,
                resonance: 100,
                key_tracking: KeyTracking::Off,
            }),
    {
        Filter {
            filter_type: FilterType::Ladder,
            cutoff: 20_000_000,
            resonance: 100,
            key_tracking: KeyTracking::Off,
        }
    }
}

/// Gate-driven envelope. Times are in milliseconds, `sustain` in thousandths
/// of full scale.
#[derive(PartialEq, Eq, Structural, Clone, Copy, Debug)]
pub struct ADSR {
    pub attack: i32,
    pub decay: i32,
    pub sustain: i32,
    pub release: i32,
}

impl ADSR {
    pub fn new() -> (e: ADSR)
        ensures
            e == (ADSR { attack: 10, decay: 1000, sustain: 1000, release: 10 }),
    {
        ADSR { attack: 10, decay: 1000, sustain: 1000, release: 10 }
    }
}

/// Where a modulation signal comes from.
#[derive(PartialEq, Eq, Structural, Clone, Copy, Debug)]
pub enum ModSource {
    Pitch,
    Pressure,
    Modulation,
    Random,
    Envelope(usize),
}

impl ModSource {
    /// The source once envelope `k` is gone; `None` if it was envelope `k`.
    pub open spec fn spec_without_env(&self, k: usize) -> Option<ModSource> {
        match self {
            ModSource::Envelope(n) => match spec_reindex(*n, k) {
                Some(m) => Some(ModSource::Envelope(m)),
                None => None,
            },
            _ => Some(*self),
        }
    }

    #[verifier::when_used_as_spec(spec_without_env)]
    pub fn without_env(&self, k: usize) -> (r: Option<ModSource>)
        ensures
            r == self.spec_without_env(k),
    {
        match self {
            ModSource::Envelope(n) => match reindex(*n, k) {
                Some(m) => Some(ModSource::Envelope(m)),
                None => None,
            },
            _ => Some(*self),
        }
    }
}

/// What a modulation signal acts on.
#[derive(PartialEq, Eq, Structural, Clone, Copy, Debug)]
pub enum ModTarget {
    Gain,
    Level(usize),
    Pitch(usize),
    FinePitch(usize),
    Duty(usize),
    FilterCutoff,
}

impl ModTarget {
    pub open spec fn spec_is_additive(&self) -> bool {
        !(*self is Gain || *self is Level)
    }

    /// Whether contributions to this target are summed (from 0) rather than
    /// multiplied (from 1). Only `Gain` and `Level` multiply.
    #[verifier::when_used_as_spec(spec_is_additive)]
    pub fn is_additive(&self) -> (b: bool)
        ensures
            b == self.spec_is_additive(),
    {
        match *self {
            ModTarget::Gain | ModTarget::Level(_) => false,
            _ => true,
        }
    }

    pub open spec fn spec_osc(&self) -> Option<usize> {
        match self {
            ModTarget::Level(n) => Some(*n),
            ModTarget::Pitch(n) => Some(*n),
            ModTarget::FinePitch(n) => Some(*n),
            ModTarget::Duty(n) => Some(*n),
            _ => None,
        }
    }

    /// The oscillator this target belongs to, if any.
    #[verifier::when_used_as_spec(spec_osc)]
    pub fn osc(&self) -> (r: Option<usize>)
        ensures
            r == self.spec_osc(),
    {
        match *self {
            ModTarget::Level(n) | ModTarget::Pitch(n) | ModTarget::FinePitch(n) | ModTarget::Duty(
                n,
            ) => Some(n),
            _ => None,
        }
    }

    pub open spec fn spec_with_osc(&self, n: usize) -> ModTarget {
        match self {
            ModTarget::Level(_) => ModTarget::Level(n),
            ModTarget::Pitch(_) => ModTarget::Pitch(n),
            ModTarget::FinePitch(_) => ModTarget::FinePitch(n),
            ModTarget::Duty(_) => ModTarget::Duty(n),
            _ => *self,
        }
    }

    /// The same parameter, of oscillator `n`. Targets that belong to no
    /// oscillator stay as they are.
    #[verifier::when_used_as_spec(spec_with_osc)]
    pub fn with_osc(&self, n: usize) -> (t: ModTarget)
        ensures
            t == self.spec_with_osc(n),
    {
        match *self {
            ModTarget::Level(_) => ModTarget::Level(n),
            ModTarget::Pitch(_) => ModTarget::Pitch(n),
            ModTarget::FinePitch(_) => ModTarget::FinePitch(n),
            ModTarget::Duty(_) => ModTarget::Duty(n),
            _ => *self,
        }
    }

    /// The target once oscillator `k` is gone; `None` if it belonged to `k`.
    pub open spec fn spec_without_osc(&self, k: usize) -> Option<ModTarget> {
        match self.spec_osc() {
            Some(n) => match spec_reindex(n, k) {
                Some(m) => Some(self.spec_with_osc(m)),
                None => None,
            },
            None => Some(*self),
        }
    }

    #[verifier::when_used_as_spec(spec_without_osc)]
    pub fn without_osc(&self, k: usize) -> (r: Option<ModTarget>)
        ensures
            r == self.spec_without_osc(k),
    {
        match self.osc() {
            Some(n) => match reindex(n, k) {
                Some(m) => Some(self.with_osc(m)),
                None => None,
            },
            None => Some(*self),
        }
    }
}

/// One entry of the modulation matrix: `source` acts on `target`. `depth`,
/// in thousandths, scales the contribution to an additive target and is not
/// used for a multiplicative one.
#[derive(PartialEq, Eq, Structural, Clone, Copy, Debug)]
pub struct Modulation {
    pub source: ModSource,
    pub target: ModTarget,
    pub depth: i32,
}

impl Modulation {
    pub fn default() -> (m: Modulation)
        ensures
            m == (Modulation {
                source: ModSource::Modulation,
                target: ModTarget::FilterCutoff,
                depth: 0,
            }),
    {
        Modulation { source: ModSource::Modulation, target: ModTarget::FilterCutoff, depth: 0 }
    }

    /// The entry once oscillator `k` is gone; `None` if it acted on `k`.
    pub open spec fn spec_without_osc(&self, k: usize) -> Option<Modulation> {
        match self.target.spec_without_osc(k) {
            Some(t) => Some(Modulation { target: t, ..*self }),
            None => None,
        }
    }

    #[verifier::when_used_as_spec(spec_without_osc)]
    pub fn without_osc(&self, k: usize) -> (r: Option<Modulation>)
        ensures
            r == self.spec_without_osc(k),
    {
        match self.target.without_osc(k) {
            Some(t) => Some(Modulation { source: self.source, target: t, depth: self.depth }),
            None => None,
        }
    }

    /// The entry once envelope `k` is gone; `None` if it was driven by `k`.
    pub open spec fn spec_without_env(&self, k: usize) -> Option<Modulation> {
        match self.source.spec_without_env(k) {
            Some(s) => Some(Modulation { source: s, ..*self }),
            None => None,
        }
    }

    #[verifier::when_used_as_spec(spec_without_env)]
    pub fn without_env(&self, k: usize) -> (r: Option<Modulation>)
        ensures
            r == self.spec_without_env(k),
    {
        match self.source.without_env(k) {
            Some(s) => Some(Modulation { source: s, target: self.target, depth: self.depth }),
            None => None,
        }
    }
}


/// The entries of a matrix that survive the removal of oscillator `k`, each
/// renumbered.
pub open spec fn drop_osc(k: usize) -> spec_fn(Modulation) -> Option<Modulation> {
    |m: Modulation| m.spec_without_osc(k)
}

/// The entries of a matrix that survive the removal of envelope `k`, each
/// renumbered.
pub open spec fn drop_env(k: usize) -> spec_fn(Modulation) -> Option<Modulation> {
    |m: Modulation| m.spec_without_env(k)
}

/// The patch configuration of one synth. `glide_time` is in milliseconds.
#[derive(Debug)]
pub struct Settings {
    pub oscs: Vec<Oscillator>,
    pub envs: Vec<ADSR>,
    pub filter: Filter,
    pub play_mode: PlayMode,
    pub glide_time: i32,
    pub mod_matrix: Vec<Modulation>,
}

/// What a [`Settings`] holds, as mathematical sequences.
pub struct SettingsView {
    pub oscs: Seq<Oscillator>,
    pub envs: Seq<ADSR>,
    pub filter: Filter,
    pub play_mode: PlayMode,
    pub glide_time: i32,
    pub mod_matrix: Seq<Modulation>,
}

impl SettingsView {
    /// The settings of a new synth: one sine oscillator, one envelope, and a
    /// gain that follows that envelope and the key pressure.
    pub open spec fn initial() -> SettingsView {
        SettingsView {
            oscs: seq![
                Oscillator {
                    level: 500,
                    duty: 500,
                    freq_ratio: 1000,
                    fine_pitch: 0,
                    waveform: Waveform::Sine,
                    output: OscOutput::Mix(0),
                },
            ],
            envs: seq![ADSR { attack: 10, decay: 1000, sustain: 1000, release: 10 }],
            filter: Filter {
                filter_type: FilterType::Ladder,
                cutoff: 20_000_000,
                resonance: 100,
                key_tracking: KeyTracking::Off,
            },
            play_mode: PlayMode::Poly,
            glide_time: 50,
            mod_matrix: seq![
                Modulation { source: ModSource::Envelope(0), target: ModTarget::Gain, depth: 0 },
                Modulation { source: ModSource::Pressure, target: ModTarget::Gain, depth: 0 },
            ],
        }
    }

    /// Oscillator 0 goes to the main mix and every other oscillator routes
    /// into one of lower index.
    pub open spec fn routing_is_acyclic(self) -> bool {
        forall|j: int|
            0 <= j < self.oscs.len() ==> if j == 0 {
                (#[trigger] self.oscs[j]).output == OscOutput::Mix(0)
            } else {
                (#[trigger] self.oscs[j]).output.spec_index() < j
            }
    }

    /// The settings after oscillator `k` is removed: unchanged if there is no
    /// such oscillator.
    pub open spec fn without_osc(self, k: usize) -> SettingsView {
        if k < self.oscs.len() {
            SettingsView {
                oscs: Seq::new(
                    (self.oscs.len() - 1) as nat,
                    |j: int| self.oscs.remove(k as int)[j].spec_rerouted(j, k),
                ),
                mod_matrix: self.mod_matrix.filter_map(drop_osc(k)),
                ..self
            }
        } else {
            self
        }
    }

    /// The settings after envelope `k` is removed: unchanged if there is no
    /// such envelope.
    pub open spec fn without_env(self, k: usize) -> SettingsView {
        if k < self.envs.len() {
            SettingsView {
                envs: self.envs.remove(k as int),
                mod_matrix: self.mod_matrix.filter_map(drop_env(k)),
                ..self
            }
        } else {
            self
        }
    }

    /// The sources a matrix entry can choose from.
    pub open spec fn mod_sources(self) -> Seq<ModSource> {
        spec_sources(self.envs.len())
    }

    /// The targets a matrix entry can choose from.
    pub open spec fn mod_targets(self) -> Seq<ModTarget> {
        spec_targets(self.oscs.len())
    }
}

/// The modulation sources of a patch with `envs` envelopes: the four fixed
/// ones, then each envelope.
pub open spec fn spec_sources(envs: nat) -> Seq<ModSource> {
    seq![ModSource::Pitch, ModSource::Pressure, ModSource::Modulation, ModSource::Random]
        + Seq::new(envs, |i: int| ModSource::Envelope(i as usize))
}

/// The modulation targets of a patch with `oscs` oscillators: gain and
/// filter cutoff, then level, pitch, fine pitch and duty of each oscillator.
pub open spec fn spec_targets(oscs: nat) -> Seq<ModTarget> {
    seq![ModTarget::Gain, ModTarget::FilterCutoff] + Seq::new(
        4 * oscs,
        |i: int|
            if i % 4 == 0 {
                ModTarget::Level((i / 4) as usize)
            } else if i % 4 == 1 {
                ModTarget::Pitch((i / 4) as usize)
            } else if i % 4 == 2 {
                ModTarget::FinePitch((i / 4) as usize)
            } else {
                ModTarget::Duty((i / 4) as usize)
            },
    )
}

/// The outputs that oscillator `osc_index` can choose from: the main mix for
/// oscillator 0, and for any other the three kinds of routing into each
/// oscillator before it.
pub open spec fn spec_outputs(osc_index: usize) -> Seq<OscOutput> {
    if osc_index == 0 {
        seq![OscOutput::Mix(0)]
    } else {
        Seq::new(
            3 * osc_index as nat,
            |i: int|
                if i % 3 == 0 {
                    OscOutput::Mix((i / 3) as usize)
                } else if i % 3 == 1 {
                    OscOutput::AM((i / 3) as usize)
                } else {
                    OscOutput::FM((i / 3) as usize)
                },
        )
    }
}

impl View for Settings {
    type V = SettingsView;

    open spec fn view(&self) -> SettingsView {
        SettingsView {
            oscs: self.oscs@,
            envs: self.envs@,
            filter: self.filter,
            play_mode: self.play_mode,
            glide_time: self.glide_time,
            mod_matrix: self.mod_matrix@,
        }
    }
}

impl Settings {
    /// The settings of a new synth.
    pub fn new() -> (s: Settings)
        ensures
            s@ == SettingsView::initial(),
            s@.routing_is_acyclic(),
    {
        let s = Settings {
            oscs: vec![Oscillator::new()],
            envs: vec![ADSR::new()],
            filter: Filter::new(),
            play_mode: PlayMode::Poly,
            glide_time: 50,
            mod_matrix: vec![
                Modulation { source: ModSource::Envelope(0), target: ModTarget::Gain, depth: 0 },
                Modulation { source: ModSource::Pressure, target: ModTarget::Gain, depth: 0 },
            ],
        };
        assert(s@.oscs =~= SettingsView::initial().oscs);
        assert(s@.envs =~= SettingsView::initial().envs);
        s
    }

    /// A copy of the settings.
    pub fn duplicate(&self) -> (s: Settings)
        ensures
            s@ == self@,
    {
        Settings {
            oscs: self.oscs.clone(),
            envs: self.envs.clone(),
            filter: self.filter,
            play_mode: self.play_mode,
            glide_time: self.glide_time,
            mod_matrix: self.mod_matrix.clone(),
        }
    }

    pub fn mod_sources(&self) -> (v: Vec<ModSource>)
        ensures
            v@ == self@.mod_sources(),
    {
        let mut v: Vec<ModSource> = vec![
            ModSource::Pitch,
            ModSource::Pressure,
            ModSource::Modulation,
            ModSource::Random,
        ];
        let n: usize = self.envs.len();
        let mut i: usize = 0;
        while i < n
            invariant
                i <= n,
                n == self.envs@.len(),
                v@ == spec_sources(i as nat),
            decreases n - i,
        {
            v.push(ModSource::Envelope(i));
            i += 1;
        }
        v
    }

    pub fn mod_targets(&self) -> (v: Vec<ModTarget>)
        ensures
            v@ == self@.mod_targets(),
    {
        let mut v: Vec<ModTarget> = vec![ModTarget::Gain, ModTarget::FilterCutoff];
        let n: usize = self.oscs.len();
        let mut i: usize = 0;
        while i < n
            invariant
                i <= n,
                n == self.oscs@.len(),
                v@ == spec_targets(i as nat),
            decreases n - i,
        {
            v.push(ModTarget::Level(i));
            v.push(ModTarget::Pitch(i));
            v.push(ModTarget::FinePitch(i));
            v.push(ModTarget::Duty(i));
            i += 1;
        }
        v
    }

    pub fn outputs(&self, osc_index: usize) -> (v: Vec<OscOutput>)
        ensures
            v@ == spec_outputs(osc_index),
    {
        if osc_index == 0 {
            vec![OscOutput::Mix(0)]
        } else {
            let mut v: Vec<OscOutput> = Vec::new();
            let mut i: usize = 0;
            while i < osc_index
                invariant
                    i <= osc_index,
                    osc_index > 0,
                    i > 0 ==> v@ == spec_outputs(i),
                    i == 0 ==> v@ == Seq::<OscOutput>::empty(),
                decreases osc_index - i,
            {
                v.push(OscOutput::Mix(i));
                v.push(OscOutput::AM(i));
                v.push(OscOutput::FM(i));
                i += 1;
            }
            v
        }
    }

    /// Removes oscillator `i` and renumbers what referred to the oscillators
    /// behind it. Matrix entries that acted on oscillator `i` are dropped;
    /// an oscillator that fed it goes to the main mix.
    pub fn remove_osc(&mut self, i: usize)
        ensures
            final(self)@ == old(self)@.without_osc(i),
            old(self)@.routing_is_acyclic() ==> final(self)@.routing_is_acyclic(),
    {
        proof {
            if self@.routing_is_acyclic() {
                lemma_without_osc_keeps_routing(self@, i);
            }
        }
        if i < self.oscs.len() {
            self.oscs.remove(i);
            let ghost removed = self.oscs@;
            let n: usize = self.oscs.len();
            let mut j: usize = 0;
            while j < n
                invariant
                    j <= n,
                    n == removed.len(),
                    self.oscs@.len() == n,
                    forall|x: int| 0 <= x < j ==> self.oscs@[x] == removed[x].spec_rerouted(x, i),
                    forall|x: int| j <= x < n ==> self.oscs@[x] == removed[x],
                    self.envs@ == old(self).envs@,
                    self.filter == old(self).filter,
                    self.play_mode == old(self).play_mode,
                    self.glide_time == old(self).glide_time,
                    self.mod_matrix@ == old(self).mod_matrix@,
                decreases n - j,
            {
                let output = if j == 0 {
                    OscOutput::Mix(0)
                } else {
                    self.oscs[j].output.without_osc(i)
                };
                self.oscs[j].output = output;
                j += 1;
            }
            let mut matrix: Vec<Modulation> = Vec::new();
            let m: usize = self.mod_matrix.len();
            let mut x: usize = 0;
            while x < m
                invariant
                    x <= m,
                    m == self.mod_matrix@.len(),
                    matrix@ == self.mod_matrix@.take(x as int).filter_map(drop_osc(i)),
                decreases m - x,
            {
                proof {
                    self.mod_matrix@.lemma_filter_map_take_succ(drop_osc(i), x as int);
                }
                if let Some(entry) = self.mod_matrix[x].without_osc(i) {
                    matrix.push(entry);
                }
                x += 1;
            }
            assert(self.mod_matrix@.take(m as int) == self.mod_matrix@);
            self.mod_matrix = matrix;
            assert(self@.oscs =~= old(self)@.without_osc(i).oscs);
        }
    }

    /// Removes envelope `i` and renumbers the matrix entries driven by the
    /// envelopes behind it. Entries driven by envelope `i` are dropped.
    pub fn remove_env(&mut self, i: usize)
        ensures
            final(self)@ == old(self)@.without_env(i),
    {
        if i < self.envs.len() {
            self.envs.remove(i);
            let mut matrix: Vec<Modulation> = Vec::new();
            let m: usize = self.mod_matrix.len();
            let mut x: usize = 0;
            while x < m
                invariant
                    x <= m,
                    m == self.mod_matrix@.len(),
                    matrix@ == self.mod_matrix@.take(x as int).filter_map(drop_env(i)),
                decreases m - x,
            {
                proof {
                    self.mod_matrix@.lemma_filter_map_take_succ(drop_env(i), x as int);
                }
                if let Some(entry) = self.mod_matrix[x].without_env(i) {
                    matrix.push(entry);
                }
                x += 1;
            }
            assert(self.mod_matrix@.take(m as int) == self.mod_matrix@);
            self.mod_matrix = matrix;
        }
    }
}


/// Every item of `s.filter_map(f)` is the image of an item of `s`, and every
/// item of `s` that has an image has it in `s.filter_map(f)`.
proof fn lemma_filter_map_items<A, B>(s: Seq<A>, f: spec_fn(A) -> Option<B>)
    ensures
        s.filter_map(f).len() <= s.len(),
        forall|i: int|
            0 <= i < s.filter_map(f).len() ==> exists|j: int|
                0 <= j < s.len() && f(#[trigger] s[j]) == Some(#[trigger] s.filter_map(f)[i]),
        forall|j: int|
            0 <= j < s.len() && f(#[trigger] s[j]) is Some ==> exists|i: int|
                0 <= i < s.filter_map(f).len() && Some(#[trigger] s.filter_map(f)[i]) == f(s[j]),
    decreases s.len(),
{
    if s.len() > 0 {
        let rest = s.drop_last();
        let out = s.filter_map(f);
        let sub = rest.filter_map(f);
        lemma_filter_map_items(rest, f);
        assert forall|j: int| 0 <= j < s.len() && f(#[trigger] s[j]) is Some implies exists|i: int|
            0 <= i < out.len() && Some(#[trigger] out[i]) == f(s[j]) by {
            if j < rest.len() {
                assert(s[j] == rest[j]);
                let i = choose|i: int| 0 <= i < sub.len() && Some(#[trigger] sub[i]) == f(rest[j]);
                assert(out[i] == sub[i]);
            } else {
                assert(Some(out[out.len() - 1]) == f(s[j]));
            }
        }
    }
}

/// `after` is `before` with its oscillator reference renumbered for the
/// removal of oscillator `k`: it did not point at `k`, it is one less if it
/// pointed behind `k`, and nothing else differs.
pub open spec fn target_renumbered(before: Modulation, after: Modulation, k: usize) -> bool {
    &&& after.source == before.source
    &&& after.depth == before.depth
    &&& match before.target.spec_osc() {
        Some(n) => n != k && after.target == before.target.spec_with_osc(
            if n > k {
                (n - 1) as usize
            } else {
                n
            },
        ),
        None => after.target == before.target,
    }
}

/// `after` is `before` with its envelope reference renumbered for the
/// removal of envelope `k`.
pub open spec fn source_renumbered(before: Modulation, after: Modulation, k: usize) -> bool {
    &&& after.target == before.target
    &&& after.depth == before.depth
    &&& match before.source {
        ModSource::Envelope(n) => n != k && after.source == ModSource::Envelope(
            if n > k {
                (n - 1) as usize
            } else {
                n
            },
        ),
        _ => after.source == before.source,
    }
}

/// Removing oscillator `k` renumbers every reference: an oscillator output
/// that pointed before `k` is untouched, one that pointed behind `k` points
/// one lower, one that pointed at `k` goes to the main mix; every matrix
/// entry that is left comes from an entry that did not act on `k`, and every
/// such entry is left, renumbered in the same way.
pub proof fn lemma_without_osc_renumbers(s: SettingsView, k: usize)
    requires
        k < s.oscs.len(),
    ensures
        s.without_osc(k).oscs.len() == s.oscs.len() - 1,
        s.without_osc(k).envs == s.envs,
        forall|j: int|
            0 < j < s.oscs.len() - 1 ==> {
                let before = s.oscs[if j < k {
                    j
                } else {
                    j + 1
                }].output;
                let after = (#[trigger] s.without_osc(k).oscs[j]).output;
                &&& before.spec_index() < k ==> after == before
                &&& before.spec_index() > k ==> after == before.spec_with_index(
                    (before.spec_index() - 1) as usize,
                )
                &&& before.spec_index() == k ==> after == OscOutput::Mix(0)
            },
        s.without_osc(k).mod_matrix.len() <= s.mod_matrix.len(),
        forall|i: int|
            0 <= i < s.without_osc(k).mod_matrix.len() ==> exists|j: int|
                0 <= j < s.mod_matrix.len() && target_renumbered(
                    #[trigger] s.mod_matrix[j],
                    #[trigger] s.without_osc(k).mod_matrix[i],
                    k,
                ),
        forall|j: int|
            0 <= j < s.mod_matrix.len() && (#[trigger] s.mod_matrix[j]).target.spec_osc() != Some(
                k,
            ) ==> exists|i: int|
                0 <= i < s.without_osc(k).mod_matrix.len() && target_renumbered(
                    s.mod_matrix[j],
                    #[trigger] s.without_osc(k).mod_matrix[i],
                    k,
                ),
{
    let t = s.without_osc(k);
    lemma_filter_map_items(s.mod_matrix, drop_osc(k));
    assert forall|j: int|
        0 <= j < s.mod_matrix.len() && (#[trigger] s.mod_matrix[j]).target.spec_osc() != Some(
            k,
        ) implies exists|i: int|
        0 <= i < t.mod_matrix.len() && target_renumbered(
            s.mod_matrix[j],
            #[trigger] t.mod_matrix[i],
            k,
        ) by {
        assert(drop_osc(k)(s.mod_matrix[j]) is Some);
        let i = choose|i: int|
            0 <= i < t.mod_matrix.len() && Some(#[trigger] t.mod_matrix[i]) == drop_osc(k)(
                s.mod_matrix[j],
            );
        assert(target_renumbered(s.mod_matrix[j], t.mod_matrix[i], k));
    }
}

/// Removing envelope `k` renumbers every reference to an envelope: each
/// matrix entry that is left comes from an entry that was not driven by
/// envelope `k`, and every such entry is left, renumbered.
pub proof fn lemma_without_env_renumbers(s: SettingsView, k: usize)
    requires
        k < s.envs.len(),
    ensures
        s.without_env(k).envs == s.envs.remove(k as int),
        s.without_env(k).oscs == s.oscs,
        s.without_env(k).mod_matrix.len() <= s.mod_matrix.len(),
        forall|i: int|
            0 <= i < s.without_env(k).mod_matrix.len() ==> exists|j: int|
                0 <= j < s.mod_matrix.len() && source_renumbered(
                    #[trigger] s.mod_matrix[j],
                    #[trigger] s.without_env(k).mod_matrix[i],
                    k,
                ),
        forall|j: int|
            0 <= j < s.mod_matrix.len() && (#[trigger] s.mod_matrix[j]).source
                != ModSource::Envelope(k) ==> exists|i: int|
                0 <= i < s.without_env(k).mod_matrix.len() && source_renumbered(
                    s.mod_matrix[j],
                    #[trigger] s.without_env(k).mod_matrix[i],
                    k,
                ),
{
    let t = s.without_env(k);
    lemma_filter_map_items(s.mod_matrix, drop_env(k));
}

/// Removing an oscillator keeps the routing acyclic.
pub proof fn lemma_without_osc_keeps_routing(s: SettingsView, k: usize)
    requires
        s.routing_is_acyclic(),
    ensures
        s.without_osc(k).routing_is_acyclic(),
{
    if k < s.oscs.len() {
        let t = s.without_osc(k);
        assert forall|j: int| 0 <= j < t.oscs.len() implies if j == 0 {
            (#[trigger] t.oscs[j]).output == OscOutput::Mix(0)
        } else {
            (#[trigger] t.oscs[j]).output.spec_index() < j
        } by {
            let from = if j < k {
                j
            } else {
                j + 1
            };
        }
    }
}


/// A named patch of a module.
#[derive(Debug)]
pub struct Patch {
    pub name: String,
    pub settings: Settings,
}

pub struct PatchView {
    pub name: Seq<char>,
    pub settings: SettingsView,
}

impl View for Patch {
    type V = PatchView;

    open spec fn view(&self) -> PatchView {
        PatchView { name: self.name@, settings: self.settings@ }
    }
}

impl Patch {
    /// A patch of that name with the settings of a new synth.
    pub fn new(name: String) -> (p: Patch)
        ensures
            p@ == (PatchView { name: name@, settings: SettingsView::initial() }),
    {
        Patch { name, settings: Settings::new() }
    }
}

} // verus!

//! The effects that follow the mix of all tracks: predelay and reverb.
//!
//! The predelay and the reverb are two units that can be replaced while
//! audio runs. A replacement is built from the current settings and faded
//! in over a fixed time, so at any moment each of the two places holds
//! exactly one unit.

use vstd::prelude::*;

verus! {

/// Time, in milliseconds, over which a replaced unit is crossfaded.
pub const CROSSFADE_TIME: i32 = 100;

/// Settings of the global effects, in thousandths: `reverb_amount`,
/// `reverb_diffusion` and `reverb_mod_speed` of full scale, `predelay_time`
/// and `reverb_time` of a second, `reverb_room_size` of a metre,
/// `reverb_damping` of a decibel.
#[derive(PartialEq, Eq, Structural, Clone, Copy, Debug)]
pub struct FXSettings {
    pub reverb_amount: i32,
    pub predelay_time: i32,
    pub reverb_room_size: i32,
    pub reverb_time: i32,
    pub reverb_diffusion: i32,
    pub reverb_mod_speed: i32,
    pub reverb_damping: i32,
}

/// A replaceable unit of the effects network.
#[derive(PartialEq, Eq, Structural, Clone, Copy, Debug)]
pub enum FxUnit {
    /// A delay of `time` on each of the two channels.
    Predelay { time: i32 },
    /// A stereo reverb whose tail is damped above 5 kHz by `damping`.
    Reverb { room_size: i32, time: i32, diffusion: i32, mod_speed: i32, damping: i32 },
}

/// Asks the audio side to put `unit` in place of the unit of its kind,
/// crossfading over `fade_time` milliseconds, and to publish the network.
#[derive(PartialEq, Eq, Structural, Clone, Copy, Debug)]
pub struct Crossfade {
    pub unit: FxUnit,
    pub fade_time: i32,
}

impl FXSettings {
    pub open spec fn spec_default() -> FXSettings {
        FXSettings {
            reverb_amount: 100,
            predelay_time: 10,
            reverb_room_size: 20_000,
            reverb_time: 200,
            reverb_diffusion: 500,
            reverb_mod_speed: 500,
            reverb_damping: 3000,
        }
    }

    pub open spec fn spec_make_predelay(&self) -> FxUnit {
        FxUnit::Predelay { time: self.predelay_time }
    }

    /// The predelay these settings ask for.
    #[verifier::when_used_as_spec(spec_make_predelay)]
    pub fn make_predelay(&self) -> (unit: FxUnit)
        ensures
            unit == self.spec_make_predelay(),
    {
        FxUnit::Predelay { time: self.predelay_time }
    }

    pub open spec fn spec_make_reverb(&self) -> FxUnit {
        FxUnit::Reverb {
            room_size: self.reverb_room_size,
            time: self.reverb_time,
            diffusion: self.reverb_diffusion,
            mod_speed: self.reverb_mod_speed,
            damping: self.reverb_damping,
        }
    }

    /// The reverb these settings ask for.
    #[verifier::when_used_as_spec(spec_make_reverb)]
    pub fn make_reverb(&self) -> (unit: FxUnit)
        ensures
            unit == self.spec_make_reverb(),
    {
        FxUnit::Reverb {
            room_size: self.reverb_room_size,
            time: self.reverb_time,
            diffusion: self.reverb_diffusion,
            mod_speed: self.reverb_mod_speed,
            damping: self.reverb_damping,
        }
    }
}

impl Default for FXSettings {
    fn default() -> (s: FXSettings)
        ensures
            s == FXSettings::spec_default(),
    {
        FXSettings {
            reverb_amount: 100,
            predelay_time: 10,
            reverb_room_size: 20_000,
            reverb_time: 200,
            reverb_diffusion: 500,
            reverb_mod_speed: 500,
            reverb_damping: 3000,
        }
    }
}

/// The global effects: the settings as last edited, and the two units that
/// are in place.
#[derive(PartialEq, Eq, Structural, Clone, Copy, Debug)]
pub struct GlobalFX {
    pub settings: FXSettings,
    pub predelay: FxUnit,
    pub reverb: FxUnit,
}

impl GlobalFX {
    /// The state in which each unit is the one the settings ask for.
    pub open spec fn built_from(settings: FXSettings) -> GlobalFX {
        GlobalFX {
            settings,
            predelay: settings.spec_make_predelay(),
            reverb: settings.spec_make_reverb(),
        }
    }

    /// The state after the predelay was replaced by the one the settings
    /// ask for.
    pub open spec fn with_predelay_committed(self) -> GlobalFX {
        GlobalFX { predelay: self.settings.spec_make_predelay(), ..self }
    }

    /// The state after the reverb was replaced by the one the settings ask
    /// for.
    pub open spec fn with_reverb_committed(self) -> GlobalFX {
        GlobalFX { reverb: self.settings.spec_make_reverb(), ..self }
    }

    /// The effects as built from `settings`.
    pub fn new(settings: &FXSettings) -> (fx: GlobalFX)
        ensures
            fx == GlobalFX::built_from(*settings),
    {
        GlobalFX {
            settings: *settings,
            predelay: settings.make_predelay(),
            reverb: settings.make_reverb(),
        }
    }

    /// Takes over `settings` and replaces both units.
    pub fn reinit(&mut self, settings: &FXSettings) -> (fades: (Crossfade, Crossfade))
        ensures
            *final(self) == GlobalFX::built_from(*settings),
            fades.0 == (Crossfade { unit: settings.spec_make_predelay(), fade_time: CROSSFADE_TIME }),
            fades.1 == (Crossfade { unit: settings.spec_make_reverb(), fade_time: CROSSFADE_TIME }),
    {
        self.settings = *settings;
        let predelay = self.commit_predelay();
        let reverb = self.commit_reverb();
        (predelay, reverb)
    }

    /// Replaces the predelay by the one the settings ask for.
    pub fn commit_predelay(&mut self) -> (fade: Crossfade)
        ensures
            *final(self) == old(self).with_predelay_committed(),
            fade == (Crossfade { unit: old(self).settings.spec_make_predelay(), fade_time: CROSSFADE_TIME }),
    {
        let unit = self.settings.make_predelay();
        self.predelay = unit;
        Crossfade { unit, fade_time: CROSSFADE_TIME }
    }

    /// Replaces the reverb by the one the settings ask for.
    pub fn commit_reverb(&mut self) -> (fade: Crossfade)
        ensures
            *final(self) == old(self).with_reverb_committed(),
            fade == (Crossfade { unit: old(self).settings.spec_make_reverb(), fade_time: CROSSFADE_TIME }),
    {
        let unit = self.settings.make_reverb();
        self.reverb = unit;
        Crossfade { unit, fade_time: CROSSFADE_TIME }
    }
}

/// Two replacements of the predelay in a row, each after a change of the
/// settings, leave one predelay in place: the one the last settings ask
/// for. The reverb is as it was.
pub proof fn lemma_predelay_committed_twice(fx: GlobalFX, first: FXSettings, second: FXSettings)
    ensures
        ({
            let once = (GlobalFX { settings: first, ..fx }).with_predelay_committed();
            let twice = (GlobalFX { settings: second, ..once }).with_predelay_committed();
            &&& twice.predelay == FxUnit::Predelay { time: second.predelay_time }
            &&& twice.reverb == fx.reverb
            &&& twice.settings == second
        }),
{
}

} // verus!

use osctet::fx::{Crossfade, FXSettings, FxUnit, GlobalFX, CROSSFADE_TIME};

#[test]
fn default_effects() {
    let s = FXSettings::default();
    assert_eq!(
        s,
        FXSettings {
            reverb_amount: 100,
            predelay_time: 10,
            reverb_room_size: 20_000,
            reverb_time: 200,
            reverb_diffusion: 500,
            reverb_mod_speed: 500,
            reverb_damping: 3000,
        }
    );
    assert_eq!(s.make_predelay(), FxUnit::Predelay { time: 10 });
    assert_eq!(
        s.make_reverb(),
        FxUnit::Reverb { room_size: 20_000, time: 200, diffusion: 500, mod_speed: 500, damping: 3000 }
    );
    let fx = GlobalFX::new(&s);
    assert_eq!(fx.predelay, s.make_predelay());
    assert_eq!(fx.reverb, s.make_reverb());
}

#[test]
fn two_predelay_commits_leave_one_predelay() {
    let mut fx = GlobalFX::new(&FXSettings::default());
    let reverb = fx.reverb;
    fx.settings.predelay_time = 30;
    let first = fx.commit_predelay();
    fx.settings.predelay_time = 55;
    let second = fx.commit_predelay();
    assert_eq!(first, Crossfade { unit: FxUnit::Predelay { time: 30 }, fade_time: CROSSFADE_TIME });
    assert_eq!(second, Crossfade { unit: FxUnit::Predelay { time: 55 }, fade_time: 100 });
    assert_eq!(fx.predelay, FxUnit::Predelay { time: 55 });
    assert_eq!(fx.reverb, reverb);
}

#[test]
fn reverb_commit_and_reinit() {
    let mut fx = GlobalFX::new(&FXSettings::default());
    fx.settings.reverb_time = 900;
    fx.settings.predelay_time = 1;
    let fade = fx.commit_reverb();
    assert_eq!(fade.unit, fx.settings.make_reverb());
    assert_eq!(fx.predelay, FxUnit::Predelay { time: 10 });
    let (predelay, reverb) = fx.reinit(&FXSettings::default());
    assert_eq!(fx, GlobalFX::new(&FXSettings::default()));
    assert_eq!(predelay.unit, FxUnit::Predelay { time: 10 });
    assert_eq!(reverb.unit, FXSettings::default().make_reverb());
}

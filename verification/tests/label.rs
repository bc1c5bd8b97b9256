use osctet::label::append_decimal;
use osctet::settings::{ModSource, ModTarget, OscOutput};

#[test]
fn decimal_digits() {
    let mut s = String::from("n=");
    append_decimal(&mut s, 0);
    assert_eq!(s, "n=0");
    append_decimal(&mut s, 907);
    assert_eq!(s, "n=0907");
    let mut s = String::new();
    append_decimal(&mut s, u128::MAX);
    assert_eq!(s, "340282366920938463463374607431768211455");
}

#[test]
fn routings_are_named_from_one() {
    assert_eq!(OscOutput::Mix(0).label(), "Mix");
    assert_eq!(OscOutput::Mix(1).label(), "Mix to osc 2");
    assert_eq!(OscOutput::AM(0).label(), "RM osc 1");
    assert_eq!(OscOutput::FM(9).label(), "FM osc 10");
    assert_eq!(OscOutput::FM(usize::MAX).label(), format!("FM osc {}", usize::MAX as u128 + 1));
}

#[test]
fn sources_and_targets_are_named() {
    assert_eq!(ModSource::Pitch.label(), "Pitch");
    assert_eq!(ModSource::Pressure.label(), "Pressure");
    assert_eq!(ModSource::Modulation.label(), "Mod wheel");
    assert_eq!(ModSource::Random.label(), "Random");
    assert_eq!(ModSource::Envelope(0).label(), "Envelope 1");
    assert_eq!(ModSource::Envelope(11).label(), "Envelope 12");
    assert_eq!(ModTarget::Gain.label(), "Gain");
    assert_eq!(ModTarget::Level(0).label(), "Osc 1 level");
    assert_eq!(ModTarget::Pitch(1).label(), "Osc 2 pitch");
    assert_eq!(ModTarget::FinePitch(2).label(), "Osc 3 fine pitch");
    assert_eq!(ModTarget::Duty(3).label(), "Osc 4 duty");
    assert_eq!(ModTarget::FilterCutoff.label(), "Filter cutoff");
}

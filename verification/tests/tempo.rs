use osctet::tempo::{gcd_u64, reduced, Clock, Tempo};

#[test]
fn gcd_of_small_numbers() {
    assert_eq!(gcd_u64(12, 18), 6);
    assert_eq!(gcd_u64(17, 5), 1);
    assert_eq!(gcd_u64(0, 9), 9);
    assert_eq!(gcd_u64(9, 0), 9);
    assert_eq!(gcd_u64(0, 0), 0);
}

#[test]
fn tempo_is_held_in_lowest_terms() {
    assert_eq!(Tempo::standard(), Tempo { num: 120, den: 1 });
    assert_eq!(Tempo::from_milli(120_000), Tempo { num: 120, den: 1 });
    assert_eq!(Tempo::from_milli(133_333), Tempo { num: 133_333, den: 1000 });
    assert_eq!(Tempo::from_milli(90_500), Tempo { num: 181, den: 2 });
    assert_eq!(Tempo::from_milli(0), Tempo { num: 0, den: 1 });
    assert_eq!(reduced(6, 4), Some(Tempo { num: 3, den: 2 }));
    assert_eq!(reduced(6, 0), None);
    assert_eq!(reduced(1 << 40, 1), None);
    assert_eq!(reduced(1 << 40, 1 << 20), Some(Tempo { num: 1 << 20, den: 1 }));
}

#[test]
fn rational_tempo_changes_compose() {
    let t = Tempo::standard();
    let half = t.scaled(1, 2).unwrap();
    assert_eq!(half, Tempo { num: 60, den: 1 });
    let quarter = half.scaled(1, 2).unwrap();
    assert_eq!(quarter, t.scaled(1, 4).unwrap());
    assert_eq!(quarter, Tempo { num: 30, den: 1 });
    let a = Tempo::from_milli(133_333).scaled(3, 7).unwrap().scaled(5, 9).unwrap();
    let b = Tempo::from_milli(133_333).scaled(15, 63).unwrap();
    assert_eq!(a, b);
    assert_eq!(t.scaled(2, 3).unwrap().scaled(3, 2).unwrap(), t);
}

#[test]
fn scaling_that_cannot_be_held_gives_nothing() {
    let t = Tempo::standard();
    assert_eq!(t.scaled(1, 0), None);
    assert_eq!(t.scaled(0, 3), Some(Tempo { num: 0, den: 1 }));
    assert_eq!(Tempo { num: 1, den: 0 }.scaled(1, 1), None);
    let big = Tempo { num: u32::MAX, den: 1 };
    assert_eq!(big.scaled(2, 1), None);
    assert_eq!(big.scaled(2, 2), Some(big));
}

#[test]
fn a_second_at_the_standard_tempo_is_240_ticks() {
    let mut clock = Clock::new();
    assert_eq!(clock.advance(1_000_000_000, Tempo::standard()), 240);
    assert_eq!(clock.advance(0, Tempo::standard()), 0);
}

#[test]
fn ticks_are_rounded_and_the_rest_is_carried() {
    let t = Tempo::standard();
    // One tick lasts 4 166 666 and two thirds nanoseconds.
    let mut clock = Clock::new();
    assert_eq!(clock.advance(2_083_333, t), 0);
    assert_eq!(clock.advance(1, t), 1);
    assert_eq!(clock.advance(4_166_665, t), 0);
    assert_eq!(clock.advance(1, t), 1);
    let mut clock = Clock::new();
    assert_eq!(clock.advance(2_083_334, t), 1);
    assert_eq!(clock.advance(4_166_665, t), 0);
    assert_eq!(clock.advance(1, t), 1);
    assert_eq!(clock.advance(4_166_666, t), 0);
    assert_eq!(clock.advance(1, t), 1);
}

#[test]
fn the_clock_does_not_drift() {
    let t = Tempo::from_milli(137_500);
    let mut clock = Clock::new();
    let dt: u64 = 16_666_667;
    let mut ticks: u128 = 0;
    let mut elapsed: u128 = 0;
    for frame in 1..=100_000u128 {
        ticks += clock.advance(dt, t);
        elapsed += dt as u128;
        if frame % 9973 == 0 || frame == 100_000 {
            // elapsed * 137.5 * 120 / 60e9 ticks, doubled to compare with halves
            let exact_doubled = elapsed * 275 * 120;
            let span = 60_000_000_000u128;
            assert!(2 * ticks * span <= exact_doubled + span);
            assert!(exact_doubled < 2 * ticks * span + span);
        }
    }
    assert_eq!(ticks, 458_333);
}

#[test]
fn no_tick_passes_at_a_tempo_of_nothing() {
    let mut clock = Clock::new();
    assert_eq!(clock.advance(u64::MAX, Tempo { num: 0, den: 1 }), 0);
    assert_eq!(clock.advance(u64::MAX, Tempo { num: 5, den: 0 }), 0);
    assert_eq!(clock.advance(1_000_000_000, Tempo::standard()), 240);
}

#[test]
fn what_is_carried_is_kept_when_the_tempo_changes() {
    // A third of a tick at 120 is two thirds of a tick at 240.
    let mut clock = Clock::new();
    assert_eq!(clock.advance(1_388_889, Tempo::standard()), 0);
    assert_eq!(clock.advance(0, Tempo { num: 240, den: 1 }), 1);
    let mut clock = Clock::new();
    assert_eq!(clock.advance(1_388_889, Tempo::standard()), 0);
    assert_eq!(clock.advance(0, Tempo { num: 130, den: 1 }), 0);
    // After rounding up, the clock is behind: the time it owes is kept too.
    let mut clock = Clock::new();
    assert_eq!(clock.advance(2_083_334, Tempo::standard()), 1);
    assert_eq!(clock.advance(2_083_333, Tempo { num: 60, den: 1 }), 0);
    assert_eq!(clock.advance(4_166_666, Tempo { num: 60, den: 1 }), 0);
    assert_eq!(clock.advance(1, Tempo { num: 60, den: 1 }), 1);
}

#[test]
fn the_longest_step_at_the_fastest_tempo() {
    let mut clock = Clock::new();
    let ticks = clock.advance(u64::MAX, Tempo { num: u32::MAX, den: 1 });
    // u64::MAX * u32::MAX * 120 / 60e9, rounded
    let exact = (u64::MAX as u128) * (u32::MAX as u128) * 120;
    let span = 60_000_000_000u128;
    assert_eq!(ticks, (2 * exact + span) / (2 * span));
}

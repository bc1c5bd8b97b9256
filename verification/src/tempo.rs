//! Tempo and the conversion of elapsed time into ticks.
//!
//! A tempo is a ratio of two integers, in beats per minute, so that tempo
//! changes by a rational factor are exact. The clock turns nanoseconds into
//! ticks: what a step leaves over is carried to the next one without any
//! rounding, so the count of ticks never drifts from the elapsed time.

use crate::module::TICKS_PER_BEAT;
use vstd::arithmetic::div_mod::{
    lemma_div_is_ordered, lemma_fundamental_div_mod, lemma_hoist_over_denominator,
    lemma_mod_multiples_basic, lemma_remainder,
};
use vstd::prelude::*;

verus! {

pub const NANOS_PER_MINUTE: u64 = 60_000_000_000;

/// Bound on what a clock carries, for each unit of the numerator of its
/// tempo: more than half a tick at any tempo.
pub const CARRY_LIMIT: i128 = 0x8_0000_0000_0000_0000;

/// Greatest common divisor.
pub open spec fn gcd(a: nat, b: nat) -> nat
    decreases b,
{
    if b == 0 {
        a
    } else {
        gcd(b, a % b)
    }
}

/// The greatest common divisor divides both numbers, and is not 0 unless
/// both are.
pub proof fn lemma_gcd(a: nat, b: nat)
    ensures
        a > 0 || b > 0 ==> gcd(a, b) > 0,
        gcd(a, b) > 0 ==> a % gcd(a, b) == 0 && b % gcd(a, b) == 0,
    decreases b,
{
    if b != 0 {
        lemma_gcd(b, a % b);
        let g = gcd(a, b);
        let r = a % b;
        lemma_fundamental_div_mod(a as int, b as int);
        lemma_fundamental_div_mod(b as int, g as int);
        lemma_fundamental_div_mod(r as int, g as int);
        let kb = b / g;
        let kr = r / g;
        let q = a / b;
        assert(a == (q * kb + kr) * g) by (nonlinear_arith)
            requires
                a == b * q + r,
                b == g * kb,
                r == g * kr,
        ;
        lemma_mod_multiples_basic((q * kb + kr) as int, g as int);
    } else if a > 0 {
        lemma_mod_multiples_basic(1, a as int);
    }
}

pub fn gcd_u64(a: u64, b: u64) -> (g: u64)
    ensures
        g == gcd(a as nat, b as nat),
{
    let mut x: u64 = a;
    let mut y: u64 = b;
    while y != 0
        invariant
            gcd(x as nat, y as nat) == gcd(a as nat, b as nat),
        decreases y,
    {
        let r: u64 = x % y;
        x = y;
        y = r;
    }
    x
}

/// A tempo of `num / den` beats per minute.
#[derive(PartialEq, Eq, Structural, Clone, Copy, Debug)]
pub struct Tempo {
    pub num: u32,
    pub den: u32,
}

/// The ratio `n / d` in lowest terms, if there is such a ratio and its
/// terms fit.
pub open spec fn spec_reduced(n: nat, d: nat) -> Option<Tempo> {
    if d == 0 {
        None
    } else if n / gcd(n, d) <= u32::MAX && d / gcd(n, d) <= u32::MAX {
        Some(Tempo { num: (n / gcd(n, d)) as u32, den: (d / gcd(n, d)) as u32 })
    } else {
        None
    }
}

#[verifier::when_used_as_spec(spec_reduced_u64)]
pub fn reduced(n: u64, d: u64) -> (t: Option<Tempo>)
    ensures
        t == spec_reduced(n as nat, d as nat),
{
    if d == 0 {
        return None;
    }
    let g = gcd_u64(n, d);
    proof {
        lemma_gcd(n as nat, d as nat);
    }
    let num = n / g;
    let den = d / g;
    if num <= u32::MAX as u64 && den <= u32::MAX as u64 {
        Some(Tempo { num: num as u32, den: den as u32 })
    } else {
        None
    }
}

pub open spec fn spec_reduced_u64(n: u64, d: u64) -> Option<Tempo> {
    spec_reduced(n as nat, d as nat)
}

/// A ratio in lowest terms is the same ratio, and its denominator is not 0.
pub proof fn lemma_reduced(n: nat, d: nat)
    requires
        spec_reduced(n, d) is Some,
    ensures
        spec_reduced(n, d).unwrap().den > 0,
        spec_reduced(n, d).unwrap().num * d == n * spec_reduced(n, d).unwrap().den,
{
    lemma_gcd(n, d);
    let g = gcd(n, d);
    lemma_fundamental_div_mod(n as int, g as int);
    lemma_fundamental_div_mod(d as int, g as int);
    let a = n / g;
    let b = d / g;
    assert(b > 0) by (nonlinear_arith)
        requires
            d == g * b,
            d > 0,
            g > 0,
    ;
    assert(a * d == n * b) by (nonlinear_arith)
        requires
            n == g * a,
            d == g * b,
    ;
}

/// Some multiples of the two numbers differ by 1: they have no divisor in
/// common but 1.
pub open spec fn coprime(a: int, b: int) -> bool {
    exists|x: int, y: int| #[trigger] (a * x) + #[trigger] (b * y) == 1
}

/// The greatest common divisor is a sum of multiples of the two numbers.
pub proof fn lemma_bezout(a: nat, b: nat) -> (r: (int, int))
    ensures
        a * r.0 + b * r.1 == gcd(a, b),
    decreases b,
{
    if b == 0 {
        (1, 0)
    } else {
        let (x, y) = lemma_bezout(b, a % b);
        let q = (a / b) as int;
        let rest = (a % b) as int;
        lemma_fundamental_div_mod(a as int, b as int);
        let g = gcd(a, b) as int;
        assert(a * y + b * (x - q * y) == g) by (nonlinear_arith)
            requires
                a == b * q + rest,
                b * x + rest * y == g,
        ;
        (y, x - q * y)
    }
}

/// The terms of a ratio in lowest terms have no divisor in common.
pub proof fn lemma_reduced_coprime(n: nat, d: nat)
    requires
        spec_reduced(n, d) is Some,
    ensures
        coprime(spec_reduced(n, d).unwrap().num as int, spec_reduced(n, d).unwrap().den as int),
{
    lemma_gcd(n, d);
    let g = gcd(n, d) as int;
    let (x, y) = lemma_bezout(n, d);
    lemma_fundamental_div_mod(n as int, g);
    lemma_fundamental_div_mod(d as int, g);
    let a = (n / gcd(n, d)) as int;
    let b = (d / gcd(n, d)) as int;
    assert(g * (a * x + b * y) == g * 1) by (nonlinear_arith)
        requires
            n == g * a,
            d == g * b,
            n * x + d * y == g,
    ;
    assert(a * x + b * y == 1) by (nonlinear_arith)
        requires
            g * (a * x + b * y) == g * 1,
            g > 0,
    ;
}

/// Two ratios in lowest terms that are the same ratio have the same terms.
pub proof fn lemma_lowest_terms_unique(a: int, b: int, c: int, d: int)
    requires
        coprime(a, b),
        coprime(c, d),
        a >= 0,
        c >= 0,
        b > 0,
        d > 0,
        a * d == c * b,
    ensures
        a == c,
        b == d,
{
    let (x, y) = choose|x: int, y: int| #[trigger] (c * x) + #[trigger] (d * y) == 1;
    let (u, v) = choose|u: int, v: int| #[trigger] (a * u) + #[trigger] (b * v) == 1;
    let k = a * x + b * y;
    let m = c * u + d * v;
    assert(d * k == b) by (nonlinear_arith)
        requires
            k == a * x + b * y,
            c * x + d * y == 1,
            a * d == c * b,
    ;
    assert(b * m == d) by (nonlinear_arith)
        requires
            m == c * u + d * v,
            a * u + b * v == 1,
            a * d == c * b,
    ;
    assert(k >= 1) by (nonlinear_arith)
        requires
            d * k == b,
            b > 0,
            d > 0,
    ;
    assert(m >= 1) by (nonlinear_arith)
        requires
            b * m == d,
            b > 0,
            d > 0,
    ;
    assert(b == d) by (nonlinear_arith)
        requires
            d * k == b,
            b * m == d,
            k >= 1,
            m >= 1,
            b > 0,
            d > 0,
    ;
    assert(a == c) by (nonlinear_arith)
        requires
            a * d == c * b,
            b == d,
            d > 0,
    ;
}

impl Tempo {
    /// The denominator is not 0.
    pub open spec fn valid(self) -> bool {
        self.den > 0
    }

    pub open spec fn spec_standard() -> Tempo {
        Tempo { num: 120, den: 1 }
    }

    /// The tempo that playback starts with: 120 beats per minute.
    #[verifier::when_used_as_spec(spec_standard)]
    pub fn standard() -> (t: Tempo)
        ensures
            t == Tempo::spec_standard(),
    {
        Tempo { num: 120, den: 1 }
    }

    pub open spec fn spec_from_milli(milli: u32) -> Tempo {
        spec_reduced(milli as nat, 1000).unwrap()
    }

    /// The tempo of `milli` thousandths of a beat per minute.
    #[verifier::when_used_as_spec(spec_from_milli)]
    pub fn from_milli(milli: u32) -> (t: Tempo)
        ensures
            t == Tempo::spec_from_milli(milli),
            spec_reduced(milli as nat, 1000) is Some,
            t.valid(),
            t.num * 1000 == milli * t.den,
    {
        proof {
            lemma_gcd(milli as nat, 1000);
            let g = gcd(milli as nat, 1000);
            lemma_fundamental_div_mod(milli as int, g as int);
            lemma_fundamental_div_mod(1000, g as int);
        }
        let t = reduced(milli as u64, 1000);
        proof {
            lemma_reduced(milli as nat, 1000);
        }
        t.unwrap()
    }

    pub open spec fn spec_scaled(&self, n: u8, d: u8) -> Option<Tempo> {
        spec_reduced((self.num * n) as nat, (self.den * d) as nat)
    }

    /// The tempo times `n / d`, in lowest terms: `None` if `d` or the
    /// denominator of the tempo is 0, or if the terms do not fit.
    #[verifier::when_used_as_spec(spec_scaled)]
    pub fn scaled(&self, n: u8, d: u8) -> (t: Option<Tempo>)
        ensures
            t == self.spec_scaled(n, d),
            t is Some ==> t.unwrap().valid(),
    {
        assert(self.num * n <= u64::MAX && self.den * d <= u64::MAX) by (nonlinear_arith)
            requires
                self.num <= u32::MAX,
                self.den <= u32::MAX,
                n <= 255,
                d <= 255,
        ;
        let t = reduced(self.num as u64 * n as u64, self.den as u64 * d as u64);
        proof {
            if t is Some {
                lemma_reduced((self.num * n) as nat, (self.den * d) as nat);
            }
        }
        t
    }
}

/// Scaling composes: a tempo scaled by `n1 / d1` and then by `n2 / d2` is
/// the tempo scaled by `(n1 * n2) / (d1 * d2)`, wherever each of the three
/// can be held.
pub proof fn lemma_scaling_composes(t: Tempo, n1: u8, d1: u8, n2: u8, d2: u8)
    requires
        n1 * n2 <= 255,
        d1 * d2 <= 255,
        t.spec_scaled(n1, d1) is Some,
        t.spec_scaled(n1, d1).unwrap().spec_scaled(n2, d2) is Some,
        t.spec_scaled((n1 * n2) as u8, (d1 * d2) as u8) is Some,
    ensures
        t.spec_scaled(n1, d1).unwrap().spec_scaled(n2, d2).unwrap() == t.spec_scaled(
            (n1 * n2) as u8,
            (d1 * d2) as u8,
        ).unwrap(),
{
    let a = t.spec_scaled(n1, d1).unwrap();
    let b = a.spec_scaled(n2, d2).unwrap();
    let c = t.spec_scaled((n1 * n2) as u8, (d1 * d2) as u8).unwrap();
    lemma_reduced((t.num * n1) as nat, (t.den * d1) as nat);
    lemma_reduced((a.num * n2) as nat, (a.den * d2) as nat);
    lemma_reduced((t.num * (n1 * n2)) as nat, (t.den * (d1 * d2)) as nat);
    let (tn, td, an, ad, bn, bd, cn, cd) = (
        t.num as int,
        t.den as int,
        a.num as int,
        a.den as int,
        b.num as int,
        b.den as int,
        c.num as int,
        c.den as int,
    );
    let (fa, ga, fb, gb) = (n1 as int, d1 as int, n2 as int, d2 as int);
    let u = td * ga;
    let v = ad * gb;
    let w = tn * fa;
    let k = v * u;
    assert(k > 0) by (nonlinear_arith)
        requires
            k == v * u,
            u > 0,
            v > 0,
    ;
    assert(cn * (u * gb) == (w * fb) * cd) by (nonlinear_arith)
        requires
            u == td * ga,
            w == tn * fa,
            cn * (td * (ga * gb)) == (tn * (fa * fb)) * cd,
    ;
    let x = bn * v;
    let y = an * u;
    let z = cn * (u * gb);
    assert((bn * cd) * k == x * (cd * u)) by (nonlinear_arith)
        requires
            k == v * u,
            x == bn * v,
    ;
    assert(((an * fb) * bd) * (cd * u) == y * (fb * bd * cd)) by (nonlinear_arith)
        requires
            y == an * u,
    ;
    assert((w * ad) * (fb * bd * cd) == ((w * fb) * cd) * (bd * ad)) by (nonlinear_arith);
    assert((cn * bd) * k == z * (bd * ad)) by (nonlinear_arith)
        requires
            k == v * u,
            v == ad * gb,
            z == cn * (u * gb),
    ;
    assert(bn * cd == cn * bd) by (nonlinear_arith)
        requires
            (bn * cd) * k == (cn * bd) * k,
            k > 0,
    ;
    lemma_reduced_coprime((a.num * n2) as nat, (a.den * d2) as nat);
    lemma_reduced_coprime((t.num * (n1 * n2)) as nat, (t.den * (d1 * d2)) as nat);
    lemma_lowest_terms_unique(bn, bd, cn, cd);
}


/// `a / b`, rounded to the nearest integer, halves away from 0.
pub open spec fn round_div(a: int, b: int) -> int {
    if a >= 0 {
        (2 * a + b) / (2 * b)
    } else {
        -((-2 * a + b) / (2 * b))
    }
}

/// What a clock carries: a time, in units of which a nanosecond has
/// `num * TICKS_PER_BEAT`.
pub struct ClockView {
    pub carry: int,
    pub num: u32,
}

/// Units of carry in a nanosecond at this tempo.
pub open spec fn rate(tempo: Tempo) -> int {
    tempo.num * TICKS_PER_BEAT
}

/// Units of carry in a tick at this tempo.
pub open spec fn span(tempo: Tempo) -> int {
    tempo.den * NANOS_PER_MINUTE
}

impl ClockView {
    /// The carry is within its bound.
    pub open spec fn wf(self) -> bool {
        -CARRY_LIMIT * self.num <= self.carry <= CARRY_LIMIT * self.num
    }

    /// The time carried, in the units of `tempo`. It is converted, and
    /// rounded, only where the numerator of the tempo has changed.
    pub open spec fn carried(self, tempo: Tempo) -> int {
        if self.num == tempo.num {
            self.carry
        } else if self.num == 0 {
            0
        } else {
            round_div(self.carry * tempo.num, self.num as int)
        }
    }

    /// The time carried plus `dt` nanoseconds, in the units of `tempo`.
    pub open spec fn total(self, dt: u64, tempo: Tempo) -> int {
        self.carried(tempo) + dt * rate(tempo)
    }

    /// The ticks that pass when `dt` nanoseconds elapse at `tempo`: the
    /// time carried plus `dt`, in ticks, rounded to the nearest integer, and
    /// never less than 0. No tick passes at a tempo without a denominator.
    pub open spec fn ticks(self, dt: u64, tempo: Tempo) -> int {
        if tempo.den == 0 || 2 * self.total(dt, tempo) < span(tempo) {
            0
        } else {
            (2 * self.total(dt, tempo) + span(tempo)) / (2 * span(tempo))
        }
    }

    /// The clock after `dt` nanoseconds elapsed at `tempo`: it carries the
    /// total less the time of the ticks that passed.
    pub open spec fn advanced(self, dt: u64, tempo: Tempo) -> ClockView {
        if tempo.den == 0 {
            self
        } else {
            ClockView {
                carry: self.total(dt, tempo) - self.ticks(dt, tempo) * span(tempo),
                num: tempo.num,
            }
        }
    }

    /// The ticks that pass in all over the steps `dts`, at one tempo.
    pub open spec fn ticks_over(self, dts: Seq<u64>, tempo: Tempo) -> int
        decreases dts.len(),
    {
        if dts.len() == 0 {
            0
        } else {
            self.ticks_over(dts.drop_last(), tempo) + self.advanced_over(
                dts.drop_last(),
                tempo,
            ).ticks(dts.last(), tempo)
        }
    }

    /// The clock after the steps `dts`, at one tempo.
    pub open spec fn advanced_over(self, dts: Seq<u64>, tempo: Tempo) -> ClockView
        decreases dts.len(),
    {
        if dts.len() == 0 {
            self
        } else {
            self.advanced_over(dts.drop_last(), tempo).advanced(dts.last(), tempo)
        }
    }
}

/// The nanoseconds that elapse over the steps.
pub open spec fn elapsed(dts: Seq<u64>) -> int
    decreases dts.len(),
{
    if dts.len() == 0 {
        0
    } else {
        elapsed(dts.drop_last()) + dts.last()
    }
}

/// Turns elapsed time into ticks.
#[derive(Debug)]
pub struct Clock {
    carry: i128,
    num: u32,
}

impl View for Clock {
    type V = ClockView;

    closed spec fn view(&self) -> ClockView {
        ClockView { carry: self.carry as int, num: self.num }
    }
}

proof fn lemma_round_div_bound(m: int, n: int, k: int, limit: int)
    requires
        0 <= m <= limit * n,
        n > 0,
        k >= 0,
        limit >= 0,
    ensures
        0 <= round_div(m * k, n) <= limit * k,
{
    assert(m * k <= limit * n * k) by (nonlinear_arith)
        requires
            m <= limit * n,
            k >= 0,
    ;
    let top = 2 * (limit * n * k) + n;
    lemma_div_is_ordered(2 * (m * k) + n, top, 2 * n);
    assert(top == n + (limit * k) * (2 * n)) by (nonlinear_arith)
        requires
            top == 2 * (limit * n * k) + n,
    ;
    lemma_hoist_over_denominator(n, limit * k, (2 * n) as nat);
    assert(n / (2 * n) == 0) by (nonlinear_arith)
        requires
            n > 0,
    ;
    lemma_div_is_ordered(0, 2 * (m * k) + n, 2 * n);
}

proof fn lemma_round_div_split(q: int, r: int, n: int, k: int)
    requires
        n > 0,
    ensures
        round_div((q * n + r) * k, n) == if (q * n + r) * k >= 0 {
            q * k + (2 * (r * k) + n) / (2 * n)
        } else {
            round_div((q * n + r) * k, n)
        },
{
    if (q * n + r) * k >= 0 {
        assert(2 * ((q * n + r) * k) + n == (2 * (r * k) + n) + (q * k) * (2 * n))
            by (nonlinear_arith);
        lemma_hoist_over_denominator(2 * (r * k) + n, q * k, (2 * n) as nat);
    }
}

/// What remains of `total` after the ticks in it: less than half a tick
/// either way, if the total is not less than half a tick below 0.
proof fn lemma_ticks(total: int, span: int)
    requires
        span > 0,
    ensures
        ({
            let ticks = if 2 * total < span {
                0
            } else {
                (2 * total + span) / (2 * span)
            };
            &&& ticks >= 0
            &&& 2 * total >= span ==> -span <= 2 * (total - ticks * span) < span
            &&& 2 * total >= span ==> ticks >= 1
            &&& ticks * span <= if total >= 0 {
                total + span
            } else {
                0
            }
        }),
{
    if 2 * total >= span {
        let x = 2 * total + span;
        let d = 2 * span;
        lemma_fundamental_div_mod(x, d);
        lemma_remainder(x, d);
        let t = x / d;
        assert(d * t == 2 * (t * span)) by (nonlinear_arith)
            requires
                d == 2 * span,
        ;
    }
}

impl Clock {
    #[verifier::type_invariant]
    spec fn inv(self) -> bool {
        self@.wf()
    }

    /// A clock that carries nothing.
    pub fn new() -> (c: Clock)
        ensures
            c@ == (ClockView { carry: 0, num: 0 }),
    {
        Clock { carry: 0, num: 0 }
    }

    /// Forgets the time carried.
    pub fn reset(&mut self)
        ensures
            final(self)@ == (ClockView { carry: 0, num: 0 }),
    {
        *self = Clock { carry: 0, num: 0 };
    }

    /// Lets `dt` nanoseconds elapse at `tempo` and returns the ticks that
    /// passed.
    pub fn advance(&mut self, dt: u64, tempo: Tempo) -> (ticks: u128)
        ensures
            ticks == old(self)@.ticks(dt, tempo),
            final(self)@ == old(self)@.advanced(dt, tempo),
            old(self)@.wf(),
            final(self)@.wf(),
    {
        proof {
            use_type_invariant(&*self);
        }
        if tempo.den == 0 {
            return 0;
        }
        let limit: i128 = CARRY_LIMIT;
        let num: i128 = tempo.num as i128;
        let from: i128 = self.num as i128;
        let carried: i128 = if self.num == tempo.num {
            self.carry
        } else if self.num == 0 {
            0
        } else {
            let negative = self.carry < 0;
            let m: i128 = if negative {
                -self.carry
            } else {
                self.carry
            };
            let q: i128 = m / from;
            let r: i128 = m % from;
            proof {
                lemma_fundamental_div_mod(m as int, from as int);
                lemma_remainder(m as int, from as int);
                assert(m == q * from + r) by (nonlinear_arith)
                    requires
                        m == from * q + r,
                ;
                assert(0 <= r * num <= 0xffff_ffff * 0xffff_ffff) by (nonlinear_arith)
                    requires
                        0 <= r < from,
                        from <= 0xffff_ffff,
                        0 <= num <= 0xffff_ffff,
                ;
                lemma_round_div_split(q as int, r as int, from as int, num as int);
                lemma_round_div_bound(m as int, from as int, num as int, limit as int);
                if negative {
                    assert(-2 * (self.carry * num) == 2 * (m * num)) by (nonlinear_arith)
                        requires
                            m == -self.carry,
                    ;
                }
            }
            let converted: i128 = q * num + (2 * (r * num) + from) / (2 * from);
            proof {
                let a = self.carry * num;
                if negative {
                    if a == 0 {
                        let n = from as int;
                        assert(n / (2 * n) == 0) by (nonlinear_arith)
                            requires
                                n > 0,
                        ;
                    }
                }
            }
            if negative {
                -converted
            } else {
                converted
            }
        };
        let rate: i128 = num * TICKS_PER_BEAT as i128;
        assert(0 <= dt * rate <= 0xffff_ffff_ffff_ffff * (0xffff_ffff * 120))
            by (nonlinear_arith)
            requires
                rate == num * 120,
                0 <= num <= 0xffff_ffff,
                0 <= dt <= 0xffff_ffff_ffff_ffff,
        ;
        let total: i128 = carried + dt as i128 * rate;
        let span: i128 = tempo.den as i128 * NANOS_PER_MINUTE as i128;
        assert(0 < span <= 0xffff_ffff * 60_000_000_000) by (nonlinear_arith)
            requires
                span == tempo.den * 60_000_000_000,
                0 < tempo.den <= 0xffff_ffff,
        ;
        proof {
            lemma_ticks(total as int, span as int);
        }
        let ticks: i128 = if 2 * total < span {
            0
        } else {
            (2 * total + span) / (2 * span)
        };
        let carry: i128 = total - ticks * span;
        proof {
            if 2 * total >= span {
                if num == 0 {
                    assert(dt * rate == 0) by (nonlinear_arith)
                        requires
                            rate == 0,
                    ;
                }
            }
        }
        *self = Clock { carry, num: tempo.num };
        ticks as u128
    }
}

impl ClockView {
    /// What the clock carries is in the units of `tempo` and less than half
    /// a tick either way, or the clock carries nothing.
    pub open spec fn settled_at(self, tempo: Tempo) -> bool {
        self.carry == 0 || (self.num == tempo.num && -span(tempo) <= 2 * self.carry < span(tempo))
    }
}

/// A settled clock carries the same in the units of the tempo.
pub proof fn lemma_settled(c: ClockView, tempo: Tempo)
    requires
        c.settled_at(tempo),
        tempo.den > 0,
    ensures
        c.carried(tempo) == c.carry,
        -span(tempo) <= 2 * c.carry < span(tempo),
{
    if c.carry == 0 && c.num != tempo.num && c.num != 0 {
        let n = c.num as int;
        assert((2 * 0 + n) / (2 * n) == 0) by (nonlinear_arith)
            requires
                n > 0,
        ;
    }
}

/// The clock does not drift. Over any steps at one tempo, the ticks that
/// passed and what the clock carries afterwards add up to what it carried
/// before and the time that elapsed, and it carries less than half a tick
/// either way: the count of ticks is the exact value, rounded. This holds
/// from a clock that carries nothing, and from one that was left by a step
/// at the same tempo.
pub proof fn lemma_clock_keeps_time(c: ClockView, dts: Seq<u64>, tempo: Tempo)
    requires
        tempo.den > 0,
        c.settled_at(tempo),
    ensures
        c.ticks_over(dts, tempo) >= 0,
        c.advanced_over(dts, tempo).settled_at(tempo),
        dts.len() > 0 ==> c.advanced_over(dts, tempo).num == tempo.num,
        c.ticks_over(dts, tempo) * span(tempo) + c.advanced_over(dts, tempo).carry == c.carry
            + elapsed(dts) * rate(tempo),
        -span(tempo) <= 2 * c.advanced_over(dts, tempo).carry < span(tempo),
    decreases dts.len(),
{
    lemma_settled(c, tempo);
    if dts.len() > 0 {
        lemma_clock_keeps_time(c, dts.drop_last(), tempo);
        let before = c.advanced_over(dts.drop_last(), tempo);
        lemma_settled(before, tempo);
        let t0 = c.ticks_over(dts.drop_last(), tempo);
        let dt = dts.last();
        let total = before.total(dt, tempo);
        lemma_ticks(total, span(tempo));
        let t = before.ticks(dt, tempo);
        assert((t0 + t) * span(tempo) == t0 * span(tempo) + t * span(tempo))
            by (nonlinear_arith);
        assert((elapsed(dts.drop_last()) + dt) * rate(tempo) == elapsed(dts.drop_last()) * rate(
            tempo,
        ) + dt * rate(tempo)) by (nonlinear_arith);
    }
}

/// The ticks that pass over steps never grow fewer as steps are added.
pub proof fn lemma_ticks_over_grows(c: ClockView, dts: Seq<u64>, tempo: Tempo, k: int)
    requires
        0 <= k <= dts.len(),
    ensures
        0 <= c.ticks_over(dts.take(k), tempo) <= c.ticks_over(dts, tempo),
    decreases dts.len() - k,
{
    if k < dts.len() {
        lemma_ticks_over_grows(c, dts, tempo, k + 1);
        assert(dts.take(k + 1).drop_last() =~= dts.take(k));
        lemma_step_ticks(c.advanced_over(dts.take(k), tempo), dts[k], tempo);
        lemma_ticks_over_grows_from_nothing(c, dts.take(k), tempo);
    } else {
        assert(dts.take(k) =~= dts);
        lemma_ticks_over_grows_from_nothing(c, dts, tempo);
    }
}

/// No step counts fewer ticks than none.
pub proof fn lemma_step_ticks(c: ClockView, dt: u64, tempo: Tempo)
    ensures
        c.ticks(dt, tempo) >= 0,
{
    if tempo.den > 0 {
        lemma_ticks(c.total(dt, tempo), span(tempo));
    }
}

proof fn lemma_ticks_over_grows_from_nothing(c: ClockView, dts: Seq<u64>, tempo: Tempo)
    ensures
        c.ticks_over(dts, tempo) >= 0,
    decreases dts.len(),
{
    if dts.len() > 0 {
        lemma_ticks_over_grows_from_nothing(c, dts.drop_last(), tempo);
        lemma_step_ticks(c.advanced_over(dts.drop_last(), tempo), dts.last(), tempo);
    }
}

} // verus!

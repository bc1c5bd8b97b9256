//! Names of routings, modulation sources and modulation targets, as the
//! editor shows them. Oscillators and envelopes are numbered from 1.

use crate::settings::{ModSource, ModTarget, OscOutput};
use vstd::prelude::*;
use vstd::string::StringExecFns;

verus! {

/// The character of a decimal digit.
pub open spec fn digit_char(d: nat) -> char {
    if d == 0 {
        '0'
    } else if d == 1 {
        '1'
    } else if d == 2 {
        '2'
    } else if d == 3 {
        '3'
    } else if d == 4 {
        '4'
    } else if d == 5 {
        '5'
    } else if d == 6 {
        '6'
    } else if d == 7 {
        '7'
    } else if d == 8 {
        '8'
    } else {
        '9'
    }
}

/// The number in decimal digits, without leading zeros.
pub open spec fn decimal(n: nat) -> Seq<char>
    decreases n,
{
    if n < 10 {
        seq![digit_char(n)]
    } else {
        decimal(n / 10) + seq![digit_char(n % 10)]
    }
}

fn digit_str(d: u8) -> (s: &'static str)
    requires
        d < 10,
    ensures
        s@ == seq![digit_char(d as nat)],
{
    proof {
        reveal_strlit("0");
        reveal_strlit("1");
        reveal_strlit("2");
        reveal_strlit("3");
        reveal_strlit("4");
        reveal_strlit("5");
        reveal_strlit("6");
        reveal_strlit("7");
        reveal_strlit("8");
        reveal_strlit("9");
    }
    let s = match d {
        0 => "0",
        1 => "1",
        2 => "2",
        3 => "3",
        4 => "4",
        5 => "5",
        6 => "6",
        7 => "7",
        8 => "8",
        _ => "9",
    };
    s
}

/// Writes the number in decimal digits behind `text`.
pub fn append_decimal(text: &mut String, n: u128)
    ensures
        final(text)@ == old(text)@ + decimal(n as nat),
    decreases n,
{
    if n >= 10 {
        append_decimal(text, n / 10);
    }
    text.append(digit_str((n % 10) as u8));
}

impl OscOutput {
    pub open spec fn spec_label(&self) -> Seq<char> {
        match self {
            OscOutput::Mix(i) => if *i == 0 {
                "Mix"@
            } else {
                "Mix to osc "@ + decimal((*i + 1) as nat)
            },
            OscOutput::AM(i) => "RM osc "@ + decimal((*i + 1) as nat),
            OscOutput::FM(i) => "FM osc "@ + decimal((*i + 1) as nat),
        }
    }

    /// The name of the routing.
    pub fn label(&self) -> (s: String)
        ensures
            s@ == self.spec_label(),
    {
        match *self {
            OscOutput::Mix(i) => {
                if i == 0 {
                    String::from_str("Mix")
                } else {
                    let mut s = String::from_str("Mix to osc ");
                    append_decimal(&mut s, i as u128 + 1);
                    s
                }
            },
            OscOutput::AM(i) => {
                let mut s = String::from_str("RM osc ");
                append_decimal(&mut s, i as u128 + 1);
                s
            },
            OscOutput::FM(i) => {
                let mut s = String::from_str("FM osc ");
                append_decimal(&mut s, i as u128 + 1);
                s
            },
        }
    }
}

impl ModSource {
    pub open spec fn spec_label(&self) -> Seq<char> {
        match self {
            ModSource::Pitch => "Pitch"@,
            ModSource::Pressure => "Pressure"@,
            ModSource::Modulation => "Mod wheel"@,
            ModSource::Random => "Random"@,
            ModSource::Envelope(i) => "Envelope "@ + decimal((*i + 1) as nat),
        }
    }

    /// The name of the source.
    pub fn label(&self) -> (s: String)
        ensures
            s@ == self.spec_label(),
    {
        match *self {
            ModSource::Pitch => String::from_str("Pitch"),
            ModSource::Pressure => String::from_str("Pressure"),
            ModSource::Modulation => String::from_str("Mod wheel"),
            ModSource::Random => String::from_str("Random"),
            ModSource::Envelope(i) => {
                let mut s = String::from_str("Envelope ");
                append_decimal(&mut s, i as u128 + 1);
                s
            },
        }
    }
}

/// "Osc", the number of the oscillator, and the name of its parameter.
pub open spec fn osc_label(n: usize, parameter: Seq<char>) -> Seq<char> {
    "Osc "@ + decimal((n + 1) as nat) + parameter
}

fn make_osc_label(n: usize, parameter: &str) -> (s: String)
    ensures
        s@ == osc_label(n, parameter@),
{
    let mut s = String::from_str("Osc ");
    append_decimal(&mut s, n as u128 + 1);
    s.append(parameter);
    s
}

impl ModTarget {
    pub open spec fn spec_label(&self) -> Seq<char> {
        match self {
            ModTarget::Gain => "Gain"@,
            ModTarget::Level(n) => osc_label(*n, " level"@),
            ModTarget::Pitch(n) => osc_label(*n, " pitch"@),
            ModTarget::FinePitch(n) => osc_label(*n, " fine pitch"@),
            ModTarget::Duty(n) => osc_label(*n, " duty"@),
            ModTarget::FilterCutoff => "Filter cutoff"@,
        }
    }

    /// The name of the target.
    pub fn label(&self) -> (s: String)
        ensures
            s@ == self.spec_label(),
    {
        match *self {
            ModTarget::Gain => String::from_str("Gain"),
            ModTarget::Level(n) => make_osc_label(n, " level"),
            ModTarget::Pitch(n) => make_osc_label(n, " pitch"),
            ModTarget::FinePitch(n) => make_osc_label(n, " fine pitch"),
            ModTarget::Duty(n) => make_osc_label(n, " duty"),
            ModTarget::FilterCutoff => String::from_str("Filter cutoff"),
        }
    }
}

} // verus!

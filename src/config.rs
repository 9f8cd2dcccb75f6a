use vstd::prelude::*;

verus! {

/// One bell voice: the instrument that sounds it, its pitch, how many ticks a
/// strike lasts, and how hard it is struck.
pub struct Strike {
    pub program: u8,
    pub note: u8,
    pub delta: u32,
    pub velocity: u8,
}

/// How the clock strikes: the style selector, the rest between the quarter
/// phrase and the hour phrase, and where the instrument samples live.
pub struct Striking {
    pub kind: u8,
    pub rest: u32,
    pub soundfont: String,
}

/// Conversion between ticks and wall-clock time.
pub struct Tempo {
    pub ticks_per_beat: u16,
    pub microseconds_per_beat: u32,
}

/// The whole configuration of a chime.
pub struct Config {
    pub tempo: Tempo,
    pub striking: Striking,
    pub quarter: Strike,
    pub hour: Strike,
}

/// The chime style, by melodic family and by when the hour bell sounds.
#[derive(Clone, Copy, Debug, PartialEq, Eq, Structural)]
pub enum Style {
    PlainHourGated,
    PlainHourAlways,
    WestminsterHourGated,
    WestminsterHourAlways,
}

impl Style {
    pub open spec fn spec_from_kind(kind: u8) -> Style {
        if kind == 0 {
            Style::PlainHourGated
        } else if kind == 1 {
            Style::PlainHourAlways
        } else if kind == 2 {
            Style::WestminsterHourGated
        } else {
            Style::WestminsterHourAlways
        }
    }

    /// Selects the style from its ordinal: 0 and 1 strike plain, 2 and above
    /// play the Westminster quarters; 1 and 3 and above strike the hour always.
    pub fn from_kind(kind: u8) -> (r: Style)
        ensures
            r == Style::spec_from_kind(kind),
    {
        if kind == 0 {
            Style::PlainHourGated
        } else if kind == 1 {
            Style::PlainHourAlways
        } else if kind == 2 {
            Style::WestminsterHourGated
        } else {
            Style::WestminsterHourAlways
        }
    }

    pub open spec fn spec_is_westminster(self) -> bool {
        self == Style::WestminsterHourGated || self == Style::WestminsterHourAlways
    }

    pub open spec fn spec_hour_always(self) -> bool {
        self == Style::PlainHourAlways || self == Style::WestminsterHourAlways
    }

    pub fn is_westminster(&self) -> (r: bool)
        ensures
            r == self.spec_is_westminster(),
    {
        match self {
            Style::WestminsterHourGated | Style::WestminsterHourAlways => true,
            _ => false,
        }
    }

    pub fn hour_always(&self) -> (r: bool)
        ensures
            r == self.spec_hour_always(),
    {
        match self {
            Style::PlainHourAlways | Style::WestminsterHourAlways => true,
            _ => false,
        }
    }
}

impl Config {
    /// Every value that a chime of this configuration emits fits its MIDI field:
    /// instruments, keys and velocities in 7 bits, the tempo in 24 bits, and
    /// each tick delta in 28 bits.
    pub open spec fn spec_fits_midi(&self) -> bool {
        &&& self.tempo.microseconds_per_beat < 0x100_0000
        &&& self.quarter.program < 128
        &&& self.quarter.velocity < 128
        &&& self.hour.program < 128
        &&& self.hour.velocity < 128
        &&& self.hour.delta + self.striking.rest < 0x1000_0000
        &&& 4 * self.hour.delta < 0x1000_0000
        &&& if Style::spec_from_kind(self.striking.kind).spec_is_westminster() {
            2 * self.quarter.delta + self.striking.rest < 0x1000_0000
        } else {
            &&& self.quarter.note < 128
            &&& self.hour.note < 128
            &&& self.quarter.delta + self.striking.rest < 0x1000_0000
        }
    }

    pub fn fits_midi(&self) -> (r: bool)
        ensures
            r == self.spec_fits_midi(),
    {
        let q = self.quarter.delta as u64;
        let h = self.hour.delta as u64;
        let rest = self.striking.rest as u64;
        let limit: u64 = 0x1000_0000;
        let common = self.tempo.microseconds_per_beat < 0x100_0000 && self.quarter.program < 128
            && self.quarter.velocity < 128 && self.hour.program < 128 && self.hour.velocity < 128
            && h + rest < limit && 4 * h < limit;
        if Style::from_kind(self.striking.kind).is_westminster() {
            common && 2 * q + rest < limit
        } else {
            common && self.quarter.note < 128 && self.hour.note < 128 && q + rest < limit
        }
    }
}

/// Wall-clock length, rounded to the nearest microsecond (halves upwards), of
/// `ticks` at `ticks_per_beat` ticks per beat and `micros_per_beat` per beat.
pub open spec fn micros_of(ticks: nat, ticks_per_beat: nat, micros_per_beat: nat) -> nat
    recommends
        ticks_per_beat > 0,
{
    ((2 * ticks * micros_per_beat + ticks_per_beat) / (2 * ticks_per_beat)) as nat
}

impl Tempo {
    /// How long `ticks` take to play, in microseconds, saturated at `u64::MAX`.
    pub fn duration_micros(&self, ticks: u64) -> (r: u64)
        requires
            self.ticks_per_beat > 0,
        ensures
            r == if micros_of(ticks as nat, self.ticks_per_beat as nat, self.microseconds_per_beat as nat) <= u64::MAX {
                micros_of(ticks as nat, self.ticks_per_beat as nat, self.microseconds_per_beat as nat)
            } else {
                u64::MAX as nat
            },
    {
        let t = ticks as u128;
        let m = self.microseconds_per_beat as u128;
        let p = self.ticks_per_beat as u128;
        assert(t * m <= 0xffff_ffff_ffff_ffff * 0xffff_ffffu128) by (nonlinear_arith)
            requires t <= 0xffff_ffff_ffff_ffffu128, m <= 0xffff_ffffu128;
        let q = (2 * (t * m) + p) / (2 * p);
        assert(2 * (t * m) == 2 * t * m) by (nonlinear_arith);
        if q > u64::MAX as u128 {
            u64::MAX
        } else {
            q as u64
        }
    }
}

/// Scaling the tick count and the ticks per beat by the same factor leaves the
/// wall-clock length unchanged: the conversion is linear in ticks per beat.
pub proof fn lemma_duration_scale_invariant(ticks: nat, ticks_per_beat: nat, micros_per_beat: nat, k: nat)
    requires
        ticks_per_beat > 0,
        k > 0,
    ensures
        micros_of(k * ticks, k * ticks_per_beat, micros_per_beat)
            == micros_of(ticks, ticks_per_beat, micros_per_beat),
{
    let a = 2 * ticks * micros_per_beat + ticks_per_beat;
    let d = 2 * ticks_per_beat;
    assert(2 * (k * ticks) * micros_per_beat + k * ticks_per_beat == k * a) by (nonlinear_arith)
        requires a == 2 * ticks * micros_per_beat + ticks_per_beat;
    assert(2 * (k * ticks_per_beat) == k * d) by (nonlinear_arith)
        requires d == 2 * ticks_per_beat;
    vstd::arithmetic::div_mod::lemma_div_multiples_vanish_quotient(k as int, a as int, d as int);
}

} // verus!

use vstd::prelude::*;

use crate::fft::{is_power_of_two, log2, two_pow};

verus! {

/// The reference pitch of A4, in Hz.
pub const A4_FREQUENCY: u32 = 440;

/// Bins whose frequency is at most this many Hz are suppressed before peak picking.
pub const LOW_CUT_HZ: u64 = 60;

/// The sample rates an input device may run at.
#[derive(Debug, Clone, Copy, PartialEq, Eq, Structural)]
pub enum SampleRate {
    KHz44_1,
    KHz48,
    KHz88_2,
    KHz96,
}

impl SampleRate {
    pub open spec fn hertz(self) -> u32 {
        match self {
            SampleRate::KHz44_1 => 44100,
            SampleRate::KHz48 => 48000,
            SampleRate::KHz88_2 => 88200,
            SampleRate::KHz96 => 96000,
        }
    }

    /// The rate in samples per second.
    pub fn to_u32(self) -> (r: u32)
        ensures
            r == self.hertz(),
    {
        match self {
            SampleRate::KHz44_1 => 44100,
            SampleRate::KHz48 => 48000,
            SampleRate::KHz88_2 => 88200,
            SampleRate::KHz96 => 96000,
        }
    }
}

/// The twelve pitch classes, and a marker for "no note".
#[derive(Debug, Clone, Copy, PartialEq, Eq, Structural)]
pub enum Note {
    C,
    CSharp,
    D,
    DSharp,
    E,
    F,
    FSharp,
    G,
    GSharp,
    A,
    ASharp,
    B,
    INVALID,
}

/// The taper applied to a segment before it is transformed.
#[derive(Debug, Clone, Copy, PartialEq, Eq, Structural)]
pub enum WindowType {
    Hamming,
    Hann,
}

impl Note {
    /// The position of the note in the octave, counted in semitones from C;
    /// `INVALID` is 12.
    pub open spec fn pitch_class(self) -> int {
        match self {
            Note::C => 0,
            Note::CSharp => 1,
            Note::D => 2,
            Note::DSharp => 3,
            Note::E => 4,
            Note::F => 5,
            Note::FSharp => 6,
            Note::G => 7,
            Note::GSharp => 8,
            Note::A => 9,
            Note::ASharp => 10,
            Note::B => 11,
            Note::INVALID => 12,
        }
    }

    pub open spec fn name(self) -> Seq<char> {
        match self {
            Note::C => "C"@,
            Note::CSharp => "C#"@,
            Note::D => "D"@,
            Note::DSharp => "D#"@,
            Note::E => "E"@,
            Note::F => "F"@,
            Note::FSharp => "F#"@,
            Note::G => "G"@,
            Note::GSharp => "G#"@,
            Note::A => "A"@,
            Note::ASharp => "A#"@,
            Note::B => "B"@,
            Note::INVALID => "ZENIS"@,
        }
    }

    /// The note's name, sharps written with `#`.
    pub fn to_str(&self) -> (r: &'static str)
        ensures
            r@ == self.name(),
    {
        match self {
            Note::C => "C",
            Note::CSharp => "C#",
            Note::D => "D",
            Note::DSharp => "D#",
            Note::E => "E",
            Note::F => "F",
            Note::FSharp => "F#",
            Note::G => "G",
            Note::GSharp => "G#",
            Note::A => "A",
            Note::ASharp => "A#",
            Note::B => "B",
            Note::INVALID => "ZENIS",
        }
    }

    /// The pitch class of note number `number` (MIDI numbering: 69 is A4).
    pub fn from_number(number: u32) -> (r: Note)
        ensures
            r.pitch_class() == number % 12,
    {
        match number % 12 {
            0 => Note::C,
            1 => Note::CSharp,
            2 => Note::D,
            3 => Note::DSharp,
            4 => Note::E,
            5 => Note::F,
            6 => Note::FSharp,
            7 => Note::G,
            8 => Note::GSharp,
            9 => Note::A,
            10 => Note::ASharp,
            _ => Note::B,
        }
    }
}

/// How many leading bins of the half spectrum of an `n`-point transform at
/// `sample_rate` have a frequency (`i * sample_rate / n` Hz) of at most [`LOW_CUT_HZ`].
pub fn low_cut_bins(n: usize, sample_rate: u32) -> (r: usize)
    requires
        sample_rate > 0,
    ensures
        r <= n / 2,
        forall|i: int| 0 <= i < r ==> #[trigger] (i * sample_rate) <= LOW_CUT_HZ * n,
        r < n / 2 ==> r * sample_rate > LOW_CUT_HZ * n,
{
    let limit: u128 = LOW_CUT_HZ as u128 * n as u128;
    let first_above: u128 = limit / sample_rate as u128 + 1;
    let half = n / 2;
    let r: usize = if first_above < half as u128 {
        first_above as usize
    } else {
        half
    };
    proof {
        let sr = sample_rate as int;
        let lim = limit as int;
        let q = lim / sr;
        assert(q == limit / sample_rate as u128);
        vstd::arithmetic::div_mod::lemma_fundamental_div_mod(lim, sr);
        assert(q * sr <= lim) by (nonlinear_arith)
            requires
                lim == sr * q + lim % sr,
                lim % sr >= 0,
        ;
        assert((q + 1) * sr > lim) by (nonlinear_arith)
            requires
                lim == sr * q + lim % sr,
                lim % sr < sr,
        ;
        assert forall|i: int| 0 <= i < r implies #[trigger] (i * sample_rate) <= LOW_CUT_HZ * n by {
            assert(i * sr <= q * sr) by (nonlinear_arith)
                requires
                    0 <= i <= q,
                    sr > 0,
            ;
        };
        if r < n / 2 {
            assert(r == q + 1);
        }
    }
    r
}

/// The length of the zero-padded transform for a window of `window_len` samples:
/// the smallest power of two that is at least `window_len * (1 + zero_padding_factor)`.
/// `None` when that power of two does not fit in a `usize`.
pub fn padded_len(window_len: usize, zero_padding_factor: usize) -> (r: Option<usize>)
    ensures
        r matches Some(p) ==> is_power_of_two(p as nat) && p >= window_len * (1
            + zero_padding_factor) && (p == 1 || p < 2 * (window_len * (1 + zero_padding_factor))),
        r is None ==> window_len * (1 + zero_padding_factor) > usize::MAX / 2,
        window_len * (1 + zero_padding_factor) <= usize::MAX / 2 ==> r is Some,
{
    let factor = match zero_padding_factor.checked_add(1) {
        Some(f) => f,
        None => {
            assert(window_len == 0 || window_len * (1 + zero_padding_factor) > usize::MAX / 2)
                by (nonlinear_arith)
                requires
                    zero_padding_factor == usize::MAX,
            ;
            if window_len == 0 {
                proof {
                    assert(two_pow(log2(1)) == 1);
                }
                return Some(1);
            }
            return None;
        },
    };
    let target = match window_len.checked_mul(factor) {
        Some(t) => t,
        None => {
            return None;
        },
    };
    let mut p: usize = 1;
    let ghost k: nat = 0;
    while p < target
        invariant
            p == two_pow(k),
            log2(p as nat) == k,
            p >= 1,
            target == window_len * (1 + zero_padding_factor),
            p == 1 || p < 2 * target,
        decreases usize::MAX - p,
    {
        if p > usize::MAX / 2 {
            return None;
        }
        proof {
            assert((2 * p) as nat / 2 == p as nat);
        }
        p = p * 2;
        proof {
            k = k + 1;
        }
    }
    Some(p)
}

} // verus!

//! Tone source: the description of one finite run of a square waveform
//! (a `ToneSpec`) and the synthesis of its sample sequence.
//!
//! Samples are fixed-point: an amplitude factor is given in thousandths of
//! full scale, and every sample is `+amplitude_milli` or `-amplitude_milli`.
//! A playback sink divides by `AMPLITUDE_SCALE` to obtain samples in
//! `[-1.0, 1.0]`.

use vstd::prelude::*;

verus! {

/// Fixed system sample rate, in samples per second.
pub const SAMPLE_RATE_HZ: u32 = 64000;

/// Full scale of the fixed-point amplitude representation: an
/// `amplitude_milli` of `AMPLITUDE_SCALE` is an amplitude factor of 1.
pub const AMPLITUDE_SCALE: u32 = 1000;

/// Process-wide amplitude of every emitted tone: 0.2 of full scale,
/// chosen so that concatenated segments do not clip.
pub const AMPLITUDE_MILLI: u32 = 200;

/// The waveforms a tone can carry. Only the square wave is used.
#[derive(Clone, Copy, PartialEq, Eq, Structural, Debug)]
pub enum Waveform {
    Square,
}

/// One finite run of a periodic waveform: frequency in Hz, amplitude in
/// thousandths of full scale, duration in milliseconds. Immutable once
/// constructed.
#[derive(Clone, Copy, PartialEq, Eq, Structural, Debug)]
pub struct ToneSpec {
    pub freq_hz: u32,
    pub amplitude_milli: u32,
    pub duration_ms: u64,
    pub waveform: Waveform,
}

/// A tone the encoder may emit: positive carrier frequency, amplitude
/// factor in (0, 1], and a square waveform.
pub open spec fn valid_tone(t: ToneSpec) -> bool {
    &&& 0 < t.freq_hz
    &&& 0 < t.amplitude_milli <= AMPLITUDE_SCALE
    &&& t.waveform == Waveform::Square
}

/// Sample `n` of a square wave at `freq_hz`, sampled at `SAMPLE_RATE_HZ`:
/// `+amplitude_milli` during the first half of each period, `-amplitude_milli`
/// during the second half (50% duty cycle, phase 0 at `n == 0`).
pub open spec fn sample_at(freq_hz: u32, amplitude_milli: u32, n: int) -> int {
    if (freq_hz as int * n) % (SAMPLE_RATE_HZ as int) < SAMPLE_RATE_HZ as int / 2 {
        amplitude_milli as int
    } else {
        -(amplitude_milli as int)
    }
}

/// Number of samples in a tone of `duration_ms` milliseconds at the fixed
/// sample rate: `SAMPLE_RATE_HZ * duration_ms / 1000`, which is exact.
pub open spec fn sample_count(duration_ms: u64) -> int {
    64 * duration_ms as int
}

/// Synthesize the sample sequence of one square-wave tone. The phase resets
/// to 0 at the start of every invocation, so segments concatenate without
/// phase bookkeeping across calls; same inputs give identical output.
pub fn generate(freq_hz: u32, amplitude_milli: u32, duration_ms: u64) -> (samples: Vec<i32>)
    requires
        0 < freq_hz,
        0 < amplitude_milli <= AMPLITUDE_SCALE,
        sample_count(duration_ms) <= usize::MAX as int,
    ensures
        samples@.len() == sample_count(duration_ms),
        samples@.len() * 1000 == SAMPLE_RATE_HZ as int * duration_ms as int,
        forall|n: int| 0 <= n < samples@.len() ==> samples@[n] == sample_at(freq_hz, amplitude_milli, n),
        forall|n: int|
            0 <= n < samples@.len() ==> -(amplitude_milli as int) <= #[trigger] samples@[n]
                <= amplitude_milli as int,
{
    let total_u64: u64 = 64 * duration_ms;
    let total: usize = total_u64 as usize;
    let freq_mod: u32 = freq_hz % SAMPLE_RATE_HZ;
    let mut phase: u32 = 0;
    let mut samples: Vec<i32> = Vec::new();
    let mut n: usize = 0;
    while n < total
        invariant
            n <= total,
            total == sample_count(duration_ms),
            0 < amplitude_milli <= AMPLITUDE_SCALE,
            freq_mod == freq_hz as int % SAMPLE_RATE_HZ as int,
            phase == (freq_hz as int * n as int) % (SAMPLE_RATE_HZ as int),
            samples@.len() == n,
            forall|i: int|
                0 <= i < n ==> samples@[i] == sample_at(freq_hz, amplitude_milli, i),
        decreases total - n,
    {
        if phase < SAMPLE_RATE_HZ / 2 {
            samples.push(amplitude_milli as i32);
        } else {
            samples.push(-(amplitude_milli as i32));
        }
        proof {
            let f = freq_hz as int;
            let m = SAMPLE_RATE_HZ as int;
            vstd::arithmetic::div_mod::lemma_add_mod_noop(f * n as int, f, m);
            assert(f * (n as int + 1) == f * n as int + f) by (nonlinear_arith);
        }
        phase = (phase + freq_mod) % SAMPLE_RATE_HZ;
        n = n + 1;
    }
    samples
}

/// Law (idempotence): the contract of `generate` pins the samples — any
/// two sample sequences it allows for the same inputs are bit-identical,
/// so repeated synthesis of a tone gives the same waveform.
pub proof fn lemma_generate_deterministic(
    freq_hz: u32,
    amplitude_milli: u32,
    duration_ms: u64,
    s1: Seq<i32>,
    s2: Seq<i32>,
)
    requires
        s1.len() == sample_count(duration_ms),
        s2.len() == sample_count(duration_ms),
        forall|n: int| 0 <= n < s1.len() ==> s1[n] == sample_at(freq_hz, amplitude_milli, n),
        forall|n: int| 0 <= n < s2.len() ==> s2[n] == sample_at(freq_hz, amplitude_milli, n),
    ensures
        s1 == s2,
{
    assert(s1 =~= s2);
}

} // verus!

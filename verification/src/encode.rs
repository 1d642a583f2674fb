//! Bit and byte encoder: a bit becomes a pair of tone pulses at the two
//! carrier frequencies, a byte becomes ten bit encodings (start bit, the
//! eight data bits most-significant first, stop bit).

use vstd::prelude::*;
use crate::tone::{ToneSpec, Waveform, AMPLITUDE_MILLI, AMPLITUDE_SCALE, valid_tone};

verus! {

/// Low carrier frequency F1, in Hz.
pub const FREQ_LOW_HZ: u32 = 1000;

/// High carrier frequency F2, in Hz.
pub const FREQ_HIGH_HZ: u32 = 2000;

/// Duration of the short pulse of a bit encoding, in milliseconds.
pub const BIT_SHORT_MS: u64 = 3;

/// Duration of the long pulse of a bit encoding, in milliseconds.
pub const BIT_LONG_MS: u64 = 6;

/// One logical bit.
#[derive(Clone, Copy, PartialEq, Eq, Structural, Debug)]
pub enum Bit {
    Zero,
    One,
}

/// The tone the encoder emits for carrier `freq_hz` and `duration_ms`:
/// a square wave at the fixed process-wide amplitude.
pub open spec fn tone_of(freq_hz: u32, duration_ms: u64) -> ToneSpec {
    ToneSpec { freq_hz, amplitude_milli: AMPLITUDE_MILLI, duration_ms, waveform: Waveform::Square }
}

/// Construct the tone segment for one carrier frequency and duration.
pub fn tone(freq_hz: u32, duration_ms: u64) -> (t: ToneSpec)
    ensures
        t == tone_of(freq_hz, duration_ms),
{
    ToneSpec { freq_hz, amplitude_milli: AMPLITUDE_MILLI, duration_ms, waveform: Waveform::Square }
}

/// The two-pulse encoding of one bit: a high-frequency pulse then a
/// low-frequency pulse, the bit value carried by which of the two is long.
pub open spec fn bit_tones(b: Bit) -> Seq<ToneSpec> {
    match b {
        Bit::Zero => seq![tone_of(FREQ_HIGH_HZ, BIT_LONG_MS), tone_of(FREQ_LOW_HZ, BIT_SHORT_MS)],
        Bit::One => seq![tone_of(FREQ_HIGH_HZ, BIT_SHORT_MS), tone_of(FREQ_LOW_HZ, BIT_LONG_MS)],
    }
}

/// Encode one bit as its ordered pair of tone pulses.
pub fn encode_bit(b: Bit) -> (r: Vec<ToneSpec>)
    ensures
        r@ == bit_tones(b),
{
    let mut r: Vec<ToneSpec> = Vec::new();
    match b {
        Bit::Zero => {
            r.push(tone(FREQ_HIGH_HZ, BIT_LONG_MS));
            r.push(tone(FREQ_LOW_HZ, BIT_SHORT_MS));
        },
        Bit::One => {
            r.push(tone(FREQ_HIGH_HZ, BIT_SHORT_MS));
            r.push(tone(FREQ_LOW_HZ, BIT_LONG_MS));
        },
    }
    proof {
        assert(r@ =~= bit_tones(b));
    }
    r
}

/// Data bit `i` of a byte, counting from the most significant: `data_bit(b, 0)`
/// is the topmost bit, `data_bit(b, 7)` the lowest.
pub open spec fn data_bit(b: u8, i: int) -> Bit {
    if (b >> ((7 - i) as u8)) & 1u8 == 1u8 {
        Bit::One
    } else {
        Bit::Zero
    }
}

/// The eight data bits of a byte, most significant first.
pub open spec fn data_bits(b: u8) -> Seq<Bit> {
    Seq::new(8, |i: int| data_bit(b, i))
}

/// The ten bits that encode a byte: start bit zero, the eight data bits
/// most significant first, stop bit one.
pub open spec fn byte_bits(b: u8) -> Seq<Bit> {
    seq![Bit::Zero] + data_bits(b) + seq![Bit::One]
}

/// The tone segments of a run of bits, in order: two pulses per bit.
pub open spec fn tones_of_bits(bits: Seq<Bit>) -> Seq<ToneSpec>
    decreases bits.len(),
{
    if bits.len() == 0 {
        Seq::empty()
    } else {
        bit_tones(bits[0]) + tones_of_bits(bits.drop_first())
    }
}

/// Appending a bit appends its two pulses.
pub proof fn lemma_tones_of_bits_push(bits: Seq<Bit>, b: Bit)
    ensures
        tones_of_bits(bits.push(b)) == tones_of_bits(bits) + bit_tones(b),
    decreases bits.len(),
{
    if bits.len() == 0 {
        assert(bits.push(b)[0] == b);
        assert(bits.push(b).drop_first() =~= Seq::<Bit>::empty());
        assert(tones_of_bits(Seq::<Bit>::empty()) =~= Seq::<ToneSpec>::empty());
        assert(tones_of_bits(bits.push(b)) =~= tones_of_bits(bits) + bit_tones(b));
    } else {
        assert(bits.push(b).drop_first() =~= bits.drop_first().push(b));
        lemma_tones_of_bits_push(bits.drop_first(), b);
        assert(tones_of_bits(bits.push(b)) =~= tones_of_bits(bits) + bit_tones(b));
    }
}

/// A run of bits yields exactly two tone segments per bit.
pub proof fn lemma_tones_of_bits_len(bits: Seq<Bit>)
    ensures
        tones_of_bits(bits).len() == 2 * bits.len(),
    decreases bits.len(),
{
    if bits.len() > 0 {
        lemma_tones_of_bits_len(bits.drop_first());
    }
}

/// Every tone of a bit run is a valid emitted tone with a duration of at
/// most the long pulse.
pub proof fn lemma_tones_of_bits_valid(bits: Seq<Bit>)
    ensures
        forall|i: int|
            0 <= i < tones_of_bits(bits).len() ==> valid_tone(#[trigger] tones_of_bits(bits)[i])
                && tones_of_bits(bits)[i].duration_ms <= BIT_LONG_MS,
    decreases bits.len(),
{
    if bits.len() > 0 {
        lemma_tones_of_bits_valid(bits.drop_first());
    }
}

/// The numeric value of one bit.
pub open spec fn bit_value(b: Bit) -> nat {
    match b {
        Bit::Zero => 0,
        Bit::One => 1,
    }
}

/// The value of a run of bits read most significant first.
pub open spec fn bits_value(bits: Seq<Bit>) -> nat
    decreases bits.len(),
{
    if bits.len() == 0 {
        0
    } else {
        2 * bits_value(bits.drop_last()) + bit_value(bits.last())
    }
}

/// The eight data bits of a byte, read most significant first, evaluate
/// back to the byte.
pub proof fn lemma_data_bits_value(b: u8)
    ensures
        bits_value(data_bits(b)) == b,
{
    let s = data_bits(b);
    assert(s.take(8) =~= s);
    assert(s.take(8).drop_last() =~= s.take(7));
    assert(s.take(7).drop_last() =~= s.take(6));
    assert(s.take(6).drop_last() =~= s.take(5));
    assert(s.take(5).drop_last() =~= s.take(4));
    assert(s.take(4).drop_last() =~= s.take(3));
    assert(s.take(3).drop_last() =~= s.take(2));
    assert(s.take(2).drop_last() =~= s.take(1));
    assert(s.take(1).drop_last() =~= s.take(0));
    assert(s.take(0) =~= Seq::<Bit>::empty());
    assert(bits_value(s.take(0)) == 0);
    assert(bits_value(s.take(1)) == 2 * bits_value(s.take(0)) + bit_value(s[0]));
    assert(bits_value(s.take(2)) == 2 * bits_value(s.take(1)) + bit_value(s[1]));
    assert(bits_value(s.take(3)) == 2 * bits_value(s.take(2)) + bit_value(s[2]));
    assert(bits_value(s.take(4)) == 2 * bits_value(s.take(3)) + bit_value(s[3]));
    assert(bits_value(s.take(5)) == 2 * bits_value(s.take(4)) + bit_value(s[4]));
    assert(bits_value(s.take(6)) == 2 * bits_value(s.take(5)) + bit_value(s[5]));
    assert(bits_value(s.take(7)) == 2 * bits_value(s.take(6)) + bit_value(s[6]));
    assert(bits_value(s) == 2 * bits_value(s.take(7)) + bit_value(s[7]));
    assert(bits_value(s) == 128 * bit_value(data_bit(b, 0)) + 64 * bit_value(data_bit(b, 1)) + 32
        * bit_value(data_bit(b, 2)) + 16 * bit_value(data_bit(b, 3)) + 8 * bit_value(data_bit(b, 4))
        + 4 * bit_value(data_bit(b, 5)) + 2 * bit_value(data_bit(b, 6)) + bit_value(
        data_bit(b, 7),
    ));
    assert((b >> 7u8) & 1u8 < 2) by (bit_vector);
    assert((b >> 6u8) & 1u8 < 2) by (bit_vector);
    assert((b >> 5u8) & 1u8 < 2) by (bit_vector);
    assert((b >> 4u8) & 1u8 < 2) by (bit_vector);
    assert((b >> 3u8) & 1u8 < 2) by (bit_vector);
    assert((b >> 2u8) & 1u8 < 2) by (bit_vector);
    assert((b >> 1u8) & 1u8 < 2) by (bit_vector);
    assert((b >> 0u8) & 1u8 < 2) by (bit_vector);
    assert(b == 128 * ((b >> 7u8) & 1u8) + 64 * ((b >> 6u8) & 1u8) + 32 * ((b >> 5u8) & 1u8) + 16 * (
    (b >> 4u8) & 1u8) + 8 * ((b >> 3u8) & 1u8) + 4 * ((b >> 2u8) & 1u8) + 2 * ((b >> 1u8) & 1u8) + (
    (b >> 0u8) & 1u8)) by (bit_vector);
}

/// Law (round trip): a byte is recoverable from its bit encoding — the
/// eight bits between the start and stop bit of `byte_bits(b)`, read most
/// significant first, evaluate back to `b`.
pub proof fn lemma_byte_round_trip(b: u8)
    ensures
        byte_bits(b).subrange(1, 9) == data_bits(b),
        bits_value(byte_bits(b).subrange(1, 9)) == b,
{
    assert(byte_bits(b).subrange(1, 9) =~= data_bits(b));
    lemma_data_bits_value(b);
}

/// Law: the encodings of the two bits are distinct — they differ already
/// in the duration of their first pulse.
pub proof fn lemma_bit_encodings_distinct()
    ensures
        bit_tones(Bit::Zero) != bit_tones(Bit::One),
{
    assert(bit_tones(Bit::Zero)[0].duration_ms != bit_tones(Bit::One)[0].duration_ms);
}

/// The full tone sequence of one encoded byte: twenty segments.
pub open spec fn byte_tones(b: u8) -> Seq<ToneSpec> {
    tones_of_bits(byte_bits(b))
}

/// Encode one byte as its twenty tone segments: start bit, eight data bits
/// most significant first, stop bit, two pulses each.
pub fn encode_byte(b: u8) -> (r: Vec<ToneSpec>)
    ensures
        r@ == byte_tones(b),
        r@.len() == 20,
{
    let mut r: Vec<ToneSpec> = encode_bit(Bit::Zero);
    proof {
        assert(byte_bits(b).take(1) =~= seq![Bit::Zero]);
        assert(seq![Bit::Zero].drop_first() =~= Seq::<Bit>::empty());
        assert(tones_of_bits(Seq::<Bit>::empty()) =~= Seq::<ToneSpec>::empty());
        assert(tones_of_bits(seq![Bit::Zero]) =~= bit_tones(Bit::Zero));
        assert(r@ =~= tones_of_bits(byte_bits(b).take(1)));
    }
    let mut i: usize = 0;
    while i < 8
        invariant
            i <= 8,
            r@ == tones_of_bits(byte_bits(b).take(1 + i as int)),
        decreases 8 - i,
    {
        let sh: u8 = 7 - (i as u8);
        let bit = if (b >> sh) & 1 == 1 {
            Bit::One
        } else {
            Bit::Zero
        };
        let mut pair = encode_bit(bit);
        proof {
            assert(bit == data_bit(b, i as int));
            assert(byte_bits(b)[1 + i as int] == data_bit(b, i as int));
            assert(byte_bits(b).take(1 + (i + 1) as int) =~= byte_bits(b).take(1 + i as int).push(
                data_bit(b, i as int),
            ));
            lemma_tones_of_bits_push(byte_bits(b).take(1 + i as int), data_bit(b, i as int));
        }
        r.append(&mut pair);
        i = i + 1;
    }
    let mut stop = encode_bit(Bit::One);
    proof {
        assert(byte_bits(b) =~= byte_bits(b).take(9).push(Bit::One));
        lemma_tones_of_bits_push(byte_bits(b).take(9), Bit::One);
        lemma_tones_of_bits_len(byte_bits(b));
    }
    r.append(&mut stop);
    r
}

/// Law (framing): whatever the byte, its encoding is ten bit encodings —
/// twenty tone segments — beginning with the encoding of the zero start bit
/// and ending with the encoding of the one stop bit.
pub proof fn lemma_byte_framing(b: u8)
    ensures
        byte_bits(b).len() == 10,
        byte_bits(b)[0] == Bit::Zero,
        byte_bits(b)[9] == Bit::One,
        byte_tones(b).len() == 20,
        byte_tones(b).subrange(0, 2) == bit_tones(Bit::Zero),
        byte_tones(b).subrange(18, 20) == bit_tones(Bit::One),
{
    lemma_tones_of_bits_len(byte_bits(b));
    assert(byte_tones(b) == bit_tones(byte_bits(b)[0]) + tones_of_bits(byte_bits(b).drop_first()));
    assert(byte_tones(b).subrange(0, 2) =~= bit_tones(Bit::Zero));
    assert(byte_bits(b) =~= byte_bits(b).take(9).push(Bit::One));
    lemma_tones_of_bits_push(byte_bits(b).take(9), Bit::One);
    lemma_tones_of_bits_len(byte_bits(b).take(9));
    assert(byte_tones(b).subrange(18, 20) =~= bit_tones(Bit::One));
}

/// Equal tone runs of equally many bits come from equal bits: the pulse
/// durations of the first segment already tell the two bit values apart.
pub proof fn lemma_tones_of_bits_injective(s: Seq<Bit>, t: Seq<Bit>)
    requires
        s.len() == t.len(),
        tones_of_bits(s) == tones_of_bits(t),
    ensures
        s == t,
    decreases s.len(),
{
    if s.len() == 0 {
        assert(s =~= t);
    } else {
        let st = tones_of_bits(s.drop_first());
        let tt = tones_of_bits(t.drop_first());
        assert(tones_of_bits(s) == bit_tones(s[0]) + st);
        assert(tones_of_bits(t) == bit_tones(t[0]) + tt);
        assert(s[0] == t[0]) by {
            assert(tones_of_bits(s)[0] == bit_tones(s[0])[0]);
            assert(tones_of_bits(t)[0] == bit_tones(t[0])[0]);
            if s[0] != t[0] {
                assert(bit_tones(s[0])[0].duration_ms != bit_tones(t[0])[0].duration_ms);
            }
        }
        lemma_tones_of_bits_len(s.drop_first());
        lemma_tones_of_bits_len(t.drop_first());
        assert(st =~= tt) by {
            assert forall|i: int| 0 <= i < st.len() implies st[i] == tt[i] by {
                assert(st[i] == tones_of_bits(s)[i + 2]);
                assert(tt[i] == tones_of_bits(t)[i + 2]);
            }
        }
        lemma_tones_of_bits_injective(s.drop_first(), t.drop_first());
        assert(s =~= t) by {
            assert forall|i: int| 0 <= i < s.len() implies s[i] == t[i] by {
                if i > 0 {
                    assert(s[i] == s.drop_first()[i - 1]);
                    assert(t[i] == t.drop_first()[i - 1]);
                }
            }
        }
    }
}

/// Law (round trip over tones): the twenty tone segments of an encoded byte
/// determine the byte — no two distinct bytes share an encoding, so an
/// external decoder that reads the pulse durations recovers the byte.
pub proof fn lemma_byte_tones_injective(a: u8, b: u8)
    requires
        byte_tones(a) == byte_tones(b),
    ensures
        a == b,
{
    lemma_tones_of_bits_injective(byte_bits(a), byte_bits(b));
    assert(data_bits(a) =~= byte_bits(a).subrange(1, 9));
    assert(data_bits(b) =~= byte_bits(b).subrange(1, 9));
    lemma_data_bits_value(a);
    lemma_data_bits_value(b);
}

/// Law (idempotence): byte encoding is a pure function of the byte — any
/// two tone sequences that the contract of `encode_byte` allows for the
/// same input are identical.
pub proof fn lemma_encode_byte_deterministic(b: u8, r1: Seq<ToneSpec>, r2: Seq<ToneSpec>)
    requires
        r1 == byte_tones(b),
        r2 == byte_tones(b),
    ensures
        r1 == r2,
{
}

} // verus!

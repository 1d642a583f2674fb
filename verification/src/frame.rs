//! Frame assembler: sequences sync tones and byte encodings into one full
//! transmission — lead sync, header bytes, mid sync, data bytes, trailer
//! sync — as an ordered, append-only run of tone segments.

use vstd::prelude::*;
use crate::tone::{ToneSpec, valid_tone};
use crate::encode::{
    FREQ_LOW_HZ, FREQ_HIGH_HZ, tone_of, tone, byte_tones, encode_byte, lemma_tones_of_bits_len,
    lemma_tones_of_bits_valid,
};

verus! {

/// Duration of the lead sync tone, in milliseconds.
pub const LEAD_SYNC_MS: u64 = 4000;

/// Duration of the mid sync tone, in milliseconds.
pub const MID_SYNC_MS: u64 = 2000;

/// Duration of the trailer ("fail") sync tone, in milliseconds.
pub const FAIL_SYNC_MS: u64 = 2000;

/// The lead sync: a continuous low-carrier tone that precedes the header
/// and lets a receiver acquire carrier lock.
pub open spec fn lead_sync_tone() -> ToneSpec {
    tone_of(FREQ_LOW_HZ, LEAD_SYNC_MS)
}

/// The mid sync: a continuous high-carrier tone between header and data.
pub open spec fn mid_sync_tone() -> ToneSpec {
    tone_of(FREQ_HIGH_HZ, MID_SYNC_MS)
}

/// The trailer sync, named "fail sync" for legacy reasons: a continuous
/// high-carrier tone that marks the end of the transmission.
pub open spec fn fail_sync_tone() -> ToneSpec {
    tone_of(FREQ_HIGH_HZ, FAIL_SYNC_MS)
}

/// Construct the lead sync tone segment.
pub fn lead_sync() -> (t: ToneSpec)
    ensures
        t == lead_sync_tone(),
{
    tone(FREQ_LOW_HZ, LEAD_SYNC_MS)
}

/// Construct the mid sync tone segment.
pub fn mid_sync() -> (t: ToneSpec)
    ensures
        t == mid_sync_tone(),
{
    tone(FREQ_HIGH_HZ, MID_SYNC_MS)
}

/// Construct the trailer sync tone segment.
pub fn fail_sync() -> (t: ToneSpec)
    ensures
        t == fail_sync_tone(),
{
    tone(FREQ_HIGH_HZ, FAIL_SYNC_MS)
}

/// The seven header bytes of a transmission, in wire order: two filename
/// identifier bytes, two start address bytes, two end address bytes, one
/// caller-supplied checksum byte.
#[derive(Clone, Copy, PartialEq, Eq, Structural, Debug)]
pub struct Header {
    pub filename0: u8,
    pub filename1: u8,
    pub start_address0: u8,
    pub start_address1: u8,
    pub end_address0: u8,
    pub end_address1: u8,
    pub checksum: u8,
}

/// The header bytes in the order they are sent.
pub open spec fn spec_header_bytes(h: Header) -> Seq<u8> {
    seq![
        h.filename0,
        h.filename1,
        h.start_address0,
        h.start_address1,
        h.end_address0,
        h.end_address1,
        h.checksum,
    ]
}

impl Header {
    /// The header bytes in the order they are sent.
    pub fn header_bytes(&self) -> (v: Vec<u8>)
        ensures
            v@ == spec_header_bytes(*self),
    {
        let mut v: Vec<u8> = Vec::new();
        v.push(self.filename0);
        v.push(self.filename1);
        v.push(self.start_address0);
        v.push(self.start_address1);
        v.push(self.end_address0);
        v.push(self.end_address1);
        v.push(self.checksum);
        proof {
            assert(v@ =~= spec_header_bytes(*self));
        }
        v
    }
}

/// The tone segments of a run of bytes, in order: twenty segments per byte.
pub open spec fn tones_of_bytes(bytes: Seq<u8>) -> Seq<ToneSpec>
    decreases bytes.len(),
{
    if bytes.len() == 0 {
        Seq::empty()
    } else {
        byte_tones(bytes[0]) + tones_of_bytes(bytes.drop_first())
    }
}

/// Appending a byte appends its twenty tone segments.
pub proof fn lemma_tones_of_bytes_push(bytes: Seq<u8>, b: u8)
    ensures
        tones_of_bytes(bytes.push(b)) == tones_of_bytes(bytes) + byte_tones(b),
    decreases bytes.len(),
{
    if bytes.len() == 0 {
        assert(bytes.push(b)[0] == b);
        assert(bytes.push(b).drop_first() =~= Seq::<u8>::empty());
        assert(tones_of_bytes(Seq::<u8>::empty()) =~= Seq::<ToneSpec>::empty());
        assert(tones_of_bytes(bytes.push(b)) =~= tones_of_bytes(bytes) + byte_tones(b));
    } else {
        assert(bytes.push(b).drop_first() =~= bytes.drop_first().push(b));
        lemma_tones_of_bytes_push(bytes.drop_first(), b);
        assert(tones_of_bytes(bytes.push(b)) =~= tones_of_bytes(bytes) + byte_tones(b));
    }
}

/// A run of bytes yields exactly twenty tone segments per byte.
pub proof fn lemma_tones_of_bytes_len(bytes: Seq<u8>)
    ensures
        tones_of_bytes(bytes).len() == 20 * bytes.len(),
    decreases bytes.len(),
{
    if bytes.len() > 0 {
        lemma_tones_of_bits_len(crate::encode::byte_bits(bytes[0]));
        lemma_tones_of_bytes_len(bytes.drop_first());
    }
}

/// The full transmission for a header and a run of data bytes: lead sync,
/// encoded header bytes, mid sync, encoded data bytes, trailer sync.
pub open spec fn frame_tones(h: Header, data: Seq<u8>) -> Seq<ToneSpec> {
    seq![lead_sync_tone()] + tones_of_bytes(spec_header_bytes(h)) + seq![mid_sync_tone()]
        + tones_of_bytes(data) + seq![fail_sync_tone()]
}

/// One transmission under construction: an ordered sequence of tone
/// segments that always begins with the lead sync and only ever grows by
/// appending, never removing or reordering.
pub struct Frame {
    segments: Vec<ToneSpec>,
}

impl View for Frame {
    type V = Seq<ToneSpec>;

    closed spec fn view(&self) -> Seq<ToneSpec> {
        self.segments@
    }
}

impl Frame {
    /// A frame is well formed when it starts with the lead sync tone and
    /// every segment is a valid tone no longer than the lead sync.
    pub open spec fn wf(&self) -> bool {
        &&& self@.len() >= 1
        &&& self@[0] == lead_sync_tone()
        &&& forall|i: int|
            0 <= i < self@.len() ==> valid_tone(#[trigger] self@[i]) && self@[i].duration_ms
                <= LEAD_SYNC_MS
    }

    /// Begin a transmission: a frame holding exactly the lead sync tone.
    pub fn new() -> (f: Frame)
        ensures
            f@ == seq![lead_sync_tone()],
            f.wf(),
    {
        let mut segments: Vec<ToneSpec> = Vec::new();
        segments.push(lead_sync());
        proof {
            assert(segments@ =~= seq![lead_sync_tone()]);
        }
        Frame { segments }
    }

    /// Append the twenty tone segments of one encoded byte.
    pub fn append_byte(&mut self, b: u8)
        requires
            old(self).wf(),
        ensures
            final(self)@ == old(self)@ + byte_tones(b),
            final(self).wf(),
    {
        let mut tones = encode_byte(b);
        proof {
            lemma_tones_of_bits_valid(crate::encode::byte_bits(b));
        }
        self.segments.append(&mut tones);
    }

    /// Append the twenty tone segments of each byte of a run, in order.
    pub fn append_bytes(&mut self, bytes: &Vec<u8>)
        requires
            old(self).wf(),
        ensures
            final(self)@ == old(self)@ + tones_of_bytes(bytes@),
            final(self).wf(),
    {
        proof {
            assert(bytes@.take(0) =~= Seq::<u8>::empty());
            assert(tones_of_bytes(Seq::<u8>::empty()) =~= Seq::<ToneSpec>::empty());
            assert(old(self)@ + tones_of_bytes(bytes@.take(0)) =~= old(self)@);
        }
        let mut i: usize = 0;
        while i < bytes.len()
            invariant
                i <= bytes@.len(),
                self@ == old(self)@ + tones_of_bytes(bytes@.take(i as int)),
                self.wf(),
            decreases bytes@.len() - i,
        {
            self.append_byte(bytes[i]);
            proof {
                assert(bytes@.take(i + 1 as int) =~= bytes@.take(i as int).push(bytes@[i as int]));
                lemma_tones_of_bytes_push(bytes@.take(i as int), bytes@[i as int]);
            }
            i = i + 1;
        }
        proof {
            assert(bytes@.take(bytes@.len() as int) =~= bytes@);
        }
    }

    /// Append the mid sync tone that separates header from data.
    pub fn append_mid_sync(&mut self)
        requires
            old(self).wf(),
        ensures
            final(self)@ == old(self)@ + seq![mid_sync_tone()],
            final(self).wf(),
    {
        self.segments.push(mid_sync());
        proof {
            assert(self@ =~= old(self)@ + seq![mid_sync_tone()]);
        }
    }

    /// Append the trailer sync tone that marks the end of the transmission.
    pub fn append_fail_sync(&mut self)
        requires
            old(self).wf(),
        ensures
            final(self)@ == old(self)@ + seq![fail_sync_tone()],
            final(self).wf(),
    {
        self.segments.push(fail_sync());
        proof {
            assert(self@ =~= old(self)@ + seq![fail_sync_tone()]);
        }
    }

    /// Hand the ordered tone segments to the caller for playback.
    pub fn into_segments(self) -> (v: Vec<ToneSpec>)
        ensures
            v@ == self@,
    {
        self.segments
    }
}

/// Assemble the full transmission for one header and one run of data bytes.
pub fn assemble_frame(header: &Header, data: &Vec<u8>) -> (f: Frame)
    ensures
        f@ == frame_tones(*header, data@),
        f.wf(),
        f@.len() == 3 + 20 * (7 + data@.len()),
{
    let mut f = Frame::new();
    let hb = header.header_bytes();
    f.append_bytes(&hb);
    f.append_mid_sync();
    f.append_bytes(data);
    f.append_fail_sync();
    proof {
        assert(f@ =~= frame_tones(*header, data@));
        lemma_tones_of_bytes_len(spec_header_bytes(*header));
        lemma_tones_of_bytes_len(data@);
    }
    f
}

/// Law (idempotence): frame assembly is a pure function of header and data
/// — any two tone sequences that the contract of `assemble_frame` allows
/// for the same input are identical.
pub proof fn lemma_assemble_frame_deterministic(
    h: Header,
    data: Seq<u8>,
    r1: Seq<ToneSpec>,
    r2: Seq<ToneSpec>,
)
    requires
        r1 == frame_tones(h, data),
        r2 == frame_tones(h, data),
    ensures
        r1 == r2,
{
}

} // verus!

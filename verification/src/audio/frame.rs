//! Mono 16-bit PCM frames tagged with their sample rate.

use vstd::prelude::*;

verus! {

/// Mono 16-bit PCM frame carrying its own sample rate, so that it describes
/// itself while it flows through the pipeline.
#[derive(Debug, PartialEq)]
pub struct PcmFrame {
    pub samples: Vec<i16>,
    pub sample_rate: u32,
}

/// Mathematical content of a frame.
pub struct PcmFrameView {
    pub samples: Seq<i16>,
    pub sample_rate: u32,
}

impl View for PcmFrame {
    type V = PcmFrameView;

    open spec fn view(&self) -> PcmFrameView {
        PcmFrameView { samples: self.samples@, sample_rate: self.sample_rate }
    }
}

/// Low byte of a sample in little-endian order.
pub open spec fn low_byte(s: i16) -> u8 {
    ((s as u16) % 256) as u8
}

/// High byte of a sample in little-endian order.
pub open spec fn high_byte(s: i16) -> u8 {
    ((s as u16) / 256) as u8
}

/// The sample whose little-endian bytes are `lo`, `hi`.
pub open spec fn sample_of_bytes(lo: u8, hi: u8) -> i16 {
    ((hi as u16) * 256 + lo as u16) as i16
}

/// Little-endian byte image of a sample sequence: two bytes per sample, low byte first.
pub open spec fn le_bytes(samples: Seq<i16>) -> Seq<u8> {
    Seq::new(
        2 * samples.len(),
        |k: int|
            if k % 2 == 0 {
                low_byte(samples[k / 2])
            } else {
                high_byte(samples[k / 2])
            },
    )
}

/// Samples decoded from little-endian bytes, pairwise; an odd trailing byte is ignored.
pub open spec fn samples_of_le_bytes(bytes: Seq<u8>) -> Seq<i16> {
    Seq::new(bytes.len() / 2, |i: int| sample_of_bytes(bytes[2 * i], bytes[2 * i + 1]))
}

/// Splitting a sample into its two bytes and joining them gives it back.
pub proof fn lemma_sample_bytes_roundtrip(s: i16)
    ensures
        sample_of_bytes(low_byte(s), high_byte(s)) == s,
{
    assert(((((s as u16) / 256) as u8) as u16 * 256 + (((s as u16) % 256) as u8) as u16) as i16
        == s) by (bit_vector);
}

fn split_sample(s: i16) -> (r: (u8, u8))
    ensures
        r.0 == low_byte(s),
        r.1 == high_byte(s),
{
    let u = s as u16;
    let lo = (u & 0xff) as u8;
    let hi = (u >> 8) as u8;
    assert((u & 0xff) as u8 == (u % 256) as u8) by (bit_vector);
    assert((u >> 8) as u8 == (u / 256) as u8) by (bit_vector);
    (lo, hi)
}

fn join_bytes(lo: u8, hi: u8) -> (r: i16)
    ensures
        r == sample_of_bytes(lo, hi),
{
    let v = ((hi as u16) << 8) | (lo as u16);
    assert((((hi as u16) << 8) | (lo as u16)) == (hi as u16) * 256 + lo as u16) by (bit_vector);
    v as i16
}

impl Clone for PcmFrame {
    fn clone(&self) -> (r: Self)
        ensures
            r@ == self@,
    {
        PcmFrame { samples: self.samples.clone(), sample_rate: self.sample_rate }
    }
}

impl PcmFrame {
    pub fn new(samples: Vec<i16>, sample_rate: u32) -> (r: Self)
        ensures
            r.samples == samples,
            r.sample_rate == sample_rate,
    {
        Self { samples, sample_rate }
    }

    /// Little-endian bytes of the samples (Gemini expects 16-bit little-endian PCM).
    pub fn to_le_bytes(&self) -> (r: Vec<u8>)
        requires
            2 * self.samples@.len() <= isize::MAX,
        ensures
            r@ == le_bytes(self.samples@),
    {
        let n = self.samples.len();
        let mut out: Vec<u8> = Vec::with_capacity(n * 2);
        for i in 0..n
            invariant
                n == self.samples@.len(),
                out@ == le_bytes(self.samples@.take(i as int)),
        {
            let (lo, hi) = split_sample(self.samples[i]);
            out.push(lo);
            out.push(hi);
            assert(out@ =~= le_bytes(self.samples@.take(i + 1)));
        }
        assert(self.samples@.take(n as int) =~= self.samples@);
        out
    }

    /// Frame decoded from little-endian bytes; an odd trailing byte is ignored.
    pub fn from_le_bytes(bytes: &[u8], sample_rate: u32) -> (r: Self)
        ensures
            r.samples@ == samples_of_le_bytes(bytes@),
            r.sample_rate == sample_rate,
            r.samples@.len() == bytes@.len() / 2,
            forall|i: int|
                0 <= i < r.samples@.len() ==> #[trigger] r.samples@[i] == sample_of_bytes(
                    bytes@[2 * i],
                    bytes@[2 * i + 1],
                ),
    {
        let n = bytes.len() / 2;
        let mut samples: Vec<i16> = Vec::with_capacity(n);
        for i in 0..n
            invariant
                n == bytes.len() / 2,
                bytes.len() == bytes@.len(),
                samples@ == samples_of_le_bytes(bytes@).take(i as int),
        {
            assert(2 * i + 1 < bytes.len());
            let j: usize = 2 * i;
            let s = join_bytes(bytes[j], bytes[j + 1]);
            samples.push(s);
            assert(samples@ =~= samples_of_le_bytes(bytes@).take(i + 1));
        }
        assert(samples@ =~= samples_of_le_bytes(bytes@));
        Self { samples, sample_rate }
    }
}

/// A frame written with `to_le_bytes` and read back with `from_le_bytes` at the
/// same rate is the frame itself: two bytes per sample, and decoding the bytes
/// gives every sample back.
pub proof fn law_le_bytes_roundtrip(samples: Seq<i16>)
    ensures
        le_bytes(samples).len() == 2 * samples.len(),
        samples_of_le_bytes(le_bytes(samples)) == samples,
{
    let b = le_bytes(samples);
    assert forall|i: int| 0 <= i < samples.len() implies #[trigger] samples_of_le_bytes(b)[i]
        == samples[i] by {
        assert((2 * i) % 2 == 0);
        assert((2 * i + 1) % 2 == 1);
        assert((2 * i) / 2 == i);
        assert((2 * i + 1) / 2 == i);
        lemma_sample_bytes_roundtrip(samples[i]);
    }
    assert(samples_of_le_bytes(b) =~= samples);
}

} // verus!

//! Per-frame energy summary, called on the data path: one pass, no allocation.

use crate::dsp::vad::{frame_energy_rms, is_root, lemma_isqrt_is_root, lemma_isqrt_unique, mean_square, rms};
use vstd::prelude::*;

verus! {

#[derive(Debug, Clone, Copy, PartialEq, Eq, Structural)]
pub struct FrameEnergy {
    pub rms_q15: i32,
    pub peak: i16,
    pub n: u16,
}

/// Magnitude of a sample, saturating `i16::MIN` to `i16::MAX`.
pub open spec fn saturating_abs(x: i16) -> i16 {
    if x == i16::MIN {
        i16::MAX
    } else if x < 0 {
        (-x) as i16
    } else {
        x
    }
}

/// Largest saturated magnitude among the samples, 0 for none.
pub open spec fn peak_of(s: Seq<i16>) -> i16
    decreases s.len(),
{
    if s.len() == 0 {
        0
    } else {
        let p = peak_of(s.drop_last());
        let a = saturating_abs(s.last());
        if a > p {
            a
        } else {
            p
        }
    }
}

/// Energy summary of a frame, as `frame_energy` computes it.
pub open spec fn frame_energy_spec(s: Seq<i16>) -> FrameEnergy {
    FrameEnergy { rms_q15: rms(s) as i32, peak: peak_of(s), n: s.len() as u16 }
}

fn saturating_abs_exec(x: i16) -> (r: i16)
    ensures
        r == saturating_abs(x),
{
    if x == i16::MIN {
        i16::MAX
    } else if x < 0 {
        -x
    } else {
        x
    }
}

/// Energy summary of a frame: RMS, peak magnitude and sample count
/// (the count is kept modulo 2^16, as an `as u16` cast keeps it).
pub fn frame_energy(samples: &[i16]) -> (r: FrameEnergy)
    ensures
        r.rms_q15 == rms(samples@),
        r.peak == peak_of(samples@),
        r.n == samples@.len() as u16,
        r == frame_energy_spec(samples@),
{
    if samples.len() == 0 {
        proof {
            assert((0nat + 1) * (0nat + 1) == 1) by (nonlinear_arith);
            lemma_isqrt_unique(0, 0);
        }
        return FrameEnergy { rms_q15: 0, peak: 0, n: 0 };
    }
    let len = samples.len();
    let mut peak: i16 = 0;
    for i in 0..len
        invariant
            len == samples@.len(),
            peak == peak_of(samples@.take(i as int)),
    {
        let abs = saturating_abs_exec(samples[i]);
        assert(samples@.take(i + 1).drop_last() =~= samples@.take(i as int));
        if abs > peak {
            peak = abs;
        }
    }
    assert(samples@.take(len as int) =~= samples@);
    let rms = frame_energy_rms(samples);
    FrameEnergy { rms_q15: rms as i32, peak, n: len as u16 }
}

/// The energy summary of an empty frame is all zeros. Otherwise its RMS is
/// the integer square root of the mean of the squared samples, and its peak
/// is the largest saturated magnitude, which some sample reaches.
pub proof fn law_frame_energy_bounds(s: Seq<i16>)
    ensures
        s.len() == 0 ==> frame_energy_spec(s) == (FrameEnergy { rms_q15: 0, peak: 0, n: 0 }),
        rms(s) * rms(s) <= mean_square(s) < (rms(s) + 1) * (rms(s) + 1),
        forall|i: int| 0 <= i < s.len() ==> saturating_abs(#[trigger] s[i]) <= peak_of(s),
        s.len() > 0 ==> exists|i: int| 0 <= i < s.len() && peak_of(s) == saturating_abs(#[trigger] s[i]),
    decreases s.len(),
{
    lemma_isqrt_is_root(mean_square(s));
    assert(is_root(rms(s), mean_square(s)));
    if s.len() == 0 {
        assert((0nat + 1) * (0nat + 1) == 1) by (nonlinear_arith);
        lemma_isqrt_unique(0, 0);
    } else {
        let d = s.drop_last();
        law_frame_energy_bounds(d);
        assert forall|i: int| 0 <= i < s.len() implies saturating_abs(#[trigger] s[i]) <= peak_of(s) by {
            if i < d.len() {
                assert(s[i] == d[i]);
            }
        }
        if saturating_abs(s.last()) > peak_of(d) || d.len() == 0 {
            assert(peak_of(s) == saturating_abs(s[s.len() - 1]));
        } else {
            let i = choose|i: int| 0 <= i < d.len() && peak_of(d) == saturating_abs(#[trigger] d[i]);
            assert(peak_of(s) == saturating_abs(s[i]));
        }
    }
}

} // verus!

//! Decisions of a link's audio pump: how large a capture block is, whether a
//! captured block goes upstream, and how received audio is cut into
//! fixed-size playback blocks.

use crate::dsp::vad::{crossings, vad_step, rms, vad_wf, Vad, VadDecision};
use vstd::prelude::*;

verus! {

/// Samples in one capture block: 10 ms at the device rate, at least one.
pub open spec fn input_chunk_spec(rate: u32) -> nat {
    if rate / 100 >= 1 {
        (rate / 100) as nat
    } else {
        1
    }
}

pub fn input_chunk_for(rate: u32) -> (r: usize)
    ensures
        r == input_chunk_spec(rate),
{
    let n = rate / 100;
    if n >= 1 {
        n as usize
    } else {
        1
    }
}

/// Whether a captured block goes upstream: never while the loop guard holds
/// the link paused; otherwise when voice activity detection is off, or when
/// it classifies the block as speech. The detector sees every block while it
/// is on, paused or not.
pub fn upstream_gate(vad: &mut Vad, block: &[i16], vad_disabled: bool, guard_paused: bool) -> (r: bool)
    requires
        !vad_disabled ==> crossings(block@) <= u16::MAX,
    ensures
        vad_disabled ==> final(vad)@ == old(vad)@ && r == !guard_paused,
        !vad_disabled ==> vad_wf(final(vad)@) && final(vad)@ == vad_step(
            old(vad)@,
            rms(block@) as u32,
            crossings(block@) as u16,
        ).0 && r == (!guard_paused && vad_step(old(vad)@, rms(block@) as u32, crossings(block@) as u16).1
            == VadDecision::Send),
{
    let voice_active = if vad_disabled {
        true
    } else {
        vad.observe(block) == VadDecision::Send
    };
    !guard_paused && voice_active
}

/// A block padded with zero samples up to `size`.
pub open spec fn pad_block(s: Seq<i16>, size: nat) -> Seq<i16> {
    s + Seq::new((size - s.len()) as nat, |i: int| 0i16)
}

/// Consecutive blocks of `size` samples; the last one is padded with zeros.
pub open spec fn padded_blocks_spec(s: Seq<i16>, size: nat) -> Seq<Seq<i16>>
    decreases s.len(),
{
    if s.len() == 0 || size == 0 {
        Seq::empty()
    } else if s.len() <= size {
        seq![pad_block(s, size)]
    } else {
        seq![s.take(size as int)] + padded_blocks_spec(s.skip(size as int), size)
    }
}

/// Every block holds exactly `size` samples; there are `len / size` blocks,
/// rounded up; and block `i` holds samples `i * size ..` in order, followed
/// by zeros past the end of the input.
pub proof fn law_padded_blocks_shape(s: Seq<i16>, size: nat)
    requires
        size > 0,
    ensures
        padded_blocks_spec(s, size).len() == (s.len() + size - 1) / size as int,
        forall|i: int| 0 <= i < padded_blocks_spec(s, size).len() ==> (#[trigger] padded_blocks_spec(s, size)[i]).len() == size,
        forall|i: int, j: int|
            0 <= i < padded_blocks_spec(s, size).len() && 0 <= j < size ==> #[trigger] padded_blocks_spec(s, size)[i][j]
                == if i * size + j < s.len() {
                s[i * size + j]
            } else {
                0i16
            },
    decreases s.len(),
{
    let b = padded_blocks_spec(s, size);
    if s.len() == 0 {
        assert((0 + size - 1) / size as int == 0) by (nonlinear_arith)
            requires
                size > 0,
        ;
    } else if s.len() <= size {
        assert((s.len() + size - 1) / size as int == 1) by (nonlinear_arith)
            requires
                size > 0,
                0 < s.len() <= size,
        ;
        assert forall|i: int, j: int| 0 <= i < b.len() && 0 <= j < size implies #[trigger] b[i][j] == if i * size + j
            < s.len() {
            s[i * size + j]
        } else {
            0i16
        } by {
            assert(i == 0);
            assert(i * size + j == j) by (nonlinear_arith)
                requires
                    i == 0,
            ;
        }
    } else {
        let rest = s.skip(size as int);
        law_padded_blocks_shape(rest, size);
        let rb = padded_blocks_spec(rest, size);
        assert(b == seq![s.take(size as int)] + rb);
        assert((s.len() + size - 1) / size as int == 1 + (rest.len() + size - 1) / size as int) by (nonlinear_arith)
            requires
                size > 0,
                rest.len() == s.len() - size,
                s.len() > size,
        ;
        assert forall|i: int| 0 <= i < b.len() implies (#[trigger] b[i]).len() == size by {
            if i > 0 {
                assert(b[i] == rb[i - 1]);
            }
        }
        assert forall|i: int, j: int| 0 <= i < b.len() && 0 <= j < size implies #[trigger] b[i][j] == if i * size + j
            < s.len() {
            s[i * size + j]
        } else {
            0i16
        } by {
            if i == 0 {
                assert(i * size + j == j) by (nonlinear_arith)
                    requires
                        i == 0,
                ;
            } else {
                assert(b[i] == rb[i - 1]);
                assert(rb[i - 1][j] == if (i - 1) * size + j < rest.len() {
                    rest[(i - 1) * size + j]
                } else {
                    0i16
                });
                assert((i - 1) * size + j + size == i * size + j) by (nonlinear_arith);
            }
        }
    }
}

/// Cuts samples into consecutive blocks of `size` samples, padding the last
/// block with zeros.
pub fn padded_blocks(samples: &[i16], size: usize) -> (r: Vec<Vec<i16>>)
    requires
        size > 0,
    ensures
        r@.map_values(|b: Vec<i16>| b@) == padded_blocks_spec(samples@, size as nat),
{
    let len = samples.len();
    let mut out: Vec<Vec<i16>> = Vec::new();
    let mut start: usize = 0;
    assert(samples@.skip(0) =~= samples@);
    assert(out@.map_values(|b: Vec<i16>| b@) =~= Seq::<Seq<i16>>::empty());
    while start < len
        invariant
            len == samples@.len(),
            size > 0,
            start <= len,
            padded_blocks_spec(samples@, size as nat) == out@.map_values(|b: Vec<i16>| b@)
                + padded_blocks_spec(samples@.skip(start as int), size as nat),
        decreases len - start,
    {
        let end = if len - start <= size {
            len
        } else {
            start + size
        };
        let mut block: Vec<i16> = Vec::new();
        let mut k = start;
        while k < end
            invariant
                start <= k <= end <= len,
                len == samples@.len(),
                block@ == samples@.subrange(start as int, k as int),
            decreases end - k,
        {
            block.push(samples[k]);
            k = k + 1;
            assert(block@ =~= samples@.subrange(start as int, k as int));
        }
        let got = block.len();
        let ghost filled = block@;
        while block.len() < size
            invariant
                got <= block.len() <= size,
                got == filled.len(),
                block@ == filled + Seq::new((block.len() - got) as nat, |i: int| 0i16),
            decreases size - block.len(),
        {
            block.push(0);
            assert(block@ =~= filled + Seq::new((block.len() - got) as nat, |i: int| 0i16));
        }
        let ghost rest = samples@.skip(start as int);
        let ghost before = out@;
        proof {
            if len - start <= size {
                assert(filled =~= rest);
                assert(block@ =~= pad_block(rest, size as nat));
            } else {
                assert(filled =~= rest.take(size as int));
                assert(block@ =~= filled);
                assert(rest.skip(size as int) =~= samples@.skip(end as int));
            }
        }
        out.push(block);
        proof {
            assert(out@.map_values(|b: Vec<i16>| b@) =~= before.map_values(|b: Vec<i16>| b@).push(
                out@.last()@,
            ));
            if len - start > size {
                assert(samples@.skip(end as int) =~= rest.skip(size as int));
            } else {
                assert(samples@.skip(end as int) =~= Seq::<i16>::empty());
            }
        }
        start = end;
    }
    out
}

} // verus!

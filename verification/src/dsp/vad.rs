//! Energy + zero-crossing voice activity detection: silent and noise frames
//! are not sent upstream, which saves cost. Integer arithmetic only.

use vstd::prelude::*;

verus! {

/// Square of a sample.
pub open spec fn square(x: i16) -> nat {
    ((x as int) * (x as int)) as nat
}

/// Sum of the squares of the samples.
pub open spec fn sum_squares(s: Seq<i16>) -> nat
    decreases s.len(),
{
    if s.len() == 0 {
        0
    } else {
        sum_squares(s.drop_last()) + square(s.last())
    }
}

/// Mean of the squares, rounded down; zero for no samples.
pub open spec fn mean_square(s: Seq<i16>) -> nat {
    if s.len() == 0 {
        0
    } else {
        sum_squares(s) / s.len()
    }
}

/// `r` is the integer square root of `n`.
pub open spec fn is_root(r: nat, n: nat) -> bool {
    r * r <= n && n < (r + 1) * (r + 1)
}

/// Integer square root: the `r` with `r * r <= n < (r + 1) * (r + 1)`.
pub open spec fn isqrt(n: nat) -> nat {
    choose|r: nat| #[trigger] is_root(r, n)
}

/// Root mean square of a frame, rounded down.
pub open spec fn rms(s: Seq<i16>) -> nat {
    isqrt(mean_square(s))
}

/// A root `r` of `n` in the sense of `isqrt` is `isqrt(n)`.
pub proof fn lemma_isqrt_unique(r: nat, n: nat)
    requires
        r * r <= n,
        n < (r + 1) * (r + 1),
    ensures
        isqrt(n) == r,
{
    assert(is_root(r, n));
    let q = isqrt(n);
    assert(q * q <= n && n < (q + 1) * (q + 1));
    if q < r {
        assert((q + 1) * (q + 1) <= r * r) by (nonlinear_arith)
            requires
                q + 1 <= r,
        ;
    } else if q > r {
        assert((r + 1) * (r + 1) <= q * q) by (nonlinear_arith)
            requires
                r + 1 <= q,
        ;
    }
}

/// Every natural number has an integer square root.
pub proof fn lemma_isqrt_is_root(n: nat)
    ensures
        is_root(isqrt(n), n),
    decreases n,
{
    if n == 0 {
        assert(is_root(0, 0)) by (nonlinear_arith);
    } else {
        lemma_isqrt_is_root((n - 1) as nat);
        let r = isqrt((n - 1) as nat);
        if (r + 1) * (r + 1) <= n {
            assert(is_root(r + 1, n)) by (nonlinear_arith)
                requires
                    r * r <= n - 1,
                    n - 1 < (r + 1) * (r + 1),
                    (r + 1) * (r + 1) <= n,
            ;
        } else {
            assert(is_root(r, n)) by (nonlinear_arith)
                requires
                    r * r <= n - 1,
                    n < (r + 1) * (r + 1),
            ;
        }
    }
}

proof fn lemma_sum_squares_bound(s: Seq<i16>)
    ensures
        sum_squares(s) <= s.len() * 1073741824,
    decreases s.len(),
{
    if s.len() > 0 {
        lemma_sum_squares_bound(s.drop_last());
        let x = s.last() as int;
        assert(x * x <= 1073741824) by (nonlinear_arith)
            requires
                -32768 <= x <= 32767,
        ;
        assert(x * x >= 0) by (nonlinear_arith);
        assert(square(s.last()) == x * x);
        assert(sum_squares(s) == sum_squares(s.drop_last()) + square(s.last()));
        assert(s.drop_last().len() * 1073741824 + 1073741824 == s.len() * 1073741824);
    }
}

/// Integer square root of a value no larger than 2^30.
fn isqrt_exec(m: u64) -> (r: u32)
    requires
        m <= 1073741824,
    ensures
        r as nat == isqrt(m as nat),
        r <= 32768,
{
    let mut lo: u64 = 0;
    let mut hi: u64 = 32769;
    assert(m < 32769 * 32769);
    while hi - lo > 1
        invariant
            lo < hi <= 32769,
            lo * lo <= m,
            m < hi * hi,
        decreases hi - lo,
    {
        let mid = lo + (hi - lo) / 2;
        assert(mid * mid <= 32769 * 32769) by (nonlinear_arith)
            requires
                mid <= 32769,
        ;
        if mid * mid <= m {
            lo = mid;
        } else {
            hi = mid;
        }
    }
    proof {
        assert(hi == lo + 1);
        lemma_isqrt_unique(lo as nat, m as nat);
        assert(lo <= 32768);
    }
    lo as u32
}

/// Root mean square of a frame, computed exactly in integers.
fn rms_exec(samples: &[i16]) -> (r: u32)
    ensures
        r as nat == rms(samples@),
        r <= 32768,
{
    let n = samples.len();
    if n == 0 {
        proof {
            assert((0nat + 1) * (0nat + 1) == 1) by (nonlinear_arith);
            lemma_isqrt_unique(0, 0);
        }
        return 0;
    }
    let mut acc: u128 = 0;
    for i in 0..n
        invariant
            n == samples@.len(),
            acc == sum_squares(samples@.take(i as int)),
            acc <= i * 1073741824,
    {
        let v = samples[i] as i64;
        assert(v * v <= 1073741824) by (nonlinear_arith)
            requires
                -32768 <= v <= 32767,
        ;
        assert(v * v >= 0) by (nonlinear_arith);
        let sq = (v * v) as u128;
        assert(samples@.take(i + 1).drop_last() =~= samples@.take(i as int));
        acc = acc + sq;
    }
    assert(samples@.take(n as int) =~= samples@);
    let mean = acc / (n as u128);
    assert(mean <= 1073741824) by (nonlinear_arith)
        requires
            acc <= n * 1073741824,
            n > 0,
            mean == (acc as int) / (n as int),
    ;
    isqrt_exec(mean as u64)
}

/// RMS energy of a frame (0 for an empty frame).
pub fn frame_energy_rms(samples: &[i16]) -> (r: u32)
    ensures
        r as nat == rms(samples@),
        r <= 32768,
{
    rms_exec(samples)
}

/// Samples within this distance of zero carry no sign for crossing counts.
pub const ZCR_DEADZONE: i16 = 64;

/// Sign of a sample outside the dead zone, 0 inside it.
pub open spec fn sign_of(x: i16) -> int {
    if x > ZCR_DEADZONE {
        1
    } else if x < -ZCR_DEADZONE {
        -1
    } else {
        0
    }
}

/// Sign of the last sample outside the dead zone, 0 if there is none.
pub open spec fn last_sign(s: Seq<i16>) -> int
    decreases s.len(),
{
    if s.len() == 0 {
        0
    } else if sign_of(s.last()) != 0 {
        sign_of(s.last())
    } else {
        last_sign(s.drop_last())
    }
}

/// Number of samples outside the dead zone whose sign differs from the sign of
/// the previous sample outside the dead zone.
pub open spec fn crossings(s: Seq<i16>) -> nat
    decreases s.len(),
{
    if s.len() == 0 {
        0
    } else {
        let p = last_sign(s.drop_last());
        let g = sign_of(s.last());
        crossings(s.drop_last()) + if p != 0 && g != 0 && g != p {
            1nat
        } else {
            0nat
        }
    }
}

proof fn lemma_crossings_bound(s: Seq<i16>)
    ensures
        crossings(s) <= s.len(),
    decreases s.len(),
{
    if s.len() > 0 {
        lemma_crossings_bound(s.drop_last());
    }
}

/// The signs (+1 or -1) of the samples outside the dead zone, in order.
pub open spec fn signed(s: Seq<i16>) -> Seq<int>
    decreases s.len(),
{
    if s.len() == 0 {
        Seq::empty()
    } else if sign_of(s.last()) != 0 {
        signed(s.drop_last()).push(sign_of(s.last()))
    } else {
        signed(s.drop_last())
    }
}

/// Number of neighbours that differ in a sequence of signs.
pub open spec fn sign_changes(t: Seq<int>) -> nat
    decreases t.len(),
{
    if t.len() <= 1 {
        0
    } else {
        sign_changes(t.drop_last()) + if t.last() != t[t.len() - 2] {
            1nat
        } else {
            0nat
        }
    }
}

proof fn lemma_last_sign_is_last_signed(s: Seq<i16>)
    ensures
        last_sign(s) == if signed(s).len() == 0 {
            0
        } else {
            signed(s).last()
        },
        signed(s).len() <= s.len(),
        forall|i: int| 0 <= i < signed(s).len() ==> #[trigger] signed(s)[i] != 0,
    decreases s.len(),
{
    if s.len() > 0 {
        lemma_last_sign_is_last_signed(s.drop_last());
    }
}

proof fn lemma_sign_changes_bound(t: Seq<int>)
    ensures
        t.len() > 0 ==> sign_changes(t) <= t.len() - 1,
        t.len() == 0 ==> sign_changes(t) == 0,
    decreases t.len(),
{
    if t.len() > 1 {
        lemma_sign_changes_bound(t.drop_last());
    }
}

/// The crossing count is the number of sign changes between consecutive
/// samples outside the dead zone: it is at most one less than the number of
/// samples, and zero when every sample lies in the dead zone.
pub proof fn law_crossings_are_sign_changes(s: Seq<i16>)
    ensures
        crossings(s) == sign_changes(signed(s)),
        s.len() > 0 ==> crossings(s) <= s.len() - 1,
        (forall|i: int| 0 <= i < s.len() ==> sign_of(#[trigger] s[i]) == 0) ==> crossings(s) == 0,
    decreases s.len(),
{
    if s.len() == 0 {
        assert(signed(s) == Seq::<int>::empty());
        assert(sign_changes(signed(s)) == 0);
    } else {
        let d = s.drop_last();
        law_crossings_are_sign_changes(d);
        lemma_last_sign_is_last_signed(d);
        lemma_last_sign_is_last_signed(s);
        lemma_sign_changes_bound(signed(s));
        let t = signed(d);
        let g = sign_of(s.last());
        assert(crossings(s) == crossings(d) + if last_sign(d) != 0 && g != 0 && g != last_sign(d) {
            1nat
        } else {
            0nat
        });
        if g != 0 {
            let u = t.push(g);
            assert(signed(s) == u);
            assert(u.drop_last() =~= t);
            if t.len() > 0 {
                assert(u[u.len() - 2] == t.last());
                assert(sign_changes(u) == sign_changes(t) + if g != t.last() {
                    1nat
                } else {
                    0nat
                });
                assert(crossings(s) == sign_changes(signed(s)));
            } else {
                assert(sign_changes(u) == 0);
                assert(last_sign(d) == 0);
                assert(crossings(s) == sign_changes(signed(s)));
            }
        } else {
            assert(signed(s) == t);
            assert(crossings(s) == sign_changes(signed(s)));
        }
        if forall|i: int| 0 <= i < s.len() ==> sign_of(#[trigger] s[i]) == 0 {
            assert forall|i: int| 0 <= i < d.len() implies sign_of(#[trigger] d[i]) == 0 by {
                assert(d[i] == s[i]);
            }
            assert(sign_of(s[s.len() - 1]) == 0);
        }
    }
}

/// Zero-crossing count of a frame, with a dead zone around zero.
pub fn zero_crossing_rate(samples: &[i16]) -> (r: u16)
    requires
        crossings(samples@) <= u16::MAX,
    ensures
        r == crossings(samples@),
{
    let mut count: usize = 0;
    let mut prev_sign: i8 = 0;
    let n = samples.len();
    for i in 0..n
        invariant
            n == samples@.len(),
            count == crossings(samples@.take(i as int)),
            prev_sign == last_sign(samples@.take(i as int)),
            count <= i,
    {
        let sample = samples[i];
        let sign: i8 = if sample > ZCR_DEADZONE {
            1
        } else if sample < -ZCR_DEADZONE {
            -1
        } else {
            prev_sign
        };
        assert(samples@.take(i + 1).drop_last() =~= samples@.take(i as int));
        assert(samples@.take(i + 1).last() == sample);
        if prev_sign != 0 && sign != 0 && sign != prev_sign {
            count += 1;
        }
        if sign != 0 {
            prev_sign = sign;
        }
    }
    assert(samples@.take(n as int) =~= samples@);
    count as u16
}

/// VAD tuning parameters.
#[derive(Debug, Clone, Copy)]
pub struct VadConfig {
    /// Absolute RMS floor to open speech (above the noise floor as well).
    pub rms_open: u32,
    /// RMS needed to stay in speech (hysteresis, below `rms_open` to avoid flapping).
    pub rms_close: u32,
    pub zcr_noise_max: u16,
    pub hangover_frames: u16,
    pub attack_frames: u16,
    /// Opening threshold relative to the adaptive noise floor, in percent:
    /// 300 means three times the noise floor.
    pub noise_margin_pct: u32,
}

impl VadConfig {
    pub fn default_uplink() -> (r: Self)
        ensures
            r.rms_open == 1000,
            r.rms_close == 550,
            r.zcr_noise_max == 168,
            r.hangover_frames == 30,
            r.attack_frames == 4,
            r.noise_margin_pct == 250,
    {
        Self {
            rms_open: 1000,
            rms_close: 550,
            zcr_noise_max: 168,
            hangover_frames: 30,
            attack_frames: 4,
            noise_margin_pct: 250,
        }
    }
}

/// Stateless decision whether one frame looks like speech.
pub open spec fn classify_spec(s: Seq<i16>, cfg: VadConfig, currently_speaking: bool) -> bool {
    let r = rms(s);
    let z = crossings(s);
    let threshold = if currently_speaking {
        cfg.rms_close
    } else {
        cfg.rms_open
    };
    r >= threshold && !(z > cfg.zcr_noise_max && r < cfg.rms_open)
}

pub fn classify_frame(samples: &[i16], cfg: &VadConfig, currently_speaking: bool) -> (r: bool)
    requires
        crossings(samples@) <= u16::MAX,
    ensures
        r == classify_spec(samples@, *cfg, currently_speaking),
{
    let rms = frame_energy_rms(samples);
    let zcr = zero_crossing_rate(samples);
    let threshold = if currently_speaking {
        cfg.rms_close
    } else {
        cfg.rms_open
    };
    if rms < threshold {
        return false;
    }
    if zcr > cfg.zcr_noise_max && rms < cfg.rms_open {
        return false;
    }
    true
}

#[derive(Debug, Clone, Copy, PartialEq, Eq, Structural)]
pub enum VadDecision {
    Send,
    Drop,
}

/// A frame with more crossings than `zcr_noise_max` and energy below the
/// absolute opening threshold `rms_open` is noise, whether or not speech is
/// in progress.
pub proof fn law_quiet_hiss_is_noise(s: Seq<i16>, cfg: VadConfig, currently_speaking: bool)
    requires
        crossings(s) > cfg.zcr_noise_max,
        rms(s) < cfg.rms_open,
    ensures
        !classify_spec(s, cfg, currently_speaking),
        !classify_spec(s, cfg, true),
        !classify_spec(s, cfg, false),
{
}

/// With the closing threshold no higher than the opening one, staying in
/// speech is never harder than entering it, and an accepted frame always
/// reaches the threshold of its state.
pub proof fn law_classify_monotone(s: Seq<i16>, cfg: VadConfig, currently_speaking: bool)
    requires
        cfg.rms_close <= cfg.rms_open,
    ensures
        classify_spec(s, cfg, false) ==> classify_spec(s, cfg, true),
        classify_spec(s, cfg, currently_speaking) ==> rms(s) >= if currently_speaking {
            cfg.rms_close
        } else {
            cfg.rms_open
        },
{
}

/// Stateful detector: attack debounce, hangover tail and an adaptive noise floor.
#[derive(Debug)]
pub struct Vad {
    cfg: VadConfig,
    speaking: bool,
    attack_count: u16,
    hangover_count: u16,
    /// Adaptive ambient noise floor (slow EMA, updated only outside speech).
    noise_floor: u32,
}

/// Mathematical state of a detector.
pub struct VadView {
    pub cfg: VadConfig,
    pub speaking: bool,
    pub attack_count: u16,
    pub hangover_count: u16,
    pub noise_floor: u32,
}

impl View for Vad {
    type V = VadView;

    closed spec fn view(&self) -> VadView {
        VadView {
            cfg: self.cfg,
            speaking: self.speaking,
            attack_count: self.attack_count,
            hangover_count: self.hangover_count,
            noise_floor: self.noise_floor,
        }
    }
}

/// What every reachable detector state satisfies: outside speech the attack
/// counter is either zero or still below the attack length.
pub open spec fn vad_wf(v: VadView) -> bool {
    !v.speaking ==> (v.attack_count == 0 || v.attack_count < v.cfg.attack_frames)
}

/// `a * b`, saturated at `u32::MAX`.
pub open spec fn saturating_mul_u32(a: u32, b: u32) -> u32 {
    if a * b > u32::MAX {
        u32::MAX
    } else {
        (a * b) as u32
    }
}

/// Opening threshold in effect: the larger of the absolute floor and the noise
/// floor times the margin.
pub open spec fn dynamic_open_spec(v: VadView) -> u32 {
    let scaled = (saturating_mul_u32(v.noise_floor, v.cfg.noise_margin_pct) / 100) as u32;
    if v.cfg.rms_open >= scaled {
        v.cfg.rms_open
    } else {
        scaled
    }
}

/// One detector step on a frame with energy `r` and crossing count `z`:
/// the next state and the decision for the frame.
pub open spec fn vad_step(v: VadView, r: u32, z: u16) -> (VadView, VadDecision) {
    let open = dynamic_open_spec(v);
    let threshold = if v.speaking {
        v.cfg.rms_close
    } else {
        open
    };
    let noise_like = z > v.cfg.zcr_noise_max && r < saturating_mul_u32(open, 2);
    let voiced = r >= threshold && !noise_like;
    let floor = if v.speaking {
        v.noise_floor
    } else if r < v.noise_floor {
        r
    } else {
        (v.noise_floor + (r - v.noise_floor) / 64) as u32
    };
    if !v.speaking {
        if voiced {
            let attack = (v.attack_count + 1) as u16;
            if attack >= v.cfg.attack_frames {
                (
                    VadView {
                        speaking: true,
                        attack_count: attack,
                        hangover_count: v.cfg.hangover_frames,
                        noise_floor: floor,
                        ..v
                    },
                    VadDecision::Send,
                )
            } else {
                (VadView { attack_count: attack, noise_floor: floor, ..v }, VadDecision::Drop)
            }
        } else {
            (VadView { attack_count: 0, noise_floor: floor, ..v }, VadDecision::Drop)
        }
    } else if voiced {
        (VadView { hangover_count: v.cfg.hangover_frames, ..v }, VadDecision::Send)
    } else if v.hangover_count > 0 {
        (VadView { hangover_count: (v.hangover_count - 1) as u16, ..v }, VadDecision::Send)
    } else {
        (VadView { speaking: false, attack_count: 0, ..v }, VadDecision::Drop)
    }
}

fn saturating_mul_exec(a: u32, b: u32) -> (r: u32)
    ensures
        r == saturating_mul_u32(a, b),
{
    assert((a as u64) * (b as u64) <= 0xffff_ffff * 0xffff_ffff) by (nonlinear_arith)
        requires
            a <= 0xffff_ffff,
            b <= 0xffff_ffff,
    ;
    let p = (a as u64) * (b as u64);
    if p > u32::MAX as u64 {
        u32::MAX
    } else {
        p as u32
    }
}

impl Clone for Vad {
    fn clone(&self) -> (r: Self)
        ensures
            r@ == self@,
    {
        proof {
            use_type_invariant(self);
        }
        Vad {
            cfg: self.cfg,
            speaking: self.speaking,
            attack_count: self.attack_count,
            hangover_count: self.hangover_count,
            noise_floor: self.noise_floor,
        }
    }
}

impl Vad {
    #[verifier::type_invariant]
    spec fn inv(self) -> bool {
        vad_wf(self@)
    }

    pub fn new(cfg: VadConfig) -> (r: Self)
        ensures
            r@ == (VadView {
                cfg,
                speaking: false,
                attack_count: 0,
                hangover_count: 0,
                noise_floor: 0,
            }),
    {
        Self { cfg, speaking: false, attack_count: 0, hangover_count: 0, noise_floor: 0 }
    }

    pub fn is_speaking(&self) -> (r: bool)
        ensures
            r == self@.speaking,
    {
        self.speaking
    }

    /// Current estimate of the ambient noise floor (for diagnostics).
    pub fn noise_floor(&self) -> (r: u32)
        ensures
            r == self@.noise_floor,
    {
        self.noise_floor
    }

    /// Opening threshold in effect (the larger of the absolute floor and noise floor x margin).
    pub fn dynamic_open(&self) -> (r: u32)
        ensures
            r == dynamic_open_spec(self@),
    {
        let scaled = saturating_mul_exec(self.noise_floor, self.cfg.noise_margin_pct) / 100;
        if self.cfg.rms_open >= scaled {
            self.cfg.rms_open
        } else {
            scaled
        }
    }

    /// Feeds one frame and decides whether it is sent upstream.
    pub fn observe(&mut self, samples: &[i16]) -> (d: VadDecision)
        requires
            crossings(samples@) <= u16::MAX,
        ensures
            vad_wf(final(self)@),
            (final(self)@, d) == vad_step(
                old(self)@,
                rms(samples@) as u32,
                crossings(samples@) as u16,
            ),
            final(self)@.cfg == old(self)@.cfg,
            (d == VadDecision::Send) == final(self)@.speaking,
            old(self)@.speaking ==> final(self)@.noise_floor == old(self)@.noise_floor,
            !old(self)@.speaking ==> final(self)@.noise_floor == if rms(samples@) < old(self)@.noise_floor {
                rms(samples@) as int
            } else {
                old(self)@.noise_floor + (rms(samples@) - old(self)@.noise_floor) / 64
            },
            !old(self)@.speaking && old(self)@.attack_count + 1 < old(self)@.cfg.attack_frames ==> d
                == VadDecision::Drop && !final(self)@.speaking && final(self)@.attack_count
                <= old(self)@.attack_count + 1,
    {
        proof {
            use_type_invariant(&*self);
        }
        let rms = frame_energy_rms(samples);
        let zcr = zero_crossing_rate(samples);
        let open = self.dynamic_open();
        let threshold = if self.speaking {
            self.cfg.rms_close
        } else {
            open
        };
        // High crossing rate without enough energy is noise; loud real speech still passes.
        let noise_like = zcr > self.cfg.zcr_noise_max && rms < saturating_mul_exec(open, 2);
        let voiced = rms >= threshold && !noise_like;

        // Track the ambient floor outside speech only: drop at once to a quieter
        // frame, rise slowly towards louder ones; frozen during speech.
        let floor = if self.speaking {
            self.noise_floor
        } else if rms < self.noise_floor {
            rms
        } else {
            self.noise_floor + (rms - self.noise_floor) / 64
        };
        let cfg = self.cfg;
        if !self.speaking {
            if voiced {
                let attack = self.attack_count + 1;
                if attack >= cfg.attack_frames {
                    *self = Vad {
                        cfg,
                        speaking: true,
                        attack_count: attack,
                        hangover_count: cfg.hangover_frames,
                        noise_floor: floor,
                    };
                    VadDecision::Send
                } else {
                    *self = Vad {
                        cfg,
                        speaking: false,
                        attack_count: attack,
                        hangover_count: self.hangover_count,
                        noise_floor: floor,
                    };
                    VadDecision::Drop
                }
            } else {
                *self = Vad {
                    cfg,
                    speaking: false,
                    attack_count: 0,
                    hangover_count: self.hangover_count,
                    noise_floor: floor,
                };
                VadDecision::Drop
            }
        } else if voiced {
            *self = Vad {
                cfg,
                speaking: true,
                attack_count: self.attack_count,
                hangover_count: cfg.hangover_frames,
                noise_floor: floor,
            };
            VadDecision::Send
        } else if self.hangover_count > 0 {
            *self = Vad {
                cfg,
                speaking: true,
                attack_count: self.attack_count,
                hangover_count: self.hangover_count - 1,
                noise_floor: floor,
            };
            VadDecision::Send
        } else {
            *self = Vad {
                cfg,
                speaking: false,
                attack_count: 0,
                hangover_count: self.hangover_count,
                noise_floor: floor,
            };
            VadDecision::Drop
        }
    }
}

/// The detector run over a sequence of frames, each given by its energy and
/// crossing count: the final state and the decision for every frame.
pub open spec fn vad_run(v: VadView, frames: Seq<(u32, u16)>) -> (VadView, Seq<VadDecision>)
    decreases frames.len(),
{
    if frames.len() == 0 {
        (v, Seq::empty())
    } else {
        let (w, d) = vad_step(v, frames[0].0, frames[0].1);
        let (u, ds) = vad_run(w, frames.drop_first());
        (u, seq![d] + ds)
    }
}

/// A frame is sent exactly when the detector is in speech after it.
pub proof fn law_send_iff_speaking(v: VadView, r: u32, z: u16)
    ensures
        (vad_step(v, r, z).1 == VadDecision::Send) == vad_step(v, r, z).0.speaking,
{
}

/// Every step keeps the detector well formed, and never changes its configuration.
pub proof fn law_step_keeps_wf(v: VadView, r: u32, z: u16)
    requires
        vad_wf(v),
    ensures
        vad_wf(vad_step(v, r, z).0),
        vad_step(v, r, z).0.cfg == v.cfg,
{
}

/// Outside speech, a frame quieter than the absolute opening floor is dropped
/// and does not start speech, however the noise floor has moved: ambient noise
/// below `rms_open` never opens the detector.
pub proof fn law_quiet_frame_never_opens(v: VadView, r: u32, z: u16)
    requires
        !v.speaking,
        r < v.cfg.rms_open,
    ensures
        vad_step(v, r, z).1 == VadDecision::Drop,
        !vad_step(v, r, z).0.speaking,
{
}

/// Amplitude hysteresis: in speech, a frame at or above the closing threshold
/// (below the opening one) with a speech-like crossing count is sent, keeps
/// speech going and restarts the hangover.
pub proof fn law_speech_holds_above_close(v: VadView, r: u32, z: u16)
    requires
        v.speaking,
        r >= v.cfg.rms_close,
        z <= v.cfg.zcr_noise_max,
    ensures
        vad_step(v, r, z).1 == VadDecision::Send,
        vad_step(v, r, z).0 == (VadView { hangover_count: v.cfg.hangover_frames, ..v }),
{
}

/// Hiss never opens the detector: outside speech, a frame with more crossings
/// than `zcr_noise_max` and energy below twice the opening threshold in effect
/// (saturated at `u32::MAX`) is dropped, speech does not start, and the attack
/// count starts over.
pub proof fn law_hiss_never_opens(v: VadView, r: u32, z: u16)
    requires
        !v.speaking,
        z > v.cfg.zcr_noise_max,
        r < if 2 * dynamic_open_spec(v) > u32::MAX {
            u32::MAX as int
        } else {
            2 * dynamic_open_spec(v)
        },
    ensures
        vad_step(v, r, z).1 == VadDecision::Drop,
        !vad_step(v, r, z).0.speaking,
        vad_step(v, r, z).0.attack_count == 0,
{
}

/// In speech, such a hiss frame does not count as voice: the hangover is not
/// renewed, it only runs down.
pub proof fn law_hiss_does_not_renew_hangover(v: VadView, r: u32, z: u16)
    requires
        v.speaking,
        z > v.cfg.zcr_noise_max,
        r < if 2 * dynamic_open_spec(v) > u32::MAX {
            u32::MAX as int
        } else {
            2 * dynamic_open_spec(v)
        },
    ensures
        v.hangover_count > 0 ==> vad_step(v, r, z).0.hangover_count == v.hangover_count - 1,
        v.hangover_count == 0 ==> !vad_step(v, r, z).0.speaking && vad_step(v, r, z).1 == VadDecision::Drop,
{
}

/// During speech the noise floor is frozen.
pub proof fn law_noise_floor_frozen_in_speech(v: VadView, r: u32, z: u16)
    requires
        v.speaking,
    ensures
        vad_step(v, r, z).0.noise_floor == v.noise_floor,
{
}

/// In speech, a frame below the closing threshold is still sent while the
/// hangover lasts, which counts down by one; once it has run out, the frame is
/// dropped and speech ends.
pub proof fn law_hangover_step(v: VadView, r: u32, z: u16)
    requires
        v.speaking,
        r < v.cfg.rms_close,
    ensures
        v.hangover_count > 0 ==> vad_step(v, r, z).1 == VadDecision::Send && vad_step(v, r, z).0
            == (VadView { hangover_count: (v.hangover_count - 1) as u16, ..v }),
        v.hangover_count == 0 ==> vad_step(v, r, z).1 == VadDecision::Drop && !vad_step(
            v,
            r,
            z,
        ).0.speaking,
{
}

/// Attack debounce: outside speech, a burst shorter than what remains of the
/// attack length never opens the detector, whatever the frames hold; every
/// frame of it is dropped.
pub proof fn law_attack_debounce(v: VadView, frames: Seq<(u32, u16)>)
    requires
        !v.speaking,
        v.attack_count + frames.len() < v.cfg.attack_frames,
    ensures
        !vad_run(v, frames).0.speaking,
        vad_run(v, frames).1.len() == frames.len(),
        forall|i: int| 0 <= i < frames.len() ==> #[trigger] vad_run(v, frames).1[i] == VadDecision::Drop,
    decreases frames.len(),
{
    if frames.len() > 0 {
        let (w, d) = vad_step(v, frames[0].0, frames[0].1);
        assert(!w.speaking && d == VadDecision::Drop);
        assert(w.attack_count <= v.attack_count + 1);
        assert(w.cfg == v.cfg);
        let rest = frames.drop_first();
        law_attack_debounce(w, rest);
        let ds = vad_run(v, frames).1;
        assert(ds == seq![d] + vad_run(w, rest).1);
        assert forall|i: int| 0 <= i < frames.len() implies #[trigger] ds[i] == VadDecision::Drop by {
            if i > 0 {
                assert(ds[i] == vad_run(w, rest).1[i - 1]);
            }
        }
    }
}

/// After speech stops (every frame below the closing threshold), the detector
/// keeps sending exactly `hangover_count` tail frames, then drops the next one
/// and leaves speech.
pub proof fn law_hangover_tail(v: VadView, frames: Seq<(u32, u16)>)
    requires
        v.speaking,
        frames.len() == v.hangover_count + 1,
        forall|i: int| 0 <= i < frames.len() ==> (#[trigger] frames[i]).0 < v.cfg.rms_close,
    ensures
        !vad_run(v, frames).0.speaking,
        vad_run(v, frames).1.len() == frames.len(),
        forall|i: int|
            0 <= i < v.hangover_count ==> #[trigger] vad_run(v, frames).1[i] == VadDecision::Send,
        vad_run(v, frames).1[v.hangover_count as int] == VadDecision::Drop,
    decreases frames.len(),
{
    law_hangover_step(v, frames[0].0, frames[0].1);
    if v.hangover_count == 0 {
        let w = vad_step(v, frames[0].0, frames[0].1).0;
        assert(frames.drop_first().len() == 0);
        assert(vad_run(w, frames.drop_first()) == (w, Seq::<VadDecision>::empty()));
        assert(vad_run(v, frames).1 =~= seq![VadDecision::Drop]);
    } else {
        let w = vad_step(v, frames[0].0, frames[0].1).0;
        let rest = frames.drop_first();
        assert forall|i: int| 0 <= i < rest.len() implies (#[trigger] rest[i]).0 < w.cfg.rms_close by {
            assert(rest[i] == frames[i + 1]);
        }
        law_hangover_tail(w, rest);
        let ds = vad_run(v, frames).1;
        assert(ds == seq![VadDecision::Send] + vad_run(w, rest).1);
        assert forall|i: int| 0 <= i < v.hangover_count implies #[trigger] ds[i] == VadDecision::Send by {
            if i > 0 {
                assert(ds[i] == vad_run(w, rest).1[i - 1]);
            }
        }
        assert(ds[v.hangover_count as int] == vad_run(w, rest).1[w.hangover_count as int]);
    }
}

/// Frame counters for measuring how much the detector saves.
#[derive(Debug, Clone, Copy)]
pub struct VadStats {
    pub frames_total: u64,
    pub frames_sent: u64,
    pub frames_dropped: u64,
}

impl Default for VadStats {
    fn default() -> (r: Self)
        ensures
            r.frames_total == 0,
            r.frames_sent == 0,
            r.frames_dropped == 0,
    {
        VadStats { frames_total: 0, frames_sent: 0, frames_dropped: 0 }
    }
}

impl VadStats {
    pub fn record(&mut self, decision: VadDecision)
        requires
            old(self).frames_total < u64::MAX,
            decision == VadDecision::Send ==> old(self).frames_sent < u64::MAX,
            decision == VadDecision::Drop ==> old(self).frames_dropped < u64::MAX,
        ensures
            final(self).frames_total == old(self).frames_total + 1,
            final(self).frames_sent == old(self).frames_sent + if decision == VadDecision::Send {
                1int
            } else {
                0int
            },
            final(self).frames_dropped == old(self).frames_dropped + if decision
                == VadDecision::Drop {
                1int
            } else {
                0int
            },
    {
        self.frames_total += 1;
        match decision {
            VadDecision::Send => self.frames_sent += 1,
            VadDecision::Drop => self.frames_dropped += 1,
        }
    }
}

} // verus!

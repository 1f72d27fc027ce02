//! Playback scheduling against a clock: where playback should be, in
//! frames, and the conversions between the local and controller clock
//! domains.

use crate::wire::as_i64_int;
use vstd::prelude::*;

verus! {

/// Tracks where playback should be, in frames, relative to a start instant
/// (the instant frame 0 is due at the DAC). `now_ns` given to
/// `drift_frames` must be in the same clock domain as `start_ns`.
#[derive(Debug, Clone, Copy)]
pub struct PtsTracker {
    start_ns: u64,
    sample_rate: u32,
}

/// Frames that should have played `now_ns` after `start_ns` (none before the start).
pub open spec fn spec_expected_frames(start_ns: u64, sample_rate: u32, now_ns: u64) -> nat {
    let elapsed: nat = if now_ns >= start_ns {
        (now_ns - start_ns) as nat
    } else {
        0
    };
    (elapsed * (sample_rate as nat)) / 1_000_000_000
}

/// The low 64 bits of `x` read as a two's-complement `i64`.
pub open spec fn wrap_i64(x: nat) -> int {
    as_i64_int((x % 0x1_0000_0000_0000_0000) as u64)
}

/// Playback error in frames: zero before the start instant, otherwise
/// expected minus played, each as `i64`.
pub open spec fn spec_drift(start_ns: u64, sample_rate: u32, now_ns: u64, frames_played: u64) -> int {
    if now_ns < start_ns {
        0
    } else {
        wrap_i64(spec_expected_frames(start_ns, sample_rate, now_ns)) - as_i64_int(frames_played)
    }
}

proof fn lemma_u128_as_i64(x: u128)
    ensures
        (x as i64) as int == wrap_i64(x as nat),
{
    let lo = x as u64;
    assert(lo as u128 == x % 0x1_0000_0000_0000_0000u128) by (bit_vector)
        requires
            lo == x as u64,
    ;
    assert((x as i64) == (lo as i64)) by (bit_vector)
        requires
            lo == x as u64,
    ;
    if lo > 0x7fff_ffff_ffff_ffff {
        assert((lo as i64) as int == lo - 0x1_0000_0000_0000_0000) by (bit_vector)
            requires
                lo > 0x7fff_ffff_ffff_ffff,
        ;
    }
}

proof fn lemma_u64_as_i64(t: u64)
    ensures
        (t as i64) as int == as_i64_int(t),
{
    if t > 0x7fff_ffff_ffff_ffff {
        assert((t as i64) as int == t - 0x1_0000_0000_0000_0000) by (bit_vector)
            requires
                t > 0x7fff_ffff_ffff_ffff,
        ;
    }
}

impl PtsTracker {
    pub fn new(start_ns: u64, sample_rate: u32) -> (t: Self)
        ensures
            t.spec_start_ns() == start_ns,
            t.spec_sample_rate() == sample_rate,
    {
        Self { start_ns, sample_rate }
    }

    pub fn start_ns(&self) -> (s: u64)
        ensures
            s == self.spec_start_ns(),
    {
        self.start_ns
    }

    pub closed spec fn spec_start_ns(&self) -> u64 {
        self.start_ns
    }

    pub closed spec fn spec_sample_rate(&self) -> u32 {
        self.sample_rate
    }

    /// Playback error in frames at `now_ns`. Positive: playback is behind
    /// schedule (frames must be skipped); negative: ahead (frames must be
    /// duplicated). Zero before the start instant.
    pub fn drift_frames(&self, now_ns: u64, frames_played: u64) -> (d: i64)
        requires
            i64::MIN <= spec_drift(self.spec_start_ns(), self.spec_sample_rate(), now_ns, frames_played)
                <= i64::MAX,
        ensures
            d == spec_drift(self.spec_start_ns(), self.spec_sample_rate(), now_ns, frames_played),
    {
        if now_ns < self.start_ns {
            return 0;
        }
        let elapsed_ns = now_ns.saturating_sub(self.start_ns) as u128;
        let rate = self.sample_rate as u128;
        proof {
            assert(elapsed_ns * rate <= 0xffff_ffff_ffff_ffffu128 * 0xffff_ffffu128)
                by (nonlinear_arith)
                requires
                    elapsed_ns <= 0xffff_ffff_ffff_ffffu128,
                    rate <= 0xffff_ffffu128,
            ;
        }
        let expected = (elapsed_ns * rate) / 1_000_000_000;
        proof {
            lemma_u128_as_i64(expected);
            lemma_u64_as_i64(frames_played);
        }
        expected as i64 - frames_played as i64
    }
}

/// On schedule: when exactly the expected number of frames has played (and
/// that number fits in an `i64`), the drift is zero.
pub proof fn lemma_drift_zero_on_schedule(t: PtsTracker, now_ns: u64)
    requires
        spec_expected_frames(t.spec_start_ns(), t.spec_sample_rate(), now_ns) <= i64::MAX,
    ensures
        spec_drift(
            t.spec_start_ns(),
            t.spec_sample_rate(),
            now_ns,
            spec_expected_frames(t.spec_start_ns(), t.spec_sample_rate(), now_ns) as u64,
        ) == 0,
{
}

/// Before the start instant there is no drift, whatever has played.
pub proof fn lemma_drift_before_start(t: PtsTracker, now_ns: u64, frames_played: u64)
    requires
        now_ns < t.spec_start_ns(),
    ensures
        spec_drift(t.spec_start_ns(), t.spec_sample_rate(), now_ns, frames_played) == 0,
{
}

/// `i64` saturation of an integer.
pub open spec fn saturate_i64(x: int) -> int {
    if x > i64::MAX {
        i64::MAX as int
    } else if x < i64::MIN {
        i64::MIN as int
    } else {
        x
    }
}

/// Local timestamp → controller domain with a saturating, non-negative result.
pub open spec fn spec_to_controller(local_ns: u64, offset_ns: i64) -> int {
    let v = saturate_i64(as_i64_int(local_ns) + offset_ns);
    if v < 0 {
        0
    } else {
        v
    }
}

/// Controller timestamp → local domain with a saturating, non-negative result.
pub open spec fn spec_to_local(controller_ns: u64, offset_ns: i64) -> int {
    let v = saturate_i64(as_i64_int(controller_ns) - offset_ns);
    if v < 0 {
        0
    } else {
        v
    }
}

/// `i64::saturating_add`.
pub fn saturating_add_i64(a: i64, b: i64) -> (r: i64)
    ensures
        r == saturate_i64(a + b),
{
    let s = a as i128 + b as i128;
    if s > i64::MAX as i128 {
        i64::MAX
    } else if s < i64::MIN as i128 {
        i64::MIN
    } else {
        s as i64
    }
}

/// `i64::saturating_sub`.
pub fn saturating_sub_i64(a: i64, b: i64) -> (r: i64)
    ensures
        r == saturate_i64(a - b),
{
    let s = a as i128 - b as i128;
    if s > i64::MAX as i128 {
        i64::MAX
    } else if s < i64::MIN as i128 {
        i64::MIN
    } else {
        s as i64
    }
}

/// Converts a local timestamp to the controller clock domain, given the
/// offset (controller − local). The result saturates and never goes below 0.
pub fn local_to_controller(local_ns: u64, offset_ns: i64) -> (c: u64)
    ensures
        c == spec_to_controller(local_ns, offset_ns),
{
    proof {
        lemma_u64_as_i64(local_ns);
    }
    let v = saturating_add_i64(local_ns as i64, offset_ns);
    let v = if v < 0 {
        0
    } else {
        v
    };
    v as u64
}

/// Converts a controller timestamp to the local clock domain, given the
/// offset (controller − local). The result saturates and never goes below 0.
pub fn controller_to_local(controller_ns: u64, offset_ns: i64) -> (l: u64)
    ensures
        l == spec_to_local(controller_ns, offset_ns),
{
    proof {
        lemma_u64_as_i64(controller_ns);
    }
    let v = saturating_sub_i64(controller_ns as i64, offset_ns);
    let v = if v < 0 {
        0
    } else {
        v
    };
    v as u64
}

/// The two conversions undo each other on timestamps whose image stays in
/// the non-negative `i64` range.
pub proof fn lemma_domain_roundtrip(t: u64, offset_ns: i64)
    requires
        t <= i64::MAX,
        0 <= t - offset_ns <= i64::MAX,
        0 <= t + offset_ns <= i64::MAX,
    ensures
        spec_to_controller(spec_to_local(t, offset_ns) as u64, offset_ns) == t,
        spec_to_local(spec_to_controller(t, offset_ns) as u64, offset_ns) == t,
{
}

/// Controller-clock timestamp to local clock without saturation: the
/// timestamp read as `i64` minus the offset, read back as `u64`.
pub fn exact_controller_to_local(controller_ns: u64, offset_ns: i64) -> (l: u64)
    requires
        i64::MIN <= as_i64_int(controller_ns) - offset_ns <= i64::MAX,
    ensures
        l as int == (as_i64_int(controller_ns) - offset_ns) % 0x1_0000_0000_0000_0000,
{
    proof {
        lemma_u64_as_i64(controller_ns);
    }
    let v = controller_ns as i64 - offset_ns;
    proof {
        lemma_i64_as_u64(v);
    }
    v as u64
}

/// Local timestamp to controller clock without saturation.
pub fn exact_local_to_controller(local_ns: u64, offset_ns: i64) -> (c: u64)
    requires
        i64::MIN <= as_i64_int(local_ns) + offset_ns <= i64::MAX,
    ensures
        c as int == (as_i64_int(local_ns) + offset_ns) % 0x1_0000_0000_0000_0000,
{
    proof {
        lemma_u64_as_i64(local_ns);
    }
    let v = local_ns as i64 + offset_ns;
    proof {
        lemma_i64_as_u64(v);
    }
    v as u64
}

proof fn lemma_i64_as_u64(v: i64)
    ensures
        (v as u64) as int == (v as int) % 0x1_0000_0000_0000_0000,
{
    if v < 0 {
        assert((v as u64) as int == v + 0x1_0000_0000_0000_0000) by (bit_vector)
            requires
                v < 0,
        ;
    }
}

} // verus!

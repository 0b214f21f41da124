use vstd::prelude::*;

verus! {

/// Full volume in thousandths of a percent: every volume in this library is
/// kept on that scale, so `FULL_VOLUME` is 100 % and `VOLUME_EPSILON` 0.01 %.
pub const FULL_VOLUME: u32 = 100_000;

/// The audio server's native volume that stands for 100 %.
pub const PA_VOLUME_NORM: u32 = 98304;

/// Two volumes that differ by no more than this count as the same.
pub const VOLUME_EPSILON: u32 = 10;

pub open spec fn sum_volumes(v: Seq<u32>) -> int
    decreases v.len(),
{
    if v.len() == 0 {
        0
    } else {
        sum_volumes(v.drop_last()) + v.last() as int
    }
}

/// The average of the channel volumes as thousandths of a percent of the
/// norm, rounded down and capped at full volume; no channel at all is silence.
pub open spec fn percentage_of(v: Seq<u32>) -> int {
    if v.len() == 0 {
        0
    } else {
        let p = sum_volumes(v) * FULL_VOLUME / (v.len() * PA_VOLUME_NORM);
        if p > FULL_VOLUME {
            FULL_VOLUME as int
        } else {
            p
        }
    }
}

pub open spec fn volumes_differ(a: u32, b: u32) -> bool {
    if a >= b {
        a - b > VOLUME_EPSILON
    } else {
        b - a > VOLUME_EPSILON
    }
}

pub proof fn lemma_sum_bound(v: Seq<u32>)
    ensures
        0 <= sum_volumes(v) <= v.len() * (u32::MAX as int),
    decreases v.len(),
{
    if v.len() > 0 {
        lemma_sum_bound(v.drop_last());
    }
}

/// A volume computed from channel volumes lies between silence and full volume.
pub proof fn lemma_percentage_in_range(v: Seq<u32>)
    ensures
        0 <= percentage_of(v) <= FULL_VOLUME,
{
    lemma_sum_bound(v);
    if v.len() > 0 {
        assert(sum_volumes(v) * FULL_VOLUME >= 0) by (nonlinear_arith)
            requires sum_volumes(v) >= 0;
        assert(v.len() * PA_VOLUME_NORM > 0) by (nonlinear_arith)
            requires v.len() > 0;
    }
}

/// The displayed volume of a stream or device from its per-channel volumes.
pub fn get_pulse_app_volume_percentage(channel_volumes: &Vec<u32>) -> (r: u32)
    ensures
        r == percentage_of(channel_volumes@),
        r <= FULL_VOLUME,
{
    let n = channel_volumes.len();
    if n == 0 {
        return 0;
    }
    let mut total: u128 = 0;
    let mut i: usize = 0;
    while i < n
        invariant
            n == channel_volumes@.len(),
            i <= n,
            total == sum_volumes(channel_volumes@.take(i as int)),
            total <= i * (u32::MAX as int),
        decreases n - i,
    {
        proof {
            assert(channel_volumes@.take(i + 1).drop_last() =~= channel_volumes@.take(i as int));
        }
        total = total + channel_volumes[i] as u128;
        i = i + 1;
    }
    proof {
        assert(channel_volumes@.take(n as int) =~= channel_volumes@);
        assert(total * 100_000 <= (n as int) * (u32::MAX as int) * 100_000) by (nonlinear_arith)
            requires total <= n * (u32::MAX as int);
        assert((n as int) * (u32::MAX as int) * 100_000 < u128::MAX) by (nonlinear_arith)
            requires n <= usize::MAX;
        assert((n as int) * 98304 >= 98304) by (nonlinear_arith)
            requires n >= 1;
        assert((n as int) * 98304 < u128::MAX) by (nonlinear_arith)
            requires n <= usize::MAX;
    }
    let denom: u128 = (n as u128) * (PA_VOLUME_NORM as u128);
    let p: u128 = total * (FULL_VOLUME as u128) / denom;
    if p > FULL_VOLUME as u128 {
        FULL_VOLUME
    } else {
        p as u32
    }
}

/// Whether a change from `shown` to `current` is large enough to show.
pub fn volume_differs(shown: u32, current: u32) -> (r: bool)
    ensures
        r == volumes_differ(shown, current),
{
    if shown >= current {
        shown - current > VOLUME_EPSILON
    } else {
        current - shown > VOLUME_EPSILON
    }
}

} // verus!

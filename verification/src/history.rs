//! Per-entity rolling time series: positions (`Trajectory`) and scores
//! (`ScoreHistory`), with derived-velocity and score-trend queries.

use vstd::prelude::*;
use vstd::arithmetic::div_mod::*;
use crate::geom::{
    abs_i, lemma_mul_bound, rate, velocity_between, Point, Vector, MAX_INTERVAL_MS, MAX_RATE,
};

verus! {

/// Trailing window used to extrapolate future scores, in milliseconds.
pub const SCORE_LOOKBACK_MS: u64 = 10_000;

/// An entity's ordered, append-only sequence of `(position, timestamp)`
/// samples, oldest first, timestamps in milliseconds and strictly
/// increasing.
#[derive(Debug)]
pub struct Trajectory {
    pub positions: Vec<(Point, u64)>,
}

/// The x component of the derived velocity: displacement between the two
/// most recent samples over the elapsed time; zero with fewer than two
/// samples.
pub open spec fn last_vel_x(s: Seq<(Point, u64)>) -> int {
    if s.len() < 2 {
        0
    } else {
        rate(s.last().0.x - s[s.len() - 2].0.x, s.last().1 - s[s.len() - 2].1)
    }
}

pub open spec fn last_vel_y(s: Seq<(Point, u64)>) -> int {
    if s.len() < 2 {
        0
    } else {
        rate(s.last().0.y - s[s.len() - 2].0.y, s.last().1 - s[s.len() - 2].1)
    }
}

/// Sum of the absolute x velocities of the first `n` steps of the series
/// (step `k` joins sample `k - 1` to sample `k`).
pub open spec fn sum_abs_vx(s: Seq<(Point, u64)>, n: int) -> int
    decreases n,
{
    if n <= 0 {
        0
    } else {
        sum_abs_vx(s, n - 1) + abs_i(rate(s[n].0.x - s[n - 1].0.x, s[n].1 - s[n - 1].1))
    }
}

pub open spec fn sum_abs_vy(s: Seq<(Point, u64)>, n: int) -> int
    decreases n,
{
    if n <= 0 {
        0
    } else {
        sum_abs_vy(s, n - 1) + abs_i(rate(s[n].0.y - s[n - 1].0.y, s[n].1 - s[n - 1].1))
    }
}

/// Mean of the per-step absolute x velocities; zero with fewer than two
/// samples.
pub open spec fn ave_abs_vx(s: Seq<(Point, u64)>) -> int {
    if s.len() < 2 {
        0
    } else {
        sum_abs_vx(s, s.len() - 1) / (s.len() - 1)
    }
}

pub open spec fn ave_abs_vy(s: Seq<(Point, u64)>) -> int {
    if s.len() < 2 {
        0
    } else {
        sum_abs_vy(s, s.len() - 1) / (s.len() - 1)
    }
}

impl Trajectory {
    /// Samples are bounded positions at strictly increasing times.
    pub open spec fn wf(self) -> bool {
        &&& forall|i: int, j: int|
            0 <= i < j < self.positions@.len() ==> #[trigger] self.positions@[i].1
                < #[trigger] self.positions@[j].1
        &&& forall|i: int| 0 <= i < self.positions@.len() ==> (#[trigger] self.positions@[i]).0.bounded()
    }

    pub fn new() -> (r: Trajectory)
        ensures
            r.positions@.len() == 0,
            r.wf(),
    {
        Trajectory { positions: Vec::new() }
    }

    /// Appends a new sample; time must advance strictly.
    pub fn push(&mut self, position: Point, time: u64)
        requires
            old(self).wf(),
            position.bounded(),
            old(self).positions@.len() > 0 ==> old(self).positions@.last().1 < time,
        ensures
            final(self).positions@ == old(self).positions@.push((position, time)),
            final(self).wf(),
    {
        self.positions.push((position, time));
    }

    /// The most recently recorded position. Requires at least one sample:
    /// querying an empty trajectory is a caller bug, not a silent default.
    pub fn last_position(&self) -> (r: Point)
        requires
            self.positions@.len() > 0,
        ensures
            r == self.positions@.last().0,
    {
        self.positions[self.positions.len() - 1].0
    }

    /// Displacement between the two most recent samples divided by the
    /// elapsed time; the zero vector if only one sample exists.
    pub fn last_velocity(&self) -> (r: Vector)
        requires
            self.wf(),
            self.positions@.len() > 0,
        ensures
            r.dx == last_vel_x(self.positions@),
            r.dy == last_vel_y(self.positions@),
            self.positions@.len() == 1 ==> r == (Vector { dx: 0i64, dy: 0i64 }),
    {
        let n = self.positions.len();
        if n < 2 {
            Vector::zero()
        } else {
            let (prev, pt) = self.positions[n - 2];
            let (last, lt) = self.positions[n - 1];
            velocity_between(prev, last, lt - pt)
        }
    }

    /// The mean of the per-step absolute velocities over the whole retained
    /// history: direction-agnostic overall mobility. The zero vector if
    /// fewer than two samples exist.
    pub fn ave_abs_velocity(&self) -> (r: Vector)
        requires
            self.wf(),
            self.positions@.len() > 0,
        ensures
            r.dx == ave_abs_vx(self.positions@),
            r.dy == ave_abs_vy(self.positions@),
            r.bounded_by(MAX_RATE as int),
            self.positions@.len() == 1 ==> r == (Vector { dx: 0i64, dy: 0i64 }),
    {
        let n = self.positions.len();
        if n < 2 {
            return Vector::zero();
        }
        let mut sum_x: u128 = 0;
        let mut sum_y: u128 = 0;
        let mut k: usize = 1;
        while k < n
            invariant
                1 <= k <= n,
                n == self.positions@.len(),
                2 <= n,
                self.wf(),
                sum_x == sum_abs_vx(self.positions@, k - 1),
                sum_y == sum_abs_vy(self.positions@, k - 1),
                sum_x <= (k - 1) * (MAX_RATE as int),
                sum_y <= (k - 1) * (MAX_RATE as int),
            decreases n - k,
        {
            let (prev, pt) = self.positions[k - 1];
            let (cur, ct) = self.positions[k];
            let v = velocity_between(prev, cur, ct - pt);
            let ax = if v.dx < 0 {
                -v.dx
            } else {
                v.dx
            };
            let ay = if v.dy < 0 {
                -v.dy
            } else {
                v.dy
            };
            proof {
                lemma_mul_bound(k as int, MAX_RATE as int, usize::MAX as int, MAX_RATE as int);
            }
            sum_x = sum_x + (ax as u128);
            sum_y = sum_y + (ay as u128);
            k = k + 1;
        }
        let items = (n - 1) as u128;
        proof {
            lemma_multiply_divide_le(sum_x as int, n as int - 1, MAX_RATE as int);
            lemma_multiply_divide_le(sum_y as int, n as int - 1, MAX_RATE as int);
            lemma_div_pos_is_pos(sum_x as int, n as int - 1);
            lemma_div_pos_is_pos(sum_y as int, n as int - 1);
        }
        Vector { dx: (sum_x / items) as i64, dy: (sum_y / items) as i64 }
    }
}

impl Trajectory {
    /// An element-wise copy with an exact contract.
    pub fn copied(&self) -> (r: Trajectory)
        ensures
            r.positions@ == self.positions@,
    {
        let mut v: Vec<(Point, u64)> = Vec::new();
        let mut i: usize = 0;
        while i < self.positions.len()
            invariant
                0 <= i <= self.positions@.len(),
                v@ == self.positions@.subrange(0, i as int),
            decreases self.positions@.len() - i,
        {
            v.push(self.positions[i]);
            proof {
                assert(v@ =~= self.positions@.subrange(0, i + 1));
            }
            i = i + 1;
        }
        proof {
            assert(v@ =~= self.positions@);
        }
        Trajectory { positions: v }
    }
}

impl Default for Trajectory {
    fn default() -> (r: Trajectory)
        ensures
            r.positions@.len() == 0,
            r.wf(),
    {
        Trajectory::new()
    }
}

/// An entity's ordered sequence of `(score, timestamp)` samples, oldest
/// first. Scores need not be monotone: resets from respawn are legal.
#[derive(Debug)]
pub struct ScoreHistory {
    pub inner: Vec<(u32, u64)>,
}

/// The most recent score recorded at or before `t`; 0 if no such sample
/// exists (the entity had no score yet).
pub open spec fn score_at_or_before(s: Seq<(u32, u64)>, t: int) -> int
    decreases s.len(),
{
    if s.len() == 0 {
        0
    } else if s.last().1 <= t {
        s.last().0 as int
    } else {
        score_at_or_before(s.drop_last(), t)
    }
}

/// Score earned since `t`: the current score minus the most recent score
/// at or before `t`, clamped at zero if the history decreased.
pub open spec fn spec_score_since(s: Seq<(u32, u64)>, t: int) -> int {
    let start = score_at_or_before(s, t);
    if s.last().0 >= start {
        s.last().0 - start
    } else {
        0
    }
}

/// Projected score after `after` milliseconds: the current score plus the
/// score earned over the trailing look-back window, scaled linearly and
/// saturated to `u32`.
pub open spec fn spec_project(s: Seq<(u32, u64)>, after: int) -> int {
    let cutoff = if s.last().1 >= SCORE_LOOKBACK_MS {
        s.last().1 - SCORE_LOOKBACK_MS
    } else {
        0
    };
    let past = spec_score_since(s, cutoff);
    let raw = s.last().0 + past * after / (SCORE_LOOKBACK_MS as int);
    if raw > u32::MAX {
        u32::MAX as int
    } else {
        raw
    }
}

impl ScoreHistory {
    /// Timestamps are strictly increasing.
    pub open spec fn wf(self) -> bool {
        forall|i: int, j: int|
            0 <= i < j < self.inner@.len() ==> #[trigger] self.inner@[i].1
                < #[trigger] self.inner@[j].1
    }

    pub fn new() -> (r: ScoreHistory)
        ensures
            r.inner@.len() == 0,
            r.wf(),
    {
        ScoreHistory { inner: Vec::new() }
    }

    /// Appends a new sample; time must advance strictly.
    pub fn push(&mut self, score: u32, time: u64)
        requires
            old(self).wf(),
            old(self).inner@.len() > 0 ==> old(self).inner@.last().1 < time,
        ensures
            final(self).inner@ == old(self).inner@.push((score, time)),
            final(self).wf(),
    {
        self.inner.push((score, time));
    }

    /// The most recently recorded score. Requires at least one sample.
    pub fn last_score(&self) -> (r: u32)
        requires
            self.inner@.len() > 0,
        ensures
            r == self.inner@.last().0,
    {
        self.inner[self.inner.len() - 1].0
    }

    /// The total score earned since `past_time`.
    pub fn score_since(&self, past_time: u64) -> (r: u32)
        requires
            self.wf(),
            self.inner@.len() > 0,
        ensures
            r == spec_score_since(self.inner@, past_time as int),
    {
        let last = self.inner[self.inner.len() - 1].0;
        let mut i = self.inner.len();
        proof {
            assert(self.inner@.subrange(0, i as int) =~= self.inner@);
        }
        while i > 0
            invariant
                0 <= i <= self.inner@.len(),
                self.wf(),
                self.inner@.len() > 0,
                last == self.inner@.last().0,
                score_at_or_before(self.inner@, past_time as int) == score_at_or_before(
                    self.inner@.subrange(0, i as int),
                    past_time as int,
                ),
                forall|j: int| i <= j < self.inner@.len() ==> #[trigger] self.inner@[j].1 > past_time,
            decreases i,
        {
            let (score, time) = self.inner[i - 1];
            if time <= past_time {
                proof {
                    let sub = self.inner@.subrange(0, i as int);
                    assert(sub.last() == self.inner@[i - 1]);
                    assert(score_at_or_before(sub, past_time as int) == score as int);
                }
                if last >= score {
                    return last - score;
                } else {
                    return 0;
                }
            }
            proof {
                assert(self.inner@.subrange(0, i as int).drop_last() =~= self.inner@.subrange(
                    0,
                    i - 1,
                ));
            }
            i = i - 1;
        }
        proof {
            assert(self.inner@.subrange(0, 0) =~= Seq::<(u32, u64)>::empty());
        }
        last
    }

    /// The projected score `after` milliseconds from the most recent
    /// sample, extrapolating the trailing look-back window linearly.
    pub fn project(&self, after: u64) -> (r: u32)
        requires
            self.wf(),
            self.inner@.len() > 0,
            after <= MAX_INTERVAL_MS,
        ensures
            r == spec_project(self.inner@, after as int),
    {
        let (_, last_time) = self.inner[self.inner.len() - 1];
        let cutoff = if last_time >= SCORE_LOOKBACK_MS {
            last_time - SCORE_LOOKBACK_MS
        } else {
            0
        };
        let past = self.score_since(cutoff);
        let last = self.last_score();
        proof {
            lemma_mul_bound(past as int, after as int, u32::MAX as int, MAX_INTERVAL_MS as int);
            lemma_multiply_divide_le(
                past as int * after as int,
                SCORE_LOOKBACK_MS as int,
                u32::MAX as int,
            );
            lemma_div_pos_is_pos(past as int * after as int, SCORE_LOOKBACK_MS as int);
        }
        let gain = ((past as u64) * after) / SCORE_LOOKBACK_MS;
        let raw = (last as u64) + gain;
        if raw > 0xffff_ffffu64 {
            u32::MAX
        } else {
            raw as u32
        }
    }
}

impl ScoreHistory {
    /// An element-wise copy with an exact contract.
    pub fn copied(&self) -> (r: ScoreHistory)
        ensures
            r.inner@ == self.inner@,
    {
        let mut v: Vec<(u32, u64)> = Vec::new();
        let mut i: usize = 0;
        while i < self.inner.len()
            invariant
                0 <= i <= self.inner@.len(),
                v@ == self.inner@.subrange(0, i as int),
            decreases self.inner@.len() - i,
        {
            v.push(self.inner[i]);
            proof {
                assert(v@ =~= self.inner@.subrange(0, i + 1));
            }
            i = i + 1;
        }
        proof {
            assert(v@ =~= self.inner@);
        }
        ScoreHistory { inner: v }
    }
}

impl Default for ScoreHistory {
    fn default() -> (r: ScoreHistory)
        ensures
            r.inner@.len() == 0,
            r.wf(),
    {
        ScoreHistory::new()
    }
}

} // verus!

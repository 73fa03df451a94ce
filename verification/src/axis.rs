use vstd::prelude::*;

verus! {

/// Shared description of the visible plot window: x-axis (time) bounds,
/// y-axis (value) bounds, and total elapsed time since monitor start.
///
/// The x-window slides but never resizes: `inc_x_axis` moves both bounds by
/// the same amount. The y-bounds act as watermarks: `set_if_y_max` and
/// `set_if_y_min` only ever widen them; only the explicit `set_y_max` /
/// `set_y_min` resets can narrow them.
#[derive(Clone, Copy, Debug, PartialEq, Eq, Structural)]
pub struct Monitor {
    pub x_min: i64,
    pub x_max: i64,
    pub y_min: i64,
    pub y_max: i64,
    pub total_time: i64,
}

impl Monitor {
    pub fn new(x: (i64, i64), y: (i64, i64)) -> (m: Monitor)
        ensures
            m.x_min == x.0,
            m.x_max == x.1,
            m.y_min == y.0,
            m.y_max == y.1,
            m.total_time == 0,
    {
        Monitor { x_min: x.0, x_max: x.1, y_min: y.0, y_max: y.1, total_time: 0 }
    }

    /// Advance total elapsed time by `time`.
    pub fn add_time(&mut self, time: i64)
        requires
            i64::MIN <= old(self).total_time + time <= i64::MAX,
        ensures
            final(self).total_time == old(self).total_time + time,
            final(self).x_min == old(self).x_min,
            final(self).x_max == old(self).x_max,
            final(self).y_min == old(self).y_min,
            final(self).y_max == old(self).y_max,
    {
        self.total_time = self.total_time + time;
    }

    pub fn time(&self) -> (r: i64)
        ensures
            r == self.total_time,
    {
        self.total_time
    }

    /// Slide the x-window forward by `n`. Both bounds move together, so the
    /// window width `x_max - x_min` after the call equals the width before
    /// it — over any sequence of such calls the width never changes.
    pub fn inc_x_axis(&mut self, n: i64)
        requires
            i64::MIN <= old(self).x_min + n <= i64::MAX,
            i64::MIN <= old(self).x_max + n <= i64::MAX,
        ensures
            final(self).x_min == old(self).x_min + n,
            final(self).x_max == old(self).x_max + n,
            final(self).x_max - final(self).x_min == old(self).x_max - old(self).x_min,
            final(self).y_min == old(self).y_min,
            final(self).y_max == old(self).y_max,
            final(self).total_time == old(self).total_time,
    {
        self.x_min = self.x_min + n;
        self.x_max = self.x_max + n;
    }

    /// Explicit reset of the upper y-bound (the one operation allowed to
    /// narrow it).
    pub fn set_y_max(&mut self, y: i64)
        ensures
            *final(self) == (Monitor { y_max: y, ..*old(self) }),
    {
        self.y_max = y;
    }

    /// Explicit reset of the lower y-bound (the one operation allowed to
    /// narrow it).
    pub fn set_y_min(&mut self, y: i64)
        ensures
            *final(self) == (Monitor { y_min: y, ..*old(self) }),
    {
        self.y_min = y;
    }

    /// Raise the upper y-bound to `y` if `y` lies above it; never lowers it,
    /// so over any sequence of such calls `y_max` is non-decreasing.
    pub fn set_if_y_max(&mut self, y: i64)
        ensures
            final(self).y_max == if y > old(self).y_max { y as int } else { old(self).y_max as int },
            final(self).y_max >= old(self).y_max,
            final(self).y_min == old(self).y_min,
            final(self).x_min == old(self).x_min,
            final(self).x_max == old(self).x_max,
            final(self).total_time == old(self).total_time,
    {
        if y > self.max_y() {
            self.set_y_max(y)
        }
    }

    /// Lower the lower y-bound to `y` if `y` lies below it; never raises it,
    /// so over any sequence of such calls `y_min` is non-increasing.
    pub fn set_if_y_min(&mut self, y: i64)
        ensures
            final(self).y_min == if y < old(self).y_min { y as int } else { old(self).y_min as int },
            final(self).y_min <= old(self).y_min,
            final(self).y_max == old(self).y_max,
            final(self).x_min == old(self).x_min,
            final(self).x_max == old(self).x_max,
            final(self).total_time == old(self).total_time,
    {
        if y < self.min_y() {
            self.set_y_min(y)
        }
    }

    pub fn max_y(&self) -> (r: i64)
        ensures
            r == self.y_max,
    {
        self.y_max
    }

    pub fn min_y(&self) -> (r: i64)
        ensures
            r == self.y_min,
    {
        self.y_min
    }

    pub fn max_x(&self) -> (r: i64)
        ensures
            r == self.x_max,
    {
        self.x_max
    }

    pub fn min_x(&self) -> (r: i64)
        ensures
            r == self.x_min,
    {
        self.x_min
    }

    /// Tick positions for the y-axis: the y-range split into `count` equal
    /// divisions (integer step), giving `count + 1` positions from `y_min`
    /// upward. The renderer formats these into label strings.
    #[verifier::loop_isolation(false)]
    pub fn bounds_label_values(&self, count: usize) -> (r: Vec<i64>)
        requires
            1 <= count < usize::MAX,
            self.y_min <= self.y_max,
        ensures
            r@.len() == count + 1,
            forall|i: int|
                0 <= i <= count ==> #[trigger] r@[i] == self.y_min + i * (
                (self.y_max - self.y_min) / (count as int)),
    {
        let span_u: u64 = ((self.y_max as i128) - (self.y_min as i128)) as u64;
        let step_u: u64 = span_u / (count as u64);
        proof {
            vstd::arithmetic::div_mod::lemma_fundamental_div_mod(
                span_u as int,
                count as int,
            );
            vstd::arithmetic::div_mod::lemma_mod_bound(span_u as int, count as int);
        }
        let mut r: Vec<i64> = Vec::new();
        let mut idx: usize = 0;
        while idx <= count
            invariant
                0 <= idx <= count + 1,
                count >= 1,
                r@.len() == idx,
                self.y_min <= self.y_max,
                span_u == self.y_max - self.y_min,
                step_u == span_u as int / count as int,
                step_u * count <= span_u,
                forall|i: int|
                    0 <= i < idx ==> #[trigger] r@[i] == self.y_min + i * (
                    (self.y_max - self.y_min) / (count as int)),
            decreases count + 1 - idx,
        {
            proof {
                vstd::arithmetic::mul::lemma_mul_inequality(
                    idx as int,
                    count as int,
                    step_u as int,
                );
                vstd::arithmetic::mul::lemma_mul_is_commutative(idx as int, step_u as int);
                vstd::arithmetic::mul::lemma_mul_is_commutative(count as int, step_u as int);
                assert(step_u * idx <= span_u);
            }
            let off: u64 = step_u * (idx as u64);
            let v: i64 = ((self.y_min as i128) + (off as i128)) as i64;
            r.push(v);
            idx = idx + 1;
        }
        r
    }

    pub fn y(&self) -> (r: [i64; 2])
        ensures
            r@ == seq![self.y_min, self.y_max],
    {
        [self.y_min, self.y_max]
    }

    pub fn x(&self) -> (r: [i64; 2])
        ensures
            r@ == seq![self.x_min, self.x_max],
    {
        [self.x_min, self.x_max]
    }
}

} // verus!

use vstd::prelude::*;
use vstd::assert_seqs_equal;
use crate::axis::Monitor;
use crate::series::{DataSeries, Sample};

verus! {

/// Display headroom added to every sampled value before it is offered to the
/// y-axis watermarks, so the plotted curve never touches the frame.
pub const Y_MARGIN: i64 = 100_000;

/// Timestamps in `s` are non-decreasing in buffer order and all lie in
/// `[0, bound]`.
pub open spec fn times_ordered(s: Seq<Sample>, bound: int) -> bool {
    &&& forall|j: int, k: int|
        0 <= j <= k < s.len() ==> #[trigger] s[j].time <= #[trigger] s[k].time
    &&& forall|j: int| 0 <= j < s.len() ==> 0 <= (#[trigger] s[j]).time <= bound
}

/// One entity's buffer after a full tick: the new sample appended at the
/// tail and, when the window slides, the oldest point evicted from the head.
pub open spec fn ticked(pre: Seq<Sample>, t: i64, v: i64, slide: bool) -> Seq<Sample> {
    let mid = pre.push(Sample { time: t, value: v });
    if slide {
        mid.drop_first()
    } else {
        mid
    }
}

/// How far the window slides on an eviction tick: the spacing between the
/// evicted head of the reference buffer and its new first point, or 0 when no
/// point remains after the eviction.
pub open spec fn slide_amount(pre0: Seq<Sample>, t: i64, v: i64) -> int {
    let mid = pre0.push(Sample { time: t, value: v });
    if mid.len() >= 2 {
        mid[1].time - mid[0].time
    } else {
        0
    }
}

proof fn lemma_push_ordered(s: Seq<Sample>, bound: int, p: Sample)
    requires
        times_ordered(s, bound),
        bound <= p.time,
        0 <= p.time,
    ensures
        times_ordered(s.push(p), p.time as int),
{
    let r = s.push(p);
    assert forall|j: int, k: int| 0 <= j <= k < r.len() implies #[trigger] r[j].time
        <= #[trigger] r[k].time by {
        if k < s.len() {
            assert(r[j] == s[j] && r[k] == s[k]);
        } else {
            assert(r[k] == p);
            if j < s.len() {
                assert(r[j] == s[j]);
                assert(s[j].time <= bound);
            }
        }
    }
    assert forall|j: int| 0 <= j < r.len() implies 0 <= (#[trigger] r[j]).time <= p.time by {
        if j < s.len() {
            assert(r[j] == s[j]);
            assert(s[j].time <= bound);
        }
    }
}

proof fn lemma_drop_first_ordered(s: Seq<Sample>, bound: int)
    requires
        times_ordered(s, bound),
        s.len() >= 1,
    ensures
        times_ordered(s.drop_first(), bound),
{
    let r = s.drop_first();
    assert forall|j: int, k: int| 0 <= j <= k < r.len() implies #[trigger] r[j].time
        <= #[trigger] r[k].time by {
        assert(r[j] == s[j + 1] && r[k] == s[k + 1]);
    }
    assert forall|j: int| 0 <= j < r.len() implies 0 <= (#[trigger] r[j]).time <= bound by {
        assert(r[j] == s[j + 1]);
    }
}

/// Display identity and sample buffer of one tracked entity. The entity's
/// sample source stays outside this crate: each tick hands the sampled value
/// in as a plain integer.
pub struct CoreStat {
    pub name: String,
    pub color: u8,
    pub data: DataSeries,
}

impl CoreStat {
    pub fn new(name: String, color: u8) -> (s: CoreStat)
        ensures
            s.data.wf(),
            s.data@ =~= Seq::<Sample>::empty(),
            s.name == name,
            s.color == color,
    {
        CoreStat { name, color, data: DataSeries::new() }
    }
}

/// The entity set: the shared axis state plus the ordered collection of
/// tracked entities. The first entity is the reference series whose eviction
/// spacing drives the x-axis translation for the whole set.
pub struct CpuMonitor {
    pub stats: Vec<CoreStat>,
    pub m: Monitor,
}

impl CpuMonitor {
    /// Every entity's buffer has the same length as the reference series'
    /// buffer: the buffers never diverge, however many ticks have run.
    pub open spec fn buffers_synced(self) -> bool {
        forall|i: int|
            0 <= i < self.stats@.len() ==> (#[trigger] self.stats@[i]).data@.len()
                == self.stats@[0].data@.len()
    }

    pub open spec fn wf(self) -> bool {
        &&& self.stats@.len() >= 1
        &&& self.m.x_min <= self.m.x_max
        &&& 0 <= self.m.total_time
        &&& forall|i: int| 0 <= i < self.stats@.len() ==> (#[trigger] self.stats@[i]).data.wf()
        &&& self.buffers_synced()
        &&& forall|i: int|
            0 <= i < self.stats@.len() ==> times_ordered(
                (#[trigger] self.stats@[i]).data@,
                self.m.total_time as int,
            )
    }

    /// Build the entity set from pre-assigned entities (buffers empty, order
    /// already fixed by the caller) and the initial axis configuration.
    pub fn new(stats: Vec<CoreStat>, x: (i64, i64), y: (i64, i64)) -> (r: CpuMonitor)
        requires
            stats@.len() >= 1,
            x.0 <= x.1,
            forall|i: int|
                0 <= i < stats@.len() ==> (#[trigger] stats@[i]).data.wf() && stats@[i].data@.len()
                    == 0,
        ensures
            r.wf(),
            r.stats == stats,
            r.m == (Monitor { x_min: x.0, x_max: x.1, y_min: y.0, y_max: y.1, total_time: 0 }),
    {
        CpuMonitor { stats, m: Monitor::new(x, y) }
    }

    pub fn monitor(&self) -> (r: &Monitor)
        ensures
            r == self.m,
    {
        &self.m
    }

    /// Plot title for the renderer.
    pub fn title(&self) -> (r: &'static str)
        ensures
            r@ == "Cpu Frequency"@,
    {
        "Cpu Frequency"
    }

    /// X-axis caption for the renderer.
    pub fn x_axis(&self) -> (r: &'static str)
        ensures
            r@ == "Time"@,
    {
        "Time"
    }

    /// Y-axis caption for the renderer.
    pub fn y_axis(&self) -> (r: &'static str)
        ensures
            r@ == "Frequency"@,
    {
        "Frequency"
    }

    /// Y-axis tick positions at `count` divisions, for the renderer to
    /// format into label strings.
    pub fn labels(&self, count: usize) -> (r: Vec<i64>)
        requires
            1 <= count < usize::MAX,
            self.m.y_min <= self.m.y_max,
        ensures
            r@.len() == count + 1,
            forall|i: int|
                0 <= i <= count ==> #[trigger] r@[i] == self.m.y_min + i * (
                (self.m.y_max - self.m.y_min) / (count as int)),
    {
        self.m.bounds_label_values(count)
    }

    /// One tick of the update algorithm, run after the scheduler has advanced
    /// elapsed time. `samples` holds one freshly sampled value per entity, in
    /// entity order. Every entity's sample is appended at the current elapsed
    /// time and offered (plus the display margin) to the y-axis watermarks;
    /// then, if elapsed time has passed the right edge of the x-window, the
    /// oldest point is evicted from every buffer and the window is translated
    /// forward by the reference series' inter-sample spacing.
    ///
    /// The caller gathers one sample per entity before calling, so a failed
    /// read commits nothing: buffers never end a tick desynchronized.
    #[verifier::loop_isolation(false)]
    pub fn update(&mut self, samples: &Vec<i64>)
        requires
            old(self).wf(),
            samples@.len() == old(self).stats@.len(),
            forall|i: int| 0 <= i < samples@.len() ==> #[trigger] samples@[i] + Y_MARGIN <= i64::MAX,
            old(self).m.x_max + old(self).m.total_time <= i64::MAX,
        ensures
            final(self).wf(),
            final(self).buffers_synced(),
            final(self).stats@.len() == old(self).stats@.len(),
            final(self).m.total_time == old(self).m.total_time,
            // each buffer went through exactly one tick, all in lock-step
            forall|i: int|
                0 <= i < old(self).stats@.len() ==> {
                    &&& (#[trigger] final(self).stats@[i]).name == old(self).stats@[i].name
                    &&& final(self).stats@[i].color == old(self).stats@[i].color
                    &&& final(self).stats@[i].data@ == ticked(
                        old(self).stats@[i].data@,
                        old(self).m.total_time,
                        samples@[i],
                        old(self).m.total_time > old(self).m.x_max,
                    )
                },
            // y-bounds are watermarks: exactly the old bound or one offered value
            final(self).m.y_max >= old(self).m.y_max,
            final(self).m.y_min <= old(self).m.y_min,
            forall|i: int|
                0 <= i < samples@.len() ==> final(self).m.y_max >= #[trigger] samples@[i] + Y_MARGIN,
            forall|i: int|
                0 <= i < samples@.len() ==> final(self).m.y_min <= #[trigger] samples@[i] + Y_MARGIN,
            final(self).m.y_max == old(self).m.y_max || (exists|i: int|
                0 <= i < samples@.len() && final(self).m.y_max == #[trigger] samples@[i] + Y_MARGIN),
            final(self).m.y_min == old(self).m.y_min || (exists|i: int|
                0 <= i < samples@.len() && final(self).m.y_min == #[trigger] samples@[i] + Y_MARGIN),
            // the x-window keeps its width and slides only on an eviction tick
            final(self).m.x_max - final(self).m.x_min == old(self).m.x_max - old(self).m.x_min,
            old(self).m.total_time > old(self).m.x_max ==> {
                &&& final(self).m.x_min == old(self).m.x_min + slide_amount(
                    old(self).stats@[0].data@,
                    old(self).m.total_time,
                    samples@[0],
                )
                &&& final(self).m.x_max == old(self).m.x_max + slide_amount(
                    old(self).stats@[0].data@,
                    old(self).m.total_time,
                    samples@[0],
                )
            },
            old(self).m.total_time <= old(self).m.x_max ==> {
                &&& final(self).m.x_min == old(self).m.x_min
                &&& final(self).m.x_max == old(self).m.x_max
            },
    {
        let t = self.m.time();
        let n = self.stats.len();

        // Phase 1: append this tick's sample to every buffer, in stable
        // order, widening the y-watermarks as we go.
        let mut i: usize = 0;
        while i < n
            invariant
                0 <= i <= n,
                n == self.stats@.len(),
                n == old(self).stats@.len(),
                t == old(self).m.total_time,
                self.m.x_min == old(self).m.x_min,
                self.m.x_max == old(self).m.x_max,
                self.m.total_time == old(self).m.total_time,
                forall|j: int| i <= j < n ==> #[trigger] self.stats@[j] == old(self).stats@[j],
                forall|j: int|
                    0 <= j < i ==> {
                        &&& (#[trigger] self.stats@[j]).name == old(self).stats@[j].name
                        &&& self.stats@[j].color == old(self).stats@[j].color
                        &&& self.stats@[j].data.wf()
                        &&& self.stats@[j].data@ == old(self).stats@[j].data@.push(
                            Sample { time: t, value: samples@[j] },
                        )
                    },
                self.m.y_max >= old(self).m.y_max,
                self.m.y_min <= old(self).m.y_min,
                forall|j: int|
                    0 <= j < i ==> self.m.y_max >= #[trigger] samples@[j] + Y_MARGIN,
                forall|j: int|
                    0 <= j < i ==> self.m.y_min <= #[trigger] samples@[j] + Y_MARGIN,
                self.m.y_max == old(self).m.y_max || (exists|j: int|
                    0 <= j < i && self.m.y_max == #[trigger] samples@[j] + Y_MARGIN),
                self.m.y_min == old(self).m.y_min || (exists|j: int|
                    0 <= j < i && self.m.y_min == #[trigger] samples@[j] + Y_MARGIN),
            decreases n - i,
        {
            let ghost prev = self.stats@;
            let mut st = self.stats.remove(i);
            st.data.add(t, samples[i]);
            let ghost gst = st;
            self.stats.insert(i, st);
            proof {
                assert_seqs_equal!(self.stats@ == prev.update(i as int, gst));
            }
            let cand = samples[i] + Y_MARGIN;
            self.m.set_if_y_max(cand);
            self.m.set_if_y_min(cand);
            i = i + 1;
        }

        let ghost m0 = *self;
        proof {
            assert forall|j: int| 0 <= j < n implies times_ordered(
                (#[trigger] m0.stats@[j]).data@,
                t as int,
            ) by {
                lemma_push_ordered(
                    old(self).stats@[j].data@,
                    old(self).m.total_time as int,
                    Sample { time: t, value: samples@[j] },
                );
            }
        }

        // Phase 2: slide the window once elapsed time has passed its right
        // edge, evicting the oldest point from every buffer in lock-step.
        if t > self.m.max_x() {
            // the reference series' eviction fixes the translation amount
            let mut st0 = self.stats.remove(0);
            let removed = st0.data.pop();
            let first = st0.data.first();
            let ghost gst0 = st0;
            self.stats.insert(0, st0);
            proof {
                assert_seqs_equal!(self.stats@ == m0.stats@.update(0, gst0));
            }
            if let Some(point) = first {
                proof {
                    assert(removed == m0.stats@[0].data@[0]);
                    assert(point == m0.stats@[0].data@[1]);
                    assert(0 <= removed.time <= t);
                    assert(removed.time <= point.time <= t);
                }
                self.m.inc_x_axis(point.time - removed.time);
            }
            let ghost m1 = *self;

            let mut k: usize = 1;
            while k < n
                invariant
                    1 <= k <= n,
                    n == self.stats@.len(),
                    self.m == m1.m,
                    self.stats@[0] == m1.stats@[0],
                    forall|j: int| k <= j < n ==> #[trigger] self.stats@[j] == m1.stats@[j],
                    forall|j: int|
                        1 <= j < k ==> {
                            &&& (#[trigger] self.stats@[j]).name == m1.stats@[j].name
                            &&& self.stats@[j].color == m1.stats@[j].color
                            &&& self.stats@[j].data.wf()
                            &&& self.stats@[j].data@ == m1.stats@[j].data@.drop_first()
                        },
                decreases n - k,
            {
                let ghost prev = self.stats@;
                let mut st = self.stats.remove(k);
                st.data.pop();
                let ghost gst = st;
                self.stats.insert(k, st);
                proof {
                    assert_seqs_equal!(self.stats@ == prev.update(k as int, gst));
                    assert(prev[k as int].data@.len() >= 1);
                }
                k = k + 1;
            }

            proof {
                assert forall|j: int| 0 <= j < n implies (#[trigger] self.stats@[j]).data@
                    == ticked(old(self).stats@[j].data@, t, samples@[j], true) by {
                    assert(m0.stats@[j].data@ == old(self).stats@[j].data@.push(
                        Sample { time: t, value: samples@[j] },
                    ));
                }
                assert forall|j: int| 0 <= j < n implies times_ordered(
                    (#[trigger] self.stats@[j]).data@,
                    self.m.total_time as int,
                ) by {
                    lemma_push_ordered(
                        old(self).stats@[j].data@,
                        old(self).m.total_time as int,
                        Sample { time: t, value: samples@[j] },
                    );
                    lemma_drop_first_ordered(m0.stats@[j].data@, t as int);
                }
            }
        }
    }
}

} // verus!

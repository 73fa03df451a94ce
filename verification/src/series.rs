use vstd::prelude::*;

verus! {

/// One measured point: a timestamp and a value, both in the integer units the
/// caller chose (e.g. milliseconds since monitor start, and hertz).
#[derive(Clone, Copy, Debug, PartialEq, Eq, Structural)]
pub struct Sample {
    pub time: i64,
    pub value: i64,
}

/// Insertion-ordered buffer of samples for one tracked entity, with a cached
/// count. Samples enter at the tail and leave at the head, oldest first.
pub struct DataSeries {
    data: Vec<Sample>,
    len: usize,
}

impl View for DataSeries {
    type V = Seq<Sample>;

    closed spec fn view(&self) -> Seq<Sample> {
        self.data@
    }
}

impl DataSeries {
    /// The cached count always equals the number of stored samples: nothing
    /// outside this type can break that, and every method preserves it.
    pub closed spec fn wf(&self) -> bool {
        self.len == self.data@.len()
    }

    pub fn new() -> (s: DataSeries)
        ensures
            s.wf(),
            s@ =~= Seq::<Sample>::empty(),
    {
        DataSeries { data: Vec::new(), len: 0 }
    }

    /// Read-only access to the stored samples, oldest first.
    pub fn data(&self) -> (r: &Vec<Sample>)
        ensures
            r@ == self@,
    {
        &self.data
    }

    /// Append a sample at the tail. The buffer itself accepts any timestamp;
    /// keeping timestamps non-decreasing is the caller's contract.
    pub fn add(&mut self, time: i64, value: i64)
        requires
            old(self).wf(),
        ensures
            final(self).wf(),
            final(self)@ == old(self)@.push(Sample { time, value }),
    {
        self.data.push(Sample { time, value });
        self.len = self.data.len();
    }

    /// Remove and return the oldest sample. On an empty buffer this returns
    /// the sentinel sample (time 0, value 0) and changes nothing: callers must
    /// not treat that sentinel as a real data point.
    pub fn pop(&mut self) -> (r: Sample)
        requires
            old(self).wf(),
        ensures
            final(self).wf(),
            old(self)@.len() > 0 ==> {
                &&& r == old(self)@[0]
                &&& final(self)@ == old(self)@.drop_first()
            },
            old(self)@.len() == 0 ==> {
                &&& r == (Sample { time: 0, value: 0 })
                &&& final(self)@ == old(self)@
            },
    {
        if self.len > 0 {
            self.len = self.len - 1;
            let r = self.data.remove(0);
            proof {
                assert(old(self)@.remove(0) =~= old(self)@.drop_first());
            }
            return r;
        }
        Sample { time: 0, value: 0 }
    }

    /// The sample at position `n`, if one is stored there.
    pub fn nth(&self, n: usize) -> (r: Option<Sample>)
        requires
            self.wf(),
        ensures
            r == if n < self@.len() {
                Some(self@[n as int])
            } else {
                None::<Sample>
            },
    {
        if n < self.len {
            return Some(self.data[n]);
        }
        None
    }

    /// The oldest stored sample, if any.
    pub fn first(&self) -> (r: Option<Sample>)
        requires
            self.wf(),
        ensures
            r == if self@.len() > 0 {
                Some(self@[0])
            } else {
                None::<Sample>
            },
    {
        self.nth(0)
    }
}

} // verus!

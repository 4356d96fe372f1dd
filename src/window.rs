use vstd::prelude::*;

verus! {

/// How many periods of the lowest detectable note fit in one analysis window.
pub const MIN_PERIODS: usize = 6;

/// Window length for a detector whose longest period is `max_period`
/// samples: that many periods side by side.
pub fn window_size(max_period: usize) -> (r: usize)
    requires
        max_period * MIN_PERIODS <= usize::MAX,
    ensures
        r == max_period * MIN_PERIODS,
{
    max_period * MIN_PERIODS
}

/// The most recent samples of a stream, held in fixed-size overlapping
/// windows.
///
/// Samples are appended one at a time until `size` of them are held. The
/// next sample first drops the oldest `size - overlap` samples, so that the
/// newest `overlap` samples of the completed window begin the next one.
pub struct SampleWindow<T> {
    data: Vec<T>,
    size: usize,
    overlap: usize,
}

impl<T> SampleWindow<T> {
    /// The samples currently held, oldest first.
    pub closed spec fn view(&self) -> Seq<T> {
        self.data@
    }

    pub closed spec fn spec_size(&self) -> nat {
        self.size as nat
    }

    pub closed spec fn spec_overlap(&self) -> nat {
        self.overlap as nat
    }

    pub open spec fn wf(&self) -> bool {
        &&& self.spec_overlap() < self.spec_size()
        &&& self@.len() <= self.spec_size()
    }

    /// Number of new samples between two consecutive full windows.
    pub open spec fn spec_hop(&self) -> nat {
        (self.spec_size() - self.spec_overlap()) as nat
    }

    /// What the window holds after `x` is appended to `held`.
    pub open spec fn next_contents(&self, held: Seq<T>, x: T) -> Seq<T> {
        if held.len() == self.spec_size() {
            held.skip(self.spec_hop() as int).push(x)
        } else {
            held.push(x)
        }
    }

    /// An empty window of `size` samples keeping `overlap` of them from one
    /// window to the next.
    pub fn new(size: usize, overlap: usize) -> (r: Self)
        requires
            overlap < size,
        ensures
            r.wf(),
            r@ == Seq::<T>::empty(),
            r.spec_size() == size,
            r.spec_overlap() == overlap,
    {
        SampleWindow { data: Vec::new(), size, overlap }
    }

    /// Appends one sample, first dropping the oldest `size - overlap`
    /// samples if the window was already full. Returns whether the window
    /// is full afterwards.
    pub fn add_sample(&mut self, x: T) -> (full: bool)
        requires
            old(self).wf(),
        ensures
            final(self).wf(),
            final(self).spec_size() == old(self).spec_size(),
            final(self).spec_overlap() == old(self).spec_overlap(),
            final(self)@ == old(self).next_contents(old(self)@, x),
            full == (final(self)@.len() == final(self).spec_size()),
    {
        if self.data.len() == self.size {
            let tail = self.data.split_off(self.size - self.overlap);
            self.data = tail;
        }
        self.data.push(x);
        self.data.len() == self.size
    }

    /// Whether a complete window is held.
    pub fn is_full(&self) -> (r: bool)
        ensures
            r == (self@.len() == self.spec_size()),
    {
        self.data.len() == self.size
    }

    /// The samples currently held, oldest first.
    pub fn samples(&self) -> (r: &Vec<T>)
        ensures
            r@ == self@,
    {
        &self.data
    }

    /// The number of samples in a complete window.
    pub fn size(&self) -> (r: usize)
        ensures
            r == self.spec_size(),
    {
        self.size
    }

    /// The number of samples that a completed window hands on to the next.
    pub fn overlap(&self) -> (r: usize)
        ensures
            r == self.spec_overlap(),
    {
        self.overlap
    }

    /// The number of new samples between two consecutive full windows.
    pub fn hop(&self) -> (r: usize)
        requires
            self.wf(),
        ensures
            r == self.spec_hop(),
    {
        self.size - self.overlap
    }
}

} // verus!

use vstd::prelude::*;

verus! {

/// The sub-filters that one input sample runs, in order: the accumulator
/// starts at `phase` and advances by `down` while it is below `up`.
pub open spec fn phase_run(phase: nat, up: nat, down: nat) -> Seq<nat>
    decreases if phase < up { up - phase } else { 0int },
{
    if phase < up && down > 0 {
        seq![phase] + phase_run(phase + down, up, down)
    } else {
        Seq::empty()
    }
}

/// The accumulator once one input sample has been consumed: the run ends on
/// the first value at or above `up`, and `up` is then taken off.
pub open spec fn phase_after(phase: nat, up: nat, down: nat) -> int
    decreases if phase < up { up - phase } else { 0int },
{
    if phase < up && down > 0 {
        phase_after(phase + down, up, down)
    } else {
        phase - up
    }
}

/// Index `a` of a circular buffer of length `n`, for `a < 2 * n`.
pub open spec fn wrap(a: int, n: int) -> int {
    if a < n {
        a
    } else {
        a - n
    }
}

proof fn lemma_phase_run(phase: nat, up: nat, down: nat)
    requires
        down > 0,
        phase < up + down,
    ensures
        phase_after(phase, up, down) + up == phase + phase_run(phase, up, down).len() * down,
        0 <= phase_after(phase, up, down) < down,
        forall|i: int|
            0 <= i < phase_run(phase, up, down).len() ==> #[trigger] phase_run(phase, up, down)[i]
                == phase + i * down && phase_run(phase, up, down)[i] < up,
    decreases if phase < up { up - phase } else { 0int },
{
    if phase < up {
        lemma_phase_run(phase + down, up, down);
        let rest = phase_run(phase + down, up, down);
        let run = phase_run(phase, up, down);
        assert(run =~= seq![phase] + rest);
        assert(run.len() * down == down + rest.len() * down) by (nonlinear_arith)
            requires
                run.len() == rest.len() + 1,
        ;
        assert forall|i: int| 0 <= i < run.len() implies #[trigger] run[i] == phase + i * down
            && run[i] < up by {
            if i > 0 {
                assert(run[i] == rest[i - 1]);
                assert((i - 1) * down + down == i * down) by (nonlinear_arith);
            }
        }
    }
}

/// When the resampler does not upsample (`up <= down`), no input sample
/// runs more than one sub-filter, so each gives at most one output.
pub proof fn lemma_downsampling_at_most_one(phase: nat, up: nat, down: nat)
    requires
        0 < up <= down,
        phase < down,
    ensures
        phase_run(phase, up, down).len() <= 1,
{
    lemma_phase_run(phase, up, down);
    let run = phase_run(phase, up, down);
    if run.len() > 1 {
        assert(run[1] == phase + 1 * down);
    }
}

/// Number of warm-up outputs a resampler drops so that its output lines up
/// with its input: half the prototype filter's length, measured in output
/// samples and rounded to nearest.
pub fn warmup_outputs(order: usize, up: usize, down: usize) -> (r: usize)
    requires
        down > 0,
        order * up + down <= usize::MAX,
        2 * down <= usize::MAX,
    ensures
        r == (order * up + down) / (2 * down),
{
    (order * up + down) / (2 * down)
}

/// The state of a streaming polyphase resampler by the rational factor
/// `up / down`: the phase accumulator, which chooses the sub-filters that
/// each input sample runs, and the delay line of the last `order` input
/// samples that those sub-filters read.
///
/// The first `skip` outputs are warm-up and are not handed out.
pub struct Polyphase<T> {
    up: usize,
    down: usize,
    phase: usize,
    pending: usize,
    delay: Vec<T>,
    pos: usize,
    skip: Ghost<nat>,
    fill: Ghost<T>,
    history: Ghost<Seq<T>>,
    generated: Ghost<nat>,
}

impl<T> Polyphase<T> {
    /// Upsampling factor: the number of sub-filters.
    pub closed spec fn spec_up(&self) -> nat {
        self.up as nat
    }

    /// Downsampling factor: the accumulator's step per output.
    pub closed spec fn spec_down(&self) -> nat {
        self.down as nat
    }

    /// Length of the delay line, which is the length of each sub-filter.
    pub closed spec fn spec_order(&self) -> nat {
        self.delay@.len()
    }

    /// When the resampler does not upsample (`up <= down`), no input sample
/// runs more than one sub-filter, so each gives at most one output.
pub proof fn lemma_downsampling_at_most_one(phase: nat, up: nat, down: nat)
    requires
        0 < up <= down,
        phase < down,
    ensures
        phase_run(phase, up, down).len() <= 1,
{
    lemma_phase_run(phase, up, down);
    let run = phase_run(phase, up, down);
    if run.len() > 1 {
        assert(run[1] == phase + 1 * down);
    }
}

/// Number of warm-up outputs that are computed but not handed out.
    pub closed spec fn spec_skip(&self) -> nat {
        self.skip@
    }

    /// What the delay line holds before it is filled.
    pub closed spec fn spec_fill(&self) -> T {
        self.fill@
    }

    /// Every input sample pushed so far, oldest first.
    pub closed spec fn history(&self) -> Seq<T> {
        self.history@
    }

    /// Outputs computed so far, warm-up included.
    pub closed spec fn generated(&self) -> nat {
        self.generated@
    }

    /// The phase accumulator.
    pub closed spec fn spec_phase(&self) -> nat {
        self.phase as nat
    }

    /// Outputs handed out so far.
    pub open spec fn emitted(&self) -> nat {
        if self.generated() >= self.spec_skip() {
            (self.generated() - self.spec_skip()) as nat
        } else {
            0
        }
    }

    /// The sample that tap `j` of a sub-filter reads: the one pushed `j`
    /// pushes ago, or the fill value where fewer were pushed.
    pub open spec fn expected_tap(&self, j: int) -> T {
        if j < self.history().len() {
            self.history()[self.history().len() - 1 - j]
        } else {
            self.spec_fill()
        }
    }

    closed spec fn slot(&self, j: int) -> T {
        self.delay@[wrap(self.pos + 1 + j, self.delay@.len() as int)]
    }

    pub closed spec fn wf(&self) -> bool {
        &&& self.up > 0
        &&& self.down > 0
        &&& self.up + self.down <= usize::MAX
        &&& self.delay@.len() > 0
        &&& self.pos < self.delay@.len()
        &&& self.phase < self.down
        &&& self.phase + self.history@.len() * self.up == self.generated@ * self.down
        &&& self.pending == if self.generated@ < self.skip@ {
            self.skip@ - self.generated@
        } else {
            0
        }
        &&& forall|j: int|
            0 <= j < self.delay@.len() ==> #[trigger] self.slot(j) == self.expected_tap(j)
    }
}

impl<T: Copy> Polyphase<T> {
    /// A resampler state for the factor `up / down` whose delay line holds
    /// `order` samples, all `fill` at first, and which drops its first
    /// `skip` outputs.
    pub fn new(up: usize, down: usize, order: usize, skip: usize, fill: T) -> (r: Self)
        requires
            up > 0,
            down > 0,
            order > 0,
            up + down <= usize::MAX,
        ensures
            r.wf(),
            r.spec_up() == up,
            r.spec_down() == down,
            r.spec_order() == order,
            r.spec_skip() == skip,
            r.spec_fill() == fill,
            r.history() == Seq::<T>::empty(),
            r.generated() == 0,
            r.spec_phase() == 0,
    {
        let mut delay: Vec<T> = Vec::new();
        let mut i: usize = 0;
        while i < order
            invariant
                i <= order,
                delay@.len() == i,
                forall|j: int| 0 <= j < i ==> delay@[j] == fill,
            decreases order - i,
        {
            delay.push(fill);
            i = i + 1;
        }
        let r = Polyphase {
            up,
            down,
            phase: 0,
            pending: skip,
            delay,
            pos: 0,
            skip: Ghost(skip as nat),
            fill: Ghost(fill),
            history: Ghost(Seq::empty()),
            generated: Ghost(0),
        };
        assert forall|j: int| 0 <= j < r.delay@.len() implies #[trigger] r.slot(j)
            == r.expected_tap(j) by {
            assert(0 <= wrap(r.pos + 1 + j, r.delay@.len() as int) < r.delay@.len());
        }
        r
    }
}

impl<T> Polyphase<T> {
    /// Consumes one input sample: writes it into the delay line and returns
    /// the sub-filters to evaluate for it, in output order, leaving out the
    /// warm-up outputs. Each returned index is below `up`; there may be
    /// none, one or several.
    pub fn push(&mut self, x: T) -> (r: Vec<usize>)
        requires
            old(self).wf(),
        ensures
            final(self).wf(),
            final(self).spec_up() == old(self).spec_up(),
            final(self).spec_down() == old(self).spec_down(),
            final(self).spec_order() == old(self).spec_order(),
            final(self).spec_skip() == old(self).spec_skip(),
            final(self).spec_fill() == old(self).spec_fill(),
            final(self).history() == old(self).history().push(x),
            final(self).generated() == old(self).generated() + phase_run(
                old(self).spec_phase(),
                old(self).spec_up(),
                old(self).spec_down(),
            ).len(),
            final(self).spec_phase() == phase_after(
                old(self).spec_phase(),
                old(self).spec_up(),
                old(self).spec_down(),
            ),
            r@.len() == final(self).emitted() - old(self).emitted(),
            forall|i: int| 0 <= i < r@.len() ==> #[trigger] r@[i] < final(self).spec_up(),
            forall|i: int|
                0 <= i < r@.len() ==> #[trigger] r@[i] as nat == phase_run(
                    old(self).spec_phase(),
                    old(self).spec_up(),
                    old(self).spec_down(),
                )[phase_run(old(self).spec_phase(), old(self).spec_up(), old(self).spec_down()).len()
                    - r@.len() + i],
    {
        let ghost start = self.phase as nat;
        let ghost up = self.up as nat;
        let ghost down = self.down as nat;
        let ghost run = phase_run(start, up, down);
        let ghost pending0 = self.pending as nat;
        proof {
            lemma_phase_run(start, up, down);
        }

        let len = self.delay.len();
        let pos = self.pos;
        let ghost before = *self;
        self.delay.set(pos, x);
        self.pos = if pos == 0 {
            len - 1
        } else {
            pos - 1
        };
        self.history = Ghost(self.history@.push(x));
        assert forall|j: int| 0 <= j < self.delay@.len() implies #[trigger] self.slot(j)
            == self.expected_tap(j) by {
            assert(wrap(self.pos + 1 + j, len as int) == wrap(pos + j, len as int));
            if j > 0 {
                assert(before.slot(j - 1) == before.expected_tap(j - 1));
            }
        }

        let ghost mid = *self;
        let mut out: Vec<usize> = Vec::new();
        let ghost mut count: nat = 0;
        while self.phase < self.up
            invariant
                self.up == up,
                self.down == down,
                self.delay@ == mid.delay@,
                self.pos == mid.pos,
                self.history == mid.history,
                self.generated == mid.generated,
                self.skip == mid.skip,
                self.fill == mid.fill,
                down > 0,
                phase_after(start, up, down) >= 0,
                self.up + self.down <= usize::MAX,
                count <= run.len(),
                self.phase == start + count * down,
                forall|i: int| 0 <= i < run.len() ==> #[trigger] run[i] == start + i * down && run[i] < up,
                run.len() * down == phase_after(start, up, down) + up - start,
                self.phase < up ==> count < run.len(),
                self.pending as nat == if pending0 > count { pending0 - count } else { 0 },
                out@.len() == if pending0 > count { 0 } else { count - pending0 },
                forall|i: int| 0 <= i < out@.len() ==> #[trigger] out@[i] as nat == run[count - out@.len() + i],
            decreases run.len() - count,
        {
            assert(run[count as int] == self.phase);
            if self.pending == 0 {
                out.push(self.phase);
            } else {
                self.pending = self.pending - 1;
            }
            self.phase = self.phase + self.down;
            proof {
                assert(start + count * down + down == start + (count + 1) * down) by (nonlinear_arith);
                count = count + 1;
            }
        }
        proof {
            if count < run.len() {
                assert(run[count as int] < up);
            }
            assert(count == run.len());
        }
        self.phase = self.phase - self.up;
        self.generated = Ghost(self.generated@ + run.len());
        proof {
            assert(self.phase + self.history@.len() * self.up == self.generated@ * self.down) by (nonlinear_arith)
                requires
                    self.phase + self.up == start + run.len() * down,
                    start + before.history@.len() * up == before.generated@ * down,
                    self.history@.len() == before.history@.len() + 1,
                    self.generated@ == before.generated@ + run.len(),
                    self.up == up,
                    self.down == down,
            ;
            assert forall|j: int| 0 <= j < self.delay@.len() implies #[trigger] self.slot(j)
                == self.expected_tap(j) by {
                assert(mid.slot(j) == mid.expected_tap(j));
            }
        }
        out
    }

    /// The sample that tap `j` of a sub-filter reads for the latest push:
    /// the one pushed `j` pushes ago.
    pub fn tap(&self, j: usize) -> (r: &T)
        requires
            self.wf(),
            j < self.spec_order(),
        ensures
            *r == self.expected_tap(j as int),
    {
        let len = self.delay.len();
        let rest = len - 1 - self.pos;
        let k = if j < rest {
            self.pos + 1 + j
        } else {
            j - rest
        };
        assert(self.slot(j as int) == self.expected_tap(j as int));
        &self.delay[k]
    }

    /// The length of the delay line.
    pub fn order(&self) -> (r: usize)
        requires
            self.wf(),
        ensures
            r == self.spec_order(),
    {
        self.delay.len()
    }

    /// After `k` input samples the resampler has computed the least number
    /// of outputs `g` with `g * down >= k * up`, that is `k * up / down`
    /// rounded up, and has handed out all of them but the first `skip`.
    pub proof fn lemma_output_count(&self)
        requires
            self.wf(),
        ensures
            self.spec_up() > 0,
            self.spec_down() > 0,
            self.spec_phase() < self.spec_down(),
            self.generated() * self.spec_down() >= self.history().len() * self.spec_up(),
            (self.generated() - 1) * self.spec_down() < self.history().len() * self.spec_up(),
            self.emitted() + self.spec_skip() >= self.generated(),
    {
        assert((self.generated() - 1) * self.spec_down() == self.generated() * self.spec_down()
            - self.spec_down()) by (nonlinear_arith);
    }
}

} // verus!

use vstd::prelude::*;

verus! {

/// How many samples the window keeps.
pub const CAPACITY: usize = 30;

/// Every accepted value paired with its step: the value accepted k-th gets step k.
pub open spec fn numbered<T>(vals: Seq<T>) -> Seq<(u64, T)> {
    Seq::new(vals.len(), |i: int| (i as u64, vals[i]))
}

/// The last `CAPACITY` elements of `s`, or all of them when there are fewer.
pub open spec fn recent<A>(s: Seq<A>) -> Seq<A> {
    if s.len() <= CAPACITY {
        s
    } else {
        s.subrange(s.len() - CAPACITY, s.len() as int)
    }
}

/// What the window holds after `vals` were accepted, in that order.
pub open spec fn window_of<T>(vals: Seq<T>) -> Seq<(u64, T)> {
    recent(numbered(vals))
}

/// The window never holds more than `CAPACITY` samples, and holds exactly the
/// most recent ones in acceptance order: after `n` values it holds
/// `min(n, CAPACITY)` samples, the i-th of them with step `n - len + i`.
pub proof fn lemma_window_capacity<T>(vals: Seq<T>)
    requires
        vals.len() <= u64::MAX,
    ensures
        window_of(vals).len() <= CAPACITY,
        window_of(vals).len() == if vals.len() <= CAPACITY { vals.len() } else { CAPACITY as nat },
        forall|i: int|
            0 <= i < window_of(vals).len() ==> #[trigger] window_of(vals)[i] == (
                (vals.len() - window_of(vals).len() + i) as u64,
                vals[vals.len() - window_of(vals).len() + i],
            ),
{
}

/// Steps start at 0 and grow by one per accepted value, whatever was evicted:
/// the steps held in the window are strictly increasing, and the newest one is
/// the number of values accepted before it.
pub proof fn lemma_steps_increasing<T>(vals: Seq<T>)
    requires
        vals.len() <= u64::MAX,
    ensures
        forall|k: int| 0 <= k < vals.len() ==> (#[trigger] numbered(vals)[k]).0 == k,
        forall|i: int, j: int|
            0 <= i < j < window_of(vals).len() ==> (#[trigger] window_of(vals)[i]).0 < (
            #[trigger] window_of(vals)[j]).0,
        vals.len() > 0 ==> window_of(vals).last().0 == vals.len() - 1,
{
    lemma_window_capacity(vals);
}

/// For a non-empty window the step bounds are the least and the greatest step
/// held; a single sample gives equal bounds.
pub proof fn lemma_step_bounds_are_extremes<T>(vals: Seq<T>)
    requires
        vals.len() <= u64::MAX,
        vals.len() > 0,
    ensures
        forall|i: int|
            0 <= i < window_of(vals).len() ==> window_of(vals)[0].0 <= (
            #[trigger] window_of(vals)[i]).0 <= window_of(vals).last().0,
        window_of(vals).len() == 1 ==> window_of(vals)[0].0 == window_of(vals).last().0,
{
    lemma_window_capacity(vals);
}

/// A bounded sliding window of `(step, value)` samples with FIFO eviction.
pub struct Window<T> {
    samples: Vec<(u64, T)>,
    next_step: u64,
    accepted: Ghost<Seq<T>>,
}

impl<T> View for Window<T> {
    type V = Seq<(u64, T)>;

    /// The samples currently held, oldest first.
    open spec fn view(&self) -> Seq<(u64, T)> {
        window_of(self.accepted())
    }
}

impl<T> Window<T> {
    /// Every value accepted since construction, in order of acceptance.
    pub closed spec fn accepted(&self) -> Seq<T> {
        self.accepted@
    }

    pub closed spec fn wf(&self) -> bool {
        &&& self.next_step as int == self.accepted@.len()
        &&& self.samples@ == window_of(self.accepted@)
    }

    /// An empty window whose next step is 0.
    pub fn new() -> (r: Self)
        ensures
            r.wf(),
            r.accepted() == Seq::<T>::empty(),
    {
        let r = Window { samples: Vec::new(), next_step: 0, accepted: Ghost(Seq::empty()) };
        proof {
            assert(r.samples@ =~= window_of(r.accepted@));
        }
        r
    }

    /// The step that the next accepted value gets.
    pub fn next_step(&self) -> (r: u64)
        requires
            self.wf(),
        ensures
            r == self.accepted().len(),
    {
        self.next_step
    }

    /// Whether another value can still be given a step.
    pub fn has_room_for_step(&self) -> (r: bool)
        requires
            self.wf(),
        ensures
            r == (self.accepted().len() < u64::MAX),
    {
        self.next_step < u64::MAX
    }

    /// Appends `value` under the next step, evicting the oldest sample when the
    /// window would exceed `CAPACITY`.
    pub fn push(&mut self, value: T)
        requires
            old(self).wf(),
            old(self).accepted().len() < u64::MAX,
        ensures
            final(self).wf(),
            final(self).accepted() == old(self).accepted().push(value),
    {
        let ghost a = self.accepted@;
        let ghost a2 = a.push(value);
        let step = self.next_step;
        self.accepted = Ghost(a2);
        self.samples.push((step, value));
        self.next_step = step + 1;
        proof {
            assert(numbered(a2) =~= numbered(a).push((step, value)));
        }
        if self.samples.len() > CAPACITY {
            self.samples.remove(0);
            proof {
                assert(self.samples@ =~= window_of(a2));
            }
        } else {
            proof {
                assert(self.samples@ =~= window_of(a2));
            }
        }
    }

    /// The samples, oldest first.
    pub fn samples(&self) -> (r: &[(u64, T)])
        requires
            self.wf(),
        ensures
            r@ == self@,
    {
        self.samples.as_slice()
    }

    /// Bounds of the step axis: the first and last step held, or `(0, 1)` when
    /// the window is empty.
    pub fn step_bounds(&self) -> (r: (u64, u64))
        requires
            self.wf(),
        ensures
            self@.len() == 0 ==> r == (0u64, 1u64),
            self@.len() > 0 ==> r == (self@[0].0, self@.last().0),
    {
        let n = self.samples.len();
        if n == 0 {
            (0, 1)
        } else {
            (self.samples[0].0, self.samples[n - 1].0)
        }
    }
}

} // verus!

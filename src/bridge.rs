//! The ordered hand-off queue between the capture side and the worker.
//!
//! The capture side only appends and the worker only takes everything at
//! once. Sharing the queue between the two is the caller's business (one
//! short lock around each call); the queue itself keeps arrival order.
use vstd::prelude::*;

verus! {

/// A first-in, first-out queue of mono samples.
pub struct SampleBridge<T> {
    queue: Vec<T>,
}

/// One call on a bridge, as a history of calls records it.
pub enum BridgeOp<T> {
    Push(Seq<T>),
    Drain,
}

/// Everything the drains of `ops` returned, laid end to end, and what is
/// left queued, when the calls of `ops` are made in order on a bridge that
/// holds `queued`.
pub open spec fn run_bridge<T>(queued: Seq<T>, ops: Seq<BridgeOp<T>>) -> (Seq<T>, Seq<T>)
    decreases ops.len(),
{
    if ops.len() == 0 {
        (Seq::empty(), queued)
    } else {
        let prev = run_bridge(queued, ops.drop_last());
        match ops.last() {
            BridgeOp::Push(s) => (prev.0, prev.1 + s),
            BridgeOp::Drain => (prev.0 + prev.1, Seq::empty()),
        }
    }
}

/// Everything the pushes of `ops` handed in, laid end to end.
pub open spec fn pushed<T>(ops: Seq<BridgeOp<T>>) -> Seq<T>
    decreases ops.len(),
{
    if ops.len() == 0 {
        Seq::empty()
    } else {
        match ops.last() {
            BridgeOp::Push(s) => pushed(ops.drop_last()) + s,
            BridgeOp::Drain => pushed(ops.drop_last()),
        }
    }
}

/// However pushes and drains interleave, what the drains returned followed by
/// what is still queued is what was queued at first followed by everything
/// pushed, in order: nothing is lost, reordered or handed out twice. So once
/// a drain comes last, the drains together returned exactly what was pushed.
pub proof fn lemma_bridge_keeps_order<T>(queued: Seq<T>, ops: Seq<BridgeOp<T>>)
    ensures
        run_bridge(queued, ops).0 + run_bridge(queued, ops).1 == queued + pushed(ops),
        ops.len() > 0 && ops.last() is Drain ==> run_bridge(queued, ops).0 == queued + pushed(
            ops,
        ),
    decreases ops.len(),
{
    if ops.len() == 0 {
        assert(Seq::<T>::empty() + queued =~= queued + Seq::<T>::empty());
    } else {
        let front = ops.drop_last();
        lemma_bridge_keeps_order(queued, front);
        let prev = run_bridge(queued, front);
        match ops.last() {
            BridgeOp::Push(s) => {
                assert(prev.0 + (prev.1 + s) =~= (prev.0 + prev.1) + s);
                assert(queued + (pushed(front) + s) =~= (queued + pushed(front)) + s);
            },
            BridgeOp::Drain => {
                assert(prev.0 + prev.1 + Seq::<T>::empty() =~= prev.0 + prev.1);
            },
        }
    }
}

impl<T: Copy> SampleBridge<T> {
    /// The queued samples, oldest first.
    pub closed spec fn view(&self) -> Seq<T> {
        self.queue@
    }

    /// An empty bridge.
    pub fn new() -> (r: Self)
        ensures
            r@ == Seq::<T>::empty(),
    {
        SampleBridge { queue: Vec::new() }
    }

    /// Appends `samples` behind everything queued.
    pub fn push(&mut self, samples: &Vec<T>)
        ensures
            final(self)@ == old(self)@ + samples@,
    {
        let ghost q0 = self.queue@;
        let mut i: usize = 0;
        while i < samples.len()
            invariant
                i <= samples.len(),
                self.queue@ == q0 + samples@.take(i as int),
            decreases samples.len() - i,
        {
            self.queue.push(samples[i]);
            i = i + 1;
            assert(self.queue@ =~= q0 + samples@.take(i as int));
        }
        assert(samples@.take(i as int) =~= samples@);
    }

    /// Takes out everything queued, oldest first, and leaves the bridge empty.
    pub fn drain_all(&mut self) -> (r: Vec<T>)
        ensures
            r@ == old(self)@,
            final(self)@ == Seq::<T>::empty(),
    {
        let mut out: Vec<T> = Vec::new();
        std::mem::swap(&mut out, &mut self.queue);
        out
    }

    /// How many samples are queued.
    pub fn len(&self) -> (r: usize)
        ensures
            r == self@.len(),
    {
        self.queue.len()
    }

    /// Whether nothing is queued.
    pub fn is_empty(&self) -> (r: bool)
        ensures
            r == (self@.len() == 0),
    {
        self.queue.len() == 0
    }
}

} // verus!

//! The sequence-producer capability: a pull-based source of items.

use vstd::prelude::*;

verus! {

/// A pull-based producer of a finite, ordered run of items.
///
/// `remaining` is the mathematical view: the items still to be produced, in
/// the order they will come. `wf` is the producer's well-formedness; every
/// operation preserves it. A producer never resurrects: once `remaining` is
/// empty it stays empty, and every further call to `next` reports absence.
pub trait SequenceProducer<T>: Sized {
    /// Well-formedness of the producer's internal state.
    spec fn wf(&self) -> bool;

    /// The items still to be produced, in order.
    spec fn remaining(&self) -> Seq<T>;

    /// Produce the next item, or `None` once exhausted.
    fn next(&mut self) -> (r: Option<T>)
        requires
            old(self).wf(),
        ensures
            final(self).wf(),
            old(self).remaining().len() == 0 ==> r is None
                && final(self).remaining() == old(self).remaining(),
            old(self).remaining().len() > 0 ==> r == Some(old(self).remaining()[0])
                && final(self).remaining() == old(self).remaining().skip(1),
    ;
}

/// A vector produces its elements front to back.
impl<T> SequenceProducer<T> for Vec<T> {
    open spec fn wf(&self) -> bool {
        true
    }

    open spec fn remaining(&self) -> Seq<T> {
        self@
    }

    fn next(&mut self) -> (r: Option<T>) {
        if self.len() == 0 {
            None
        } else {
            let t = self.remove(0);
            proof {
                assert(self@ =~= old(self)@.skip(1));
            }
            Some(t)
        }
    }
}

/// Drain a producer completely, collecting everything it yields in order.
pub fn collect_all<T, P: SequenceProducer<T>>(p: P) -> (r: Vec<T>)
    requires
        p.wf(),
    ensures
        r@ == p.remaining(),
{
    let ghost orig = p;
    let mut p = p;
    let mut out: Vec<T> = Vec::new();
    let mut done = false;
    while !done
        invariant
            p.wf(),
            done ==> p.remaining().len() == 0,
            out@ + p.remaining() == orig.remaining(),
        decreases p.remaining().len() + (if done { 0int } else { 1int }),
    {
        match p.next() {
            Some(t) => {
                out.push(t);
            }
            None => {
                done = true;
            }
        }
    }
    proof {
        assert(out@ =~= orig.remaining());
    }
    out
}

} // verus!

//! The cartesian product of two buffered sequences, produced pair by pair
//! in row-major order.

use vstd::prelude::*;
use crate::producer::SequenceProducer;

verus! {

/// The full cartesian product of `a` and `b` in row-major order: the pair at
/// position `i * b.len() + j` is `(a[i], b[j])`, so the left index varies
/// slowest and the right index fastest.
pub open spec fn product_seq<A, B>(a: Seq<A>, b: Seq<B>) -> Seq<(A, B)> {
    Seq::new(
        a.len() * b.len(),
        |k: int| (a[k / b.len() as int], b[k % b.len() as int]),
    )
}

/// The product of two sequences has exactly `a.len() * b.len()` pairs.
pub proof fn lemma_product_len<A, B>(a: Seq<A>, b: Seq<B>)
    ensures
        product_seq(a, b).len() == a.len() * b.len(),
{
}

/// An empty left-hand sequence gives an empty product, whatever `b` is.
pub proof fn lemma_product_empty_left<A, B>(a: Seq<A>, b: Seq<B>)
    requires
        a.len() == 0,
    ensures
        product_seq(a, b).len() == 0,
        product_seq(a, b) == Seq::<(A, B)>::empty(),
{
    assert(a.len() * b.len() == 0) by (nonlinear_arith)
        requires
            a.len() == 0,
    ;
    assert(product_seq(a, b) =~= Seq::<(A, B)>::empty());
}

/// An empty right-hand sequence gives an empty product, whatever `a` is.
pub proof fn lemma_product_empty_right<A, B>(a: Seq<A>, b: Seq<B>)
    requires
        b.len() == 0,
    ensures
        product_seq(a, b).len() == 0,
        product_seq(a, b) == Seq::<(A, B)>::empty(),
{
    assert(a.len() * b.len() == 0) by (nonlinear_arith)
        requires
            b.len() == 0,
    ;
    assert(product_seq(a, b) =~= Seq::<(A, B)>::empty());
}

/// Row-major order: for every in-range pair of indices `(i, j)`, the pair at
/// output position `i * b.len() + j` is exactly `(a[i], b[j])`.
pub proof fn lemma_product_index<A, B>(a: Seq<A>, b: Seq<B>, i: int, j: int)
    requires
        0 <= i < a.len(),
        0 <= j < b.len(),
    ensures
        0 <= i * b.len() + j < product_seq(a, b).len(),
        product_seq(a, b)[i * b.len() + j] == (a[i], b[j]),
{
    let n: int = b.len() as int;
    assert(0 <= i * n + j < a.len() * n) by (nonlinear_arith)
        requires
            0 <= i < a.len(),
            0 <= j < n,
    ;
    assert((i * n + j) / n == i && (i * n + j) % n == j) by (nonlinear_arith)
        requires
            0 <= i,
            0 <= j < n,
    ;
}

/// Duplicate left-hand elements are kept apart and each left-hand element is
/// reused unchanged: every pair of row `i` carries exactly `a[i]`, however
/// many pairs were produced before it.
pub proof fn lemma_left_element_reused<A, B>(a: Seq<A>, b: Seq<B>, i: int, j1: int, j2: int)
    requires
        0 <= i < a.len(),
        0 <= j1 < b.len(),
        0 <= j2 < b.len(),
    ensures
        product_seq(a, b)[i * b.len() + j1].0 == a[i],
        product_seq(a, b)[i * b.len() + j1].0 == product_seq(a, b)[i * b.len() + j2].0,
{
    lemma_product_index(a, b, i, j1);
    lemma_product_index(a, b, i, j2);
}

/// The product of two buffered sequences, handed out pair by pair.
///
/// Both buffers are fixed at construction; only the two cursors move. The
/// left cursor standing at the end of the left buffer is the terminal state;
/// it is entered directly at construction when the right buffer is empty, so
/// the right cursor never has to index an empty buffer.
pub struct CartesianProduct<A, B> {
    v1: Vec<A>,
    v2: Vec<B>,
    i1: usize,
    i2: usize,
}

impl<A: Copy, B: Copy> CartesianProduct<A, B> {
    /// Build the product of two fully materialized buffers, positioned at
    /// the first pair (or already exhausted, when no pair exists).
    pub fn new(v1: Vec<A>, v2: Vec<B>) -> (r: Self)
        ensures
            r.wf(),
            r.remaining() == product_seq(v1@, v2@),
    {
        let n1: usize = v1.len();
        let i1: usize = if v2.len() == 0 { n1 } else { 0 };
        let r = CartesianProduct { v1, v2, i1, i2: 0 };
        proof {
            if r.v2@.len() == 0 {
                lemma_product_empty_right(r.v1@, r.v2@);
                assert(r.remaining() =~= product_seq(r.v1@, r.v2@));
            } else if r.v1@.len() == 0 {
                lemma_product_empty_left(r.v1@, r.v2@);
                assert(r.remaining() =~= product_seq(r.v1@, r.v2@));
            } else {
                assert(r.remaining() =~= product_seq(r.v1@, r.v2@));
            }
        }
        r
    }
}

impl<A: Copy, B: Copy> SequenceProducer<(A, B)> for CartesianProduct<A, B> {
    closed spec fn wf(&self) -> bool {
        &&& self.i1 <= self.v1@.len()
        &&& (self.i1 < self.v1@.len() ==> self.i2 < self.v2@.len())
    }

    closed spec fn remaining(&self) -> Seq<(A, B)> {
        if self.i1 == self.v1@.len() {
            Seq::empty()
        } else {
            product_seq(self.v1@, self.v2@).skip(
                self.i1 as int * self.v2@.len() as int + self.i2 as int,
            )
        }
    }

    fn next(&mut self) -> (r: Option<(A, B)>) {
        if self.i1 == self.v1.len() {
            return None;
        }
        let a = self.v1[self.i1];
        let b = self.v2[self.i2];
        proof {
            lemma_product_index(self.v1@, self.v2@, self.i1 as int, self.i2 as int);
        }
        let ghost pos: int = self.i1 as int * self.v2@.len() as int + self.i2 as int;
        if self.i2 == self.v2.len() - 1 {
            proof {
                assert((self.i1 as int + 1) * self.v2@.len() as int == pos + 1)
                    by (nonlinear_arith)
                    requires
                        pos == self.i1 as int * self.v2@.len() as int + self.i2 as int,
                        self.i2 as int == self.v2@.len() as int - 1,
                ;
            }
            self.i1 = self.i1 + 1;
            self.i2 = 0;
        } else {
            self.i2 = self.i2 + 1;
        }
        proof {
            let p = product_seq(old(self).v1@, old(self).v2@);
            vstd::seq_lib::lemma_seq_skip_of_skip(p, pos, 1);
            if self.i1 == self.v1@.len() {
                assert(p.skip(pos).skip(1) =~= Seq::<(A, B)>::empty());
            }
        }
        Some((a, b))
    }
}

/// The extension capability: every sequence producer can form its cartesian
/// product with any other sequence producer, through one blanket
/// implementation and with no per-type work.
pub trait IntoCartesianProduct<A: Copy>: SequenceProducer<A> {
    /// Consume both producers, drain them fully into owned buffers, and
    /// return the row-major product over everything they would have yielded.
    fn cartesian_product<B: Copy, Q: SequenceProducer<B>>(self, other: Q) -> (r: CartesianProduct<
        A,
        B,
    >)
        requires
            self.wf(),
            other.wf(),
        ensures
            r.wf(),
            r.remaining() == product_seq(self.remaining(), other.remaining()),
    ;
}

impl<A: Copy, P: SequenceProducer<A>> IntoCartesianProduct<A> for P {
    fn cartesian_product<B: Copy, Q: SequenceProducer<B>>(self, other: Q) -> (r: CartesianProduct<
        A,
        B,
    >) {
        let v1 = crate::producer::collect_all(self);
        let v2 = crate::producer::collect_all(other);
        CartesianProduct::new(v1, v2)
    }
}

} // verus!

//! A pool of reusable vectors, kept to avoid per-batch allocations in
//! the consumer loop.  Vectors are taken from the front and returned to
//! the back; every pooled vector is empty.

use vstd::prelude::*;

verus! {

/// A FIFO pool of pre-allocated vectors with a target inner capacity.
pub struct VecPool<T> {
    pool: std::collections::VecDeque<Vec<T>>,
    inner_capacity: usize,
}

impl<T> VecPool<T> {
    /// The contents of the pooled vectors, front first.
    pub closed spec fn view(self) -> Seq<Seq<T>> {
        self.pool@.map_values(|v: Vec<T>| v@)
    }

    /// The capacity given to newly allocated vectors.
    pub closed spec fn spec_inner_capacity(self) -> nat {
        self.inner_capacity as nat
    }

    /// Well-formedness: every pooled vector is empty.
    pub open spec fn wf(self) -> bool {
        forall|i: int| 0 <= i < self.view().len() ==> #[trigger] self.view()[i].len() == 0
    }

    /// Builds a pool of `amount` empty vectors, each allocated with
    /// capacity `inner_capacity`.
    pub fn with_initial_amount(amount: usize, inner_capacity: usize) -> (r: Self)
        ensures
            r.wf(),
            r.view().len() == amount,
            r.spec_inner_capacity() == inner_capacity,
    {
        let mut pool: std::collections::VecDeque<Vec<T>> = std::collections::VecDeque::with_capacity(
            amount,
        );
        let mut k: usize = 0;
        while k < amount
            invariant
                k <= amount,
                pool@.len() == k,
                forall|i: int| 0 <= i < pool@.len() ==> #[trigger] pool@[i]@.len() == 0,
            decreases amount - k,
        {
            pool.push_back(Vec::with_capacity(inner_capacity));
            k += 1;
        }
        let r = VecPool { pool, inner_capacity };
        proof {
            assert(forall|i: int|
                0 <= i < r.view().len() ==> #[trigger] r.view()[i] == r.pool@[i]@);
        }
        r
    }

    /// The number of vectors currently pooled.
    pub fn pool_len(&self) -> (n: usize)
        ensures
            n == self.view().len(),
    {
        self.pool.len()
    }

    /// Takes the oldest pooled vector, or allocates a fresh one with the
    /// inner capacity when the pool is empty.  The result is empty.
    pub fn take_vec(&mut self) -> (r: Vec<T>)
        requires
            old(self).wf(),
        ensures
            final(self).wf(),
            r@ == Seq::<T>::empty(),
            final(self).spec_inner_capacity() == old(self).spec_inner_capacity(),
            old(self).view().len() > 0 ==> final(self).view() == old(self).view().drop_first(),
            old(self).view().len() == 0 ==> final(self).view() == old(self).view(),
    {
        match self.pool.pop_front() {
            Option::Some(v) => {
                proof {
                    assert(old(self).view()[0] == v@);
                    assert(self.view() =~= old(self).view().drop_first());
                    assert(v@ =~= Seq::<T>::empty());
                }
                v
            },
            Option::None => {
                let v = Vec::with_capacity(self.inner_capacity);
                proof {
                    assert(v@ =~= Seq::<T>::empty());
                }
                v
            },
        }
    }

    /// Clears `vec` and returns it to the back of the pool.
    pub fn return_vec(&mut self, vec: Vec<T>)
        requires
            old(self).wf(),
        ensures
            final(self).wf(),
            final(self).spec_inner_capacity() == old(self).spec_inner_capacity(),
            final(self).view() == old(self).view().push(Seq::<T>::empty()),
    {
        let mut vec = vec;
        vec.clear();
        self.pool.push_back(vec);
        proof {
            assert(self.view() =~= old(self).view().push(Seq::<T>::empty()));
        }
    }

    /// Grows the capacity of every pooled vector to at least
    /// `new_capacity`, and records it as the new inner capacity.  The
    /// pooled contents are unchanged.
    pub fn resize_all(&mut self, new_capacity: usize)
        requires
            old(self).wf(),
        ensures
            final(self).wf(),
            final(self).view() == old(self).view(),
            final(self).spec_inner_capacity() == new_capacity,
    {
        self.inner_capacity = new_capacity;
        let len = self.pool.len();
        let ghost snapshot = self.view();
        proof {
            assert(snapshot == old(self).view());
            assert forall|k: int| 0 <= k < snapshot.len() implies #[trigger] snapshot[k].len()
                == 0 by {
                assert(old(self).view()[k].len() == 0);
            }
        }
        let mut i: usize = 0;
        while i < len
            invariant
                i <= len,
                len == snapshot.len(),
                self.inner_capacity == new_capacity,
                self.view().len() == len,
                forall|k: int| 0 <= k < snapshot.len() ==> #[trigger] snapshot[k].len() == 0,
                forall|k: int| 0 <= k < self.view().len() ==> #[trigger] self.view()[k].len() == 0,
            decreases len - i,
        {
            proof {
                assert(self.view().len() == self.pool@.len());
            }
            let ghost before = self.view();
            match self.pool.pop_front() {
                Option::Some(v) => {
                    let mut v = v;
                    v.reserve(new_capacity);
                    self.pool.push_back(v);
                    proof {
                        assert(v@ == before[0]);
                        assert forall|k: int|
                            0 <= k < self.view().len() implies #[trigger] self.view()[k].len()
                            == 0 by {
                            if k < self.view().len() - 1 {
                                assert(self.view()[k] == before[k + 1]);
                            } else {
                                assert(self.view()[k] == v@);
                            }
                        }
                    }
                },
                Option::None => {
                    proof {
                        assert(false);
                    }
                },
            }
            i += 1;
        }
        proof {
            assert(self.view() =~~= snapshot);
        }
    }
}

} // verus!

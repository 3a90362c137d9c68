//! Fixed-capacity, insertion-ordered buffer with FIFO eviction.
use vstd::prelude::*;

verus! {

/// The last `cap` elements of `s` (all of `s` when it is shorter).
pub open spec fn keep_last<T>(s: Seq<T>, cap: nat) -> Seq<T> {
    if s.len() > cap {
        s.subrange(s.len() - cap, s.len() as int)
    } else {
        s
    }
}

/// Contents after appending `x` to a buffer holding `s` with capacity `cap`.
pub open spec fn append_spec<T>(s: Seq<T>, x: T, cap: nat) -> Seq<T> {
    keep_last(s.push(x), cap)
}

/// Contents after appending every element of `xs`, in order.
pub open spec fn append_all<T>(s: Seq<T>, xs: Seq<T>, cap: nat) -> Seq<T>
    decreases xs.len(),
{
    if xs.len() == 0 {
        s
    } else {
        append_spec(append_all(s, xs.drop_last(), cap), xs.last(), cap)
    }
}

/// A buffer that keeps at most `cap` items; appending past the bound
/// evicts the oldest item.
pub struct BoundedBuffer<T> {
    items: Vec<T>,
    cap: usize,
}

impl<T> View for BoundedBuffer<T> {
    type V = Seq<T>;

    closed spec fn view(&self) -> Seq<T> {
        self.items@
    }
}

impl<T> BoundedBuffer<T> {
    pub closed spec fn spec_capacity(&self) -> nat {
        self.cap as nat
    }

    /// The buffer never holds more than its capacity, which is positive.
    pub closed spec fn wf(&self) -> bool {
        &&& self.cap > 0
        &&& self.items@.len() <= self.cap
    }

    /// A well-formed buffer holds at most its capacity.
    pub proof fn lemma_within_capacity(&self)
        requires
            self.wf(),
        ensures
            self@.len() <= self.spec_capacity(),
            self.spec_capacity() > 0,
    {
    }

    pub fn new(cap: usize) -> (r: Self)
        requires
            cap > 0,
        ensures
            r.wf(),
            r@ == Seq::<T>::empty(),
            r.spec_capacity() == cap,
    {
        BoundedBuffer { items: Vec::new(), cap }
    }

    pub fn capacity(&self) -> (r: usize)
        ensures
            r == self.spec_capacity(),
    {
        self.cap
    }

    pub fn len(&self) -> (r: usize)
        requires
            self.wf(),
        ensures
            r == self@.len(),
            r <= self.spec_capacity(),
    {
        self.items.len()
    }

    pub fn as_slice(&self) -> (r: &[T])
        ensures
            r@ == self@,
    {
        self.items.as_slice()
    }

    /// Inserts `x` at the end, evicting the oldest item when the bound would
    /// be exceeded.
    pub fn append(&mut self, x: T)
        requires
            old(self).wf(),
        ensures
            final(self).wf(),
            final(self).spec_capacity() == old(self).spec_capacity(),
            final(self)@ == append_spec(old(self)@, x, old(self).spec_capacity()),
    {
        let ghost before = self.items@;
        if self.items.len() >= self.cap {
            self.items.remove(0);
        }
        self.items.push(x);
        proof {
            let t = before.push(x);
            if t.len() > self.cap {
                assert(self.items@ =~= t.subrange(t.len() - self.cap, t.len() as int));
            } else {
                assert(self.items@ =~= t);
            }
        }
    }
}

/// Appending the items of `xs` one by one leaves exactly the last `cap`
/// items of the old contents followed by `xs`, in the order they were appended.
pub proof fn lemma_append_all_keeps_last<T>(s: Seq<T>, xs: Seq<T>, cap: nat)
    requires
        cap > 0,
        s.len() <= cap,
    ensures
        append_all(s, xs, cap) == keep_last(s + xs, cap),
    decreases xs.len(),
{
    if xs.len() == 0 {
        assert(s + xs =~= s);
    } else {
        let init = xs.drop_last();
        lemma_append_all_keeps_last(s, init, cap);
        let p = keep_last(s + init, cap);
        let full = s + xs;
        assert(full =~= (s + init).push(xs.last()));
        let q = p.push(xs.last());
        if full.len() > cap {
            assert(keep_last(q, cap) =~= full.subrange(full.len() - cap, full.len() as int));
        } else {
            assert(keep_last(q, cap) =~= full);
        }
    }
}

/// Once more items have been appended than the buffer holds, it holds exactly
/// `cap` items: the most recently appended ones, in arrival order.
pub proof fn lemma_overflow_keeps_newest<T>(s: Seq<T>, xs: Seq<T>, cap: nat)
    requires
        cap > 0,
        s.len() <= cap,
        xs.len() >= cap,
    ensures
        append_all(s, xs, cap).len() == cap,
        append_all(s, xs, cap) == xs.subrange(xs.len() - cap, xs.len() as int),
{
    lemma_append_all_keeps_last(s, xs, cap);
    let full = s + xs;
    assert(full.subrange(full.len() - cap, full.len() as int) =~= xs.subrange(
        xs.len() - cap,
        xs.len() as int,
    ));
}

} // verus!

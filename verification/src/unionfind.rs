use vstd::prelude::*;
use crate::value::Value;

verus! {

/// A model of the engine's union-find service, kept fully compressed: every
/// id maps directly to its current representative.
pub struct UnionFind {
    pub reps: Vec<u64>,
}

impl UnionFind {
    /// Number of ids issued so far.
    pub open spec fn n(&self) -> nat {
        self.reps@.len()
    }

    /// Every id's representative is itself a representative.
    pub open spec fn wf(&self) -> bool {
        forall|i: int|
            0 <= i < self.reps@.len() ==> #[trigger] self.reps@[i] < self.reps@.len()
                && self.reps@[self.reps@[i] as int] == self.reps@[i]
    }

    pub open spec fn spec_valid(&self, v: Value) -> bool {
        v.bits < self.n()
    }

    /// The current representative of a valid id.
    pub open spec fn rep(&self, v: Value) -> Value {
        Value { bits: self.reps@[v.bits as int] }
    }

    pub fn new() -> (r: UnionFind)
        ensures
            r.wf(),
            r.n() == 0,
    {
        UnionFind { reps: Vec::new() }
    }

    /// Issue a fresh id that is its own representative.
    pub fn make_set(&mut self) -> (r: Value)
        requires
            old(self).wf(),
            old(self).n() < u64::MAX,
        ensures
            final(self).wf(),
            r.bits == old(self).n(),
            final(self).reps@ == old(self).reps@.push(r.bits),
            final(self).rep(r) == r,
            forall|v: Value| old(self).spec_valid(v) ==> #[trigger] final(self).rep(v) == old(self).rep(v),
    {
        let n = self.reps.len();
        let id = n as u64;
        self.reps.push(id);
        Value { bits: id }
    }

    /// Representative lookup.
    pub fn find(&self, v: Value) -> (r: Value)
        requires
            self.wf(),
            self.spec_valid(v),
        ensures
            r == self.rep(v),
            self.spec_valid(r),
            self.rep(r) == r,
    {
        let n = self.reps.len();
        let i = v.bits as usize;
        Value { bits: self.reps[i] }
    }

    /// Merge the classes of `a` and `b`: afterwards every id whose
    /// representative was `rep(a)` points at `rep(b)`, and nothing else moves.
    pub fn union(&mut self, a: Value, b: Value)
        requires
            old(self).wf(),
            old(self).spec_valid(a),
            old(self).spec_valid(b),
        ensures
            final(self).wf(),
            final(self).n() == old(self).n(),
            forall|v: Value|
                old(self).spec_valid(v) ==> #[trigger] final(self).rep(v) == (if old(self).rep(v)
                    == old(self).rep(a) {
                    old(self).rep(b)
                } else {
                    old(self).rep(v)
                }),
    {
        let ra = self.find(a);
        let rb = self.find(b);
        let n = self.reps.len();
        let mut i: usize = 0;
        while i < n
            invariant
                n == self.reps@.len(),
                0 <= i <= n,
                old(self).wf(),
                old(self).spec_valid(a),
                old(self).spec_valid(b),
                ra == old(self).rep(a),
                rb == old(self).rep(b),
                ra.bits < n,
                rb.bits < n,
                forall|j: int|
                    0 <= j < i ==> #[trigger] self.reps@[j] == (if old(self).reps@[j] == ra.bits {
                        rb.bits
                    } else {
                        old(self).reps@[j]
                    }),
                forall|j: int| i <= j < n ==> #[trigger] self.reps@[j] == old(self).reps@[j],
            decreases n - i,
        {
            if self.reps[i] == ra.bits {
                self.reps.set(i, rb.bits);
            }
            i += 1;
        }
        proof {
            assert(old(self).reps@[ra.bits as int] == ra.bits);
            assert(old(self).reps@[rb.bits as int] == rb.bits);
            assert forall|j: int| 0 <= j < n implies #[trigger] self.reps@[j] < n
                && self.reps@[self.reps@[j] as int] == self.reps@[j] by {
                assert(old(self).reps@[j] < n);
                if old(self).reps@[j] == ra.bits {
                    assert(self.reps@[j] == rb.bits);
                } else {
                    assert(self.reps@[j] == old(self).reps@[j]);
                    assert(old(self).reps@[self.reps@[j] as int] == self.reps@[j]);
                }
            }
            assert forall|v: Value| old(self).spec_valid(v) implies #[trigger] self.rep(v) == (
            if old(self).rep(v) == old(self).rep(a) {
                old(self).rep(b)
            } else {
                old(self).rep(v)
            }) by {
                assert(self.reps@[v.bits as int] == (if old(self).reps@[v.bits as int] == ra.bits {
                    rb.bits
                } else {
                    old(self).reps@[v.bits as int]
                }));
            }
        }
    }
}

} // verus!

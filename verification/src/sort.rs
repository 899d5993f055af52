use vstd::prelude::*;
use crate::value::{Sort, SortKind, Symbol, Value, PRESORT_NAME_SYM, CTOR_NAME_SYM, APPLY_NAME_SYM};
use crate::unionfind::UnionFind;

verus! {

/// The mathematical model of one interned store entry: a function name and
/// its ordered partially applied arguments, each paired with its sort.
pub ghost struct EntryModel {
    pub name: Symbol,
    pub args: Seq<(Sort, Value)>,
}

impl EntryModel {
    /// Identity of an entry: the name and the child handles. The sort
    /// references are excluded, since each child handle already encodes
    /// enough identity for its own sort.
    pub open spec fn key(self) -> (Symbol, Seq<Value>) {
        (self.name, self.args.map_values(|p: (Sort, Value)| p.1))
    }
}

/// Whether some entry of `s` has identity `k`.
pub open spec fn has_key(s: Seq<EntryModel>, k: (Symbol, Seq<Value>)) -> bool {
    exists|i: int| 0 <= i < s.len() && #[trigger] s[i].key() == k
}

/// The index of the entry of `s` with identity `k` (unique when the store is
/// deduplicated).
pub open spec fn key_index(s: Seq<EntryModel>, k: (Symbol, Seq<Value>)) -> int {
    choose|i: int| 0 <= i < s.len() && #[trigger] s[i].key() == k
}

/// No two entries share an identity.
pub open spec fn entries_distinct(s: Seq<EntryModel>) -> bool {
    forall|i: int, j: int| 0 <= i < j < s.len() ==> #[trigger] s[i].key() != #[trigger] s[j].key()
}

/// The store after an insert-or-find of `v`: unchanged when an entry with
/// `v`'s identity exists, otherwise extended by `v` at the end.
pub open spec fn store_entries(s: Seq<EntryModel>, v: EntryModel) -> Seq<EntryModel> {
    if has_key(s, v.key()) {
        s
    } else {
        s.push(v)
    }
}

/// The handle an insert-or-find of `v` returns: the existing entry's index
/// when one matches, otherwise the index of the appended entry.
pub open spec fn store_handle(s: Seq<EntryModel>, v: EntryModel) -> int {
    if has_key(s, v.key()) {
        key_index(s, v.key())
    } else {
        s.len() as int
    }
}

/// In a deduplicated store, any index holding identity `k` is the one
/// `key_index` names.
pub proof fn lemma_key_index_unique(s: Seq<EntryModel>, k: (Symbol, Seq<Value>), i: int)
    requires
        entries_distinct(s),
        0 <= i < s.len(),
        s[i].key() == k,
    ensures
        has_key(s, k),
        key_index(s, k) == i,
{
    assert(has_key(s, k));
    let j = key_index(s, k);
    assert(0 <= j < s.len() && s[j].key() == k);
    if i < j {
        assert(s[i].key() != s[j].key());
    } else if j < i {
        assert(s[j].key() != s[i].key());
    }
}

/// A function value: a function name and a list of partially applied
/// arguments, each paired with the sort it belongs to.
#[derive(Debug)]
pub struct ValueFunction {
    pub name: Symbol,
    pub args: Vec<(Sort, Value)>,
}

impl View for ValueFunction {
    type V = EntryModel;

    open spec fn view(&self) -> EntryModel {
        EntryModel { name: self.name, args: self.args@ }
    }
}

impl ValueFunction {
    /// The identity of this value without the sort references: the name and
    /// the bare child handles. The child handles carry the sort identity
    /// anyway.
    pub fn hashable(&self) -> (r: (Symbol, Vec<Value>))
        ensures
            (r.0, r.1@) == self@.key(),
    {
        let mut vals: Vec<Value> = Vec::new();
        let n = self.args.len();
        let mut i: usize = 0;
        while i < n
            invariant
                n == self.args@.len(),
                0 <= i <= n,
                vals@.len() == i,
                forall|j: int| 0 <= j < i ==> vals@[j] == self.args@[j].1,
            decreases n - i,
        {
            vals.push(self.args[i].1);
            i += 1;
        }
        proof {
            assert(vals@ =~= self@.key().1);
        }
        (self.name, vals)
    }

    /// Identity comparison, the relation the store deduplicates under.
    pub fn key_eq(&self, other: &ValueFunction) -> (r: bool)
        ensures
            r == (self@.key() == other@.key()),
    {
        if self.name.id != other.name.id {
            return false;
        }
        let n = self.args.len();
        if n != other.args.len() {
            proof {
                assert(self@.key().1.len() != other@.key().1.len());
            }
            return false;
        }
        let mut i: usize = 0;
        while i < n
            invariant
                n == self.args@.len(),
                n == other.args@.len(),
                0 <= i <= n,
                forall|j: int| 0 <= j < i ==> self.args@[j].1 == other.args@[j].1,
            decreases n - i,
        {
            if self.args[i].1.bits != other.args[i].1.bits {
                proof {
                    assert(self@.key().1[i as int] != other@.key().1[i as int]);
                }
                return false;
            }
            i += 1;
        }
        proof {
            assert(self@.key().1 =~= other@.key().1);
        }
        true
    }
}

impl PartialEq for ValueFunction {
    /// Two function values are equal exactly when their identities agree;
    /// the stored sort references play no part.
    fn eq(&self, other: &ValueFunction) -> (r: bool) {
        self.key_eq(other)
    }
}

impl Eq for ValueFunction {

}

impl vstd::std_specs::cmp::PartialEqSpecImpl for ValueFunction {
    open spec fn obeys_eq_spec() -> bool {
        true
    }

    open spec fn eq_spec(&self, other: &ValueFunction) -> bool {
        self@.key() == other@.key()
    }
}

/// Whether a child pair is a nested value of this very declaration: a
/// function-sort child bearing this sort's own name.
pub open spec fn own_child(name: Symbol, p: (Sort, Value)) -> bool {
    p.0.kind is Function && p.0.name == name
}

/// Every nested child of this declaration points below `bound`: children are
/// always stored before the values holding them.
pub open spec fn entry_children_bounded(name: Symbol, e: EntryModel, bound: int) -> bool {
    forall|j: int|
        0 <= j < e.args.len() && own_child(name, #[trigger] e.args[j]) ==> e.args[j].1.bits < bound
}

/// An entry with no nested value of its own declaration.
pub open spec fn flat_entry(name: Symbol, e: EntryModel) -> bool {
    forall|j: int| 0 <= j < e.args.len() ==> !own_child(name, #[trigger] e.args[j])
}

/// A declared function sort: its name, the declared remaining input sorts,
/// the output sort, and its interned store of function values. The declared
/// sorts never change after creation; only the store grows.
#[derive(Debug)]
pub struct FunctionSort {
    pub name: Symbol,
    pub inputs: Vec<Sort>,
    pub output: Sort,
    pub functions: Vec<ValueFunction>,
}

impl FunctionSort {
    /// The store's contents as a sequence of entry models.
    pub open spec fn entries(&self) -> Seq<EntryModel> {
        Seq::new(self.functions@.len(), |i: int| self.functions@[i]@)
    }

    /// The store is deduplicated, and every entry's nested children of this
    /// same declaration were stored before it.
    pub open spec fn wf(&self) -> bool {
        &&& entries_distinct(self.entries())
        &&& forall|i: int|
            0 <= i < self.entries().len() ==> entry_children_bounded(
                self.name,
                #[trigger] self.entries()[i],
                i,
            )
    }

    /// Every equality-sort child of every entry is a valid union-find id.
    pub open spec fn uf_ok(&self, uf: UnionFind) -> bool {
        forall|i: int|
            0 <= i < self.entries().len() ==> entry_uf_valid(#[trigger] self.entries()[i], uf)
    }

    /// The sort reference under which values of this declaration travel.
    pub open spec fn spec_sort(&self) -> Sort {
        Sort { name: self.name, kind: SortKind::Function }
    }

    pub fn new(name: Symbol, inputs: Vec<Sort>, output: Sort) -> (r: FunctionSort)
        ensures
            r.wf(),
            r.name == name,
            r.inputs@ == inputs@,
            r.output == output,
            r.entries().len() == 0,
    {
        FunctionSort { name, inputs, output, functions: Vec::new() }
    }

    /// The sort reference for this declaration.
    pub fn sort_ref(&self) -> (r: Sort)
        ensures
            r == self.spec_sort(),
    {
        Sort { name: self.name, kind: SortKind::Function }
    }

    /// The declared name of this sort.
    pub fn name(&self) -> (r: Symbol)
        ensures
            r == self.name,
    {
        self.name
    }

    /// The keyword under which this sort family is declared.
    pub fn presort_name() -> (r: Symbol)
        ensures
            r == (Symbol { id: PRESORT_NAME_SYM }),
    {
        Symbol { id: PRESORT_NAME_SYM }
    }

    /// The two primitive names every declaration of this family reserves.
    pub fn reserved_primitives() -> (r: Vec<Symbol>)
        ensures
            r@ == seq![(Symbol { id: CTOR_NAME_SYM }), (Symbol { id: APPLY_NAME_SYM })],
    {
        let mut v: Vec<Symbol> = Vec::new();
        v.push(Symbol { id: CTOR_NAME_SYM });
        v.push(Symbol { id: APPLY_NAME_SYM });
        proof {
            assert(v@ =~= seq![(Symbol { id: CTOR_NAME_SYM }), (Symbol { id: APPLY_NAME_SYM })]);
        }
        v
    }

    /// This sort owns nested child values requiring traversal.
    pub fn is_container_sort(&self) -> (r: bool)
        ensures
            r,
    {
        true
    }

    /// Whether instances must take part in rebuild-time canonicalization:
    /// true exactly when some declared input sort is an equality sort.
    pub fn is_eq_container_sort(&self) -> (r: bool)
        ensures
            r == exists|i: int| 0 <= i < self.inputs@.len() && (#[trigger] self.inputs@[i].kind) is Eq,
    {
        let n = self.inputs.len();
        let mut i: usize = 0;
        while i < n
            invariant
                n == self.inputs@.len(),
                0 <= i <= n,
                forall|j: int| 0 <= j < i ==> !((#[trigger] self.inputs@[j].kind) is Eq),
            decreases n - i,
        {
            if self.inputs[i].is_eq_sort() {
                return true;
            }
            i += 1;
        }
        false
    }

    /// O(1) indexed retrieval of a stored function value.
    pub fn get_value(&self, value: &Value) -> (r: ValueFunction)
        requires
            value.bits < self.entries().len(),
        ensures
            r@ == self.entries()[value.bits as int],
    {
        let len = self.functions.len();
        proof {
            assert(value.bits < len as u64);
        }
        let i = value.bits as usize;
        let vf = &self.functions[i];
        let n = vf.args.len();
        let mut args: Vec<(Sort, Value)> = Vec::new();
        let mut j: usize = 0;
        while j < n
            invariant
                n == vf.args@.len(),
                0 <= j <= n,
                args@.len() == j,
                forall|k: int| 0 <= k < j ==> args@[k] == vf.args@[k],
            decreases n - j,
        {
            args.push(vf.args[j]);
            j += 1;
        }
        proof {
            assert(args@ =~= vf.args@);
        }
        ValueFunction { name: vf.name, args }
    }

    /// The serialization header for a stored value: its function name.
    pub fn serialized_name(&self, value: &Value) -> (r: Symbol)
        requires
            value.bits < self.entries().len(),
        ensures
            r == self.entries()[value.bits as int].name,
    {
        let len = self.functions.len();
        proof {
            assert(value.bits < len as u64);
        }
        let i = value.bits as usize;
        self.functions[i].name
    }

    /// The ordered child values of a stored value, each paired with its
    /// sort: the sole traversal primitive generic recursive operations need.
    pub fn inner_values(&self, value: &Value) -> (r: Vec<(Sort, Value)>)
        requires
            value.bits < self.entries().len(),
        ensures
            r@ == self.entries()[value.bits as int].args,
    {
        let vf = self.get_value(value);
        vf.args
    }
}

impl ValueFunction {
    /// Insert-or-find against the sort's interned store: returns the existing
    /// handle when a value with the same identity is already present, and
    /// otherwise appends this value and returns the new index. The store only
    /// ever grows.
    pub fn store(self, sort: &mut FunctionSort) -> (r: Option<Value>)
        requires
            old(sort).wf(),
            entry_children_bounded(old(sort).name, self@, old(sort).entries().len() as int),
        ensures
            final(sort).wf(),
            final(sort).name == old(sort).name,
            final(sort).inputs@ == old(sort).inputs@,
            final(sort).output == old(sort).output,
            final(sort).entries() == store_entries(old(sort).entries(), self@),
            r == Some((Value { bits: store_handle(old(sort).entries(), self@) as u64 })),
    {
        let n = sort.functions.len();
        let mut i: usize = 0;
        while i < n
            invariant
                n == sort.functions@.len(),
                0 <= i <= n,
                *sort == *old(sort),
                old(sort).wf(),
                entry_children_bounded(old(sort).name, self@, n as int),
                forall|j: int| 0 <= j < i ==> #[trigger] sort.entries()[j].key() != self@.key(),
            decreases n - i,
        {
            if self.key_eq(&sort.functions[i]) {
                proof {
                    assert(sort.entries()[i as int].key() == self@.key());
                    lemma_key_index_unique(sort.entries(), self@.key(), i as int);
                }
                return Some(Value { bits: i as u64 });
            }
            proof {
                assert(sort.entries()[i as int] == sort.functions@[i as int]@);
            }
            i += 1;
        }
        proof {
            assert(!has_key(sort.entries(), self@.key()));
        }
        let ghost pre = sort.entries();
        sort.functions.push(self);
        proof {
            assert(sort.entries() =~= pre.push(self@));
            assert forall|i0: int, j0: int| 0 <= i0 < j0 < sort.entries().len() implies #[trigger] sort.entries()[i0].key() != #[trigger] sort.entries()[j0].key() by {
                if j0 < pre.len() {
                    assert(pre[i0].key() != pre[j0].key());
                } else {
                    assert(sort.entries()[j0] == self@);
                    assert(pre[i0].key() != self@.key());
                }
            }
            assert forall|i0: int| 0 <= i0 < sort.entries().len() implies entry_children_bounded(
                sort.name,
                #[trigger] sort.entries()[i0],
                i0,
            ) by {
                if i0 < pre.len() {
                    assert(entry_children_bounded(old(sort).name, pre[i0], i0));
                } else {
                    assert(sort.entries()[i0] == self@);
                }
            }
        }
        Some(Value { bits: n as u64 })
    }

    /// Indexed retrieval: the inverse direction of `store`.
    pub fn load(sort: &FunctionSort, value: &Value) -> (r: ValueFunction)
        requires
            value.bits < sort.entries().len(),
        ensures
            r@ == sort.entries()[value.bits as int],
    {
        sort.get_value(value)
    }
}

/// Dedup law: after storing `a`, storing a value with the same identity
/// returns the same handle and leaves the store unchanged, while a value
/// with a different identity gets a different handle.
pub proof fn lemma_store_dedup(s: Seq<EntryModel>, a: EntryModel, b: EntryModel)
    requires
        entries_distinct(s),
    ensures
        a.key() == b.key() ==> store_handle(store_entries(s, a), b) == store_handle(s, a)
            && store_entries(store_entries(s, a), b) == store_entries(s, a),
        a.key() != b.key() ==> store_handle(store_entries(s, a), b) != store_handle(s, a),
{
    lemma_store_preserves_distinct(s, a);
    let s1 = store_entries(s, a);
    let ha = store_handle(s, a);
    assert(0 <= ha < s1.len() && s1[ha].key() == a.key()) by {
        if has_key(s, a.key()) {
            let i = key_index(s, a.key());
            assert(0 <= i < s.len() && s[i].key() == a.key());
        }
    }
    if a.key() == b.key() {
        lemma_key_index_unique(s1, b.key(), ha);
        assert(has_key(s1, b.key()));
    } else {
        let hb = store_handle(s1, b);
        if has_key(s1, b.key()) {
            assert(0 <= hb < s1.len() && s1[hb].key() == b.key());
            assert(s1[ha].key() != s1[hb].key() ==> ha != hb);
        } else {
            assert(hb == s1.len());
        }
    }
}

/// Storing preserves deduplication.
pub proof fn lemma_store_preserves_distinct(s: Seq<EntryModel>, v: EntryModel)
    requires
        entries_distinct(s),
    ensures
        entries_distinct(store_entries(s, v)),
        0 <= store_handle(s, v) < store_entries(s, v).len(),
        store_entries(s, v)[store_handle(s, v)].key() == v.key(),
{
    let s1 = store_entries(s, v);
    if has_key(s, v.key()) {
        let i = key_index(s, v.key());
        assert(0 <= i < s.len() && s[i].key() == v.key());
    } else {
        assert forall|i0: int, j0: int| 0 <= i0 < j0 < s1.len() implies #[trigger] s1[i0].key()
            != #[trigger] s1[j0].key() by {
            if j0 < s.len() {
                assert(s[i0].key() != s[j0].key());
            } else {
                assert(s1[j0] == v);
                assert(!(0 <= i0 < s.len() && s[i0].key() == v.key()) ==> s[i0].key() != v.key());
            }
        }
    }
}

/// Append-only law: an insert-or-find never deletes or mutates an existing
/// entry; the store before is always a prefix of the store after, so
/// already-issued handles keep their meaning.
pub proof fn lemma_store_append_only(s: Seq<EntryModel>, v: EntryModel)
    ensures
        store_entries(s, v).len() >= s.len(),
        forall|i: int| 0 <= i < s.len() ==> #[trigger] store_entries(s, v)[i] == s[i],
{
}

/// Round-trip law: loading the handle `store` returned gives back a value
/// with the stored identity, and exactly the stored value when it was new.
pub proof fn lemma_load_store_roundtrip(s: Seq<EntryModel>, v: EntryModel)
    requires
        entries_distinct(s),
    ensures
        store_entries(s, v)[store_handle(s, v)].key() == v.key(),
        !has_key(s, v.key()) ==> store_entries(s, v)[store_handle(s, v)] == v,
{
    lemma_store_preserves_distinct(s, v);
}

/// One child after canonicalization: an equality-sort child moves to its
/// union-find representative; any other child is untouched.
pub open spec fn canon_pair(uf: UnionFind, p: (Sort, Value)) -> (Sort, Value) {
    if p.0.kind is Eq {
        (p.0, uf.rep(p.1))
    } else {
        p
    }
}

/// All children after canonicalization, in order.
pub open spec fn canon_args(uf: UnionFind, args: Seq<(Sort, Value)>) -> Seq<(Sort, Value)> {
    args.map_values(|p: (Sort, Value)| canon_pair(uf, p))
}

/// Every equality-sort child of the entry is a valid union-find id.
pub open spec fn entry_uf_valid(e: EntryModel, uf: UnionFind) -> bool {
    forall|j: int| 0 <= j < e.args.len() && (#[trigger] e.args[j]).0.kind is Eq ==> uf.spec_valid(e.args[j].1)
}

impl FunctionSort {
    /// Rebuild-time canonicalization: map every equality-sort child of the
    /// stored value to its union-find representative, canonicalize every
    /// nested value of this same declaration recursively, re-store the
    /// (possibly updated) tuple, overwrite the caller's handle with the new
    /// store result, and report whether anything moved. The store is
    /// append-only: every old entry keeps its handle, and for a value whose
    /// children carry no nesting the outcome is pinned exactly.
    pub fn canonicalize(&mut self, value: &mut Value, unionfind: &UnionFind) -> (changed: bool)
        requires
            old(self).wf(),
            old(value).bits < old(self).entries().len(),
            unionfind.wf(),
            old(self).uf_ok(*unionfind),
        ensures
            final(self).wf(),
            final(self).name == old(self).name,
            final(self).inputs@ == old(self).inputs@,
            final(self).output == old(self).output,
            final(self).uf_ok(*unionfind),
            old(self).entries().len() <= final(self).entries().len(),
            forall|i: int|
                0 <= i < old(self).entries().len() ==> #[trigger] final(self).entries()[i] == old(
                self,
            ).entries()[i],
            final(value).bits < final(self).entries().len(),
            ({
                let e0 = old(self).entries()[old(value).bits as int];
                let e1 = final(self).entries()[final(value).bits as int];
                &&& e1.name == e0.name
                &&& e1.args.len() == e0.args.len()
                &&& (forall|j: int|
                    0 <= j < e0.args.len() && (#[trigger] e0.args[j]).0.kind is Eq ==> e1.args[j].1
                        == unionfind.rep(e0.args[j].1))
                &&& (forall|j: int|
                    0 <= j < e0.args.len() && !((#[trigger] e0.args[j]).0.kind is Eq) && !own_child(
                        old(self).name,
                        e0.args[j],
                    ) ==> e1.args[j].1 == e0.args[j].1)
                &&& ((exists|j: int|
                    0 <= j < e0.args.len() && (#[trigger] e0.args[j]).0.kind is Eq
                        && unionfind.rep(e0.args[j].1) != e0.args[j].1) ==> changed)
            }),
            ({
                let e0 = old(self).entries()[old(value).bits as int];
                let ce = (EntryModel { name: e0.name, args: canon_args(*unionfind, e0.args) });
                flat_entry(old(self).name, e0) ==> final(self).entries() == store_entries(
                    old(self).entries(),
                    ce,
                ) && final(value).bits == store_handle(old(self).entries(), ce) as u64 && changed
                    == (ce.args != e0.args)
            }),
    {
        let (h, changed) = self.canon_rec(*value, unionfind);
        *value = h;
        changed
    }

    /// One canonicalization pass over the value stored at `h`, recursing into
    /// children of this same declaration. Such children always sit at lower
    /// handles than the value holding them, which bounds the recursion.
    fn canon_rec(&mut self, h: Value, unionfind: &UnionFind) -> (r: (Value, bool))
        requires
            old(self).wf(),
            h.bits < old(self).entries().len(),
            unionfind.wf(),
            old(self).uf_ok(*unionfind),
        ensures
            final(self).wf(),
            final(self).name == old(self).name,
            final(self).inputs@ == old(self).inputs@,
            final(self).output == old(self).output,
            final(self).uf_ok(*unionfind),
            old(self).entries().len() <= final(self).entries().len(),
            forall|i: int|
                0 <= i < old(self).entries().len() ==> #[trigger] final(self).entries()[i] == old(
                self,
            ).entries()[i],
            r.0.bits < final(self).entries().len(),
            ({
                let e0 = old(self).entries()[h.bits as int];
                let e1 = final(self).entries()[r.0.bits as int];
                &&& e1.name == e0.name
                &&& e1.args.len() == e0.args.len()
                &&& (forall|j: int|
                    0 <= j < e0.args.len() && (#[trigger] e0.args[j]).0.kind is Eq ==> e1.args[j].1
                        == unionfind.rep(e0.args[j].1))
                &&& (forall|j: int|
                    0 <= j < e0.args.len() && !((#[trigger] e0.args[j]).0.kind is Eq) && !own_child(
                        old(self).name,
                        e0.args[j],
                    ) ==> e1.args[j].1 == e0.args[j].1)
                &&& ((exists|j: int|
                    0 <= j < e0.args.len() && (#[trigger] e0.args[j]).0.kind is Eq
                        && unionfind.rep(e0.args[j].1) != e0.args[j].1) ==> r.1)
            }),
            ({
                let e0 = old(self).entries()[h.bits as int];
                let ce = (EntryModel { name: e0.name, args: canon_args(*unionfind, e0.args) });
                flat_entry(old(self).name, e0) ==> final(self).entries() == store_entries(
                    old(self).entries(),
                    ce,
                ) && r.0.bits == store_handle(old(self).entries(), ce) as u64 && r.1 == (ce.args
                    != e0.args)
            }),
        decreases h.bits,
    {
        let vf = self.get_value(&h);
        let ghost e0 = old(self).entries()[h.bits as int];
        let ghost name0 = old(self).name;
        let n = vf.args.len();
        let mut args: Vec<(Sort, Value)> = Vec::new();
        let mut changed = false;
        let mut i: usize = 0;
        while i < n
            invariant
                unionfind.wf(),
                self.wf(),
                self.uf_ok(*unionfind),
                self.name == name0,
                self.inputs@ == old(self).inputs@,
                self.output == old(self).output,
                old(self).entries().len() <= self.entries().len(),
                forall|k: int|
                    0 <= k < old(self).entries().len() ==> #[trigger] self.entries()[k] == old(
                    self,
                    ).entries()[k],
                h.bits < old(self).entries().len(),
                e0 == old(self).entries()[h.bits as int],
                entry_children_bounded(name0, e0, h.bits as int),
                entry_uf_valid(e0, *unionfind),
                n == vf.args@.len(),
                vf@ == e0,
                0 <= i <= n,
                args@.len() == i,
                forall|j: int| 0 <= j < i ==> (#[trigger] args@[j]).0 == e0.args[j].0,
                forall|j: int|
                    0 <= j < i && (#[trigger] e0.args[j]).0.kind is Eq ==> args@[j].1
                        == unionfind.rep(e0.args[j].1) && unionfind.spec_valid(args@[j].1),
                forall|j: int|
                    0 <= j < i && !((#[trigger] e0.args[j]).0.kind is Eq) && !own_child(
                        name0,
                        e0.args[j],
                    ) ==> args@[j].1 == e0.args[j].1,
                forall|j: int|
                    0 <= j < i && own_child(name0, #[trigger] e0.args[j]) ==> args@[j].1.bits
                        < self.entries().len(),
                (exists|j: int|
                    0 <= j < i && (#[trigger] e0.args[j]).0.kind is Eq && unionfind.rep(
                        e0.args[j].1,
                    ) != e0.args[j].1) ==> changed,
                flat_entry(name0, e0) ==> (*self == *old(self) && (forall|j: int|
                    0 <= j < i ==> #[trigger] args@[j] == canon_pair(*unionfind, e0.args[j]))
                    && changed == (exists|j: int|
                    0 <= j < i && #[trigger] canon_pair(*unionfind, e0.args[j]) != e0.args[j])),
            decreases n - i,
        {
            let (s, v) = vf.args[i];
            if s.is_eq_sort() {
                let nv = unionfind.find(v);
                if nv.bits != v.bits {
                    changed = true;
                    proof {
                        assert(canon_pair(*unionfind, e0.args[i as int]) != e0.args[i as int]);
                    }
                }
                args.push((s, nv));
            } else if matches!(s.kind, SortKind::Function) && s.name.id == self.name.id {
                proof {
                    assert(own_child(name0, e0.args[i as int]));
                    assert(e0.args[i as int].1.bits < h.bits);
                }
                let (nv, ch) = self.canon_rec(v, unionfind);
                if ch {
                    changed = true;
                }
                args.push((s, nv));
            } else {
                args.push((s, v));
            }
            i += 1;
        }
        let nvf = ValueFunction { name: vf.name, args };
        let ghost pre = self.entries();
        proof {
            assert forall|j: int|
                0 <= j < nvf@.args.len() && own_child(self.name, #[trigger] nvf@.args[j]) implies
                nvf@.args[j].1.bits < pre.len() by {
                assert(nvf@.args[j].0 == e0.args[j].0);
                assert(own_child(name0, e0.args[j]));
            }
            if flat_entry(name0, e0) {
                let ce = (EntryModel { name: e0.name, args: canon_args(*unionfind, e0.args) });
                assert(nvf@.args =~= ce.args);
                if changed {
                    let j = choose|j: int|
                        0 <= j < n && #[trigger] canon_pair(*unionfind, e0.args[j]) != e0.args[j];
                    assert(ce.args[j] != e0.args[j]);
                } else {
                    assert forall|j: int| 0 <= j < n implies #[trigger] ce.args[j]
                        == e0.args[j] by {
                        assert(canon_pair(*unionfind, e0.args[j]) == e0.args[j]);
                    }
                    assert(ce.args =~= e0.args);
                }
            }
        }
        let stored = nvf.store(self);
        let len_now = self.functions.len();
        proof {
            lemma_store_preserves_distinct(pre, nvf@);
            lemma_store_append_only(pre, nvf@);
            let hh = store_handle(pre, nvf@);
            assert(self.entries().len() == len_now as int);
            assert(0 <= hh < self.entries().len());
            let e1 = self.entries()[hh];
            assert(nvf@.args.len() == e0.args.len());
            assert(e1.key() == nvf@.key());
            assert(e1.name == e0.name);
            assert(e1.key().1.len() == e1.args.len());
            assert(nvf@.key().1.len() == nvf@.args.len());
            assert forall|j: int| 0 <= j < e0.args.len() implies #[trigger] e1.args[j].1
                == nvf@.args[j].1 by {
                assert(e1.key().1[j] == e1.args[j].1);
                assert(nvf@.key().1[j] == nvf@.args[j].1);
            }
            assert forall|i0: int| 0 <= i0 < self.entries().len() implies entry_uf_valid(
                #[trigger] self.entries()[i0],
                *unionfind,
            ) by {
                if i0 < pre.len() {
                    assert(entry_uf_valid(pre[i0], *unionfind));
                } else {
                    assert(self.entries()[i0] == nvf@);
                    assert forall|j: int|
                        0 <= j < nvf@.args.len() && (#[trigger] nvf@.args[j]).0.kind
                            is Eq implies unionfind.spec_valid(nvf@.args[j].1) by {
                        assert(nvf@.args[j].0 == e0.args[j].0);
                    }
                }
            }
        }
        match stored {
            Some(hh) => {
                proof {
                    assert(hh.bits == store_handle(pre, nvf@) as u64);
                    assert(hh.bits as int == store_handle(pre, nvf@));
                }
                (hh, changed)
            },
            None => {
                proof {
                    assert(false);
                }
                (h, changed)
            },
        }
    }
}

/// Fixed-point law: re-storing an already-canonical entry finds the entry
/// itself, so the handle and the store both stay as they were (and the
/// re-store reports "unchanged", since its children do not move).
pub proof fn lemma_canonical_fixed_point(s: Seq<EntryModel>, uf: UnionFind, h: int)
    requires
        entries_distinct(s),
        0 <= h < s.len(),
        canon_args(uf, s[h].args) == s[h].args,
    ensures
        ({
            let ce = (EntryModel { name: s[h].name, args: canon_args(uf, s[h].args) });
            store_entries(s, ce) == s && store_handle(s, ce) == h
        }),
{
    let ce = (EntryModel { name: s[h].name, args: canon_args(uf, s[h].args) });
    assert(ce == s[h]);
    lemma_key_index_unique(s, ce.key(), h);
}

/// Convergence law: canonicalization is idempotent on children, because a
/// union-find representative is its own representative. In particular every
/// equality-sort child of a canonicalized entry is its representative.
pub proof fn lemma_canonicalize_converges(uf: UnionFind, args: Seq<(Sort, Value)>)
    requires
        uf.wf(),
        forall|j: int| 0 <= j < args.len() && (#[trigger] args[j]).0.kind is Eq ==> uf.spec_valid(
            args[j].1,
        ),
    ensures
        canon_args(uf, canon_args(uf, args)) == canon_args(uf, args),
        forall|j: int|
            0 <= j < args.len() && (#[trigger] args[j]).0.kind is Eq ==> canon_args(uf, args)[j].1
                == uf.rep(args[j].1),
{
    let c1 = canon_args(uf, args);
    assert forall|j: int| 0 <= j < c1.len() implies #[trigger] canon_args(uf, c1)[j] == c1[j] by {
        if args[j].0.kind is Eq {
            let v = args[j].1;
            assert(uf.reps@[uf.reps@[v.bits as int] as int] == uf.reps@[v.bits as int]);
            assert(uf.rep(uf.rep(v)) == uf.rep(v));
        }
    }
    assert(canon_args(uf, c1) =~= c1);
}

/// Propagation law: if any equality-sort child is not at its representative,
/// the canonicalized child list differs from the stored one, so the
/// composite value is re-stored with updated children and reports "changed".
pub proof fn lemma_canonicalize_propagates(uf: UnionFind, args: Seq<(Sort, Value)>, j: int)
    requires
        0 <= j < args.len(),
        args[j].0.kind is Eq,
        uf.rep(args[j].1) != args[j].1,
    ensures
        canon_args(uf, args) != args,
{
    assert(canon_args(uf, args)[j] != args[j]);
}

} // verus!

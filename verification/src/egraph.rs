use vstd::prelude::*;
use crate::value::{Sort, Symbol, Value};
use crate::sort::{
    entries_distinct, lemma_store_preserves_distinct, store_entries, store_handle, EntryModel,
    FunctionSort,
};
use crate::typeinfo::{func_index, has_func, TypeInfo};
use crate::unionfind::UnionFind;

verus! {

/// One stored tuple of a table-backed callable: which callable it belongs
/// to, its argument values, and its output value.
pub struct Row {
    pub func: usize,
    pub args: Vec<Value>,
    pub out: Value,
}

/// The dynamic engine state the call bridge works against: the static type
/// information, the union-find, and the callables' stored tuples.
pub struct EGraph {
    pub type_info: TypeInfo,
    pub unionfind: UnionFind,
    pub rows: Vec<Row>,
}

/// The sorts of an entry's children, in order.
pub open spec fn child_sorts(args: Seq<(Sort, Value)>) -> Seq<Sort> {
    args.map_values(|p: (Sort, Value)| p.0)
}

/// The values of an entry's children, in order.
pub open spec fn child_values(args: Seq<(Sort, Value)>) -> Seq<Value> {
    args.map_values(|p: (Sort, Value)| p.1)
}

/// The full type list `apply` assembles for a stored value: the stored
/// partial-argument sorts, then the declared remaining inputs, then the
/// output sort.
pub open spec fn apply_types(e: EntryModel, fs: FunctionSort) -> Seq<Sort> {
    child_sorts(e.args) + fs.inputs@ + seq![fs.output]
}

/// Whether callable `fi` has a stored tuple for `args`.
pub open spec fn has_row(rows: Seq<Row>, fi: int, args: Seq<Value>) -> bool {
    exists|i: int|
        0 <= i < rows.len() && (#[trigger] rows[i]).func == fi && rows[i].args@ == args
}

/// The index of callable `fi`'s tuple for `args` (unique in a well-formed
/// state).
pub open spec fn row_index(rows: Seq<Row>, fi: int, args: Seq<Value>) -> int {
    choose|i: int|
        0 <= i < rows.len() && (#[trigger] rows[i]).func == fi && rows[i].args@ == args
}

impl EGraph {
    /// No callable stores two tuples for the same arguments, every tuple
    /// belongs to a known callable with the right arity, and the parts are
    /// themselves well-formed.
    pub open spec fn wf(&self) -> bool {
        &&& self.type_info.wf()
        &&& self.unionfind.wf()
        &&& forall|i: int, j: int|
            0 <= i < j < self.rows@.len() ==> !((#[trigger] self.rows@[i]).func == (
            #[trigger] self.rows@[j]).func && self.rows@[i].args@ == self.rows@[j].args@)
        &&& forall|i: int|
            0 <= i < self.rows@.len() ==> (#[trigger] self.rows@[i]).func
                < self.type_info.func_types@.len() && self.rows@[i].args@.len()
                == self.type_info.func_types@[self.rows@[i].func as int].input@.len()
    }
}

/// Whether `name` resolves, against the global signature table, to a callable
/// whose full signature is exactly the assembled type list.
pub open spec fn resolves(ti: TypeInfo, name: Symbol, types: Seq<Sort>) -> bool {
    &&& types.len() >= 1
    &&& has_func(ti.func_types@, name)
    &&& ti.func_types@[func_index(ti.func_types@, name)].input@ == types.drop_last()
    &&& ti.func_types@[func_index(ti.func_types@, name)].output == types.last()
}

/// The table index the call resolves to.
pub open spec fn call_fidx(pre: EGraph, name: Symbol) -> int {
    func_index(pre.type_info.func_types@, name)
}

/// Whether the resolved callable already has a tuple for these arguments.
pub open spec fn call_found(pre: EGraph, name: Symbol, args: Seq<Value>) -> bool {
    has_row(pre.rows@, call_fidx(pre, name), args)
}

/// A call is defined when the name resolves with the assembled types and
/// either a tuple exists or the output is an equality sort with room for a
/// fresh id; anything else is a fatal internal error upstream.
pub open spec fn call_defined(pre: EGraph, name: Symbol, types: Seq<Sort>, args: Seq<Value>) -> bool {
    &&& resolves(pre.type_info, name, types)
    &&& (call_found(pre, name, args) || (pre.type_info.func_types@[call_fidx(pre, name)].output.kind
        is Eq && pre.unionfind.n() < u64::MAX))
}

/// The value a defined call returns: the stored output when a tuple exists,
/// and otherwise a fresh equality id.
pub open spec fn call_value(pre: EGraph, name: Symbol, args: Seq<Value>) -> Value {
    if call_found(pre, name, args) {
        pre.rows@[row_index(pre.rows@, call_fidx(pre, name), args)].out
    } else {
        Value { bits: pre.unionfind.n() as u64 }
    }
}

/// How a defined call relates the engine state after to the state before:
/// a found tuple changes nothing; otherwise a fresh id is issued and one new
/// tuple is appended for the resolved callable, everything else untouched.
pub open spec fn call_post(
    pre: EGraph,
    post: EGraph,
    name: Symbol,
    args: Seq<Value>,
    r: Value,
) -> bool {
    &&& r == call_value(pre, name, args)
    &&& if call_found(pre, name, args) {
        post == pre
    } else {
        &&& post.type_info == pre.type_info
        &&& post.unionfind.reps@ == pre.unionfind.reps@.push(r.bits)
        &&& post.rows@.len() == pre.rows@.len() + 1
        &&& (forall|j: int| 0 <= j < pre.rows@.len() ==> post.rows@[j] == pre.rows@[j])
        &&& post.rows@.last().func == call_fidx(pre, name)
        &&& post.rows@.last().args@ == args
        &&& post.rows@.last().out == r
    }
}

fn values_eq(a: &Vec<Value>, b: &[Value]) -> (r: bool)
    ensures
        r == (a@ == b@),
{
    let n = a.len();
    if n != b.len() {
        proof {
            assert(a@.len() != b@.len());
        }
        return false;
    }
    let mut i: usize = 0;
    while i < n
        invariant
            n == a@.len(),
            n == b@.len(),
            0 <= i <= n,
            forall|j: int| 0 <= j < i ==> a@[j] == b@[j],
        decreases n - i,
    {
        if a[i].bits != b[i].bits {
            proof {
                assert(a@[i as int] != b@[i as int]);
            }
            return false;
        }
        i += 1;
    }
    proof {
        assert(a@ =~= b@);
    }
    true
}

/// Call the callable `name` with the assembled type list and argument
/// values, exactly as the engine would for an inline call in a rule body:
/// resolve the name against the signature table, then look the tuple up in
/// the resolved callable's storage, creating a fresh output id when the
/// output is an equality sort and no tuple exists yet.
pub fn call_fn(egraph: &mut EGraph, name: Symbol, types: Vec<Sort>, args: Vec<Value>) -> (r: Value)
    requires
        old(egraph).wf(),
        types@.len() == args@.len() + 1,
        call_defined(*old(egraph), name, types@, args@),
    ensures
        final(egraph).wf(),
        call_post(*old(egraph), *final(egraph), name, args@, r),
{
    let fi = match egraph.type_info.func_index_of(name) {
        Some(i) => i,
        None => {
            proof {
                assert(false);
            }
            0
        },
    };
    let n = egraph.rows.len();
    let mut i: usize = 0;
    while i < n
        invariant
            egraph.wf(),
            *egraph == *old(egraph),
            call_defined(*old(egraph), name, types@, args@),
            types@.len() == args@.len() + 1,
            n == egraph.rows@.len(),
            0 <= i <= n,
            fi == call_fidx(*old(egraph), name),
            fi < egraph.type_info.func_types@.len(),
            forall|j: int|
                0 <= j < i ==> !((#[trigger] egraph.rows@[j]).func == fi && egraph.rows@[j].args@
                    == args@),
        decreases n - i,
    {
        if egraph.rows[i].func == fi && values_eq(&egraph.rows[i].args, args.as_slice()) {
            proof {
                let k = row_index(egraph.rows@, fi as int, args@);
                assert(has_row(egraph.rows@, fi as int, args@));
                if k != i as int {
                    assert(!(egraph.rows@[k].func == egraph.rows@[i as int].func
                        && egraph.rows@[k].args@ == egraph.rows@[i as int].args@));
                }
            }
            return egraph.rows[i].out;
        }
        i += 1;
    }
    proof {
        assert(!call_found(*old(egraph), name, args@));
    }
    let fresh = egraph.unionfind.make_set();
    egraph.rows.push(Row { func: fi, args, out: fresh });
    proof {
        assert(egraph.rows@.last().args@ == args@);
        assert forall|i0: int, j0: int| 0 <= i0 < j0 < egraph.rows@.len() implies !((
        #[trigger] egraph.rows@[i0]).func == (#[trigger] egraph.rows@[j0]).func
            && egraph.rows@[i0].args@ == egraph.rows@[j0].args@) by {
            if j0 < old(egraph).rows@.len() {
                assert(!(old(egraph).rows@[i0].func == old(egraph).rows@[j0].func && old(
                    egraph,
                ).rows@[i0].args@ == old(egraph).rows@[j0].args@));
            } else {
                assert(egraph.rows@[j0].func == fi && egraph.rows@[j0].args@ == args@);
                assert(!(0 <= i0 < old(egraph).rows@.len() && old(egraph).rows@[i0].func == fi
                    && old(egraph).rows@[i0].args@ == args@));
            }
        }
    }
    fresh
}

impl FunctionSort {
    /// Apply a stored function value to the remaining arguments: read the
    /// stored name and partial arguments back, assemble the full type list
    /// and value list, and drive the very call the engine would make inline.
    pub fn apply(&self, fn_value: &Value, arg_values: &[Value], egraph: &mut EGraph) -> (r: Value)
        requires
            self.wf(),
            fn_value.bits < self.entries().len(),
            arg_values@.len() == self.inputs@.len(),
            old(egraph).wf(),
            ({
                let e = self.entries()[fn_value.bits as int];
                call_defined(
                    *old(egraph),
                    e.name,
                    apply_types(e, *self),
                    child_values(e.args) + arg_values@,
                )
            }),
        ensures
            final(egraph).wf(),
            ({
                let e = self.entries()[fn_value.bits as int];
                call_post(
                    *old(egraph),
                    *final(egraph),
                    e.name,
                    child_values(e.args) + arg_values@,
                    r,
                )
            }),
    {
        let vf = self.get_value(fn_value);
        let ghost e = self.entries()[fn_value.bits as int];
        let np = vf.args.len();
        let mut types: Vec<Sort> = Vec::new();
        let mut values: Vec<Value> = Vec::new();
        let mut i: usize = 0;
        while i < np
            invariant
                np == vf.args@.len(),
                vf@ == e,
                0 <= i <= np,
                types@.len() == i,
                values@.len() == i,
                forall|j: int| 0 <= j < i ==> types@[j] == vf.args@[j].0,
                forall|j: int| 0 <= j < i ==> values@[j] == vf.args@[j].1,
            decreases np - i,
        {
            let (s, v) = vf.args[i];
            types.push(s);
            values.push(v);
            i += 1;
        }
        let nd = self.inputs.len();
        let mut k: usize = 0;
        while k < nd
            invariant
                nd == self.inputs@.len(),
                np == vf.args@.len(),
                0 <= k <= nd,
                types@.len() == np + k,
                forall|j: int| 0 <= j < np ==> types@[j] == vf.args@[j].0,
                forall|j: int| 0 <= j < k ==> types@[np + j] == self.inputs@[j],
            decreases nd - k,
        {
            types.push(self.inputs[k]);
            k += 1;
        }
        types.push(self.output);
        let na = arg_values.len();
        let mut m: usize = 0;
        while m < na
            invariant
                na == arg_values@.len(),
                np == vf.args@.len(),
                0 <= m <= na,
                values@.len() == np + m,
                forall|j: int| 0 <= j < np ==> values@[j] == vf.args@[j].1,
                forall|j: int| 0 <= j < m ==> values@[np + j] == arg_values@[j],
            decreases na - m,
        {
            values.push(arg_values[m]);
            m += 1;
        }
        proof {
            assert(types@ =~= apply_types(e, *self));
            assert(values@ =~= child_values(e.args) + arg_values@);
        }
        call_fn(egraph, vf.name, types, values)
    }
}

/// Apply-semantics law: the handle the constructor returned reads back with
/// the stored name and exactly the stored child values — the sort references
/// play no part in a value's identity — so by `apply`'s and `call_fn`'s
/// contracts, applying `make-function(name, partial)` to the remaining
/// arguments performs the very call `name(partial ++ rest)` the engine would
/// make inline, with the same result and the same state change.
pub proof fn lemma_apply_semantics(s: Seq<EntryModel>, vf: EntryModel, rest: Seq<Value>)
    requires
        entries_distinct(s),
    ensures
        ({
            let s1 = store_entries(s, vf);
            let h = store_handle(s, vf);
            &&& s1[h].name == vf.name
            &&& child_values(s1[h].args) + rest == child_values(vf.args) + rest
        }),
{
    lemma_store_preserves_distinct(s, vf);
    let s1 = store_entries(s, vf);
    let h = store_handle(s, vf);
    assert(s1[h].key() == vf.key());
    assert(s1[h].key().1 == child_values(s1[h].args));
    assert(vf.key().1 == child_values(vf.args));
}

/// Resolution law: `call_value` and `call_post` take no type list at all, so
/// the result and state change of a defined call depend only on the
/// callable's name and the argument values; any other assembled type list
/// that also resolves leads to the same defined call.
pub proof fn lemma_call_types_irrelevant(
    pre: EGraph,
    name: Symbol,
    types1: Seq<Sort>,
    types2: Seq<Sort>,
    args: Seq<Value>,
)
    requires
        call_defined(pre, name, types1, args),
        resolves(pre.type_info, name, types2),
    ensures
        call_defined(pre, name, types2, args),
{
}

} // verus!

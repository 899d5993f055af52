use vstd::prelude::*;
use crate::value::{Sort, Symbol, Value, APPLY_NAME_SYM, CTOR_NAME_SYM};
use crate::sort::{
    entry_children_bounded, store_entries, store_handle, EntryModel, FunctionSort, ValueFunction,
};
use crate::typeinfo::{PrimKind, Primitive, TypeInfo};
use crate::constraint::{FunctionCTorTypeConstraint, SimpleTypeConstraint};
use crate::egraph::{apply_types, call_defined, call_post, child_values, EGraph};

verus! {

/// The model entry the constructor builds from a call's runtime values: the
/// first value carries the interned function name, and every further value
/// is paired with its resolved sort.
pub open spec fn ctor_entry(values: Seq<Value>, sorts: Seq<Sort>) -> EntryModel {
    EntryModel {
        name: Symbol { id: values[0].bits },
        args: Seq::new((values.len() - 1) as nat, |i: int| (sorts[i + 1], values[i + 1])),
    }
}

/// The constructor primitive: builds a function value from a name plus
/// partially applied arguments.
pub struct Ctor {
    pub name: Symbol,
}

impl Ctor {
    pub fn name(&self) -> (r: Symbol)
        ensures
            r == self.name,
    {
        self.name
    }

    /// The constructor's static constraint for call sites of this sort.
    pub fn get_type_constraints<'a>(&self, function: &'a FunctionSort) -> (r:
        FunctionCTorTypeConstraint<'a>)
        ensures
            r.name == self.name,
            r.function == function,
    {
        FunctionCTorTypeConstraint { name: self.name, function }
    }

    /// Runtime behaviour of the constructor, unconditional because the call
    /// site was already validated statically: pair each extra argument with
    /// its resolved sort, store the tuple, and return its handle.
    pub fn apply(&self, function: &mut FunctionSort, values: &Vec<Value>, sorts: &Vec<Sort>) -> (r:
        Option<Value>)
        requires
            old(function).wf(),
            values@.len() == sorts@.len(),
            values@.len() >= 1,
            entry_children_bounded(
                old(function).name,
                ctor_entry(values@, sorts@),
                old(function).entries().len() as int,
            ),
        ensures
            final(function).wf(),
            final(function).name == old(function).name,
            final(function).inputs@ == old(function).inputs@,
            final(function).output == old(function).output,
            ({
                let vf = ctor_entry(values@, sorts@);
                final(function).entries() == store_entries(old(function).entries(), vf) && r
                    == Some(
                    (Value { bits: store_handle(old(function).entries(), vf) as u64 }),
                )
            }),
    {
        let name = Symbol { id: values[0].bits };
        let n = values.len();
        let mut args: Vec<(Sort, Value)> = Vec::new();
        let mut i: usize = 1;
        while i < n
            invariant
                n == values@.len(),
                n == sorts@.len(),
                1 <= i <= n,
                args@.len() == i - 1,
                forall|j: int| 0 <= j < i - 1 ==> args@[j] == (sorts@[j + 1], values@[j + 1]),
            decreases n - i,
        {
            args.push((sorts[i], values[i]));
            i += 1;
        }
        let vf = ValueFunction { name, args };
        proof {
            assert(vf@.args =~= ctor_entry(values@, sorts@).args);
            assert(vf@ == ctor_entry(values@, sorts@));
        }
        vf.store(function)
    }
}

/// The applicator primitive: applies a stored function value to the
/// remaining arguments.
pub struct Apply {
    pub name: Symbol,
}

impl Apply {
    pub fn name(&self) -> (r: Symbol)
        ensures
            r == self.name,
    {
        self.name
    }

    /// The applicator's static constraint: a fixed-arity signature over this
    /// function sort, the declared remaining inputs, and the output sort.
    pub fn get_type_constraints(&self, function: &FunctionSort) -> (r: SimpleTypeConstraint)
        ensures
            r.name == self.name,
            r.sorts@ == seq![function.spec_sort()] + function.inputs@ + seq![function.output],
    {
        let mut sorts: Vec<Sort> = Vec::new();
        sorts.push(function.sort_ref());
        let n = function.inputs.len();
        let mut i: usize = 0;
        while i < n
            invariant
                n == function.inputs@.len(),
                0 <= i <= n,
                sorts@.len() == i + 1,
                sorts@[0] == function.spec_sort(),
                forall|j: int| 0 <= j < i ==> sorts@[j + 1] == function.inputs@[j],
            decreases n - i,
        {
            sorts.push(function.inputs[i]);
            i += 1;
        }
        sorts.push(function.output);
        proof {
            assert(sorts@ =~= seq![function.spec_sort()] + function.inputs@ + seq![
                function.output
            ]);
        }
        SimpleTypeConstraint { name: self.name, sorts }
    }

    /// Runtime behaviour of the applicator: read the function value out of
    /// the first argument and apply it to the rest. A live mutable engine
    /// context is required; evaluation without one is the host's fatal usage
    /// error and never reaches this code.
    pub fn apply(&self, function: &FunctionSort, values: &Vec<Value>, egraph: &mut EGraph) -> (r:
        Option<Value>)
        requires
            function.wf(),
            values@.len() == 1 + function.inputs@.len(),
            values@[0].bits < function.entries().len(),
            old(egraph).wf(),
            ({
                let e = function.entries()[values@[0].bits as int];
                call_defined(
                    *old(egraph),
                    e.name,
                    apply_types(e, *function),
                    child_values(e.args) + values@.skip(1),
                )
            }),
        ensures
            final(egraph).wf(),
            ({
                let e = function.entries()[values@[0].bits as int];
                r matches Some(v) && call_post(
                    *old(egraph),
                    *final(egraph),
                    e.name,
                    child_values(e.args) + values@.skip(1),
                    v,
                )
            }),
    {
        let fn_value = values[0];
        let rest = vstd::slice::slice_subrange(values.as_slice(), 1, values.len());
        proof {
            assert(rest@ =~= values@.skip(1));
        }
        Some(function.apply(&fn_value, rest, egraph))
    }
}

/// Arity law: the applicator's static signature asks for exactly the function
/// value, the declared remaining inputs and the result term. Any call site
/// with a different term count therefore differs from the signature's length
/// and, by the fixed-arity constraint's contract, is rejected with the arity
/// diagnostic at type-check time; the runtime applicator in turn requires
/// exactly the declared remaining count, so a mismatched count never reaches
/// execution.
pub proof fn lemma_apply_arity(fs: FunctionSort, n_args: int)
    requires
        n_args != 2 + fs.inputs@.len(),
    ensures
        n_args != (seq![fs.spec_sort()] + fs.inputs@ + seq![fs.output]).len(),
{
}

impl FunctionSort {
    /// Register exactly the two primitives this declaration reserves: the
    /// constructor and the applicator, both scoped to this sort.
    pub fn register_primitives(&self, typeinfo: &mut TypeInfo)
        ensures
            final(typeinfo).sorts@ == old(typeinfo).sorts@,
            final(typeinfo).func_types@ == old(typeinfo).func_types@,
            final(typeinfo).string_sort == old(typeinfo).string_sort,
            final(typeinfo).primitives@ == old(typeinfo).primitives@ + seq![
                (Primitive {
                    name: Symbol { id: CTOR_NAME_SYM },
                    sort_name: self.name,
                    kind: PrimKind::Ctor,
                }),
                (Primitive {
                    name: Symbol { id: APPLY_NAME_SYM },
                    sort_name: self.name,
                    kind: PrimKind::Apply,
                }),
            ],
    {
        typeinfo.primitives.push(
            Primitive {
                name: Symbol { id: CTOR_NAME_SYM },
                sort_name: self.name,
                kind: PrimKind::Ctor,
            },
        );
        typeinfo.primitives.push(
            Primitive {
                name: Symbol { id: APPLY_NAME_SYM },
                sort_name: self.name,
                kind: PrimKind::Apply,
            },
        );
        proof {
            assert(typeinfo.primitives@ =~= old(typeinfo).primitives@ + seq![
                (Primitive {
                    name: Symbol { id: CTOR_NAME_SYM },
                    sort_name: self.name,
                    kind: PrimKind::Ctor,
                }),
                (Primitive {
                    name: Symbol { id: APPLY_NAME_SYM },
                    sort_name: self.name,
                    kind: PrimKind::Apply,
                }),
            ]);
        }
    }
}

} // verus!

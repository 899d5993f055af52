use vstd::prelude::*;
use crate::value::{Literal, Sort, Symbol};
use crate::sort::FunctionSort;
use crate::typeinfo::{func_index, has_func, TypeInfo};

verus! {

/// A positional term of a call site under type checking: a variable or a
/// literal.
#[derive(Clone, Copy, PartialEq, Eq, Structural, Debug)]
pub enum AtomTerm {
    Var(Symbol),
    Literal(Literal),
}

/// The call atom a diagnostic points back at.
#[derive(Debug)]
pub struct Atom {
    pub head: Symbol,
    pub args: Vec<AtomTerm>,
}

/// A diagnostic constraint that can never be satisfied: type checking fails.
#[derive(Debug)]
pub enum ImpossibleConstraint {
    ArityMismatch { atom: Atom, expected: usize },
    FunctionMismatch {
        expected_output: Sort,
        expected_input: Vec<Sort>,
        actual_output: Sort,
        actual_input: Vec<Sort>,
    },
}

/// One constraint emitted during static type checking: either a sort
/// assignment for a term, or an impossibility diagnostic.
#[derive(Debug)]
pub enum Constraint {
    Assign(AtomTerm, Sort),
    Impossible(ImpossibleConstraint),
}

/// Whether `c` is the arity-mismatch diagnostic for the given call site.
pub open spec fn is_arity_mismatch(
    c: Constraint,
    head: Symbol,
    arguments: Seq<AtomTerm>,
    expected: int,
) -> bool {
    c matches Constraint::Impossible(ImpossibleConstraint::ArityMismatch { atom, expected: e })
        && atom.head == head && atom.args@ == arguments && e == expected
}

/// Whether `c` is the signature-mismatch diagnostic carrying the given
/// expected and actual sort lists.
pub open spec fn is_fn_mismatch(
    c: Constraint,
    eo: Sort,
    ei: Seq<Sort>,
    ao: Sort,
    ai: Seq<Sort>,
) -> bool {
    c matches Constraint::Impossible(ImpossibleConstraint::FunctionMismatch {
        expected_output,
        expected_input,
        actual_output,
        actual_input,
    }) && expected_output == eo && expected_input@ == ei && actual_output == ao && actual_input@
        == ai
}

/// The statically known function name of a call's first term: a string
/// literal, if that is what stands there.
pub open spec fn literal_fn_name(t: AtomTerm) -> Option<Symbol> {
    if t is Literal && t->Literal_0 is Str {
        Some(t->Literal_0->Str_0)
    } else {
        None
    }
}

fn copy_terms(ts: &Vec<AtomTerm>) -> (r: Vec<AtomTerm>)
    ensures
        r@ == ts@,
{
    let n = ts.len();
    let mut r: Vec<AtomTerm> = Vec::new();
    let mut i: usize = 0;
    while i < n
        invariant
            n == ts@.len(),
            0 <= i <= n,
            r@.len() == i,
            forall|j: int| 0 <= j < i ==> r@[j] == ts@[j],
        decreases n - i,
    {
        r.push(ts[i]);
        i += 1;
    }
    proof {
        assert(r@ =~= ts@);
    }
    r
}

fn copy_sorts(ts: &Vec<Sort>) -> (r: Vec<Sort>)
    ensures
        r@ == ts@,
{
    let n = ts.len();
    let mut r: Vec<Sort> = Vec::new();
    let mut i: usize = 0;
    while i < n
        invariant
            n == ts@.len(),
            0 <= i <= n,
            r@.len() == i,
            forall|j: int| 0 <= j < i ==> r@[j] == ts@[j],
        decreases n - i,
    {
        r.push(ts[i]);
        i += 1;
    }
    proof {
        assert(r@ =~= ts@);
    }
    r
}

/// Constructor-inference law: against one known full signature and a fixed
/// partial-argument count, at most one declared input/output shape (by sort
/// names) passes the constructor's cross-validation — the signature's inputs
/// after the partial prefix and the signature's output. Any other declared
/// list differs in arity or in some name, and the resolver's contract then
/// yields a static diagnostic instead of assignments.
pub proof fn lemma_ctor_inference(
    a_in: Seq<Sort>,
    a_out: Sort,
    b_in: Seq<Sort>,
    b_out: Sort,
    f_in: Seq<Sort>,
    f_out: Sort,
    p: int,
)
    requires
        0 <= p,
        a_in.len() + p == f_in.len(),
        f_out.name == a_out.name,
        forall|j: int| 0 <= j < a_in.len() ==> (#[trigger] a_in[j]).name == f_in[p + j].name,
        b_in.len() + p == f_in.len(),
        f_out.name == b_out.name,
        forall|j: int| 0 <= j < b_in.len() ==> (#[trigger] b_in[j]).name == f_in[p + j].name,
    ensures
        a_in.len() == b_in.len(),
        a_out.name == b_out.name,
        forall|j: int| 0 <= j < a_in.len() ==> (#[trigger] a_in[j]).name == b_in[j].name,
{
}

/// A fixed-signature constraint: the call must have exactly one term per
/// sort, each term taking the corresponding sort.
pub struct SimpleTypeConstraint {
    pub name: Symbol,
    pub sorts: Vec<Sort>,
}

impl SimpleTypeConstraint {
    /// Resolve the constraint at a call site. Any argument count other than
    /// the signature's length is rejected here, at type-check time, with an
    /// arity diagnostic; a matching count assigns every term its sort.
    pub fn get(&self, arguments: &Vec<AtomTerm>) -> (r: Vec<Constraint>)
        ensures
            arguments@.len() != self.sorts@.len() ==> r@.len() == 1 && is_arity_mismatch(
                r@[0],
                self.name,
                arguments@,
                self.sorts@.len() as int,
            ),
            arguments@.len() == self.sorts@.len() ==> r@.len() == arguments@.len() && forall|j: int|
                0 <= j < arguments@.len() ==> r@[j] == Constraint::Assign(
                    arguments@[j],
                    self.sorts@[j],
                ),
    {
        let n = arguments.len();
        if n != self.sorts.len() {
            let atom = Atom { head: self.name, args: copy_terms(arguments) };
            let mut r: Vec<Constraint> = Vec::new();
            r.push(
                Constraint::Impossible(
                    ImpossibleConstraint::ArityMismatch { atom, expected: self.sorts.len() },
                ),
            );
            return r;
        }
        let mut r: Vec<Constraint> = Vec::new();
        let mut i: usize = 0;
        while i < n
            invariant
                n == arguments@.len(),
                n == self.sorts@.len(),
                0 <= i <= n,
                r@.len() == i,
                forall|j: int|
                    0 <= j < i ==> r@[j] == Constraint::Assign(arguments@[j], self.sorts@[j]),
            decreases n - i,
        {
            r.push(Constraint::Assign(arguments[i], self.sorts[i]));
            i += 1;
        }
        r
    }
}

/// The constructor's static constraint: a name term, any number of partial
/// argument terms, and the result term.
pub struct FunctionCTorTypeConstraint<'a> {
    pub name: Symbol,
    pub function: &'a FunctionSort,
}

impl<'a> FunctionCTorTypeConstraint<'a> {
    /// Static type-constraint resolution for the constructor call site.
    ///
    /// With fewer than two terms the site is an immediate arity mismatch.
    /// When the name term is a string literal with a known full signature,
    /// the site is cross-validated: the partial-argument count plus this
    /// sort's declared input count must equal the full input count (the
    /// reported expected figure keeps the engine's historical shape, which
    /// adds the full input count on top of the declared one); the declared
    /// output and the post-prefix input sorts must match the signature by
    /// name; a compatible site binds each partial argument to the signature's
    /// prefix sort and the result term to this sort. An unknown or
    /// non-literal name only binds the name term to the string sort and the
    /// result term to this sort.
    pub fn get(&self, arguments: &Vec<AtomTerm>, typeinfo: &TypeInfo) -> (r: Vec<Constraint>)
        requires
            typeinfo.wf(),
            self.function.inputs@.len() + arguments@.len() <= usize::MAX,
            forall|i: int|
                0 <= i < typeinfo.func_types@.len() ==> self.function.inputs@.len() + (
                #[trigger] typeinfo.func_types@[i]).input@.len() + 1 <= usize::MAX,
        ensures
            ({
                let n = arguments@.len() as int;
                let d = self.function.inputs@.len() as int;
                if n < 2 {
                    r@.len() == 1 && is_arity_mismatch(r@[0], self.name, arguments@, 2)
                } else {
                    let known = literal_fn_name(arguments@[0]) matches Some(f) && has_func(
                        typeinfo.func_types@,
                        f,
                    );
                    if known {
                        let fname = literal_fn_name(arguments@[0])->Some_0;
                        let ft = typeinfo.func_types@[func_index(typeinfo.func_types@, fname)];
                        let p = n - 2;
                        let fl = ft.input@.len() as int;
                        if d + p != fl {
                            r@.len() == 1 && is_arity_mismatch(
                                r@[0],
                                self.name,
                                arguments@,
                                d + fl + 1,
                            )
                        } else if !(ft.output.name == self.function.output.name && (forall|j: int|
                            0 <= j < d ==> (#[trigger] self.function.inputs@[j]).name == ft.input@[p
                                + j].name)) {
                            r@.len() == 1 && is_fn_mismatch(
                                r@[0],
                                self.function.output,
                                self.function.inputs@,
                                ft.output,
                                ft.input@.skip(p),
                            )
                        } else {
                            r@.len() == p + 1 && (forall|j: int|
                                0 <= j < p ==> r@[j] == Constraint::Assign(
                                    arguments@[1 + j],
                                    ft.input@[j],
                                )) && r@[p] == Constraint::Assign(
                                arguments@[n - 1],
                                self.function.spec_sort(),
                            )
                        }
                    } else {
                        r@.len() == 2 && r@[0] == Constraint::Assign(
                            arguments@[0],
                            typeinfo.string_sort,
                        ) && r@[1] == Constraint::Assign(
                            arguments@[n - 1],
                            self.function.spec_sort(),
                        )
                    }
                }
            }),
    {
        let n = arguments.len();
        // Must have at least the name term and the result term.
        if n < 2 {
            let atom = Atom { head: self.name, args: copy_terms(arguments) };
            let mut r: Vec<Constraint> = Vec::new();
            r.push(
                Constraint::Impossible(ImpossibleConstraint::ArityMismatch { atom, expected: 2 }),
            );
            return r;
        }
        let output_sort_constraint = Constraint::Assign(
            arguments[n - 1],
            self.function.sort_ref(),
        );
        // A literal string name with a known full signature allows the site
        // to be cross-validated statically.
        if let AtomTerm::Literal(Literal::Str(fname)) = arguments[0] {
            if let Some(fi) = typeinfo.func_index_of(fname) {
                let ft = &typeinfo.func_types[fi];
                let n_partial = n - 2;
                let d = self.function.inputs.len();
                let fl = ft.input.len();
                if d + n_partial != fl {
                    let atom = Atom { head: self.name, args: copy_terms(arguments) };
                    let mut r: Vec<Constraint> = Vec::new();
                    r.push(
                        Constraint::Impossible(
                            ImpossibleConstraint::ArityMismatch { atom, expected: d + fl + 1 },
                        ),
                    );
                    return r;
                }
                // The declared output and the inputs after the partial
                // prefix must match the full signature by sort name.
                let mut sig_ok = ft.output.name.id == self.function.output.name.id;
                let mut j: usize = 0;
                while j < d
                    invariant
                        d == self.function.inputs@.len(),
                        fl == ft.input@.len(),
                        d + n_partial == fl,
                        0 <= j <= d,
                        ft.output.name == self.function.output.name ==> (sig_ok == (forall|k: int|
                            0 <= k < j ==> (#[trigger] self.function.inputs@[k]).name == ft.input@[
                            n_partial + k].name)),
                        ft.output.name != self.function.output.name ==> !sig_ok,
                    decreases d - j,
                {
                    if self.function.inputs[j].name.id != ft.input[n_partial + j].name.id {
                        sig_ok = false;
                        proof {
                            assert(self.function.inputs@[j as int].name != ft.input@[n_partial + j].name);
                        }
                    }
                    j += 1;
                }
                if !sig_ok {
                    let expected_input = copy_sorts(&self.function.inputs);
                    let mut actual_input: Vec<Sort> = Vec::new();
                    let mut k: usize = n_partial;
                    while k < fl
                        invariant
                            fl == ft.input@.len(),
                            n_partial <= k <= fl,
                            actual_input@.len() == k - n_partial,
                            forall|m: int|
                                0 <= m < k - n_partial ==> actual_input@[m] == ft.input@[n_partial
                                    + m],
                        decreases fl - k,
                    {
                        actual_input.push(ft.input[k]);
                        k += 1;
                    }
                    proof {
                        assert(actual_input@ =~= ft.input@.skip(n_partial as int));
                    }
                    let mut r: Vec<Constraint> = Vec::new();
                    r.push(
                        Constraint::Impossible(
                            ImpossibleConstraint::FunctionMismatch {
                                expected_output: self.function.output,
                                expected_input,
                                actual_output: ft.output,
                                actual_input,
                            },
                        ),
                    );
                    return r;
                }
                // Compatible: bind each partial argument to the signature's
                // prefix sort, and the result term to this function sort.
                let mut r: Vec<Constraint> = Vec::new();
                let mut j2: usize = 0;
                while j2 < n_partial
                    invariant
                        n == arguments@.len(),
                        n_partial == n - 2,
                        n_partial <= ft.input@.len(),
                        0 <= j2 <= n_partial,
                        r@.len() == j2,
                        forall|m: int|
                            0 <= m < j2 ==> r@[m] == Constraint::Assign(
                                arguments@[1 + m],
                                ft.input@[m],
                            ),
                    decreases n_partial - j2,
                {
                    r.push(Constraint::Assign(arguments[1 + j2], ft.input[j2]));
                    j2 += 1;
                }
                r.push(output_sort_constraint);
                return r;
            }
        }
        // Otherwise only the generic constraints can be emitted: the name
        // term is a string, the result term has this function sort. Errors
        // surface only at apply time through the applicator's own fixed-arity
        // constraint.
        let mut r: Vec<Constraint> = Vec::new();
        r.push(Constraint::Assign(arguments[0], typeinfo.string_sort));
        r.push(output_sort_constraint);
        r
    }
}

} // verus!

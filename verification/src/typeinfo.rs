use vstd::prelude::*;
use crate::value::{Expr, Sort, Symbol, TypeError};
use crate::sort::FunctionSort;

verus! {

/// The complete signature of a concretely resolvable callable: the full
/// ordered input sorts and the output sort, keyed by the callable's name.
pub struct FuncType {
    pub name: Symbol,
    pub input: Vec<Sort>,
    pub output: Sort,
}

/// Which of the two reserved primitives a registration names.
#[derive(Clone, Copy, PartialEq, Eq, Structural, Debug)]
pub enum PrimKind {
    Ctor,
    Apply,
}

/// A primitive registered for one declared function sort.
#[derive(Clone, Copy, PartialEq, Eq, Structural, Debug)]
pub struct Primitive {
    pub name: Symbol,
    pub sort_name: Symbol,
    pub kind: PrimKind,
}

/// The engine's static knowledge: the declared sorts, the global callable
/// signature table, the registered primitives, and the built-in string sort.
pub struct TypeInfo {
    pub sorts: Vec<Sort>,
    pub func_types: Vec<FuncType>,
    pub primitives: Vec<Primitive>,
    pub string_sort: Sort,
}

/// Whether some declared sort bears `name`.
pub open spec fn has_sort(sorts: Seq<Sort>, name: Symbol) -> bool {
    exists|i: int| 0 <= i < sorts.len() && (#[trigger] sorts[i]).name == name
}

/// The declared sort bearing `name` (unique when names are distinct).
pub open spec fn sort_named(sorts: Seq<Sort>, name: Symbol) -> Sort {
    sorts[choose|i: int| 0 <= i < sorts.len() && (#[trigger] sorts[i]).name == name]
}

/// Whether the signature table knows a callable named `name`.
pub open spec fn has_func(fts: Seq<FuncType>, name: Symbol) -> bool {
    exists|i: int| 0 <= i < fts.len() && (#[trigger] fts[i]).name == name
}

/// The table index of the callable named `name` (unique when names are
/// distinct).
pub open spec fn func_index(fts: Seq<FuncType>, name: Symbol) -> int {
    choose|i: int| 0 <= i < fts.len() && (#[trigger] fts[i]).name == name
}

impl TypeInfo {
    /// Declared sort names and callable names are each unique.
    pub open spec fn wf(&self) -> bool {
        &&& forall|i: int, j: int|
            0 <= i < j < self.sorts@.len() ==> (#[trigger] self.sorts@[i]).name != (
            #[trigger] self.sorts@[j]).name
        &&& forall|i: int, j: int|
            0 <= i < j < self.func_types@.len() ==> (#[trigger] self.func_types@[i]).name != (
            #[trigger] self.func_types@[j]).name
    }

    /// Look a declared sort up by name.
    pub fn get_sort(&self, name: Symbol) -> (r: Option<Sort>)
        requires
            self.wf(),
        ensures
            r is Some <==> has_sort(self.sorts@, name),
            r matches Some(s) ==> s == sort_named(self.sorts@, name),
    {
        let n = self.sorts.len();
        let mut i: usize = 0;
        while i < n
            invariant
                self.wf(),
                n == self.sorts@.len(),
                0 <= i <= n,
                forall|j: int| 0 <= j < i ==> (#[trigger] self.sorts@[j]).name != name,
            decreases n - i,
        {
            if self.sorts[i].name.id == name.id {
                proof {
                    let k = choose|k: int|
                        0 <= k < self.sorts@.len() && (#[trigger] self.sorts@[k]).name == name;
                    assert(self.sorts@[i as int].name == name);
                    assert(has_sort(self.sorts@, name));
                    if k != i as int {
                        assert(self.sorts@[k].name != self.sorts@[i as int].name);
                    }
                }
                return Some(self.sorts[i]);
            }
            i += 1;
        }
        None
    }

    /// Look a callable's signature up by name, returning its table index.
    pub fn func_index_of(&self, name: Symbol) -> (r: Option<usize>)
        requires
            self.wf(),
        ensures
            r is Some <==> has_func(self.func_types@, name),
            r matches Some(i) ==> i == func_index(self.func_types@, name)
                && i < self.func_types@.len() && self.func_types@[i as int].name == name,
    {
        let n = self.func_types.len();
        let mut i: usize = 0;
        while i < n
            invariant
                self.wf(),
                n == self.func_types@.len(),
                0 <= i <= n,
                forall|j: int| 0 <= j < i ==> (#[trigger] self.func_types@[j]).name != name,
            decreases n - i,
        {
            if self.func_types[i].name.id == name.id {
                proof {
                    let k = choose|k: int|
                        0 <= k < self.func_types@.len() && (#[trigger] self.func_types@[k]).name
                            == name;
                    assert(self.func_types@[i as int].name == name);
                    assert(has_func(self.func_types@, name));
                    if k != i as int {
                        assert(self.func_types@[k].name != self.func_types@[i as int].name);
                    }
                }
                return Some(i);
            }
            i += 1;
        }
        None
    }
}

/// The input sort names a declaration's first argument lists: the call form
/// carries its head and then variable arguments; the unit literal stands for
/// an empty input list.
pub open spec fn input_names_of(e: Expr) -> Seq<Symbol> {
    match e {
        Expr::Call(first, rest) => seq![first] + rest@.map_values(|x: Expr| x->Var_0),
        _ => Seq::empty(),
    }
}

/// The sorts the input names resolve to, once all are known to resolve.
pub open spec fn resolved_sorts(sorts: Seq<Sort>, names: Seq<Symbol>) -> Seq<Sort> {
    Seq::new(names.len(), |i: int| sort_named(sorts, names[i]))
}

/// Whether every name in `names` resolves against the declared sorts.
pub open spec fn all_sorts_known(sorts: Seq<Sort>, names: Seq<Symbol>) -> bool {
    forall|i: int| 0 <= i < names.len() ==> has_sort(sorts, #[trigger] names[i])
}

impl FunctionSort {
    /// Resolve a schema declaration `(UnstableFn (inputs...) output)` into a
    /// fresh descriptor with an empty store. The output sort is resolved
    /// first; then the inputs, left to right, each undefined name raising the
    /// corresponding static error.
    pub fn make_sort(typeinfo: &TypeInfo, name: Symbol, args: &Vec<Expr>) -> (r: Result<
        FunctionSort,
        TypeError,
    >)
        requires
            typeinfo.wf(),
            args@.len() == 2,
            args@[1] is Var,
            (args@[0] is Call && forall|i: int|
                0 <= i < args@[0]->Call_1@.len() ==> (#[trigger] args@[0]->Call_1@[i]) is Var) || (
            args@[0] matches Expr::Lit(l) && l is Unit),
        ensures
            ({
                let out_name = args@[1]->Var_0;
                let in_names = input_names_of(args@[0]);
                if !has_sort(typeinfo.sorts@, out_name) {
                    r == Err::<FunctionSort, TypeError>(TypeError::UndefinedSort(out_name))
                } else if !all_sorts_known(typeinfo.sorts@, in_names) {
                    exists|k: int|
                        #![auto]
                        0 <= k < in_names.len() && !has_sort(typeinfo.sorts@, in_names[k]) && (
                        forall|i: int|
                            0 <= i < k ==> has_sort(typeinfo.sorts@, #[trigger] in_names[i])) && r
                            == Err::<FunctionSort, TypeError>(
                            TypeError::UndefinedSort(in_names[k]),
                        )
                } else {
                    r matches Ok(fs) && fs.wf() && fs.name == name && fs.inputs@ == resolved_sorts(
                        typeinfo.sorts@,
                        in_names,
                    ) && fs.output == sort_named(typeinfo.sorts@, out_name) && fs.entries().len()
                        == 0
                }
            }),
    {
        let out_name: Symbol = match &args[1] {
            Expr::Var(s) => *s,
            _ => {
                proof {
                    assert(false);
                }
                Symbol { id: 0 }
            },
        };
        let output = match typeinfo.get_sort(out_name) {
            Some(s) => s,
            None => {
                return Err(TypeError::UndefinedSort(out_name));
            },
        };
        let mut in_names: Vec<Symbol> = Vec::new();
        match &args[0] {
            Expr::Call(first, rest) => {
                in_names.push(*first);
                let m = rest.len();
                let mut i: usize = 0;
                while i < m
                    invariant
                        m == rest@.len(),
                        0 <= i <= m,
                        forall|j: int| 0 <= j < m ==> (#[trigger] rest@[j]) is Var,
                        in_names@.len() == i + 1,
                        in_names@[0] == *first,
                        forall|j: int| 0 <= j < i ==> in_names@[j + 1] == rest@[j]->Var_0,
                    decreases m - i,
                {
                    match &rest[i] {
                        Expr::Var(s) => {
                            in_names.push(*s);
                        },
                        _ => {
                            proof {
                                assert(false);
                            }
                        },
                    }
                    i += 1;
                }
            },
            _ => {},
        }
        proof {
            assert(in_names@ =~= input_names_of(args@[0]));
        }
        let n = in_names.len();
        let mut inputs: Vec<Sort> = Vec::new();
        let mut i: usize = 0;
        while i < n
            invariant
                typeinfo.wf(),
                args@.len() == 2,
                args@[1] is Var,
                in_names@ == input_names_of(args@[0]),
                has_sort(typeinfo.sorts@, args@[1]->Var_0),
                n == in_names@.len(),
                0 <= i <= n,
                inputs@.len() == i,
                forall|j: int| 0 <= j < i ==> has_sort(typeinfo.sorts@, #[trigger] in_names@[j]),
                forall|j: int|
                    0 <= j < i ==> inputs@[j] == sort_named(typeinfo.sorts@, in_names@[j]),
            decreases n - i,
        {
            match typeinfo.get_sort(in_names[i]) {
                Some(s) => {
                    inputs.push(s);
                },
                None => {
                    proof {
                        let k = i as int;
                        assert(0 <= k < in_names@.len() && !has_sort(typeinfo.sorts@, in_names@[k])
                            && (forall|j: int|
                            0 <= j < k ==> has_sort(typeinfo.sorts@, #[trigger] in_names@[j])));
                    }
                    return Err(TypeError::UndefinedSort(in_names[i]));
                },
            }
            i += 1;
        }
        proof {
            assert(inputs@ =~= resolved_sorts(typeinfo.sorts@, in_names@));
        }
        Ok(FunctionSort::new(name, inputs, output))
    }
}

} // verus!

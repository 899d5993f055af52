use vstd::prelude::*;

verus! {

/// Reserved interned name for the presort keyword (`UnstableFn`).
pub const PRESORT_NAME_SYM: u64 = 0;

/// Reserved interned name for the constructor primitive (`unstable-fn`).
pub const CTOR_NAME_SYM: u64 = 1;

/// Reserved interned name for the applicator primitive (`unstable-app`).
pub const APPLY_NAME_SYM: u64 = 2;

/// An interned identifier. The host interns each distinct string once and
/// hands the library its stable id; two symbols are the same name exactly
/// when their ids are equal.
#[derive(Clone, Copy, PartialEq, Eq, Structural, Debug, Hash)]
pub struct Symbol {
    pub id: u64,
}

/// The capability class of a sort, as far as this subsystem reads it.
#[derive(Clone, Copy, PartialEq, Eq, Structural, Debug)]
pub enum SortKind {
    /// An equality sort: its values are union-find ids and participate in
    /// congruence-closure canonicalization.
    Eq,
    /// A primitive leaf sort (integers, strings, ...): its values are plain
    /// bit patterns that canonicalization leaves untouched.
    Primitive,
    /// A container sort owning nested child values, such as a function sort.
    Function,
}

/// What the logic reads of a shared, immutable sort descriptor: its name and
/// its capability class. Many values may reference the same descriptor.
#[derive(Clone, Copy, PartialEq, Eq, Structural, Debug)]
pub struct Sort {
    pub name: Symbol,
    pub kind: SortKind,
}

impl Sort {
    /// Whether values of this sort are subject to equality canonicalization.
    pub fn is_eq_sort(&self) -> (r: bool)
        ensures
            r == (self.kind is Eq),
    {
        matches!(self.kind, SortKind::Eq)
    }
}

/// An opaque value handle: for a function sort, an index into its interned
/// store; for an equality sort, a union-find id; for a primitive sort, the
/// payload itself.
#[derive(Clone, Copy, PartialEq, Eq, Structural, Debug, Hash)]
pub struct Value {
    pub bits: u64,
}

/// A literal appearing in schema declarations, call sites and terms.
#[derive(Clone, Copy, PartialEq, Eq, Structural, Debug)]
pub enum Literal {
    Int(i64),
    Str(Symbol),
    Unit,
}

/// An already-parsed schema expression, as handed to sort declaration.
pub enum Expr {
    Var(Symbol),
    Call(Symbol, Vec<Expr>),
    Lit(Literal),
}

/// A static type error raised while a schema declaration is resolved.
#[derive(Clone, Copy, PartialEq, Eq, Structural, Debug)]
pub enum TypeError {
    UndefinedSort(Symbol),
}

} // verus!

//! Function values as first-class data inside a rule-based, equality-saturating
//! engine.
//!
//! A declared function sort (`UnstableFn (inputs...) output`) lets a function
//! name together with a list of partially applied arguments be stored,
//! deduplicated, compared, canonicalized and finally invoked as an ordinary
//! value of the engine. The store is append-only and content-addressed: equal
//! `(name, partial args)` pairs always map to the same integer handle.
//!
//! The engine collaborators this sort interacts with (union-find, the global
//! signature table, table-backed callables, the cost-based extractor and the
//! term dag) are modelled here as plain data with exact contracts.

pub mod value;
pub mod sort;
pub mod unionfind;
pub mod typeinfo;
pub mod constraint;
pub mod primitive;
pub mod egraph;
pub mod extract;

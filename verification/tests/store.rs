use fn_sort::sort::{FunctionSort, ValueFunction};
use fn_sort::value::{Sort, SortKind, Symbol, Value, CTOR_NAME_SYM, APPLY_NAME_SYM, PRESORT_NAME_SYM};

fn sym(id: u64) -> Symbol {
    Symbol { id }
}

fn val(bits: u64) -> Value {
    Value { bits }
}

fn int_sort() -> Sort {
    Sort { name: sym(100), kind: SortKind::Primitive }
}

fn eq_sort() -> Sort {
    Sort { name: sym(101), kind: SortKind::Eq }
}

fn string_sort() -> Sort {
    Sort { name: sym(102), kind: SortKind::Primitive }
}

fn new_sort() -> FunctionSort {
    FunctionSort::new(sym(1000), vec![int_sort()], string_sort())
}

#[test]
fn dedup_identical_pairs_share_handle() {
    let mut fs = new_sort();
    let a = ValueFunction { name: sym(7), args: vec![(int_sort(), val(5)), (int_sort(), val(6))] };
    let b = ValueFunction { name: sym(7), args: vec![(int_sort(), val(5)), (int_sort(), val(6))] };
    let ha = a.store(&mut fs).unwrap();
    let hb = b.store(&mut fs).unwrap();
    assert_eq!(ha, hb);
}

#[test]
fn dedup_ignores_sort_references() {
    let mut fs = new_sort();
    let a = ValueFunction { name: sym(7), args: vec![(int_sort(), val(5))] };
    let b = ValueFunction { name: sym(7), args: vec![(eq_sort(), val(5))] };
    let ha = a.store(&mut fs).unwrap();
    let hb = b.store(&mut fs).unwrap();
    assert_eq!(ha, hb);
}

#[test]
fn differing_pairs_get_differing_handles() {
    let mut fs = new_sort();
    let a = ValueFunction { name: sym(7), args: vec![(int_sort(), val(5))] };
    let b = ValueFunction { name: sym(7), args: vec![(int_sort(), val(6))] };
    let c = ValueFunction { name: sym(8), args: vec![(int_sort(), val(5))] };
    let ha = a.store(&mut fs).unwrap();
    let hb = b.store(&mut fs).unwrap();
    let hc = c.store(&mut fs).unwrap();
    assert_ne!(ha, hb);
    assert_ne!(ha, hc);
    assert_ne!(hb, hc);
}

#[test]
fn load_store_round_trip() {
    let mut fs = new_sort();
    let v = ValueFunction { name: sym(9), args: vec![(int_sort(), val(3)), (eq_sort(), val(0))] };
    let copy = ValueFunction { name: sym(9), args: vec![(int_sort(), val(3)), (eq_sort(), val(0))] };
    let h = v.store(&mut fs).unwrap();
    let loaded = ValueFunction::load(&fs, &h);
    assert!(loaded == copy);
}

#[test]
fn handles_are_store_indices() {
    let mut fs = new_sort();
    let a = ValueFunction { name: sym(1), args: vec![] };
    let b = ValueFunction { name: sym(2), args: vec![] };
    assert_eq!(a.store(&mut fs).unwrap(), val(0));
    assert_eq!(b.store(&mut fs).unwrap(), val(1));
}

#[test]
fn hashable_drops_the_sorts() {
    let v = ValueFunction { name: sym(9), args: vec![(int_sort(), val(3)), (eq_sort(), val(8))] };
    let (name, vals) = v.hashable();
    assert_eq!(name, sym(9));
    assert_eq!(vals, vec![val(3), val(8)]);
}

#[test]
fn inner_values_are_the_partial_args_in_order() {
    let mut fs = new_sort();
    let v = ValueFunction { name: sym(9), args: vec![(int_sort(), val(3)), (eq_sort(), val(8))] };
    let h = v.store(&mut fs).unwrap();
    let inner = fs.inner_values(&h);
    assert_eq!(inner, vec![(int_sort(), val(3)), (eq_sort(), val(8))]);
}

#[test]
fn serialized_name_is_the_function_name() {
    let mut fs = new_sort();
    let v = ValueFunction { name: sym(9), args: vec![] };
    let h = v.store(&mut fs).unwrap();
    assert_eq!(fs.serialized_name(&h), sym(9));
    assert_eq!(fs.name(), sym(1000));
}

#[test]
fn container_capabilities() {
    let fs = new_sort();
    assert!(fs.is_container_sort());
    assert!(!fs.is_eq_container_sort());
    let fs2 = FunctionSort::new(sym(1001), vec![int_sort(), eq_sort()], string_sort());
    assert!(fs2.is_eq_container_sort());
}

#[test]
fn reserved_names() {
    assert_eq!(FunctionSort::presort_name(), sym(PRESORT_NAME_SYM));
    assert_eq!(
        FunctionSort::reserved_primitives(),
        vec![sym(CTOR_NAME_SYM), sym(APPLY_NAME_SYM)]
    );
}

use fn_sort::egraph::{call_fn, EGraph, Row};
use fn_sort::primitive::{Apply, Ctor};
use fn_sort::sort::FunctionSort;
use fn_sort::typeinfo::{FuncType, TypeInfo};
use fn_sort::unionfind::UnionFind;
use fn_sort::value::{Sort, SortKind, Symbol, Value, APPLY_NAME_SYM, CTOR_NAME_SYM};

fn sym(id: u64) -> Symbol {
    Symbol { id }
}

fn val(bits: u64) -> Value {
    Value { bits }
}

fn int64() -> Sort {
    Sort { name: sym(100), kind: SortKind::Primitive }
}

fn string_sort() -> Sort {
    Sort { name: sym(102), kind: SortKind::Primitive }
}

fn math() -> Sort {
    Sort { name: sym(103), kind: SortKind::Eq }
}

const ITOA: u64 = 50;
const GROW: u64 = 51;

/// An engine knowing `itoa(Int64) -> String` with the tuple itoa(5) = 42
/// already stored, and `grow(Int64) -> Math` with an equality output.
fn engine() -> EGraph {
    EGraph {
        type_info: TypeInfo {
            sorts: vec![int64(), string_sort(), math()],
            func_types: vec![
                FuncType { name: sym(ITOA), input: vec![int64()], output: string_sort() },
                FuncType { name: sym(GROW), input: vec![int64()], output: math() },
            ],
            primitives: vec![],
            string_sort: string_sort(),
        },
        unionfind: UnionFind::new(),
        rows: vec![Row { func: 0, args: vec![val(5)], out: val(42) }],
    }
}

#[test]
fn direct_call_finds_the_stored_tuple() {
    let mut eg = engine();
    let r = call_fn(&mut eg, sym(ITOA), vec![int64(), string_sort()], vec![val(5)]);
    assert_eq!(r, val(42));
    assert_eq!(eg.rows.len(), 1);
}

#[test]
fn fresh_output_is_a_new_equality_id_stored_once() {
    let mut eg = engine();
    let r1 = call_fn(&mut eg, sym(GROW), vec![int64(), math()], vec![val(7)]);
    assert_eq!(r1, val(0));
    assert_eq!(eg.rows.len(), 2);
    // The same call again finds the tuple it created.
    let r2 = call_fn(&mut eg, sym(GROW), vec![int64(), math()], vec![val(7)]);
    assert_eq!(r2, r1);
    assert_eq!(eg.rows.len(), 2);
}

#[test]
fn end_to_end_apply_equals_direct_invocation() {
    // Declare IntToString = UnstableFn(Int64) -> String, construct
    // make-function("itoa"), apply it to 5, and compare with itoa(5) direct.
    let mut eg = engine();
    let mut fs = FunctionSort::new(sym(1000), vec![int64()], string_sort());
    let ctor = Ctor { name: sym(CTOR_NAME_SYM) };
    let h = ctor
        .apply(&mut fs, &vec![val(ITOA)], &vec![string_sort()])
        .unwrap();
    let applied = fs.apply(&h, &[val(5)], &mut eg);
    let mut eg2 = engine();
    let direct = call_fn(&mut eg2, sym(ITOA), vec![int64(), string_sort()], vec![val(5)]);
    assert_eq!(applied, direct);
    assert_eq!(applied, val(42));
}

#[test]
fn apply_with_partial_args_equals_direct_invocation() {
    // A two-argument callable with an equality output: apply-function on a
    // value holding one stored argument behaves as the direct two-argument
    // call, including the state it leaves behind.
    let pair = FuncType { name: sym(60), input: vec![int64(), int64()], output: math() };
    let mut eg = engine();
    eg.type_info.func_types.push(pair);
    let mut fs = FunctionSort::new(sym(1001), vec![int64()], math());
    let ctor = Ctor { name: sym(CTOR_NAME_SYM) };
    let h = ctor
        .apply(&mut fs, &vec![val(60), val(3)], &vec![string_sort(), int64()])
        .unwrap();
    let applied = fs.apply(&h, &[val(4)], &mut eg);

    let mut eg2 = engine();
    eg2.type_info.func_types.push(FuncType {
        name: sym(60),
        input: vec![int64(), int64()],
        output: math(),
    });
    let direct = call_fn(
        &mut eg2,
        sym(60),
        vec![int64(), int64(), math()],
        vec![val(3), val(4)],
    );
    assert_eq!(applied, direct);
    // Both engines now hold the same new tuple.
    assert_eq!(eg.rows.len(), 2);
    let r = &eg.rows[1];
    assert_eq!(r.args, vec![val(3), val(4)]);
    assert_eq!(r.out, applied);
}

#[test]
fn applicator_primitive_delegates() {
    let mut eg = engine();
    let mut fs = FunctionSort::new(sym(1000), vec![int64()], string_sort());
    let ctor = Ctor { name: sym(CTOR_NAME_SYM) };
    let h = ctor
        .apply(&mut fs, &vec![val(ITOA)], &vec![string_sort()])
        .unwrap();
    let applicator = Apply { name: sym(APPLY_NAME_SYM) };
    let r = applicator.apply(&fs, &vec![h, val(5)], &mut eg).unwrap();
    assert_eq!(r, val(42));
}

#[test]
fn constructed_value_dedups_against_reconstruction() {
    let mut fs = FunctionSort::new(sym(1000), vec![int64()], string_sort());
    let ctor = Ctor { name: sym(CTOR_NAME_SYM) };
    let h1 = ctor
        .apply(&mut fs, &vec![val(ITOA), val(3)], &vec![string_sort(), int64()])
        .unwrap();
    let h2 = ctor
        .apply(&mut fs, &vec![val(ITOA), val(3)], &vec![string_sort(), int64()])
        .unwrap();
    assert_eq!(h1, h2);
}

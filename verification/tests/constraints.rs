use fn_sort::constraint::{AtomTerm, Constraint, ImpossibleConstraint};
use fn_sort::primitive::{Apply, Ctor};
use fn_sort::sort::FunctionSort;
use fn_sort::typeinfo::{FuncType, TypeInfo};
use fn_sort::value::{Expr, Literal, Sort, SortKind, Symbol, TypeError, APPLY_NAME_SYM, CTOR_NAME_SYM};

fn sym(id: u64) -> Symbol {
    Symbol { id }
}

fn prim(name_id: u64) -> Sort {
    Sort { name: sym(name_id), kind: SortKind::Primitive }
}

fn type_info() -> TypeInfo {
    // Known full signature: f(s1, s2, s3) -> out.
    TypeInfo {
        sorts: vec![prim(1), prim(2), prim(3), prim(4), prim(102)],
        func_types: vec![FuncType {
            name: sym(50),
            input: vec![prim(1), prim(2), prim(3)],
            output: prim(4),
        }],
        primitives: vec![],
        string_sort: prim(102),
    }
}

#[test]
fn ctor_needs_name_and_result_terms() {
    let ti = type_info();
    let fs = FunctionSort::new(sym(1000), vec![prim(2), prim(3)], prim(4));
    let ctor = Ctor { name: sym(CTOR_NAME_SYM) };
    let c = ctor.get_type_constraints(&fs);
    let r = c.get(&vec![AtomTerm::Var(sym(200))], &ti);
    assert_eq!(r.len(), 1);
    match &r[0] {
        Constraint::Impossible(ImpossibleConstraint::ArityMismatch { atom, expected }) => {
            assert_eq!(*expected, 2);
            assert_eq!(atom.head, sym(CTOR_NAME_SYM));
        }
        _ => panic!("expected an arity diagnostic"),
    }
}

#[test]
fn ctor_known_name_binds_prefix_and_result() {
    let ti = type_info();
    let fs = FunctionSort::new(sym(1000), vec![prim(2), prim(3)], prim(4));
    let ctor = Ctor { name: sym(CTOR_NAME_SYM) };
    let c = ctor.get_type_constraints(&fs);
    let args = vec![
        AtomTerm::Literal(Literal::Str(sym(50))),
        AtomTerm::Var(sym(200)),
        AtomTerm::Var(sym(201)),
    ];
    let r = c.get(&args, &ti);
    assert_eq!(r.len(), 2);
    match &r[0] {
        Constraint::Assign(t, s) => {
            assert_eq!(*t, AtomTerm::Var(sym(200)));
            assert_eq!(*s, prim(1));
        }
        _ => panic!("expected an assignment"),
    }
    match &r[1] {
        Constraint::Assign(t, s) => {
            assert_eq!(*t, AtomTerm::Var(sym(201)));
            assert_eq!(*s, Sort { name: sym(1000), kind: SortKind::Function });
        }
        _ => panic!("expected the result assignment"),
    }
}

#[test]
fn ctor_two_partials_bind_the_full_prefix() {
    let ti = type_info();
    // Declared remaining input: only s3.
    let fs = FunctionSort::new(sym(1000), vec![prim(3)], prim(4));
    let ctor = Ctor { name: sym(CTOR_NAME_SYM) };
    let c = ctor.get_type_constraints(&fs);
    let args = vec![
        AtomTerm::Literal(Literal::Str(sym(50))),
        AtomTerm::Var(sym(200)),
        AtomTerm::Var(sym(201)),
        AtomTerm::Var(sym(202)),
    ];
    let r = c.get(&args, &ti);
    assert_eq!(r.len(), 3);
    match (&r[0], &r[1]) {
        (Constraint::Assign(t0, s0), Constraint::Assign(t1, s1)) => {
            assert_eq!(*t0, AtomTerm::Var(sym(200)));
            assert_eq!(*s0, prim(1));
            assert_eq!(*t1, AtomTerm::Var(sym(201)));
            assert_eq!(*s1, prim(2));
        }
        _ => panic!("expected prefix assignments"),
    }
}

#[test]
fn ctor_wrong_partial_count_reports_historical_expected() {
    let ti = type_info();
    let fs = FunctionSort::new(sym(1000), vec![prim(2), prim(3)], prim(4));
    let ctor = Ctor { name: sym(CTOR_NAME_SYM) };
    let c = ctor.get_type_constraints(&fs);
    // No partial argument: 2 declared + 0 partial != 3 full inputs.
    let args = vec![AtomTerm::Literal(Literal::Str(sym(50))), AtomTerm::Var(sym(201))];
    let r = c.get(&args, &ti);
    assert_eq!(r.len(), 1);
    match &r[0] {
        Constraint::Impossible(ImpossibleConstraint::ArityMismatch { expected, .. }) => {
            // Declared inputs (2) + full inputs (3) + 1.
            assert_eq!(*expected, 6);
        }
        _ => panic!("expected an arity diagnostic"),
    }
}

#[test]
fn ctor_incompatible_declaration_is_a_signature_mismatch() {
    let ti = type_info();
    // Declared as (s3, s2) -> out instead of (s2, s3) -> out.
    let fs = FunctionSort::new(sym(1000), vec![prim(3), prim(2)], prim(4));
    let ctor = Ctor { name: sym(CTOR_NAME_SYM) };
    let c = ctor.get_type_constraints(&fs);
    let args = vec![
        AtomTerm::Literal(Literal::Str(sym(50))),
        AtomTerm::Var(sym(200)),
        AtomTerm::Var(sym(201)),
    ];
    let r = c.get(&args, &ti);
    assert_eq!(r.len(), 1);
    match &r[0] {
        Constraint::Impossible(ImpossibleConstraint::FunctionMismatch {
            expected_output,
            expected_input,
            actual_output,
            actual_input,
        }) => {
            assert_eq!(*expected_output, prim(4));
            assert_eq!(*expected_input, vec![prim(3), prim(2)]);
            assert_eq!(*actual_output, prim(4));
            assert_eq!(*actual_input, vec![prim(2), prim(3)]);
        }
        _ => panic!("expected a signature mismatch"),
    }
}

#[test]
fn ctor_unknown_name_gets_generic_constraints() {
    let ti = type_info();
    let fs = FunctionSort::new(sym(1000), vec![prim(2), prim(3)], prim(4));
    let ctor = Ctor { name: sym(CTOR_NAME_SYM) };
    let c = ctor.get_type_constraints(&fs);
    let args = vec![
        AtomTerm::Literal(Literal::Str(sym(999))),
        AtomTerm::Var(sym(200)),
        AtomTerm::Var(sym(201)),
    ];
    let r = c.get(&args, &ti);
    assert_eq!(r.len(), 2);
    match &r[0] {
        Constraint::Assign(t, s) => {
            assert_eq!(*t, AtomTerm::Literal(Literal::Str(sym(999))));
            assert_eq!(*s, prim(102));
        }
        _ => panic!("expected the string-sort assignment"),
    }
}

#[test]
fn ctor_dynamic_name_gets_generic_constraints() {
    let ti = type_info();
    let fs = FunctionSort::new(sym(1000), vec![prim(2), prim(3)], prim(4));
    let ctor = Ctor { name: sym(CTOR_NAME_SYM) };
    let c = ctor.get_type_constraints(&fs);
    let args = vec![AtomTerm::Var(sym(199)), AtomTerm::Var(sym(201))];
    let r = c.get(&args, &ti);
    assert_eq!(r.len(), 2);
}

#[test]
fn apply_arity_is_rejected_statically() {
    let fs = FunctionSort::new(sym(1000), vec![prim(2), prim(3)], prim(4));
    let apply = Apply { name: sym(APPLY_NAME_SYM) };
    let stc = apply.get_type_constraints(&fs);
    assert_eq!(
        stc.sorts,
        vec![Sort { name: sym(1000), kind: SortKind::Function }, prim(2), prim(3), prim(4)]
    );
    // One argument too few.
    let r = stc.get(&vec![
        AtomTerm::Var(sym(200)),
        AtomTerm::Var(sym(201)),
        AtomTerm::Var(sym(202)),
    ]);
    assert_eq!(r.len(), 1);
    match &r[0] {
        Constraint::Impossible(ImpossibleConstraint::ArityMismatch { expected, .. }) => {
            assert_eq!(*expected, 4);
        }
        _ => panic!("expected an arity diagnostic"),
    }
    // The exact count assigns every term its sort.
    let ok = stc.get(&vec![
        AtomTerm::Var(sym(200)),
        AtomTerm::Var(sym(201)),
        AtomTerm::Var(sym(202)),
        AtomTerm::Var(sym(203)),
    ]);
    assert_eq!(ok.len(), 4);
    match &ok[3] {
        Constraint::Assign(t, s) => {
            assert_eq!(*t, AtomTerm::Var(sym(203)));
            assert_eq!(*s, prim(4));
        }
        _ => panic!("expected an assignment"),
    }
}

#[test]
fn make_sort_resolves_inputs_and_output() {
    let ti = type_info();
    let args = vec![Expr::Call(sym(1), vec![Expr::Var(sym(2))]), Expr::Var(sym(4))];
    let fs = FunctionSort::make_sort(&ti, sym(1000), &args).unwrap();
    assert_eq!(fs.inputs, vec![prim(1), prim(2)]);
    assert_eq!(fs.output, prim(4));
    assert_eq!(fs.name(), sym(1000));
}

#[test]
fn make_sort_empty_input_list() {
    let ti = type_info();
    let args = vec![Expr::Lit(Literal::Unit), Expr::Var(sym(4))];
    let fs = FunctionSort::make_sort(&ti, sym(1000), &args).unwrap();
    assert_eq!(fs.inputs, vec![]);
}

#[test]
fn make_sort_undefined_output() {
    let ti = type_info();
    let args = vec![Expr::Lit(Literal::Unit), Expr::Var(sym(999))];
    let e = FunctionSort::make_sort(&ti, sym(1000), &args).unwrap_err();
    assert_eq!(e, TypeError::UndefinedSort(sym(999)));
}

#[test]
fn make_sort_undefined_input() {
    let ti = type_info();
    let args = vec![Expr::Call(sym(1), vec![Expr::Var(sym(998))]), Expr::Var(sym(4))];
    let e = FunctionSort::make_sort(&ti, sym(1000), &args).unwrap_err();
    assert_eq!(e, TypeError::UndefinedSort(sym(998)));
}

#[test]
fn registering_adds_the_two_primitives() {
    let mut ti = type_info();
    let fs = FunctionSort::new(sym(1000), vec![prim(2)], prim(4));
    fs.register_primitives(&mut ti);
    assert_eq!(ti.primitives.len(), 2);
    assert_eq!(ti.primitives[0].name, sym(CTOR_NAME_SYM));
    assert_eq!(ti.primitives[1].name, sym(APPLY_NAME_SYM));
    assert_eq!(ti.primitives[0].sort_name, sym(1000));
}

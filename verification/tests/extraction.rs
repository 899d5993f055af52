use fn_sort::extract::{saturating_add, ExtractEntry, Extractor, Term, TermDag};
use fn_sort::sort::{FunctionSort, ValueFunction};
use fn_sort::value::{Literal, Sort, SortKind, Symbol, Value, CTOR_NAME_SYM};

fn sym(id: u64) -> Symbol {
    Symbol { id }
}

fn val(bits: u64) -> Value {
    Value { bits }
}

fn int_sort() -> Sort {
    Sort { name: sym(100), kind: SortKind::Primitive }
}

fn eq_sort() -> Sort {
    Sort { name: sym(101), kind: SortKind::Eq }
}

#[test]
fn term_dag_interns_each_node_once() {
    let mut td = TermDag::new();
    let a = td.lit(Literal::Int(1));
    let b = td.lit(Literal::Int(2));
    let a2 = td.lit(Literal::Int(1));
    assert_eq!(a, a2);
    assert_ne!(a, b);
    let app1 = td.app(sym(9), vec![a, b]);
    let app2 = td.app(sym(9), vec![a, b]);
    let app3 = td.app(sym(9), vec![b, a]);
    assert_eq!(app1, app2);
    assert_ne!(app1, app3);
    assert_eq!(td.nodes.len(), 4);
}

#[test]
fn extraction_cost_is_one_plus_child_costs() {
    let mut td = TermDag::new();
    let t1 = td.lit(Literal::Int(1));
    let t2 = td.lit(Literal::Int(2));
    let extractor = Extractor {
        entries: vec![
            ExtractEntry { sort: int_sort(), value: val(1), cost: 3, term: t1 },
            ExtractEntry { sort: eq_sort(), value: val(0), cost: 4, term: t2 },
        ],
    };
    let mut fs = FunctionSort::new(sym(1000), vec![int_sort()], int_sort());
    let v = ValueFunction {
        name: sym(7),
        args: vec![(int_sort(), val(1)), (eq_sort(), val(0))],
    };
    let h = v.store(&mut fs).unwrap();
    let (cost, term) = fs.extract_term(h, &extractor, &mut td).unwrap();
    assert_eq!(cost, 1 + 3 + 4);
    match &td.nodes[term] {
        Term::App(head, children) => {
            assert_eq!(*head, sym(CTOR_NAME_SYM));
            assert_eq!(children.len(), 3);
            match &td.nodes[children[0]] {
                Term::Lit(Literal::Str(s)) => assert_eq!(*s, sym(7)),
                _ => panic!("expected the name literal first"),
            }
            assert_eq!(children[1], t1);
            assert_eq!(children[2], t2);
        }
        _ => panic!("expected an application term"),
    }
}

#[test]
fn extraction_fails_when_a_child_is_unreachable() {
    let mut td = TermDag::new();
    let t1 = td.lit(Literal::Int(1));
    let extractor = Extractor {
        entries: vec![ExtractEntry { sort: int_sort(), value: val(1), cost: 3, term: t1 }],
    };
    let mut fs = FunctionSort::new(sym(1000), vec![int_sort()], int_sort());
    let v = ValueFunction {
        name: sym(7),
        args: vec![(int_sort(), val(1)), (eq_sort(), val(9))],
    };
    let h = v.store(&mut fs).unwrap();
    assert!(fs.extract_term(h, &extractor, &mut td).is_none());
}

#[test]
fn extraction_cost_saturates() {
    let mut td = TermDag::new();
    let t1 = td.lit(Literal::Int(1));
    let extractor = Extractor {
        entries: vec![ExtractEntry {
            sort: int_sort(),
            value: val(1),
            cost: usize::MAX,
            term: t1,
        }],
    };
    let mut fs = FunctionSort::new(sym(1000), vec![int_sort()], int_sort());
    let v = ValueFunction { name: sym(7), args: vec![(int_sort(), val(1))] };
    let h = v.store(&mut fs).unwrap();
    let (cost, _) = fs.extract_term(h, &extractor, &mut td).unwrap();
    assert_eq!(cost, usize::MAX);
}

#[test]
fn saturating_add_clamps_at_the_maximum() {
    assert_eq!(saturating_add(2, 3), 5);
    assert_eq!(saturating_add(usize::MAX, 1), usize::MAX);
    assert_eq!(saturating_add(usize::MAX - 1, 1), usize::MAX);
}

#[test]
fn empty_value_extracts_as_the_bare_name() {
    let mut td = TermDag::new();
    let extractor = Extractor { entries: vec![] };
    let mut fs = FunctionSort::new(sym(1000), vec![int_sort()], int_sort());
    let v = ValueFunction { name: sym(7), args: vec![] };
    let h = v.store(&mut fs).unwrap();
    let (cost, term) = fs.extract_term(h, &extractor, &mut td).unwrap();
    assert_eq!(cost, 1);
    match &td.nodes[term] {
        Term::App(head, children) => {
            assert_eq!(*head, sym(CTOR_NAME_SYM));
            assert_eq!(children.len(), 1);
        }
        _ => panic!("expected an application term"),
    }
}

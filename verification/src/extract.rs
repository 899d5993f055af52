use vstd::prelude::*;
use crate::value::{Literal, Sort, Symbol, Value, CTOR_NAME_SYM};
use crate::sort::FunctionSort;

verus! {

/// A node of the term dag: a literal leaf or an application of a head symbol
/// to earlier nodes.
#[derive(Debug)]
pub enum Term {
    Lit(Literal),
    App(Symbol, Vec<usize>),
}

/// The mathematical model of a term-dag node.
pub ghost enum TermModel {
    Lit(Literal),
    App(Symbol, Seq<usize>),
}

impl View for Term {
    type V = TermModel;

    open spec fn view(&self) -> TermModel {
        match self {
            Term::Lit(l) => TermModel::Lit(*l),
            Term::App(h, c) => TermModel::App(*h, c@),
        }
    }
}

/// Whether the dag already holds node `t`.
pub open spec fn dag_has(nodes: Seq<TermModel>, t: TermModel) -> bool {
    exists|i: int| 0 <= i < nodes.len() && #[trigger] nodes[i] == t
}

/// The id of node `t` (unique in a deduplicated dag).
pub open spec fn dag_index(nodes: Seq<TermModel>, t: TermModel) -> int {
    choose|i: int| 0 <= i < nodes.len() && #[trigger] nodes[i] == t
}

/// The dag after interning `t`: unchanged when present, else extended.
pub open spec fn dag_nodes(nodes: Seq<TermModel>, t: TermModel) -> Seq<TermModel> {
    if dag_has(nodes, t) {
        nodes
    } else {
        nodes.push(t)
    }
}

/// The id interning `t` hands back.
pub open spec fn dag_id(nodes: Seq<TermModel>, t: TermModel) -> int {
    if dag_has(nodes, t) {
        dag_index(nodes, t)
    } else {
        nodes.len() as int
    }
}

fn ids_eq(a: &Vec<usize>, b: &Vec<usize>) -> (r: bool)
    ensures
        r == (a@ == b@),
{
    let n = a.len();
    if n != b.len() {
        proof {
            assert(a@.len() != b@.len());
        }
        return false;
    }
    let mut i: usize = 0;
    while i < n
        invariant
            n == a@.len(),
            n == b@.len(),
            0 <= i <= n,
            forall|j: int| 0 <= j < i ==> a@[j] == b@[j],
        decreases n - i,
    {
        if a[i] != b[i] {
            proof {
                assert(a@[i as int] != b@[i as int]);
            }
            return false;
        }
        i += 1;
    }
    proof {
        assert(a@ =~= b@);
    }
    true
}

fn term_eq(a: &Term, b: &Term) -> (r: bool)
    ensures
        r == (a@ == b@),
{
    match (a, b) {
        (Term::Lit(l1), Term::Lit(l2)) => *l1 == *l2,
        (Term::App(h1, c1), Term::App(h2, c2)) => h1.id == h2.id && ids_eq(c1, c2),
        _ => false,
    }
}

/// A deduplicating, append-only term dag: interning the same node twice
/// yields the same id.
pub struct TermDag {
    pub nodes: Vec<Term>,
}

impl TermDag {
    pub open spec fn nodes_model(&self) -> Seq<TermModel> {
        Seq::new(self.nodes@.len(), |i: int| self.nodes@[i]@)
    }

    /// The dag is deduplicated.
    pub open spec fn wf(&self) -> bool {
        forall|i: int, j: int|
            0 <= i < j < self.nodes_model().len() ==> #[trigger] self.nodes_model()[i] != (
            #[trigger] self.nodes_model()[j])
    }

    pub fn new() -> (r: TermDag)
        ensures
            r.wf(),
            r.nodes_model().len() == 0,
    {
        TermDag { nodes: Vec::new() }
    }

    fn intern(&mut self, t: Term) -> (r: usize)
        requires
            old(self).wf(),
        ensures
            final(self).wf(),
            final(self).nodes_model() == dag_nodes(old(self).nodes_model(), t@),
            r == dag_id(old(self).nodes_model(), t@),
    {
        let n = self.nodes.len();
        let mut i: usize = 0;
        while i < n
            invariant
                old(self).wf(),
                *self == *old(self),
                n == self.nodes@.len(),
                0 <= i <= n,
                forall|j: int| 0 <= j < i ==> #[trigger] self.nodes_model()[j] != t@,
            decreases n - i,
        {
            if term_eq(&self.nodes[i], &t) {
                proof {
                    assert(self.nodes_model()[i as int] == t@);
                    assert(dag_has(self.nodes_model(), t@));
                    let k = dag_index(self.nodes_model(), t@);
                    if k != i as int {
                        assert(self.nodes_model()[k] != self.nodes_model()[i as int]);
                    }
                }
                return i;
            }
            proof {
                assert(self.nodes_model()[i as int] == self.nodes@[i as int]@);
            }
            i += 1;
        }
        proof {
            assert(!dag_has(self.nodes_model(), t@));
        }
        let ghost pre = self.nodes_model();
        let ghost tm = t@;
        self.nodes.push(t);
        proof {
            assert(self.nodes_model() =~= pre.push(tm));
            assert forall|i0: int, j0: int| 0 <= i0 < j0 < self.nodes_model().len() implies
                #[trigger] self.nodes_model()[i0] != (#[trigger] self.nodes_model()[j0]) by {
                if j0 < pre.len() {
                    assert(pre[i0] != pre[j0]);
                } else {
                    assert(self.nodes_model()[j0] == tm);
                    assert(pre[i0] != tm);
                }
            }
        }
        n
    }

    /// Intern a literal leaf.
    pub fn lit(&mut self, l: Literal) -> (r: usize)
        requires
            old(self).wf(),
        ensures
            final(self).wf(),
            final(self).nodes_model() == dag_nodes(old(self).nodes_model(), TermModel::Lit(l)),
            r == dag_id(old(self).nodes_model(), TermModel::Lit(l)),
    {
        self.intern(Term::Lit(l))
    }

    /// Intern an application node over already-interned children.
    pub fn app(&mut self, head: Symbol, children: Vec<usize>) -> (r: usize)
        requires
            old(self).wf(),
        ensures
            final(self).wf(),
            final(self).nodes_model() == dag_nodes(
                old(self).nodes_model(),
                TermModel::App(head, children@),
            ),
            r == dag_id(old(self).nodes_model(), TermModel::App(head, children@)),
    {
        self.intern(Term::App(head, children))
    }
}

/// One answer of the cost-based extractor collaborator: the best cost and
/// term it currently knows for a value of a given sort.
#[derive(Clone, Copy, PartialEq, Eq, Structural, Debug)]
pub struct ExtractEntry {
    pub sort: Sort,
    pub value: Value,
    pub cost: usize,
    pub term: usize,
}

/// Whether the extractor can currently extract `(s, v)`.
pub open spec fn ex_has(es: Seq<ExtractEntry>, s: Sort, v: Value) -> bool {
    exists|i: int|
        0 <= i < es.len() && (#[trigger] es[i]).sort == s && es[i].value == v
}

/// The extractor's answer for `(s, v)` (unique in a well-formed extractor).
pub open spec fn ex_at(es: Seq<ExtractEntry>, s: Sort, v: Value) -> int {
    choose|i: int| 0 <= i < es.len() && (#[trigger] es[i]).sort == s && es[i].value == v
}

pub open spec fn ex_cost(es: Seq<ExtractEntry>, s: Sort, v: Value) -> int {
    es[ex_at(es, s, v)].cost as int
}

pub open spec fn ex_term(es: Seq<ExtractEntry>, s: Sort, v: Value) -> usize {
    es[ex_at(es, s, v)].term
}

/// The cost-based extractor collaborator, modelled by the answers it gives:
/// for each (sort, value) pair it can currently reach, its best cost and the
/// id of the corresponding term.
pub struct Extractor {
    pub entries: Vec<ExtractEntry>,
}

impl Extractor {
    /// At most one answer per (sort, value) pair.
    pub open spec fn wf(&self) -> bool {
        forall|i: int, j: int|
            0 <= i < j < self.entries@.len() ==> !((#[trigger] self.entries@[i]).sort == (
            #[trigger] self.entries@[j]).sort && self.entries@[i].value == self.entries@[j].value)
    }

    /// The best (cost, term) currently known for `value` at `sort`, and
    /// nothing when the value cannot currently be extracted.
    pub fn find_best(&self, value: Value, sort: &Sort) -> (r: Option<(usize, usize)>)
        requires
            self.wf(),
        ensures
            r is Some <==> ex_has(self.entries@, *sort, value),
            r matches Some(p) ==> p.0 as int == ex_cost(self.entries@, *sort, value) && p.1
                == ex_term(self.entries@, *sort, value),
    {
        let n = self.entries.len();
        let mut i: usize = 0;
        while i < n
            invariant
                self.wf(),
                n == self.entries@.len(),
                0 <= i <= n,
                forall|j: int|
                    0 <= j < i ==> !((#[trigger] self.entries@[j]).sort == *sort
                        && self.entries@[j].value == value),
            decreases n - i,
        {
            let e = self.entries[i];
            if e.sort == *sort && e.value.bits == value.bits {
                proof {
                    assert(self.entries@[i as int].sort == *sort);
                    assert(ex_has(self.entries@, *sort, value));
                    let k = ex_at(self.entries@, *sort, value);
                    if k != i as int {
                        assert(!(self.entries@[k].sort == self.entries@[i as int].sort
                            && self.entries@[k].value == self.entries@[i as int].value));
                    }
                }
                return Some((e.cost, e.term));
            }
            i += 1;
        }
        None
    }
}

/// Addition clamped at the machine maximum, the overflow-safe cost sum.
pub open spec fn sat_add(a: int, b: int) -> int {
    if a + b > usize::MAX as int {
        usize::MAX as int
    } else {
        a + b
    }
}

/// Saturating addition on machine words.
pub fn saturating_add(a: usize, b: usize) -> (r: usize)
    ensures
        r as int == sat_add(a as int, b as int),
{
    if a > usize::MAX - b {
        usize::MAX
    } else {
        a + b
    }
}

/// Whether every child of the entry can currently be extracted.
pub open spec fn children_costs_ok(es: Seq<ExtractEntry>, args: Seq<(Sort, Value)>) -> bool {
    forall|j: int|
        0 <= j < args.len() ==> ex_has(es, (#[trigger] args[j]).0, args[j].1)
}

/// The extracted cost of a function value: one for the value itself plus the
/// extracted cost of each child, folded left with saturating addition.
pub open spec fn prefix_cost(es: Seq<ExtractEntry>, args: Seq<(Sort, Value)>) -> int
    decreases args.len(),
{
    if args.len() == 0 {
        1
    } else {
        sat_add(prefix_cost(es, args.drop_last()), ex_cost(es, args.last().0, args.last().1))
    }
}

/// The term ids of the extracted children, in order.
pub open spec fn child_term_ids(es: Seq<ExtractEntry>, args: Seq<(Sort, Value)>) -> Seq<usize> {
    Seq::new(args.len(), |i: int| ex_term(es, args[i].0, args[i].1))
}

impl FunctionSort {
    /// Reconstruct a term for a stored function value: an application of the
    /// constructor's name literal to the extracted term of each partial
    /// argument, at cost one plus the saturating sum of the children's costs.
    /// Extraction fails when any child cannot currently be extracted; the
    /// name literal is interned either way.
    pub fn extract_term(&self, value: Value, extractor: &Extractor, termdag: &mut TermDag) -> (r:
        Option<(usize, usize)>)
        requires
            self.wf(),
            value.bits < self.entries().len(),
            extractor.wf(),
            old(termdag).wf(),
        ensures
            final(termdag).wf(),
            ({
                let e = self.entries()[value.bits as int];
                let name_lit = TermModel::Lit(Literal::Str(e.name));
                let d1 = dag_nodes(old(termdag).nodes_model(), name_lit);
                let litid = dag_id(old(termdag).nodes_model(), name_lit);
                if children_costs_ok(extractor.entries@, e.args) {
                    let ids = seq![litid as usize] + child_term_ids(extractor.entries@, e.args);
                    let app = TermModel::App((Symbol { id: CTOR_NAME_SYM }), ids);
                    &&& r matches Some(ct)
                    &&& ct.0 as int == prefix_cost(extractor.entries@, e.args)
                    &&& ct.1 == dag_id(d1, app)
                    &&& final(termdag).nodes_model() == dag_nodes(d1, app)
                } else {
                    r is None && final(termdag).nodes_model() == d1
                }
            }),
    {
        let vf = self.get_value(&value);
        let ghost e = self.entries()[value.bits as int];
        let lit_id = termdag.lit(Literal::Str(vf.name));
        let ghost d1 = termdag.nodes_model();
        let mut ids: Vec<usize> = Vec::new();
        ids.push(lit_id);
        let mut cost: usize = 1;
        let n = vf.args.len();
        let mut i: usize = 0;
        while i < n
            invariant
                self.wf(),
                extractor.wf(),
                termdag.wf(),
                termdag.nodes_model() == d1,
                vf@ == e,
                value.bits < self.entries().len(),
                e == self.entries()[value.bits as int],
                d1 == dag_nodes(old(termdag).nodes_model(), TermModel::Lit(Literal::Str(e.name))),
                lit_id == dag_id(old(termdag).nodes_model(), TermModel::Lit(Literal::Str(e.name))),
                n == vf.args@.len(),
                0 <= i <= n,
                ids@.len() == i + 1,
                ids@[0] == lit_id,
                forall|j: int|
                    0 <= j < i ==> ids@[j + 1] == ex_term(extractor.entries@, e.args[j].0, e.args[j].1),
                forall|j: int|
                    0 <= j < i ==> ex_has(extractor.entries@, (#[trigger] e.args[j]).0, e.args[j].1),
                cost as int == prefix_cost(extractor.entries@, e.args.take(i as int)),
            decreases n - i,
        {
            let (s, v) = vf.args[i];
            match extractor.find_best(v, &s) {
                Some(ct) => {
                    proof {
                        assert(e.args.take(i + 1).drop_last() =~= e.args.take(i as int));
                        assert(e.args.take(i + 1).last() == e.args[i as int]);
                    }
                    cost = saturating_add(cost, ct.0);
                    ids.push(ct.1);
                },
                None => {
                    proof {
                        assert(!ex_has(extractor.entries@, e.args[i as int].0, e.args[i as int].1));
                    }
                    return None;
                },
            }
            i += 1;
        }
        proof {
            assert(e.args.take(n as int) =~= e.args);
            assert(ids@ =~= seq![
                dag_id(old(termdag).nodes_model(), TermModel::Lit(Literal::Str(e.name))) as usize,
            ] + child_term_ids(extractor.entries@, e.args));
        }
        let app_id = termdag.app(Symbol { id: CTOR_NAME_SYM }, ids);
        Some((cost, app_id))
    }
}

} // verus!

//! The graph compiler: lowers a finalized dependency graph into a tree of
//! executable expressions. Compilation is purely structural — it rearranges
//! shape, never argument values — and is deterministic and total over every
//! graph that passed finalize.

use vstd::prelude::*;
use vstd::pervasive::arbitrary;

use crate::error::CoreError;
use crate::expression::DbQuery;
use crate::expression::ExprV;
use crate::expression::Expression;
use crate::expression::Subst;
use crate::expression::SubstV;
use crate::expression::expr_v;
use crate::expression::exprs_v;
use crate::expression::query_v;
use crate::expression::subst_v;
use crate::graph::ContentV;
use crate::graph::Edge;
use crate::graph::EdgeKind;
use crate::graph::GraphV;
use crate::graph::NodeContent;
use crate::graph::NodeV;
use crate::graph::QueryGraph;
use crate::graph::graph_v;
use crate::graph::graph_wf;

verus! {

/// The binding name a node's result is stored under: the node's own name.
pub open spec fn node_binding(nodes: Seq<NodeV>, j: int) -> String {
    if 0 <= j < nodes.len() {
        nodes[j].name
    } else {
        arbitrary()
    }
}

/// The substitutions one edge contributes to node `i`.
pub open spec fn edge_substs(nodes: Seq<NodeV>, e: Edge, i: int) -> Seq<SubstV> {
    match e.kind {
        EdgeKind::Data { target_slot, source_field, required: _ } => if e.target == i {
            seq![
                SubstV {
                    target_slot: target_slot as int,
                    binding: node_binding(nodes, e.source as int),
                    field: source_field,
                },
            ]
        } else {
            Seq::empty()
        },
        EdgeKind::Ordering => Seq::empty(),
    }
}

/// The substitutions compiled from the data edges that feed node `i`, in
/// edge insertion order — the deterministic merge order when several data
/// edges feed one node.
pub open spec fn substs_of(nodes: Seq<NodeV>, edges: Seq<Edge>, i: int) -> Seq<SubstV>
    decreases edges.len(),
{
    if edges.len() == 0 {
        Seq::empty()
    } else {
        edge_substs(nodes, edges[0], i) + substs_of(nodes, edges.drop_first(), i)
    }
}

/// Extending the scanned edge prefix by one appends that edge's
/// contribution.
pub proof fn lemma_substs_take_step(nodes: Seq<NodeV>, edges: Seq<Edge>, k: int, i: int)
    requires
        0 <= k < edges.len(),
    ensures
        substs_of(nodes, edges.take(k + 1), i) == substs_of(nodes, edges.take(k), i)
            + edge_substs(nodes, edges[k], i),
    decreases k,
{
    let pre = edges.take(k + 1);
    if k == 0 {
        assert(pre.drop_first() =~= edges.take(0));
        assert(substs_of(nodes, edges.take(0), i) =~= Seq::<SubstV>::empty());
        assert(substs_of(nodes, pre, i) =~= edge_substs(nodes, edges[0], i));
        assert(substs_of(nodes, edges.take(0), i) + edge_substs(nodes, edges[0], i)
            =~= edge_substs(nodes, edges[0], i));
    } else {
        let tail = edges.drop_first();
        lemma_substs_take_step(nodes, tail, k - 1, i);
        assert(pre.drop_first() =~= tail.take(k));
        assert(edges.take(k).drop_first() =~= tail.take(k - 1));
        assert(tail[k - 1] == edges[k]);
        assert(substs_of(nodes, pre, i) =~= substs_of(nodes, edges.take(k), i) + edge_substs(
            nodes,
            edges[k],
            i,
        ));
    }
}

/// `e` is a non-required data edge feeding node `i`.
pub open spec fn is_opt_data_for(e: Edge, i: int) -> bool {
    &&& e.target == i
    &&& match e.kind {
        EdgeKind::Data { target_slot: _, source_field: _, required } => !required,
        EdgeKind::Ordering => false,
    }
}

/// `edges[k]` is the first non-required data edge feeding node `i`.
pub open spec fn first_opt_at(edges: Seq<Edge>, i: int, k: int) -> bool {
    &&& 0 <= k < edges.len()
    &&& is_opt_data_for(edges[k], i)
    &&& forall|j: int| 0 <= j < k ==> !is_opt_data_for(edges[j], i)
}

/// Some non-required data edge feeds node `i`.
pub open spec fn has_opt_edge(edges: Seq<Edge>, i: int) -> bool {
    exists|k: int| 0 <= k < edges.len() && is_opt_data_for(edges[k], i)
}

/// The index of the first non-required data edge feeding node `i`.
pub open spec fn first_opt_index(edges: Seq<Edge>, i: int) -> int {
    choose|k: int| first_opt_at(edges, i, k)
}

/// An optional edge anywhere gives a first optional edge.
pub proof fn lemma_first_opt(edges: Seq<Edge>, i: int, k: int)
    requires
        0 <= k < edges.len(),
        is_opt_data_for(edges[k], i),
    ensures
        first_opt_at(edges, i, first_opt_index(edges, i)),
    decreases k,
{
    if forall|j: int| 0 <= j < k ==> !is_opt_data_for(edges[j], i) {
        assert(first_opt_at(edges, i, k));
    } else {
        let j = choose|j: int| 0 <= j < k && is_opt_data_for(edges[j], i);
        lemma_first_opt(edges, i, j);
    }
}

/// The expression one node compiles to, before its let-binding: the atomic
/// call with its substitutions (or an empty sequence for a barrier),
/// guarded by a conditional when a non-required data edge feeds the node.
pub open spec fn node_expr(g: GraphV, i: int) -> ExprV {
    let inner = match g.nodes[i].content {
        ContentV::Query(q) => ExprV::Func { query: q, substs: substs_of(g.nodes, g.edges, i) },
        ContentV::Empty => ExprV::Sequence(Seq::empty()),
    };
    if has_opt_edge(g.edges, i) {
        let k = first_opt_index(g.edges, i);
        ExprV::If {
            binding: node_binding(g.nodes, g.edges[k].source as int),
            then_seq: seq![inner],
        }
    } else {
        inner
    }
}

/// What compilation produces: one let-binding per node in creation order,
/// then the collected results of every node.
pub open spec fn compile_spec(g: GraphV) -> ExprV {
    let children = Seq::new(
        g.nodes.len(),
        |i: int| ExprV::Let { binding: node_binding(g.nodes, i), inner: seq![node_expr(g, i)] },
    );
    let names = Seq::new(g.nodes.len(), |i: int| node_binding(g.nodes, i));
    ExprV::Sequence(children.push(ExprV::GetAll { bindings: names }))
}

/// Compilation is deterministic: equal graphs compile to equal expression
/// trees.
pub proof fn lemma_compile_deterministic(a: GraphV, b: GraphV)
    requires
        a == b,
    ensures
        compile_spec(a) == compile_spec(b),
{
}

/// A value-preserving copy of a backend operation.
fn clone_db_query(q: &DbQuery) -> (r: DbQuery)
    ensures
        query_v(r) == query_v(*q),
{
    match q {
        DbQuery::Create { model, field_names, values } => {
            let r = DbQuery::Create {
                model: model.clone(),
                field_names: field_names.clone(),
                values: values.clone(),
            };
            proof {
                assert(query_v(r)->Create_field_names =~= field_names@);
                assert(query_v(r)->Create_values =~= values@);
            }
            r
        }
        DbQuery::ReadAll { model } => DbQuery::ReadAll { model: model.clone() },
    }
}

/// The graph compiler.
pub struct Expressionista {}

impl Expressionista {
    /// Lower a finalized graph into its expression tree. Fails only on a
    /// graph that did not pass finalize.
    pub fn translate(graph: QueryGraph) -> (r: Result<Expression, CoreError>)
        ensures
            !graph.finalized ==> r == Result::<Expression, CoreError>::Err(
                CoreError::GraphNotFinalized,
            ),
            graph.finalized && !graph_wf(graph_v(graph)) ==> r == Result::<
                Expression,
                CoreError,
            >::Err(CoreError::InvalidGraph),
            graph.finalized && graph_wf(graph_v(graph)) ==> {
                &&& r is Ok
                &&& expr_v(r->Ok_0) == compile_spec(graph_v(graph))
            },
    {
        if !graph.finalized {
            return Err(CoreError::GraphNotFinalized);
        }
        let ghost gv = graph_v(graph);
        let mut i: usize = 0;
        let mut ok: bool = true;
        while i < graph.edges.len()
            invariant
                i <= graph.edges@.len(),
                gv == graph_v(graph),
                ok == forall|j: int|
                    0 <= j < i ==> (#[trigger] gv.edges[j]).source < gv.edges[j].target
                        < gv.nodes.len(),
            decreases graph.edges@.len() - i,
        {
            let e = &graph.edges[i];
            if !(e.source < e.target && e.target < graph.nodes.len()) {
                ok = false;
            }
            i += 1;
        }
        if !ok {
            return Err(CoreError::InvalidGraph);
        }
        let mut children: Vec<Expression> = Vec::new();
        let mut names: Vec<String> = Vec::new();
        let mut n: usize = 0;
        while n < graph.nodes.len()
            invariant
                n <= graph.nodes@.len(),
                gv == graph_v(graph),
                graph_wf(gv),
                children@.len() == n,
                names@.len() == n,
                forall|j: int|
                    0 <= j < n ==> exprs_v(children@)[j] == (ExprV::Let {
                        binding: node_binding(gv.nodes, j),
                        inner: seq![node_expr(gv, j)],
                    }),
                forall|j: int| 0 <= j < n ==> names@[j] == node_binding(gv.nodes, j),
            decreases graph.nodes@.len() - n,
        {
            let mut substs: Vec<Subst> = Vec::new();
            let mut opt_binding: Option<String> = None;
            let mut k: usize = 0;
            proof {
                assert(substs@.map_values(|s: Subst| subst_v(s)) =~= substs_of(
                    gv.nodes,
                    gv.edges.take(0),
                    n as int,
                ));
            }
            while k < graph.edges.len()
                invariant
                    k <= graph.edges@.len(),
                    n < graph.nodes@.len(),
                    gv == graph_v(graph),
                    graph_wf(gv),
                    substs@.map_values(|s: Subst| subst_v(s)) == substs_of(
                        gv.nodes,
                        gv.edges.take(k as int),
                        n as int,
                    ),
                    match opt_binding {
                        Some(b) => exists|x: int|
                            {
                                &&& first_opt_at(gv.edges, n as int, x)
                                &&& x < k
                                &&& b == node_binding(gv.nodes, gv.edges[x].source as int)
                            },
                        None => forall|j: int|
                            0 <= j < k ==> !is_opt_data_for(gv.edges[j], n as int),
                    },
                decreases graph.edges@.len() - k,
            {
                let e = &graph.edges[k];
                match &e.kind {
                    EdgeKind::Data { target_slot, source_field, required } => {
                        if e.target == n {
                            substs.push(
                                Subst {
                                    target_slot: *target_slot,
                                    binding: graph.nodes[e.source].name.clone(),
                                    field: source_field.clone(),
                                },
                            );
                            if !*required && opt_binding.is_none() {
                                opt_binding = Some(graph.nodes[e.source].name.clone());
                                proof {
                                    assert(first_opt_at(gv.edges, n as int, k as int));
                                }
                            }
                        }
                    }
                    EdgeKind::Ordering => {}
                }
                proof {
                    lemma_substs_take_step(gv.nodes, gv.edges, k as int, n as int);
                    assert(substs@.map_values(|s: Subst| subst_v(s)) =~= substs_of(
                        gv.nodes,
                        gv.edges.take(k as int + 1),
                        n as int,
                    ));
                }
                k += 1;
            }
            proof {
                assert(gv.edges.take(gv.edges.len() as int) =~= gv.edges);
            }
            let inner: Expression = match &graph.nodes[n].content {
                NodeContent::Query(q) => Expression::Func {
                    query: clone_db_query(q),
                    substs,
                },
                NodeContent::Empty => Expression::Sequence { seq: Vec::new() },
            };
            proof {
                if graph.nodes@[n as int].content is Query {
                    assert(expr_v(inner)->Func_substs =~= substs_of(gv.nodes, gv.edges, n as int));
                } else {
                    assert(expr_v(inner)->Sequence_0 =~= Seq::<ExprV>::empty());
                }
            }
            let wrapped: Expression = match opt_binding {
                Some(b) => {
                    proof {
                        let x = choose|x: int|
                            first_opt_at(gv.edges, n as int, x) && x < graph.edges@.len() && b
                                == node_binding(gv.nodes, gv.edges[x].source as int);
                        lemma_first_opt(gv.edges, n as int, x);
                        assert(first_opt_index(gv.edges, n as int) == x) by {
                            let f = first_opt_index(gv.edges, n as int);
                            assert(first_opt_at(gv.edges, n as int, f));
                            if f < x {
                                assert(is_opt_data_for(gv.edges[f], n as int));
                            } else if x < f {
                                assert(is_opt_data_for(gv.edges[x], n as int));
                            }
                        }
                    }
                    let mut ts: Vec<Expression> = Vec::new();
                    ts.push(inner);
                    let w = Expression::If { binding: b, then_seq: ts };
                    proof {
                        assert(expr_v(w)->If_then_seq =~= seq![
                            node_expr(gv, n as int)->If_then_seq[0],
                        ]);
                        assert(expr_v(w) == node_expr(gv, n as int));
                    }
                    w
                }
                None => {
                    proof {
                        assert(!has_opt_edge(gv.edges, n as int));
                        assert(expr_v(inner) == node_expr(gv, n as int));
                    }
                    inner
                }
            };
            names.push(graph.nodes[n].name.clone());
            let ghost pre = children@;
            children.push(Expression::Let { binding: graph.nodes[n].name.clone(), expr: Box::new(wrapped) });
            proof {
                assert(children@ =~= pre.push(children@[n as int]));
                assert(expr_v(children@[n as int]) == (ExprV::Let {
                    binding: node_binding(gv.nodes, n as int),
                    inner: seq![node_expr(gv, n as int)],
                }));
                assert forall|j: int| 0 <= j <= n as int implies exprs_v(children@)[j] == (
                ExprV::Let {
                    binding: node_binding(gv.nodes, j),
                    inner: seq![node_expr(gv, j)],
                }) by {
                    assert(exprs_v(children@)[j] == expr_v(children@[j]));
                    if j < n as int {
                        assert(children@[j] == pre[j]);
                        assert(exprs_v(pre)[j] == expr_v(pre[j]));
                    }
                }
            }
            n += 1;
        }
        let ghost pre = children@;
        let ghost final_names = names@;
        children.push(Expression::GetAll { bindings: names });
        let result = Expression::Sequence { seq: children };
        proof {
            let cs = Seq::new(
                gv.nodes.len(),
                |i: int| ExprV::Let {
                    binding: node_binding(gv.nodes, i),
                    inner: seq![node_expr(gv, i)],
                },
            );
            let nms = Seq::new(gv.nodes.len(), |i: int| node_binding(gv.nodes, i));
            assert(final_names =~= nms);
            let want = cs.push(ExprV::GetAll { bindings: nms });
            let got = expr_v(result)->Sequence_0;
            assert(got.len() == want.len());
            assert forall|j: int| 0 <= j < want.len() implies got[j] == want[j] by {
                let seqv = result->Sequence_seq;
                assert(got[j] == expr_v(seqv@[j]));
                if j < gv.nodes.len() {
                    assert(seqv@[j] == pre[j]);
                    assert(exprs_v(pre)[j] == expr_v(pre[j]));
                } else {
                    assert(seqv@[j] == Expression::GetAll { bindings: result->Sequence_seq@[j]->GetAll_bindings });
                }
            }
            assert(got =~= want);
        }
        Ok(result)
    }
}

} // verus!

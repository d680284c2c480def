//! The dependency graph: nodes are atomic backend operations, edges carry
//! ordering or data-transfer constraints between them.

use vstd::prelude::*;

use crate::error::CoreError;
use crate::expression::DbQuery;
use crate::expression::QueryV;
use crate::expression::query_v;

verus! {

/// What a node does: one backend operation, or a no-op barrier that only
/// orders its neighbours.
#[derive(Debug)]
pub enum NodeContent {
    Query(DbQuery),
    Empty,
}

/// Model of a node's content.
pub ghost enum ContentV {
    Query(QueryV),
    Empty,
}

/// One graph node: a named atomic step.
#[derive(Debug)]
pub struct Node {
    pub name: String,
    pub content: NodeContent,
}

/// Model of a node.
pub ghost struct NodeV {
    pub name: String,
    pub content: ContentV,
}

/// The model of a node.
pub open spec fn node_v(n: Node) -> NodeV {
    NodeV {
        name: n.name,
        content: match n.content {
            NodeContent::Query(q) => ContentV::Query(query_v(q)),
            NodeContent::Empty => ContentV::Empty,
        },
    }
}

/// What an edge carries: a pure ordering constraint, or a data transfer that
/// injects the source's `source_field` value into the target's argument at
/// `target_slot`. A non-required data edge lets the target be skipped when
/// the source produced no rows.
#[derive(Debug, Clone)]
pub enum EdgeKind {
    Ordering,
    Data { target_slot: usize, source_field: String, required: bool },
}

/// A typed edge from one node to another, by node index.
#[derive(Debug, Clone)]
pub struct Edge {
    pub source: usize,
    pub target: usize,
    pub kind: EdgeKind,
}

/// Model of a dependency graph.
pub ghost struct GraphV {
    pub nodes: Seq<NodeV>,
    pub edges: Seq<Edge>,
    pub finalized: bool,
}

/// One compiled client request: nodes in creation order, edges in insertion
/// order (which is also the deterministic merge order when several data edges
/// feed one node).
#[derive(Debug)]
pub struct QueryGraph {
    pub nodes: Vec<Node>,
    pub edges: Vec<Edge>,
    pub finalized: bool,
}

/// The model of a graph.
pub open spec fn graph_v(g: QueryGraph) -> GraphV {
    GraphV {
        nodes: g.nodes@.map_values(|n: Node| node_v(n)),
        edges: g.edges@,
        finalized: g.finalized,
    }
}

/// A well-formed dependency structure: every edge stays inside the node list
/// and runs forward in creation order, so no cycle and no dangling reference
/// exists.
pub open spec fn graph_wf(g: GraphV) -> bool {
    forall|i: int|
        0 <= i < g.edges.len() ==> (#[trigger] g.edges[i]).source < g.edges[i].target
            < g.nodes.len()
}

impl QueryGraph {
    /// An empty, unfinalized graph.
    pub fn new() -> (r: QueryGraph)
        ensures
            graph_v(r).nodes.len() == 0,
            graph_v(r).edges.len() == 0,
            !graph_v(r).finalized,
    {
        QueryGraph { nodes: Vec::new(), edges: Vec::new(), finalized: false }
    }

    /// Append a node and return its index. The graph must be finalized again
    /// before it can be compiled.
    pub fn create_node(&mut self, name: String, content: NodeContent) -> (idx: usize)
        ensures
            idx == old(self).nodes@.len(),
            graph_v(*final(self)).nodes =~= graph_v(*old(self)).nodes.push(
                node_v(Node { name, content }),
            ),
            graph_v(*final(self)).edges == graph_v(*old(self)).edges,
            !final(self).finalized,
    {
        let idx = self.nodes.len();
        self.nodes.push(Node { name, content });
        self.finalized = false;
        idx
    }

    /// Append an edge. The graph must be finalized again before it can be
    /// compiled.
    pub fn create_edge(&mut self, source: usize, target: usize, kind: EdgeKind)
        ensures
            graph_v(*final(self)).nodes == graph_v(*old(self)).nodes,
            graph_v(*final(self)).edges =~= graph_v(*old(self)).edges.push(
                Edge { source, target, kind },
            ),
            !final(self).finalized,
    {
        self.edges.push(Edge { source, target, kind });
        self.finalized = false;
        proof {
            assert(graph_v(*self).nodes =~= graph_v(*old(self)).nodes);
        }
    }

    /// Run final validations: accept the graph exactly when its dependency
    /// structure is acyclic and complete, and mark it ready for compilation.
    pub fn finalize(&mut self) -> (r: Result<(), CoreError>)
        ensures
            graph_v(*final(self)).nodes == graph_v(*old(self)).nodes,
            graph_v(*final(self)).edges == graph_v(*old(self)).edges,
            r is Ok <==> graph_wf(graph_v(*old(self))),
            final(self).finalized == graph_wf(graph_v(*old(self))),
            r is Err ==> r == Result::<(), CoreError>::Err(CoreError::InvalidGraph),
    {
        let mut i: usize = 0;
        let mut ok: bool = true;
        while i < self.edges.len()
            invariant
                i <= self.edges@.len(),
                self == old(self),
                ok == forall|j: int|
                    0 <= j < i ==> (#[trigger] self.edges@[j]).source < self.edges@[j].target
                        < self.nodes@.len(),
            decreases self.edges@.len() - i,
        {
            let e = &self.edges[i];
            if !(e.source < e.target && e.target < self.nodes.len()) {
                ok = false;
            }
            i += 1;
        }
        proof {
            assert(graph_v(*self).nodes.len() == self.nodes@.len());
        }
        if ok {
            self.finalized = true;
            proof {
                assert(graph_v(*self).nodes =~= graph_v(*old(self)).nodes);
            }
            Ok(())
        } else {
            self.finalized = false;
            proof {
                assert(graph_v(*self).nodes =~= graph_v(*old(self)).nodes);
            }
            Err(CoreError::InvalidGraph)
        }
    }
}

} // verus!

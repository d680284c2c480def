//! The query pipeline: finalize the graph, lower it to an expression tree,
//! interpret it, and serialize the result.

use vstd::prelude::*;

use crate::compiler::Expressionista;
use crate::compiler::compile_spec;
use crate::connection::ConnV;
use crate::connection::Connection;
use crate::connection::conn_v;
use crate::error::CoreError;
use crate::expression::Expression;
use crate::expression::ExpressionResult;
use crate::expression::ItemV;
use crate::expression::ResV;
use crate::expression::expr_v;
use crate::expression::res_v;
use crate::graph::GraphV;
use crate::graph::QueryGraph;
use crate::graph::graph_v;
use crate::graph::graph_wf;
use crate::interpreter::Env;
use crate::interpreter::EvalOut;
use crate::interpreter::QueryInterpreter;
use crate::interpreter::env_v;
use crate::interpreter::eval;
use crate::value::PrismaValue;

verus! {

/// One validated abstract request: a dependency graph to compile and run,
/// or a verbatim backend command that bypasses the graph entirely.
#[derive(Debug)]
pub enum QueryType {
    Graph(QueryGraph),
    Raw { query: String, parameters: Vec<PrismaValue> },
}

/// Model of a request.
pub ghost enum QueryTypeV {
    Graph(GraphV),
    Raw { query: String, parameters: Seq<PrismaValue> },
}

/// The model of a request.
pub open spec fn qt_v(q: QueryType) -> QueryTypeV {
    match q {
        QueryType::Graph(g) => QueryTypeV::Graph(graph_v(g)),
        QueryType::Raw { query, parameters } => QueryTypeV::Raw { query, parameters: parameters@ },
    }
}

/// The serialized result tree, as handed to the response-envelope builder.
#[derive(Debug)]
pub struct ResponseData {
    pub data: ExpressionResult,
}

/// The serializer that wraps a result tree into the response payload.
#[derive(Debug)]
pub struct IrSerializer {}

impl IrSerializer {
    /// Wrap an evaluation result as response data.
    pub fn serialize(&self, result: ExpressionResult) -> (r: ResponseData)
        ensures
            r.data == result,
    {
        ResponseData { data: result }
    }
}

/// What running one request against a connection yields: the result or
/// first error, and the connection afterwards. A graph request runs its
/// compiled tree from an empty environment at depth zero; a graph whose
/// dependency structure is not well formed fails with a graph-construction
/// error and leaves the connection untouched. A raw request is a no-op of
/// the in-memory backend.
pub open spec fn pipeline_spec(q: QueryTypeV, conn: ConnV, maxd: nat) -> (
    Result<ResV, CoreError>,
    ConnV,
) {
    match q {
        QueryTypeV::Graph(g) => if !graph_wf(g) {
            (Err(CoreError::InvalidGraph), conn)
        } else {
            let out = eval(
                compile_spec(GraphV { finalized: true, ..g }),
                Seq::empty(),
                conn,
                0,
                maxd,
            );
            (out.res, out.conn)
        },
        QueryTypeV::Raw { query: _, parameters: _ } => (Ok(ResV::Item(ItemV::Empty)), conn),
    }
}

/// One request, bound to the interpreter that will run it and the
/// serializer that will shape its result.
#[derive(Debug)]
pub struct QueryPipeline {
    pub query: QueryType,
    pub interpreter: QueryInterpreter,
    pub serializer: IrSerializer,
}

impl QueryPipeline {
    pub fn new(query: QueryType, interpreter: QueryInterpreter, serializer: IrSerializer) -> (r:
        Self)
        ensures
            r.query == query,
            r.interpreter == interpreter,
            r.serializer == serializer,
    {
        Self { query, interpreter, serializer }
    }

    /// Run the pipeline: finalize, compile, interpret, serialize. The
    /// connection is returned alongside the outcome so the caller can keep
    /// or discard its state.
    pub fn execute(self) -> (r: (Result<ResponseData, CoreError>, Connection))
        requires
            self.interpreter.max_depth < usize::MAX,
        ensures
            ({
                let (sres, sconn) = pipeline_spec(
                    qt_v(self.query),
                    conn_v(self.interpreter.conn),
                    self.interpreter.max_depth as nat,
                );
                &&& conn_v(r.1) == sconn
                &&& match (r.0, sres) {
                    (Ok(d), Ok(y)) => res_v(d.data) == y,
                    (Err(a), Err(b)) => a == b,
                    _ => false,
                }
            }),
    {
        let serializer = self.serializer;
        let mut interpreter = self.interpreter;
        match self.query {
            QueryType::Graph(graph) => {
                let ghost g0 = graph_v(graph);
                let mut graph = graph;
                match graph.finalize() {
                    Err(e) => {
                        return (Err(e), interpreter.conn);
                    }
                    Ok(()) => {}
                }
                proof {
                    assert(graph_wf(g0));
                    assert(graph_v(graph) == (GraphV { finalized: true, ..g0 }));
                }
                let expr = match Expressionista::translate(graph) {
                    Ok(expr) => expr,
                    Err(e) => {
                        return (Err(e), interpreter.conn);
                    }
                };
                proof {
                    assert(expr_v(expr) == compile_spec(GraphV { finalized: true, ..g0 }));
                }
                let mut env = Env::default();
                proof {
                    assert(env_v(env.bindings@) =~= Seq::<
                        (String, crate::expression::ResV),
                    >::empty());
                }
                let result = interpreter.interpret(&expr, &mut env, 0);
                match result {
                    Ok(res) => (Ok(serializer.serialize(res)), interpreter.conn),
                    Err(e) => (Err(e), interpreter.conn),
                }
            }
            QueryType::Raw { query, parameters } => {
                let expr = Expression::raw(query, parameters);
                let mut env = Env::default();
                proof {
                    assert(env_v(env.bindings@) =~= Seq::<
                        (String, crate::expression::ResV),
                    >::empty());
                }
                let result = interpreter.interpret(&expr, &mut env, 0);
                match result {
                    Ok(res) => (Ok(serializer.serialize(res)), interpreter.conn),
                    Err(e) => (Err(e), interpreter.conn),
                }
            }
        }
    }
}

} // verus!

use query_core::compiler::Expressionista;
use query_core::connection::Connection;
use query_core::error::CoreError;
use query_core::executor::InterpretingExecutor;
use query_core::executor::TransactionManager;
use query_core::expression::DbQuery;
use query_core::expression::Expression;
use query_core::expression::ExpressionResult;
use query_core::expression::ItemResult;
use query_core::graph::EdgeKind;
use query_core::graph::NodeContent;
use query_core::graph::QueryGraph;
use query_core::interpreter::Env;
use query_core::interpreter::QueryInterpreter;
use query_core::pipeline::IrSerializer;
use query_core::pipeline::QueryPipeline;
use query_core::pipeline::QueryType;
use query_core::value::PrismaValue;

fn create_user_node() -> NodeContent {
    NodeContent::Query(DbQuery::Create {
        model: "User".to_string(),
        field_names: vec!["id".to_string(), "name".to_string()],
        values: vec![PrismaValue::Null, PrismaValue::Text("steve".to_string())],
    })
}

fn create_post_node() -> NodeContent {
    NodeContent::Query(DbQuery::Create {
        model: "Post".to_string(),
        field_names: vec!["id".to_string(), "title".to_string(), "author".to_string()],
        values: vec![
            PrismaValue::Null,
            PrismaValue::Text("hello".to_string()),
            PrismaValue::Null,
        ],
    })
}

fn parent_child_graph() -> QueryGraph {
    let mut graph = QueryGraph::new();
    let user = graph.create_node("create_user".to_string(), create_user_node());
    let post = graph.create_node("create_post".to_string(), create_post_node());
    graph.create_edge(
        user,
        post,
        EdgeKind::Data { target_slot: 2, source_field: "id".to_string(), required: true },
    );
    graph
}

#[test]
fn parent_identifier_flows_into_child() {
    // A parent "create User" node feeds a data edge into a child
    // "create Post" node's foreign-key argument.
    let mut executor = InterpretingExecutor::new(Connection::new(), 4, 16);
    let response = executor.execute(None, QueryType::Graph(parent_child_graph())).unwrap();
    match response.data {
        ExpressionResult::List(items) => {
            assert_eq!(items.len(), 2);
            match &items[0] {
                ItemResult::Single(user) => {
                    // The User insert ran first: it got the first generated id.
                    assert_eq!(user.record.values[0], PrismaValue::Int(1));
                    assert_eq!(
                        user.record.values[1],
                        PrismaValue::Text("steve".to_string())
                    );
                }
                other => panic!("expected a single user record, got {:?}", other),
            }
            match &items[1] {
                ItemResult::Single(post) => {
                    // The generated User id was substituted into the Post's
                    // foreign-key argument.
                    assert_eq!(post.record.values[0], PrismaValue::Int(2));
                    assert_eq!(post.record.values[2], PrismaValue::Int(1));
                    // And the Post's parent identifier is the User's identifier.
                    let parent = post.record.parent_id.as_ref().unwrap();
                    assert_eq!(parent.pairs.len(), 1);
                    assert_eq!(parent.pairs[0].0.name, "id");
                    assert_eq!(parent.pairs[0].1, PrismaValue::Int(1));
                }
                other => panic!("expected a single post record, got {:?}", other),
            }
        }
        other => panic!("expected a collected result list, got {:?}", other),
    }
}

#[test]
fn compilation_is_deterministic() {
    let mut g1 = parent_child_graph();
    let mut g2 = parent_child_graph();
    g1.finalize().unwrap();
    g2.finalize().unwrap();
    let e1 = Expressionista::translate(g1).unwrap();
    let e2 = Expressionista::translate(g2).unwrap();
    assert_eq!(e1, e2);
}

#[test]
fn translate_requires_finalize() {
    let graph = parent_child_graph();
    assert!(matches!(
        Expressionista::translate(graph),
        Err(CoreError::GraphNotFinalized)
    ));
}

#[test]
fn finalize_rejects_backward_edge() {
    let mut graph = QueryGraph::new();
    let first = graph.create_node("a".to_string(), create_user_node());
    let second = graph.create_node("b".to_string(), create_post_node());
    graph.create_edge(second, first, EdgeKind::Ordering);
    assert!(matches!(graph.finalize(), Err(CoreError::InvalidGraph)));
}

#[test]
fn bindings_stay_inside_their_sequence() {
    let mut interpreter = QueryInterpreter::new(Connection::new(), 16);
    let mut env = Env::default();
    let expr = Expression::Sequence {
        seq: vec![
            Expression::Let {
                binding: "x".to_string(),
                expr: Box::new(Expression::Raw {
                    query: "noop".to_string(),
                    parameters: vec![],
                }),
            },
            Expression::Get { binding: "x".to_string() },
        ],
    };
    let result = interpreter.interpret(&expr, &mut env, 0).unwrap();
    assert!(matches!(result, ExpressionResult::Item(ItemResult::Empty)));
    // The binding was visible inside the sequence and is gone outside it.
    assert_eq!(env.bindings.len(), 0);
    let lookup = Expression::Get { binding: "x".to_string() };
    match interpreter.interpret(&lookup, &mut env, 0) {
        Err(CoreError::BindingNotFound { name }) => assert_eq!(name, "x"),
        other => panic!("expected a missing binding, got {:?}", other),
    }
}

#[test]
fn interpreter_enforces_depth_limit() {
    let mut interpreter = QueryInterpreter::new(Connection::new(), 0);
    let mut env = Env::default();
    let expr = Expression::Sequence {
        seq: vec![Expression::Raw { query: "noop".to_string(), parameters: vec![] }],
    };
    assert!(matches!(
        interpreter.interpret(&expr, &mut env, 0),
        Err(CoreError::DepthLimitExceeded)
    ));
}

#[test]
fn mandatory_edge_from_empty_source_is_record_not_found() {
    let mut graph = QueryGraph::new();
    let users = graph.create_node(
        "find_users".to_string(),
        NodeContent::Query(DbQuery::ReadAll { model: "User".to_string() }),
    );
    let post = graph.create_node("create_post".to_string(), create_post_node());
    graph.create_edge(
        users,
        post,
        EdgeKind::Data { target_slot: 2, source_field: "id".to_string(), required: true },
    );
    let mut executor = InterpretingExecutor::new(Connection::new(), 4, 16);
    assert!(matches!(
        executor.execute(None, QueryType::Graph(graph)),
        Err(CoreError::RecordNotFound)
    ));
}

#[test]
fn optional_edge_from_empty_source_skips_dependent() {
    let mut graph = QueryGraph::new();
    let users = graph.create_node(
        "find_users".to_string(),
        NodeContent::Query(DbQuery::ReadAll { model: "User".to_string() }),
    );
    let post = graph.create_node("create_post".to_string(), create_post_node());
    graph.create_edge(
        users,
        post,
        EdgeKind::Data { target_slot: 2, source_field: "id".to_string(), required: false },
    );
    let mut executor = InterpretingExecutor::new(Connection::new(), 4, 16);
    let response = executor.execute(None, QueryType::Graph(graph)).unwrap();
    match response.data {
        ExpressionResult::List(items) => {
            assert_eq!(items.len(), 2);
            assert!(matches!(items[0], ItemResult::Many(ref m) if m.records.is_empty()));
            assert!(matches!(items[1], ItemResult::Empty));
        }
        other => panic!("expected a collected result list, got {:?}", other),
    }
}

#[test]
fn barrier_node_produces_empty_result() {
    let mut graph = QueryGraph::new();
    let barrier = graph.create_node("barrier".to_string(), NodeContent::Empty);
    let user = graph.create_node("create_user".to_string(), create_user_node());
    graph.create_edge(barrier, user, EdgeKind::Ordering);
    let mut executor = InterpretingExecutor::new(Connection::new(), 4, 16);
    let response = executor.execute(None, QueryType::Graph(graph)).unwrap();
    match response.data {
        ExpressionResult::List(items) => {
            assert!(matches!(items[0], ItemResult::Empty));
            assert!(matches!(items[1], ItemResult::Single(_)));
        }
        other => panic!("expected a collected result list, got {:?}", other),
    }
}

#[test]
fn pipeline_runs_raw_passthrough() {
    let interpreter = QueryInterpreter::new(Connection::new(), 16);
    let pipeline = QueryPipeline::new(
        QueryType::Raw { query: "select 1".to_string(), parameters: vec![PrismaValue::Int(1)] },
        interpreter,
        IrSerializer {},
    );
    let (result, _conn) = pipeline.execute();
    let response = result.unwrap();
    assert!(matches!(response.data, ExpressionResult::Item(ItemResult::Empty)));
}

#[test]
fn execute_without_transaction_commits_on_success() {
    let mut executor = InterpretingExecutor::new(Connection::new(), 4, 16);
    executor.execute(None, QueryType::Graph(parent_child_graph())).unwrap();
    // Both inserts are visible afterwards.
    assert_eq!(executor.primary_connector().read_all("User").records.len(), 1);
    assert_eq!(executor.primary_connector().read_all("Post").records.len(), 1);
}

#[test]
fn failed_implicit_transaction_leaves_base_untouched() {
    let mut executor = InterpretingExecutor::new(Connection::new(), 4, 16);
    let mut graph = QueryGraph::new();
    let users = graph.create_node(
        "find_users".to_string(),
        NodeContent::Query(DbQuery::ReadAll { model: "User".to_string() }),
    );
    let user = graph.create_node("create_user".to_string(), create_user_node());
    let post = graph.create_node("create_post".to_string(), create_post_node());
    // The create runs before the failing substitution source is consumed.
    graph.create_edge(users, post, EdgeKind::Data {
        target_slot: 2,
        source_field: "id".to_string(),
        required: true,
    });
    graph.create_edge(user, post, EdgeKind::Ordering);
    assert!(executor.execute(None, QueryType::Graph(graph)).is_err());
    // The successful User insert of the failing operation was rolled back.
    assert_eq!(executor.primary_connector().read_all("User").records.len(), 0);
}

fn good_op() -> QueryType {
    QueryType::Graph(parent_child_graph())
}

#[test]
fn independent_batch_isolates_the_failure() {
    let mut executor = InterpretingExecutor::new(Connection::new(), 4, 16);
    let mut bad = QueryGraph::new();
    let first = bad.create_node("a".to_string(), create_user_node());
    let second = bad.create_node("b".to_string(), create_post_node());
    bad.create_edge(second, first, EdgeKind::Ordering);
    let ops = vec![good_op(), QueryType::Graph(bad), good_op()];
    let results = executor.execute_all(None, ops, false).unwrap();
    assert_eq!(results.len(), 3);
    assert!(results[0].is_ok());
    assert!(matches!(results[1], Err(CoreError::InvalidGraph)));
    assert!(results[2].is_ok());
    // The two successful operations each committed their own work.
    assert_eq!(executor.primary_connector().read_all("User").records.len(), 2);
}

#[test]
fn transactional_batch_aborts_as_a_whole() {
    let mut executor = InterpretingExecutor::new(Connection::new(), 4, 16);
    let mut bad = QueryGraph::new();
    let first = bad.create_node("a".to_string(), create_user_node());
    let second = bad.create_node("b".to_string(), create_post_node());
    bad.create_edge(second, first, EdgeKind::Ordering);
    let ops = vec![good_op(), QueryType::Graph(bad), good_op()];
    let results = executor.execute_all(None, ops, true).unwrap();
    assert_eq!(results.len(), 3);
    // Exactly the failing operation reports its own error; every other
    // operation is reported as not applied.
    assert!(matches!(results[0], Err(CoreError::OperationNotApplied)));
    assert!(matches!(results[1], Err(CoreError::InvalidGraph)));
    assert!(matches!(results[2], Err(CoreError::OperationNotApplied)));
    // Nothing of the batch was kept.
    assert_eq!(executor.primary_connector().read_all("User").records.len(), 0);
}

#[test]
fn transactional_batch_commits_when_all_succeed() {
    let mut executor = InterpretingExecutor::new(Connection::new(), 4, 16);
    let results = executor.execute_all(None, vec![good_op(), good_op()], true).unwrap();
    assert_eq!(results.len(), 2);
    assert!(results.iter().all(|r| r.is_ok()));
    assert_eq!(executor.primary_connector().read_all("User").records.len(), 2);
}

#[test]
fn saturated_pool_times_out_instead_of_hanging() {
    let mut executor = InterpretingExecutor::new(Connection::new(), 1, 16);
    let _tx = executor.start_tx(0, 30).unwrap();
    // The pool is saturated: acquisition fails with a timeout condition.
    assert!(matches!(
        executor.start_tx(0, 30),
        Err(CoreError::TransactionAcquisitionTimeout)
    ));
}

#[test]
fn transaction_lifecycle_commit() {
    let mut executor = InterpretingExecutor::new(Connection::new(), 4, 16);
    let tx = executor.start_tx(5, 30).unwrap();
    executor.execute(Some(tx.clone()), good_op()).unwrap();
    // The write is only visible inside the transaction until commit.
    assert_eq!(executor.primary_connector().read_all("User").records.len(), 0);
    executor.commit_tx(tx.clone()).unwrap();
    assert_eq!(executor.primary_connector().read_all("User").records.len(), 1);
    // Using an already-terminated id is a reported error.
    assert!(matches!(
        executor.commit_tx(tx),
        Err(CoreError::TransactionNotFound)
    ));
}

#[test]
fn transaction_lifecycle_rollback() {
    let mut executor = InterpretingExecutor::new(Connection::new(), 4, 16);
    let tx = executor.start_tx(5, 30).unwrap();
    executor.execute(Some(tx.clone()), good_op()).unwrap();
    executor.rollback_tx(tx.clone()).unwrap();
    assert_eq!(executor.primary_connector().read_all("User").records.len(), 0);
    assert!(matches!(
        executor.rollback_tx(tx),
        Err(CoreError::TransactionNotFound)
    ));
}

#[test]
fn executing_on_unknown_transaction_is_reported() {
    let mut executor = InterpretingExecutor::new(Connection::new(), 4, 16);
    let stray = query_core::executor::TxId::from("nothere".to_string());
    assert!(matches!(
        executor.execute(Some(stray), good_op()),
        Err(CoreError::TransactionNotFound)
    ));
}

#[test]
fn transaction_manager_trait_is_usable() {
    let mut executor = InterpretingExecutor::new(Connection::new(), 2, 16);
    let tx = TransactionManager::start_tx(&mut executor, 1, 30).unwrap();
    TransactionManager::rollback_tx(&mut executor, tx).unwrap();
}

#[test]
fn substitution_of_missing_field_is_reported() {
    let mut graph = QueryGraph::new();
    let user = graph.create_node("create_user".to_string(), create_user_node());
    let post = graph.create_node("create_post".to_string(), create_post_node());
    graph.create_edge(user, post, EdgeKind::Data {
        target_slot: 2,
        source_field: "missing".to_string(),
        required: true,
    });
    let mut executor = InterpretingExecutor::new(Connection::new(), 4, 16);
    match executor.execute(None, QueryType::Graph(graph)) {
        Err(CoreError::FieldNotFound { name }) => assert_eq!(name, "missing"),
        other => panic!("expected a missing field error, got {:?}", other),
    }
}

#[test]
fn connection_create_fills_first_null_and_stores() {
    let mut conn = Connection::new();
    let rec = conn.create(
        "User".to_string(),
        vec!["id".to_string(), "name".to_string()],
        vec![PrismaValue::Null, PrismaValue::Text("ann".to_string())],
        None,
    );
    assert_eq!(rec.record.values[0], PrismaValue::Int(1));
    let all = conn.read_all("User");
    assert_eq!(all.records.len(), 1);
    assert_eq!(all.field_names, vec!["id".to_string(), "name".to_string()]);
    assert_eq!(conn.read_all("Post").records.len(), 0);
}

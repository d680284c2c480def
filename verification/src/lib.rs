//! Execution core of a structured CRUD engine: a dependency graph of backend
//! operations is finalized, lowered to an expression tree, and interpreted
//! against a connection, with a transaction-managing executor on top.

pub mod compiler;
pub mod connection;
pub mod datasource;
pub mod error;
pub mod executor;
pub mod expression;
pub mod field;
pub mod graph;
pub mod interpreter;
pub mod pipeline;
pub mod record;
pub mod strutil;
pub mod value;
pub mod walkers;

pub use datasource::ConnectorError;
pub use error::CoreError;
pub use error::DomainError;
pub use field::DataSourceField;
pub use field::Field;
pub use field::FieldTemplate;
pub use field::FieldWeak;
pub use field::TypeIdentifier;
pub use record::ModelIdentifier;
pub use expression::Expression;
pub use graph::QueryGraph;
pub use compiler::Expressionista;
pub use connection::Connection;
pub use interpreter::Env;
pub use interpreter::QueryInterpreter;
pub use pipeline::IrSerializer;
pub use pipeline::QueryPipeline;
pub use pipeline::QueryType;
pub use pipeline::ResponseData;
pub use executor::InterpretingExecutor;
pub use executor::TxId;
pub use walkers::IndexWalker;
pub use expression::ExpressionResult;
pub use value::PrismaValue;

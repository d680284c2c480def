//! The expression tree the graph compiler lowers a dependency graph into,
//! and the results the interpreter produces for it.

use vstd::prelude::*;

use crate::field::DataSourceField;
use crate::record::ManyRecords;
use crate::record::ManyV;
use crate::record::RecordIdentifier;
use crate::record::SRecV;
use crate::record::SingleRecord;
use crate::record::many_v;
use crate::record::rec_v;
use crate::record::srec_v;
use crate::value::PrismaValue;

verus! {

broadcast use vstd::std_specs::vec::axiom_vec_index_decreases;

/// One atomic backend operation, with its argument template.
#[derive(Debug, PartialEq)]
pub enum DbQuery {
    /// Insert one record; a `Null` value marks a slot the backend fills with
    /// a generated identifier.
    Create { model: String, field_names: Vec<String>, values: Vec<PrismaValue> },
    /// Read every stored record of one model.
    ReadAll { model: String },
}

/// Model of a backend operation.
pub ghost enum QueryV {
    Create { model: String, field_names: Seq<String>, values: Seq<PrismaValue> },
    ReadAll { model: String },
}

/// The model of a backend operation.
pub open spec fn query_v(q: DbQuery) -> QueryV {
    match q {
        DbQuery::Create { model, field_names, values } => QueryV::Create {
            model,
            field_names: field_names@,
            values: values@,
        },
        DbQuery::ReadAll { model } => QueryV::ReadAll { model },
    }
}

/// One argument substitution a data edge was compiled into: before the call,
/// the value of `field` in the record bound under `binding` replaces the
/// argument at `target_slot`.
#[derive(Debug, PartialEq)]
pub struct Subst {
    pub target_slot: usize,
    pub binding: String,
    pub field: String,
}

/// Model of a substitution.
pub ghost struct SubstV {
    pub target_slot: int,
    pub binding: String,
    pub field: String,
}

/// The model of a substitution.
pub open spec fn subst_v(s: Subst) -> SubstV {
    SubstV { target_slot: s.target_slot as int, binding: s.binding, field: s.field }
}

/// The models of a substitution list, elementwise.
pub open spec fn substs_v(s: Seq<Subst>) -> Seq<SubstV> {
    s.map_values(|x: Subst| subst_v(x))
}

/// A tree of executable expressions: sequencing, let-bindings, conditionals,
/// function application (the backend call itself), environment reads and raw
/// passthrough.
#[derive(Debug, PartialEq)]
pub enum Expression {
    /// Evaluate children in order; the last child's result is propagated.
    Sequence { seq: Vec<Expression> },
    /// Evaluate the inner expression and bind its result under `binding`,
    /// visible to the following siblings of the enclosing sequence.
    Let { binding: String, expr: Box<Expression> },
    /// The atomic backend call, with its substitutable argument template.
    Func { query: DbQuery, substs: Vec<Subst> },
    /// The result previously bound under `binding`.
    Get { binding: String },
    /// The results previously bound under each name, collected in order.
    GetAll { bindings: Vec<String> },
    /// Evaluate the branch only if the result bound under `binding` is
    /// non-empty; otherwise the result is empty.
    If { binding: String, then_seq: Vec<Expression> },
    /// A verbatim backend command with positional parameters.
    Raw { query: String, parameters: Vec<PrismaValue> },
}

/// Model of an expression tree.
pub ghost enum ExprV {
    Sequence(Seq<ExprV>),
    /// `inner` always holds exactly one expression.
    Let { binding: String, inner: Seq<ExprV> },
    Func { query: QueryV, substs: Seq<SubstV> },
    Get { binding: String },
    GetAll { bindings: Seq<String> },
    If { binding: String, then_seq: Seq<ExprV> },
    Raw { query: String, parameters: Seq<PrismaValue> },
}

/// The model of an expression tree.
pub open spec fn expr_v(e: Expression) -> ExprV
    decreases e,
{
    match e {
        Expression::Sequence { seq } => ExprV::Sequence(
            Seq::new(
                seq@.len(),
                |i: int|
                    if 0 <= i < seq@.len() {
                        expr_v(seq[i])
                    } else {
                        ExprV::Sequence(Seq::empty())
                    },
            ),
        ),
        Expression::Let { binding, expr } => ExprV::Let { binding, inner: seq![expr_v(*expr)] },
        Expression::Func { query, substs } => ExprV::Func {
            query: query_v(query),
            substs: Seq::new(substs@.len(), |i: int| subst_v(substs[i])),
        },
        Expression::Get { binding } => ExprV::Get { binding },
        Expression::GetAll { bindings } => ExprV::GetAll { bindings: bindings@ },
        Expression::If { binding, then_seq } => ExprV::If {
            binding,
            then_seq: Seq::new(
                then_seq@.len(),
                |i: int|
                    if 0 <= i < then_seq@.len() {
                        expr_v(then_seq[i])
                    } else {
                        ExprV::Sequence(Seq::empty())
                    },
            ),
        },
        Expression::Raw { query, parameters } => ExprV::Raw { query, parameters: parameters@ },
    }
}

/// The models of a list of expressions, elementwise.
pub open spec fn exprs_v(s: Seq<Expression>) -> Seq<ExprV> {
    Seq::new(
        s.len(),
        |i: int|
            if 0 <= i < s.len() {
                expr_v(s[i])
            } else {
                ExprV::Sequence(Seq::empty())
            },
    )
}

/// The model of a sequence expression is the sequence of its children's
/// models.
pub broadcast proof fn lemma_expr_v_sequence(seq: Vec<Expression>)
    ensures
        #[trigger] expr_v(Expression::Sequence { seq }) == ExprV::Sequence(exprs_v(seq@)),
{
    assert(expr_v(Expression::Sequence { seq })->Sequence_0 =~= exprs_v(seq@));
}

/// The model of a conditional's branch is the sequence of its children's
/// models.
pub broadcast proof fn lemma_expr_v_if(binding: String, then_seq: Vec<Expression>)
    ensures
        #[trigger] expr_v(Expression::If { binding, then_seq }) == (ExprV::If {
            binding,
            then_seq: exprs_v(then_seq@),
        }),
{
    assert(expr_v(Expression::If { binding, then_seq })->If_then_seq =~= exprs_v(then_seq@));
}

/// The model of a function application carries its substitutions'
/// models, elementwise.
pub broadcast proof fn lemma_expr_v_func(query: DbQuery, substs: Vec<Subst>)
    ensures
        #[trigger] expr_v(Expression::Func { query, substs }) == (ExprV::Func {
            query: query_v(query),
            substs: substs_v(substs@),
        }),
{
    assert(expr_v(Expression::Func { query, substs })->Func_substs =~= substs_v(substs@));
}

impl Expression {
    /// A raw passthrough expression, bypassing the graph entirely.
    pub fn raw(query: String, parameters: Vec<PrismaValue>) -> (r: Expression)
        ensures
            expr_v(r) == (ExprV::Raw { query, parameters: parameters@ }),
    {
        Expression::Raw { query, parameters }
    }
}

/// The result of one atomic step: a record, a record list, a plain value,
/// or nothing.
#[derive(Debug)]
pub enum ItemResult {
    Single(SingleRecord),
    Many(ManyRecords),
    Val(PrismaValue),
    Empty,
}

/// Model of a step result.
pub ghost enum ItemV {
    Single(SRecV),
    Many(ManyV),
    Val(PrismaValue),
    Empty,
}

/// The model of a step result.
pub open spec fn item_v(r: ItemResult) -> ItemV {
    match r {
        ItemResult::Single(s) => ItemV::Single(srec_v(s)),
        ItemResult::Many(m) => ItemV::Many(many_v(m)),
        ItemResult::Val(v) => ItemV::Val(v),
        ItemResult::Empty => ItemV::Empty,
    }
}

/// The models of an item list, elementwise.
pub open spec fn items_v(s: Seq<ItemResult>) -> Seq<ItemV> {
    s.map_values(|x: ItemResult| item_v(x))
}

impl Clone for ItemResult {
    /// A copy with the same model.
    fn clone(&self) -> (r: Self)
        ensures
            item_v(r) == item_v(*self),
    {
        match self {
            ItemResult::Single(s) => {
                let c = s.clone();
                proof {
                    assert(rec_v(c.record) == rec_v(s.record));
                    assert(srec_v(c) == srec_v(*s));
                }
                ItemResult::Single(c)
            }
            ItemResult::Many(m) => {
                let c = m.clone();
                proof {
                    assert(many_v(c).records =~= many_v(*m).records);
                }
                ItemResult::Many(c)
            }
            ItemResult::Val(v) => ItemResult::Val(v.clone()),
            ItemResult::Empty => ItemResult::Empty,
        }
    }
}

/// What evaluating an expression produced: one step result, or the collected
/// results of several named steps. Collected lists do not nest.
#[derive(Debug)]
pub enum ExpressionResult {
    Item(ItemResult),
    List(Vec<ItemResult>),
}

/// Model of an evaluation result.
pub ghost enum ResV {
    Item(ItemV),
    List(Seq<ItemV>),
}

/// The model of an evaluation result.
pub open spec fn res_v(r: ExpressionResult) -> ResV {
    match r {
        ExpressionResult::Item(x) => ResV::Item(item_v(x)),
        ExpressionResult::List(items) => ResV::List(
            items@.map_values(|x: ItemResult| item_v(x)),
        ),
    }
}

impl Clone for ExpressionResult {
    /// A copy with the same model.
    fn clone(&self) -> (r: Self)
        ensures
            res_v(r) == res_v(*self),
    {
        match self {
            ExpressionResult::Item(x) => ExpressionResult::Item(x.clone()),
            ExpressionResult::List(items) => {
                let mut out: Vec<ItemResult> = Vec::new();
                let mut i: usize = 0;
                while i < items.len()
                    invariant
                        i <= items@.len(),
                        out@.len() == i,
                        forall|j: int| 0 <= j < i ==> item_v(out@[j]) == item_v(items@[j]),
                    decreases items@.len() - i,
                {
                    out.push(items[i].clone());
                    i += 1;
                }
                proof {
                    assert(out@.map_values(|x: ItemResult| item_v(x)) =~= items@.map_values(
                        |x: ItemResult| item_v(x),
                    ));
                }
                ExpressionResult::List(out)
            }
        }
    }
}

/// Whether a result is non-empty: a present record, at least one row, or a
/// plain value.
pub open spec fn item_nonempty(r: ItemV) -> bool {
    match r {
        ItemV::Single(_) => true,
        ItemV::Many(m) => m.records.len() > 0,
        ItemV::Val(_) => true,
        ItemV::Empty => false,
    }
}

/// Whether an evaluation result is non-empty.
pub open spec fn res_nonempty(r: ResV) -> bool {
    match r {
        ResV::Item(x) => item_nonempty(x),
        ResV::List(items) => items.len() > 0,
    }
}

impl ExpressionResult {
    /// Whether this result is non-empty.
    pub fn is_nonempty(&self) -> (r: bool)
        ensures
            r == res_nonempty(res_v(*self)),
    {
        match self {
            ExpressionResult::Item(x) => match x {
                ItemResult::Single(_) => true,
                ItemResult::Many(m) => m.records.len() > 0,
                ItemResult::Val(_) => true,
                ItemResult::Empty => false,
            },
            ExpressionResult::List(items) => items.len() > 0,
        }
    }
}

} // verus!

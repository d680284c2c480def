//! The tree-walking interpreter: evaluates a compiled expression tree
//! against a live connection, threading an environment of named intermediate
//! results and a recursion-depth counter.
//!
//! Bindings are visible exactly to the following siblings of their enclosing
//! sequence and are discarded when that sequence finishes. Evaluation is
//! fail-fast: the first error aborts the remaining siblings and propagates
//! unchanged.

use vstd::prelude::*;

use crate::connection::ConnV;
use crate::connection::Connection;
use crate::connection::conn_v;
use crate::connection::create_conn;
use crate::connection::create_rec;
use crate::connection::read_spec;
use crate::error::CoreError;
use crate::expression::ExprV;
use crate::expression::Expression;
use crate::expression::ExpressionResult;
use crate::expression::ItemResult;
use crate::expression::ItemV;
use crate::expression::QueryV;
use crate::expression::ResV;
use crate::expression::DbQuery;
use crate::expression::Subst;
use crate::expression::SubstV;
use crate::expression::expr_v;
use crate::expression::exprs_v;
use crate::expression::res_nonempty;
use crate::expression::res_v;
use crate::expression::subst_v;
use crate::field::DataSourceField;
use crate::record::RecV;
use crate::record::RecordIdentifier;
use crate::record::found_at;
use crate::record::has_name;
use crate::record::lemma_first_found;
use crate::record::name_index;
use crate::record::position_of;
use crate::value::PrismaValue;

verus! {

/// The interpreter's environment: binding names mapped to already-computed
/// results, innermost binding last.
#[derive(Debug)]
pub struct Env {
    pub bindings: Vec<(String, ExpressionResult)>,
}

/// The model of an environment.
pub open spec fn env_v(s: Seq<(String, ExpressionResult)>) -> Seq<(String, ResV)> {
    s.map_values(|p: (String, ExpressionResult)| (p.0, res_v(p.1)))
}

/// The innermost binding of a name, if any: later bindings shadow earlier
/// ones.
pub open spec fn env_lookup(env: Seq<(String, ResV)>, name: Seq<char>) -> Option<ResV>
    decreases env.len(),
{
    if env.len() == 0 {
        None
    } else if env.last().0@ == name {
        Some(env.last().1)
    } else {
        env_lookup(env.drop_last(), name)
    }
}

impl Default for Env {
    /// An environment with no bindings.
    fn default() -> (r: Self)
        ensures
            r.bindings@.len() == 0,
    {
        Env { bindings: Vec::new() }
    }
}

impl Env {
    /// The innermost result bound under `name`, if any.
    pub fn get(&self, name: &str) -> (r: Option<&ExpressionResult>)
        ensures
            match r {
                Some(x) => env_lookup(env_v(self.bindings@), name@) == Some(res_v(*x)),
                None => env_lookup(env_v(self.bindings@), name@) is None,
            },
    {
        let ghost full = env_v(self.bindings@);
        let mut i: usize = self.bindings.len();
        proof {
            assert(full.take(full.len() as int) =~= full);
        }
        while i > 0
            invariant
                i <= self.bindings@.len(),
                full == env_v(self.bindings@),
                env_lookup(full, name@) == env_lookup(full.take(i as int), name@),
            decreases i,
        {
            let j = i - 1;
            if crate::strutil::str_eq(self.bindings[j].0.as_str(), name) {
                proof {
                    let pre = full.take(j as int + 1);
                    assert(pre.last() == full[j as int]);
                    assert(full[j as int].0@ == name@);
                }
                return Some(&self.bindings[j].1);
            }
            proof {
                let pre = full.take(i as int);
                assert(pre.last() == full[j as int]);
                assert(pre.last().0@ != name@);
                assert(pre.drop_last() =~= full.take(j as int));
            }
            i = j;
        }
        proof {
            assert(full.take(0) =~= Seq::<(String, ResV)>::empty());
        }
        None
    }
}

/// What evaluating one expression produced: the result or first error, and
/// the connection as the issued backend calls left it.
pub ghost struct EvalOut {
    pub res: Result<ResV, CoreError>,
    pub conn: ConnV,
}

/// The record a substitution draws from: a single record directly, or the
/// first row of a list; an empty result is the "record not found" condition
/// of a mandatory data edge.
pub open spec fn first_record(rv: ResV) -> Result<(RecV, Seq<String>), CoreError> {
    match rv {
        ResV::Item(ItemV::Single(s)) => Ok((s.record, s.names)),
        ResV::Item(ItemV::Many(m)) => if m.records.len() > 0 {
            Ok((m.records[0], m.names))
        } else {
            Err(CoreError::RecordNotFound)
        },
        _ => Err(CoreError::RecordNotFound),
    }
}

/// Resolving one substitution: look the binding up, pull the named field's
/// value out of its record, and place it at the target slot.
pub open spec fn resolve_one(
    s: SubstV,
    env: Seq<(String, ResV)>,
    values: Seq<PrismaValue>,
) -> Result<(Seq<PrismaValue>, (DataSourceField, PrismaValue)), CoreError> {
    match env_lookup(env, s.binding@) {
        None => Err(CoreError::BindingNotFound { name: s.binding }),
        Some(rv) => match first_record(rv) {
            Err(e) => Err(e),
            Ok((rec, names)) => if has_name(names, s.field@) && name_index(names, s.field@)
                < rec.values.len() {
                let v = rec.values[name_index(names, s.field@)];
                if 0 <= s.target_slot < values.len() {
                    Ok((values.update(s.target_slot, v), (DataSourceField { name: s.field }, v)))
                } else {
                    Err(CoreError::InvalidGraph)
                }
            } else {
                Err(CoreError::FieldNotFound { name: s.field })
            },
        },
    }
}

/// Resolving a substitution list in order, accumulating the injected
/// (column, value) pairs.
pub open spec fn resolve(
    substs: Seq<SubstV>,
    env: Seq<(String, ResV)>,
    values: Seq<PrismaValue>,
) -> Result<(Seq<PrismaValue>, Seq<(DataSourceField, PrismaValue)>), CoreError>
    decreases substs.len(),
{
    if substs.len() == 0 {
        Ok((values, Seq::empty()))
    } else {
        match resolve_one(substs[0], env, values) {
            Err(e) => Err(e),
            Ok((v2, pair)) => match resolve(substs.drop_first(), env, v2) {
                Err(e) => Err(e),
                Ok((vf, rest)) => Ok((vf, seq![pair] + rest)),
            },
        }
    }
}

/// The item one collected binding contributes: its step result, or an empty
/// slot for a collected list (lists do not nest).
pub open spec fn item_of(rv: ResV) -> ItemV {
    match rv {
        ResV::Item(x) => x,
        ResV::List(_) => ItemV::Empty,
    }
}

/// Collecting the named results, in order; fails on the first missing name.
pub open spec fn collect(bindings: Seq<String>, env: Seq<(String, ResV)>) -> Result<
    Seq<ItemV>,
    CoreError,
>
    decreases bindings.len(),
{
    if bindings.len() == 0 {
        Ok(Seq::empty())
    } else {
        match env_lookup(env, bindings[0]@) {
            None => Err(CoreError::BindingNotFound { name: bindings[0] }),
            Some(rv) => match collect(bindings.drop_first(), env) {
                Err(e) => Err(e),
                Ok(rest) => Ok(seq![item_of(rv)] + rest),
            },
        }
    }
}

/// Evaluating the atomic backend call: substitute arguments from the
/// environment, then issue the operation. The injected pairs become the
/// created record's parent key.
pub open spec fn eval_func(
    query: QueryV,
    substs: Seq<SubstV>,
    env: Seq<(String, ResV)>,
    conn: ConnV,
) -> EvalOut {
    match query {
        QueryV::Create { model, field_names, values } => match resolve(substs, env, values) {
            Err(e) => EvalOut { res: Err(e), conn },
            Ok((vals, pairs)) => {
                let parent = if pairs.len() > 0 {
                    Some(pairs)
                } else {
                    None
                };
                EvalOut {
                    res: Ok(ResV::Item(ItemV::Single(create_rec(conn, field_names, vals, parent)))),
                    conn: create_conn(conn, model, field_names, vals, parent),
                }
            }
        },
        QueryV::ReadAll { model } => match resolve(substs, env, Seq::empty()) {
            Err(e) => EvalOut { res: Err(e), conn },
            Ok(_) => EvalOut {
                res: Ok(ResV::Item(ItemV::Many(read_spec(conn, model@)))),
                conn,
            },
        },
    }
}

/// Big-step evaluation of one expression.
pub open spec fn eval(
    e: ExprV,
    env: Seq<(String, ResV)>,
    conn: ConnV,
    depth: nat,
    max: nat,
) -> EvalOut
    decreases e, 0int,
{
    if depth > max {
        EvalOut { res: Err(CoreError::DepthLimitExceeded), conn }
    } else {
        match e {
            ExprV::Sequence(children) => eval_seq(
                children,
                0,
                env,
                conn,
                ResV::Item(ItemV::Empty),
                depth,
                max,
            ),
            ExprV::Let { binding: _, inner } => if inner.len() == 1 {
                eval(inner[0], env, conn, depth + 1, max)
            } else {
                EvalOut { res: Ok(ResV::Item(ItemV::Empty)), conn }
            },
            ExprV::Func { query, substs } => eval_func(query, substs, env, conn),
            ExprV::Get { binding } => match env_lookup(env, binding@) {
                Some(rv) => EvalOut { res: Ok(rv), conn },
                None => EvalOut { res: Err(CoreError::BindingNotFound { name: binding }), conn },
            },
            ExprV::GetAll { bindings } => match collect(bindings, env) {
                Ok(items) => EvalOut { res: Ok(ResV::List(items)), conn },
                Err(e) => EvalOut { res: Err(e), conn },
            },
            ExprV::If { binding, then_seq } => match env_lookup(env, binding@) {
                None => EvalOut { res: Err(CoreError::BindingNotFound { name: binding }), conn },
                Some(rv) => if res_nonempty(rv) {
                    eval_seq(then_seq, 0, env, conn, ResV::Item(ItemV::Empty), depth, max)
                } else {
                    EvalOut { res: Ok(ResV::Item(ItemV::Empty)), conn }
                },
            },
            ExprV::Raw { query: _, parameters: _ } => EvalOut {
                res: Ok(ResV::Item(ItemV::Empty)),
                conn,
            },
        }
    }
}

/// Big-step evaluation of a sequence's children from index `i` on: children
/// run in document order at one greater depth, a let-child's result becomes
/// visible to the following siblings, and the last result is propagated.
pub open spec fn eval_seq(
    children: Seq<ExprV>,
    i: int,
    env: Seq<(String, ResV)>,
    conn: ConnV,
    last: ResV,
    depth: nat,
    max: nat,
) -> EvalOut
    decreases children, children.len() - i,
{
    if i < 0 || i >= children.len() {
        EvalOut { res: Ok(last), conn }
    } else {
        match children[i] {
            ExprV::Let { binding, inner } => if inner.len() == 1 {
                let out = eval(inner[0], env, conn, depth + 1, max);
                match out.res {
                    Err(_) => out,
                    Ok(rv) => eval_seq(
                        children,
                        i + 1,
                        env.push((binding, rv)),
                        out.conn,
                        rv,
                        depth,
                        max,
                    ),
                }
            } else {
                eval_seq(children, i + 1, env, conn, ResV::Item(ItemV::Empty), depth, max)
            },
            c => {
                let out = eval(c, env, conn, depth + 1, max);
                match out.res {
                    Err(_) => out,
                    Ok(rv) => eval_seq(children, i + 1, env, out.conn, rv, depth, max),
                }
            }
        }
    }
}

/// The structural size of an expression tree, used as the interpreter's
/// termination measure.
pub open spec fn esize(e: ExprV) -> nat
    decreases e, 0int,
{
    match e {
        ExprV::Sequence(cs) => 1 + esize_seq(cs),
        ExprV::Let { binding: _, inner } => 1 + esize_seq(inner),
        ExprV::If { binding: _, then_seq } => 1 + esize_seq(then_seq),
        _ => 1,
    }
}

/// The total size of a list of expressions.
pub open spec fn esize_seq(s: Seq<ExprV>) -> nat
    decreases s, s.len(),
{
    if s.len() == 0 {
        0
    } else {
        esize(s[0]) + esize_seq(s.drop_first())
    }
}

/// Every element's size is bounded by the list's total size.
pub proof fn lemma_esize_element(s: Seq<ExprV>, i: int)
    requires
        0 <= i < s.len(),
    ensures
        esize(s[i]) <= esize_seq(s),
    decreases i,
{
    if i == 0 {
    } else {
        lemma_esize_element(s.drop_first(), i - 1);
        assert(s.drop_first()[i - 1] == s[i]);
    }
}

/// Resolve a substitution list against the environment, in order.
#[verifier::loop_isolation(false)]
fn resolve_substs(env: &Env, substs: &Vec<Subst>, values: Vec<PrismaValue>) -> (r: Result<
    (Vec<PrismaValue>, Vec<(DataSourceField, PrismaValue)>),
    CoreError,
>)
    ensures
        match (r, resolve(crate::expression::substs_v(substs@), env_v(env.bindings@), values@)) {
            (Ok((vf, pairs)), Ok(sp)) => vf@ == sp.0 && pairs@ == sp.1,
            (Err(a), Err(b)) => a == b,
            _ => false,
        },
{
    let ghost sv = crate::expression::substs_v(substs@);
    let ghost env0 = env_v(env.bindings@);
    let ghost v0 = values@;
    let mut vals = values;
    let mut pairs: Vec<(DataSourceField, PrismaValue)> = Vec::new();
    let mut i: usize = 0;
    proof {
        assert(sv.skip(0) =~= sv);
        assert(pairs@ + resolve(sv, env0, v0)->Ok_0.1 =~= resolve(sv, env0, v0)->Ok_0.1);
    }
    while i < substs.len()
        invariant
            i <= substs@.len(),
            sv == crate::expression::substs_v(substs@),
            env0 == env_v(env.bindings@),
            match resolve(sv.skip(i as int), env0, vals@) {
                Ok(rest) => resolve(sv, env0, v0) == Ok::<
                    (Seq<PrismaValue>, Seq<(DataSourceField, PrismaValue)>),
                    CoreError,
                >((rest.0, pairs@ + rest.1)),
                Err(e) => resolve(sv, env0, v0) == Err::<
                    (Seq<PrismaValue>, Seq<(DataSourceField, PrismaValue)>),
                    CoreError,
                >(e),
            },
        decreases substs@.len() - i,
    {
        let ghost svi = sv[i as int];
        let ghost tail = sv.skip(i as int);
        proof {
            assert(tail[0] == svi);
            assert(tail.drop_first() =~= sv.skip(i as int + 1));
        }
        let s = &substs[i];
        proof {
            assert(svi == subst_v(substs@[i as int]));
        }
        let looked = env.get(s.binding.as_str());
        match looked {
            None => {
                proof {
                    assert(env_lookup(env0, svi.binding@) is None);
                    assert(resolve_one(svi, env0, vals@) == Err::<
                        (Seq<PrismaValue>, (DataSourceField, PrismaValue)),
                        CoreError,
                    >(CoreError::BindingNotFound { name: svi.binding }));
                    assert(resolve(tail, env0, vals@) == Err::<
                        (Seq<PrismaValue>, Seq<(DataSourceField, PrismaValue)>),
                        CoreError,
                    >(CoreError::BindingNotFound { name: svi.binding }));
                }
                return Err(CoreError::BindingNotFound { name: s.binding.clone() });
            }
            Some(res) => {
                let ghost rv = res_v(*res);
                let picked: Option<(&crate::record::Record, &Vec<String>)> = match res {
                    ExpressionResult::Item(ItemResult::Single(sr)) => Some(
                        (&sr.record, &sr.field_names),
                    ),
                    ExpressionResult::Item(ItemResult::Many(m)) => {
                        if m.records.len() > 0 {
                            Some((&m.records[0], &m.field_names))
                        } else {
                            None
                        }
                    }
                    _ => None,
                };
                match picked {
                    None => {
                        proof {
                            assert(env_lookup(env0, svi.binding@) == Some(rv));
                            assert(first_record(rv) == Err::<
                                (RecV, Seq<String>),
                                CoreError,
                            >(CoreError::RecordNotFound));
                            assert(resolve_one(svi, env0, vals@) == Err::<
                                (Seq<PrismaValue>, (DataSourceField, PrismaValue)),
                                CoreError,
                            >(CoreError::RecordNotFound));
                            assert(resolve(tail, env0, vals@) == Err::<
                                (Seq<PrismaValue>, Seq<(DataSourceField, PrismaValue)>),
                                CoreError,
                            >(CoreError::RecordNotFound));
                        }
                        return Err(CoreError::RecordNotFound);
                    }
                    Some((rec, names)) => {
                        let ghost srec = first_record(rv)->Ok_0.0;
                        let ghost snames = first_record(rv)->Ok_0.1;
                        proof {
                            assert(crate::record::rec_v(*rec) == srec);
                            assert(names@ == snames);
                        }
                        match position_of(names, s.field.as_str()) {
                            None => {
                                proof {
                                    assert(env_lookup(env0, svi.binding@) == Some(rv));
                                    assert(!has_name(snames, svi.field@));
                                    assert(resolve_one(svi, env0, vals@) == Err::<
                                        (Seq<PrismaValue>, (DataSourceField, PrismaValue)),
                                        CoreError,
                                    >(CoreError::FieldNotFound { name: svi.field }));
                                    assert(resolve(tail, env0, vals@) == Err::<
                                        (Seq<PrismaValue>, Seq<(DataSourceField, PrismaValue)>),
                                        CoreError,
                                    >(CoreError::FieldNotFound { name: svi.field }));
                                }
                                return Err(CoreError::FieldNotFound { name: s.field.clone() });
                            }
                            Some(idx) => {
                                proof {
                                    assert(found_at(snames, svi.field@, idx as int));
                                    lemma_first_found(snames, svi.field@, idx as int);
                                    let ni = name_index(snames, svi.field@);
                                    assert(found_at(snames, svi.field@, ni));
                                    if ni < idx as int {
                                        assert(snames[ni]@ == svi.field@);
                                    } else if (idx as int) < ni {
                                        assert(snames[idx as int]@ == svi.field@);
                                    }
                                    assert(ni == idx as int);
                                }
                                if idx < rec.values.len() {
                                    let v = rec.values[idx].clone();
                                    if s.target_slot < vals.len() {
                                        let ghost prevals = vals@;
                                        let ghost prepairs = pairs@;
                                        vals[s.target_slot] = v.clone();
                                        pairs.push((DataSourceField { name: s.field.clone() }, v));
                                        proof {
                                            let pair = (
                                                DataSourceField { name: svi.field },
                                                srec.values[idx as int],
                                            );
                                            assert(resolve_one(svi, env0, prevals) == Ok::<
                                                (Seq<PrismaValue>, (DataSourceField, PrismaValue)),
                                                CoreError,
                                            >((prevals.update(svi.target_slot, pair.1), pair)));
                                            assert(vals@ == prevals.update(svi.target_slot, pair.1));
                                            assert(pairs@ =~= prepairs.push(pair));
                                            match resolve(sv.skip(i as int + 1), env0, vals@) {
                                                Ok(rest) => {
                                                    assert(resolve(tail, env0, prevals) == Ok::<
                                                        (
                                                            Seq<PrismaValue>,
                                                            Seq<(DataSourceField, PrismaValue)>,
                                                        ),
                                                        CoreError,
                                                    >((rest.0, seq![pair] + rest.1)));
                                                    assert(prepairs + (seq![pair] + rest.1)
                                                        =~= pairs@ + rest.1);
                                                }
                                                Err(e) => {
                                                    assert(resolve(tail, env0, prevals) == Err::<
                                                        (
                                                            Seq<PrismaValue>,
                                                            Seq<(DataSourceField, PrismaValue)>,
                                                        ),
                                                        CoreError,
                                                    >(e));
                                                }
                                            }
                                        }
                                    } else {
                                        proof {
                                            assert(env_lookup(env0, svi.binding@) == Some(rv));
                                            assert(!(0 <= svi.target_slot < vals@.len()));
                                            assert(resolve_one(svi, env0, vals@) == Err::<
                                                (Seq<PrismaValue>, (DataSourceField, PrismaValue)),
                                                CoreError,
                                            >(CoreError::InvalidGraph));
                                            assert(resolve(tail, env0, vals@) == Err::<
                                                (Seq<PrismaValue>, Seq<(DataSourceField, PrismaValue)>),
                                                CoreError,
                                            >(CoreError::InvalidGraph));
                                        }
                                        return Err(CoreError::InvalidGraph);
                                    }
                                } else {
                                    proof {
                                        assert(env_lookup(env0, svi.binding@) == Some(rv));
                                        assert(srec.values.len() == rec.values@.len());
                                        assert(!(name_index(snames, svi.field@) < srec.values.len()));
                                        assert(resolve_one(svi, env0, vals@) == Err::<
                                            (Seq<PrismaValue>, (DataSourceField, PrismaValue)),
                                            CoreError,
                                        >(CoreError::FieldNotFound { name: svi.field }));
                                        assert(resolve(tail, env0, vals@) == Err::<
                                            (Seq<PrismaValue>, Seq<(DataSourceField, PrismaValue)>),
                                            CoreError,
                                        >(CoreError::FieldNotFound { name: svi.field }));
                                    }
                                    return Err(CoreError::FieldNotFound { name: s.field.clone() });
                                }
                            }
                        }
                    }
                }
            }
        }
        i += 1;
    }
    proof {
        assert(sv.skip(sv.len() as int) =~= Seq::<SubstV>::empty());
        assert(pairs@ + Seq::<(DataSourceField, PrismaValue)>::empty() =~= pairs@);
    }
    Ok((vals, pairs))
}

/// Collect the named results from the environment, in order.
#[verifier::loop_isolation(false)]
fn collect_exec(env: &Env, bindings: &Vec<String>) -> (r: Result<Vec<ItemResult>, CoreError>)
    ensures
        match (r, collect(bindings@, env_v(env.bindings@))) {
            (Ok(items), Ok(sitems)) => crate::expression::items_v(items@) == sitems,
            (Err(a), Err(b)) => a == b,
            _ => false,
        },
{
    let ghost bs = bindings@;
    let ghost env0 = env_v(env.bindings@);
    let mut items: Vec<ItemResult> = Vec::new();
    let mut i: usize = 0;
    proof {
        assert(bs.skip(0) =~= bs);
        if collect(bs, env0) is Ok {
            assert(crate::expression::items_v(items@) + collect(bs, env0)->Ok_0 =~= collect(
                bs,
                env0,
            )->Ok_0);
        }
    }
    while i < bindings.len()
        invariant
            i <= bindings@.len(),
            bs == bindings@,
            env0 == env_v(env.bindings@),
            match collect(bs.skip(i as int), env0) {
                Ok(rest) => collect(bs, env0) == Ok::<Seq<ItemV>, CoreError>(
                    crate::expression::items_v(items@) + rest,
                ),
                Err(e) => collect(bs, env0) == Err::<Seq<ItemV>, CoreError>(e),
            },
        decreases bindings@.len() - i,
    {
        let ghost tail = bs.skip(i as int);
        proof {
            assert(tail[0] == bs[i as int]);
            assert(tail.drop_first() =~= bs.skip(i as int + 1));
        }
        match env.get(bindings[i].as_str()) {
            None => {
                return Err(CoreError::BindingNotFound { name: bindings[i].clone() });
            }
            Some(res) => {
                let ghost prev = items@;
                let item: ItemResult = match res {
                    ExpressionResult::Item(x) => x.clone(),
                    ExpressionResult::List(_) => ItemResult::Empty,
                };
                proof {
                    assert(crate::expression::item_v(item) == item_of(res_v(*res)));
                }
                items.push(item);
                proof {
                    assert(crate::expression::items_v(items@) =~= crate::expression::items_v(
                        prev,
                    ).push(item_of(res_v(*res))));
                    match collect(bs.skip(i as int + 1), env0) {
                        Ok(rest) => {
                            assert(crate::expression::items_v(prev) + (seq![
                                item_of(res_v(*res)),
                            ] + rest) =~= crate::expression::items_v(items@) + rest);
                        }
                        Err(_) => {}
                    }
                }
            }
        }
        i += 1;
    }
    proof {
        assert(bs.skip(bs.len() as int) =~= Seq::<String>::empty());
        assert(crate::expression::items_v(items@) + Seq::<ItemV>::empty()
            =~= crate::expression::items_v(items@));
    }
    Ok(items)
}

/// The interpreter: a connection to issue backend calls against, and the
/// configured recursion-depth bound.
#[derive(Debug)]
pub struct QueryInterpreter {
    pub conn: Connection,
    pub max_depth: usize,
}

impl QueryInterpreter {
    /// An interpreter over a connection, with the given depth bound.
    pub fn new(conn: Connection, max_depth: usize) -> (r: QueryInterpreter)
        ensures
            r.conn == conn,
            r.max_depth == max_depth,
    {
        QueryInterpreter { conn, max_depth }
    }

    /// Issue one atomic backend call, substituting its arguments from the
    /// environment immediately before the call.
    fn execute_func(&mut self, query: &DbQuery, substs: &Vec<Subst>, env: &Env) -> (r: Result<
        ExpressionResult,
        CoreError,
    >)
        ensures
            final(self).max_depth == old(self).max_depth,
            ({
                let out = eval_func(
                    crate::expression::query_v(*query),
                    crate::expression::substs_v(substs@),
                    env_v(env.bindings@),
                    conn_v(old(self).conn),
                );
                &&& conn_v(final(self).conn) == out.conn
                &&& match (r, out.res) {
                    (Ok(x), Ok(y)) => res_v(x) == y,
                    (Err(a), Err(b)) => a == b,
                    _ => false,
                }
            }),
    {
        match query {
            DbQuery::Create { model, field_names, values } => {
                let vals0 = values.clone();
                proof {
                    assert(vals0@ =~= values@);
                }
                match resolve_substs(env, substs, vals0) {
                    Err(e) => Err(e),
                    Ok((vals, pairs)) => {
                        let ghost spairs = pairs@;
                        let nonempty = pairs.len() > 0;
                        let parent: Option<RecordIdentifier> = if nonempty {
                            Some(RecordIdentifier { pairs })
                        } else {
                            None
                        };
                        let names2 = field_names.clone();
                        proof {
                            assert(names2@ =~= field_names@);
                        }
                        let rec = self.conn.create(model.clone(), names2, vals, parent);
                        Ok(ExpressionResult::Item(ItemResult::Single(rec)))
                    }
                }
            }
            DbQuery::ReadAll { model } => {
                let empty_vals: Vec<PrismaValue> = Vec::new();
                proof {
                    assert(empty_vals@ =~= Seq::<PrismaValue>::empty());
                }
                match resolve_substs(env, substs, empty_vals) {
                    Err(e) => Err(e),
                    Ok(_) => {
                        let m = self.conn.read_all(model.as_str());
                        Ok(ExpressionResult::Item(ItemResult::Many(m)))
                    }
                }
            }
        }
    }

    /// Evaluate one expression against the connection, at the given
    /// recursion depth. The environment is exactly as before when the call
    /// returns: bindings never escape their enclosing sequence.
    pub fn interpret(&mut self, expr: &Expression, env: &mut Env, depth: usize) -> (r: Result<
        ExpressionResult,
        CoreError,
    >)
        requires
            old(self).max_depth < usize::MAX,
        ensures
            final(self).max_depth == old(self).max_depth,
            env_v(final(env).bindings@) == env_v(old(env).bindings@),
            ({
                let out = eval(
                    expr_v(*expr),
                    env_v(old(env).bindings@),
                    conn_v(old(self).conn),
                    depth as nat,
                    old(self).max_depth as nat,
                );
                &&& conn_v(final(self).conn) == out.conn
                &&& match (r, out.res) {
                    (Ok(x), Ok(y)) => res_v(x) == y,
                    (Err(a), Err(b)) => a == b,
                    _ => false,
                }
            }),
        decreases esize(expr_v(*expr)), 0int,
    {
        if depth > self.max_depth {
            return Err(CoreError::DepthLimitExceeded);
        }
        match expr {
            Expression::Sequence { seq } => {
                proof {
                    crate::expression::lemma_expr_v_sequence(*seq);
                    assert(*expr == (Expression::Sequence { seq: *seq }));
                }
                self.interpret_seq(seq, env, depth)
            }
            Expression::Let { binding, expr: inner } => {
                proof {
                    assert(*expr == (Expression::Let { binding: *binding, expr: *inner }));
                    assert(expr_v(*expr)->Let_inner =~= seq![expr_v(**inner)]);
                    assert(esize_seq(seq![expr_v(**inner)].drop_first()) == 0) by {
                        assert(seq![expr_v(**inner)].drop_first() =~= Seq::<ExprV>::empty());
                    }
                    assert(esize(expr_v(*expr)) == 1 + esize(expr_v(**inner)));
                }
                self.interpret(&**inner, env, depth + 1)
            }
            Expression::Func { query, substs } => {
                proof {
                    crate::expression::lemma_expr_v_func(*query, *substs);
                    assert(*expr == (Expression::Func { query: *query, substs: *substs }));
                }
                self.execute_func(query, substs, env)
            }
            Expression::Get { binding } => {
                match env.get(binding.as_str()) {
                    Some(x) => Ok(x.clone()),
                    None => Err(CoreError::BindingNotFound { name: binding.clone() }),
                }
            }
            Expression::GetAll { bindings } => {
                match collect_exec(env, bindings) {
                    Ok(items) => Ok(ExpressionResult::List(items)),
                    Err(e) => Err(e),
                }
            }
            Expression::If { binding, then_seq } => {
                proof {
                    crate::expression::lemma_expr_v_if(*binding, *then_seq);
                    assert(*expr == (Expression::If { binding: *binding, then_seq: *then_seq }));
                }
                let ne: Option<bool> = match env.get(binding.as_str()) {
                    Some(x) => Some(x.is_nonempty()),
                    None => None,
                };
                match ne {
                    None => Err(CoreError::BindingNotFound { name: binding.clone() }),
                    Some(true) => self.interpret_seq(then_seq, env, depth),
                    Some(false) => Ok(ExpressionResult::Item(ItemResult::Empty)),
                }
            }
            Expression::Raw { query: _, parameters: _ } => Ok(
                ExpressionResult::Item(ItemResult::Empty),
            ),
        }
    }

    /// Evaluate a sequence's children in document order at one greater
    /// depth. A let-child's result becomes visible to the following
    /// siblings; all bindings introduced here are discarded on exit, on
    /// success and on failure alike. The last child's result is propagated;
    /// the first error aborts the remaining children.
    #[verifier::loop_isolation(false)]
    pub fn interpret_seq(&mut self, children: &Vec<Expression>, env: &mut Env, depth: usize) -> (r:
        Result<ExpressionResult, CoreError>)
        requires
            old(self).max_depth < usize::MAX,
            depth <= old(self).max_depth,
        ensures
            final(self).max_depth == old(self).max_depth,
            env_v(final(env).bindings@) == env_v(old(env).bindings@),
            ({
                let out = eval_seq(
                    exprs_v(children@),
                    0,
                    env_v(old(env).bindings@),
                    conn_v(old(self).conn),
                    ResV::Item(ItemV::Empty),
                    depth as nat,
                    old(self).max_depth as nat,
                );
                &&& conn_v(final(self).conn) == out.conn
                &&& match (r, out.res) {
                    (Ok(x), Ok(y)) => res_v(x) == y,
                    (Err(a), Err(b)) => a == b,
                    _ => false,
                }
            }),
        decreases esize_seq(exprs_v(children@)), 1int,
    {
        let ghost cs = exprs_v(children@);
        let ghost env0 = env_v(old(env).bindings@);
        let ghost conn0 = conn_v(old(self).conn);
        let ghost maxd = old(self).max_depth as nat;
        let n0 = env.bindings.len();
        let mut last = ExpressionResult::Item(ItemResult::Empty);
        let mut i: usize = 0;
        while i < children.len()
            invariant
                i <= children@.len(),
                env.bindings@.len() >= n0,
                env_v(env.bindings@).take(n0 as int) == env0,
                self.max_depth == old(self).max_depth,
                eval_seq(cs, 0, env0, conn0, ResV::Item(ItemV::Empty), depth as nat, maxd)
                    == eval_seq(
                    cs,
                    i as int,
                    env_v(env.bindings@),
                    conn_v(self.conn),
                    res_v(last),
                    depth as nat,
                    maxd,
                ),
            decreases children@.len() - i,
        {
            proof {
                assert(cs[i as int] == expr_v(children@[i as int]));
                lemma_esize_element(cs, i as int);
            }
            let ghost envpre = env_v(env.bindings@);
            let ghost connpre = conn_v(self.conn);
            match &children[i] {
                Expression::Let { binding, expr: inner } => {
                    proof {
                        assert(children@[i as int] == (Expression::Let {
                            binding: *binding,
                            expr: *inner,
                        }));
                        assert(cs[i as int]->Let_inner =~= seq![expr_v(**inner)]);
                        assert(esize_seq(seq![expr_v(**inner)].drop_first()) == 0) by {
                            assert(seq![expr_v(**inner)].drop_first() =~= Seq::<ExprV>::empty());
                        }
                        assert(esize(cs[i as int]) == 1 + esize(expr_v(**inner)));
                    }
                    let r = self.interpret(&**inner, env, depth + 1);
                    match r {
                        Err(e) => {
                            env.bindings.truncate(n0);
                            proof {
                                assert(env_v(final(env).bindings@) =~= envpre.take(n0 as int));
                            }
                            return Err(e);
                        }
                        Ok(val) => {
                            let stored = val.clone();
                            let ghost envmid = env_v(env.bindings@);
                            env.bindings.push((binding.clone(), stored));
                            let ghost rv = res_v(val);
                            last = val;
                            proof {
                                assert(env_v(env.bindings@) =~= envmid.push((*binding, rv)));
                                assert(env_v(env.bindings@).take(n0 as int) =~= envmid.take(
                                    n0 as int,
                                ));
                            }
                        }
                    }
                }
                _ => {
                    let r = self.interpret(&children[i], env, depth + 1);
                    match r {
                        Err(e) => {
                            env.bindings.truncate(n0);
                            proof {
                                assert(env_v(final(env).bindings@) =~= envpre.take(n0 as int));
                            }
                            return Err(e);
                        }
                        Ok(val) => {
                            last = val;
                        }
                    }
                }
            }
            i += 1;
        }
        let ghost envend = env_v(env.bindings@);
        env.bindings.truncate(n0);
        proof {
            assert(env_v(env.bindings@) =~= envend.take(n0 as int));
        }
        Ok(last)
    }
}

} // verus!

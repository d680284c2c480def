//! The executor façade: runs one operation or a batch against the attached
//! connection, and owns transaction-id issuance, the connection-pool bound
//! and the lifecycle of open transactions.

use vstd::prelude::*;

use crate::connection::ConnV;
use crate::connection::Connection;
use crate::connection::conn_v;
use crate::error::CoreError;
use crate::expression::ResV;
use crate::expression::res_v;
use crate::pipeline::IrSerializer;
use crate::pipeline::QueryPipeline;
use crate::pipeline::QueryType;
use crate::pipeline::QueryTypeV;
use crate::pipeline::ResponseData;
use crate::pipeline::pipeline_spec;
use crate::pipeline::qt_v;
use crate::strutil::str_eq;

verus! {

/// An opaque, globally unique token identifying one open transaction.
#[derive(Debug)]
pub struct TxId(pub String);

/// Relies on `cuid::cuid1`: a collision-resistant id concatenated from a
/// constant prefix, the timestamp, a counter, the host fingerprint and two
/// random blocks. The result depends on time and randomness, so only its
/// shape is stated.
#[verifier::external_body]
fn fresh_cuid() -> (r: String)
    ensures
        r@.len() >= 1,
        r@[0] == 'c',
{
    cuid::cuid1().expect("could not generate a transaction id")
}

impl Clone for TxId {
    fn clone(&self) -> (r: Self)
        ensures
            r == *self,
    {
        TxId(self.0.clone())
    }
}

impl PartialEq for TxId {
    fn eq(&self, other: &Self) -> (r: bool) {
        str_eq(self.0.as_str(), other.0.as_str())
    }
}

impl Eq for TxId {}

impl vstd::std_specs::cmp::PartialEqSpecImpl for TxId {
    open spec fn obeys_eq_spec() -> bool {
        true
    }

    open spec fn eq_spec(&self, other: &Self) -> bool {
        self.0@ == other.0@
    }
}

impl TxId {
    /// A freshly issued transaction id.
    pub fn new() -> (r: TxId)
        ensures
            r.0@.len() >= 1,
    {
        TxId(fresh_cuid())
    }

    /// The token's text.
    pub fn to_string(&self) -> (r: String)
        ensures
            r@ == self.0@,
    {
        self.0.clone()
    }
}

impl From<String> for TxId {
    fn from(s: String) -> (r: Self) {
        TxId(s)
    }
}

impl vstd::std_specs::convert::FromSpecImpl<String> for TxId {
    open spec fn obeys_from_spec() -> bool {
        true
    }

    open spec fn from_spec(s: String) -> TxId {
        TxId(s)
    }
}

/// Model of the executor: the base connection, the pool bound, and the open
/// transactions with their working connections, in opening order.
pub ghost struct ExecV {
    pub conn: ConnV,
    pub capacity: int,
    pub txs: Seq<(TxId, ConnV)>,
    pub max_depth: nat,
}

/// The models of the open-transaction list, elementwise.
pub open spec fn txs_v(s: Seq<(TxId, Connection)>) -> Seq<(TxId, ConnV)> {
    s.map_values(|t: (TxId, Connection)| (t.0, conn_v(t.1)))
}

/// `txs[j]` is the first open transaction with the given id.
pub open spec fn tx_found_at(txs: Seq<(TxId, ConnV)>, id: Seq<char>, j: int) -> bool {
    &&& 0 <= j < txs.len()
    &&& txs[j].0.0@ == id
    &&& forall|k: int| 0 <= k < j ==> txs[k].0.0@ != id
}

/// Some open transaction carries the given id.
pub open spec fn has_tx(txs: Seq<(TxId, ConnV)>, id: Seq<char>) -> bool {
    exists|j: int| 0 <= j < txs.len() && txs[j].0.0@ == id
}

/// The index of the first open transaction with the given id.
pub open spec fn tx_index(txs: Seq<(TxId, ConnV)>, id: Seq<char>) -> int {
    choose|j: int| tx_found_at(txs, id, j)
}

/// A match anywhere gives a first match.
pub proof fn lemma_first_tx(txs: Seq<(TxId, ConnV)>, id: Seq<char>, j: int)
    requires
        0 <= j < txs.len(),
        txs[j].0.0@ == id,
    ensures
        tx_found_at(txs, id, tx_index(txs, id)),
    decreases j,
{
    if forall|k: int| 0 <= k < j ==> txs[k].0.0@ != id {
        assert(tx_found_at(txs, id, j));
    } else {
        let k = choose|k: int| 0 <= k < j && txs[k].0.0@ == id;
        lemma_first_tx(txs, id, k);
    }
}

/// What one `execute` does to the executor: with no transaction id the
/// operation runs as one implicit transaction on the base connection,
/// committed on success and rolled back on failure; with an id it runs on
/// that transaction's working connection, whose state it advances whether
/// or not it succeeds (rolling the transaction back is the caller's
/// decision). An unknown or closed id is a reported error.
pub open spec fn execute_spec(e: ExecV, tx: Option<TxId>, q: QueryTypeV) -> (
    Result<ResV, CoreError>,
    ExecV,
) {
    match tx {
        None => {
            let (r, c2) = pipeline_spec(q, e.conn, e.max_depth);
            match r {
                Ok(_) => (r, ExecV { conn: c2, ..e }),
                Err(_) => (r, e),
            }
        },
        Some(id) => if !has_tx(e.txs, id.0@) {
            (Err(CoreError::TransactionNotFound), e)
        } else {
            let j = tx_index(e.txs, id.0@);
            let (r, c2) = pipeline_spec(q, e.txs[j].1, e.max_depth);
            (r, ExecV { txs: e.txs.update(j, (e.txs[j].0, c2)), ..e })
        },
    }
}

/// Running a batch in series on one connection: the results so far, or the
/// index and error of the first failure.
pub open spec fn batch_spec(ops: Seq<QueryTypeV>, conn: ConnV, maxd: nat) -> (
    Result<Seq<ResV>, (int, CoreError)>,
    ConnV,
)
    decreases ops.len(),
{
    if ops.len() == 0 {
        (Ok(Seq::empty()), conn)
    } else {
        let (r0, c1) = pipeline_spec(ops[0], conn, maxd);
        match r0 {
            Err(e) => (Err((0int, e)), c1),
            Ok(v) => {
                let (rest, c2) = batch_spec(ops.drop_first(), c1, maxd);
                match rest {
                    Err(ie) => (Err((ie.0 + 1, ie.1)), c2),
                    Ok(vs) => (Ok(seq![v] + vs), c2),
                }
            }
        }
    }
}

/// Running a batch as independent fan-out: each operation's outcome is
/// captured on its own, in submission order, and failures do not stop the
/// following operations.
pub open spec fn indep_spec(e: ExecV, tx: Option<TxId>, ops: Seq<QueryTypeV>) -> (
    Seq<Result<ResV, CoreError>>,
    ExecV,
)
    decreases ops.len(),
{
    if ops.len() == 0 {
        (Seq::empty(), e)
    } else {
        let (r0, e1) = execute_spec(e, tx, ops[0]);
        let (rest, e2) = indep_spec(e1, tx, ops.drop_first());
        (seq![r0] + rest, e2)
    }
}

/// The per-operation reports of a transactional batch whose operation
/// `i` failed: exactly the failing operation reports its own error, and
/// every other operation was rolled back or never run and reports that it
/// was not applied.
pub open spec fn aborted_reports(n: int, i: int, err: CoreError) -> Seq<
    Result<ResV, CoreError>,
> {
    Seq::new(
        n as nat,
        |j: int|
            if j == i {
                Err(err)
            } else {
                Err(CoreError::OperationNotApplied)
            },
    )
}

/// The models of a result list, elementwise.
pub open spec fn results_v(s: Seq<Result<ResponseData, CoreError>>) -> Seq<
    Result<ResV, CoreError>,
> {
    s.map_values(
        |r: Result<ResponseData, CoreError>|
            match r {
                Ok(d) => Ok(res_v(d.data)),
                Err(e) => Err(e),
            },
    )
}

/// The models of a list of successful results, elementwise.
pub open spec fn resps_v(s: Seq<ResponseData>) -> Seq<ResV> {
    s.map_values(|d: ResponseData| res_v(d.data))
}

/// A list of plain results, each marked successful.
pub open spec fn oks_of(vs: Seq<ResV>) -> Seq<Result<ResV, CoreError>> {
    vs.map_values(|v: ResV| Ok::<ResV, CoreError>(v))
}

/// The models of a list of operations, elementwise.
pub open spec fn ops_v(s: Seq<QueryType>) -> Seq<QueryTypeV> {
    s.map_values(|q: QueryType| qt_v(q))
}

/// What a batch does: with the transactional flag unset, each operation
/// runs independently through `execute` and its outcome is captured in
/// submission order; with the flag set, the batch runs in series on one
/// working connection that is kept only when every operation succeeded,
/// and a single failure leaves every other operation rolled back and
/// reported as not applied.
pub open spec fn execute_all_spec(
    e: ExecV,
    tx: Option<TxId>,
    ops: Seq<QueryTypeV>,
    transactional: bool,
) -> (Result<Seq<Result<ResV, CoreError>>, CoreError>, ExecV) {
    if !transactional {
        let (rs, e2) = indep_spec(e, tx, ops);
        (Ok(rs), e2)
    } else {
        match tx {
            None => {
                let (br, c2) = batch_spec(ops, e.conn, e.max_depth);
                match br {
                    Ok(vs) => (Ok(oks_of(vs)), ExecV { conn: c2, ..e }),
                    Err(ie) => (Ok(aborted_reports(ops.len() as int, ie.0, ie.1)), e),
                }
            },
            Some(id) => if !has_tx(e.txs, id.0@) {
                (Err(CoreError::TransactionNotFound), e)
            } else {
                let j = tx_index(e.txs, id.0@);
                let (br, c2) = batch_spec(ops, e.txs[j].1, e.max_depth);
                match br {
                    Ok(vs) => (
                        Ok(oks_of(vs)),
                        ExecV { txs: e.txs.update(j, (e.txs[j].0, c2)), ..e },
                    ),
                    Err(ie) => (Ok(aborted_reports(ops.len() as int, ie.0, ie.1)), e),
                }
            },
        }
    }
}

/// The transaction-lifecycle capabilities a backend-agnostic caller
/// depends on, independent of which backend is attached.
pub trait TransactionManager {
    /// Start a new transaction and return its id; fails if no connection
    /// can be acquired within `max_acquisition_secs` seconds. The returned
    /// transaction rolls back automatically if not closed within
    /// `valid_for_secs` seconds; that expiry is the implementer's duty.
    fn start_tx(&mut self, max_acquisition_secs: u32, valid_for_secs: u32) -> Result<
        TxId,
        CoreError,
    >;

    /// Commit a transaction; an already-terminated id is a reported error.
    fn commit_tx(&mut self, tx_id: TxId) -> Result<(), CoreError>;

    /// Roll a transaction back; an already-terminated id is a reported
    /// error.
    fn rollback_tx(&mut self, tx_id: TxId) -> Result<(), CoreError>;
}

/// The executor façade over the in-memory backend.
#[derive(Debug)]
pub struct InterpretingExecutor {
    pub conn: Connection,
    pub pool_capacity: usize,
    pub transactions: Vec<(TxId, Connection)>,
    pub max_depth: usize,
}

/// The model of an executor.
pub open spec fn exec_v(e: InterpretingExecutor) -> ExecV {
    ExecV {
        conn: conn_v(e.conn),
        capacity: e.pool_capacity as int,
        txs: txs_v(e.transactions@),
        max_depth: e.max_depth as nat,
    }
}

impl InterpretingExecutor {
    /// An executor over a connection, with the given pool bound and
    /// recursion-depth bound and no open transactions.
    pub fn new(conn: Connection, pool_capacity: usize, max_depth: usize) -> (r:
        InterpretingExecutor)
        ensures
            exec_v(r).conn == conn_v(conn),
            exec_v(r).capacity == pool_capacity as int,
            exec_v(r).txs.len() == 0,
            exec_v(r).max_depth == max_depth as nat,
    {
        let r = InterpretingExecutor { conn, pool_capacity, transactions: Vec::new(), max_depth };
        proof {
            assert(txs_v(r.transactions@) =~= Seq::<(TxId, ConnV)>::empty());
        }
        r
    }

    /// The attached connection, for capability probing only.
    pub fn primary_connector(&self) -> (r: &Connection)
        ensures
            r == &self.conn,
    {
        &self.conn
    }

    /// The index of the first open transaction with the given id.
    fn find_tx(&self, id: &TxId) -> (r: Option<usize>)
        ensures
            match r {
                Some(j) => tx_found_at(txs_v(self.transactions@), id.0@, j as int),
                None => !has_tx(txs_v(self.transactions@), id.0@),
            },
    {
        let mut j: usize = 0;
        while j < self.transactions.len()
            invariant
                j <= self.transactions@.len(),
                forall|k: int|
                    0 <= k < j ==> txs_v(self.transactions@)[k].0.0@ != id.0@,
            decreases self.transactions@.len() - j,
        {
            if str_eq(self.transactions[j].0.0.as_str(), id.0.as_str()) {
                proof {
                    assert(txs_v(self.transactions@)[j as int].0.0@ == id.0@);
                }
                return Some(j);
            }
            proof {
                assert(txs_v(self.transactions@)[j as int].0.0@ != id.0@);
            }
            j += 1;
        }
        None
    }

    /// Execute a single operation. With a transaction id the operation runs
    /// on that transaction; with none, it runs as one implicit transaction
    /// on the base connection, kept on success and discarded on failure.
    pub fn execute(&mut self, tx_id: Option<TxId>, operation: QueryType) -> (r: Result<
        ResponseData,
        CoreError,
    >)
        requires
            old(self).max_depth < usize::MAX,
        ensures
            ({
                let (sr, se) = execute_spec(exec_v(*old(self)), tx_id, qt_v(operation));
                &&& exec_v(*final(self)) == se
                &&& match (r, sr) {
                    (Ok(d), Ok(y)) => res_v(d.data) == y,
                    (Err(a), Err(b)) => a == b,
                    _ => false,
                }
            }),
    {
        match tx_id {
            None => {
                let work = self.conn.clone();
                let interp = crate::interpreter::QueryInterpreter::new(work, self.max_depth);
                let pipeline = QueryPipeline::new(operation, interp, IrSerializer {});
                let (res, conn2) = pipeline.execute();
                match res {
                    Ok(d) => {
                        self.conn = conn2;
                        proof {
                            assert(exec_v(*self).txs =~= exec_v(*old(self)).txs);
                        }
                        Ok(d)
                    }
                    Err(e) => {
                        proof {
                            assert(exec_v(*self).txs =~= exec_v(*old(self)).txs);
                        }
                        Err(e)
                    }
                }
            }
            Some(id) => {
                match self.find_tx(&id) {
                    None => Err(CoreError::TransactionNotFound),
                    Some(j) => {
                        proof {
                            let txs = txs_v(self.transactions@);
                            lemma_first_tx(txs, id.0@, j as int);
                            let f = tx_index(txs, id.0@);
                            assert(tx_found_at(txs, id.0@, f));
                            if f < j as int {
                                assert(txs[f].0.0@ == id.0@);
                            } else if (j as int) < f {
                                assert(txs[j as int].0.0@ == id.0@);
                            }
                            assert(f == j as int);
                        }
                        let work = self.transactions[j].1.clone();
                        let interp = crate::interpreter::QueryInterpreter::new(
                            work,
                            self.max_depth,
                        );
                        let pipeline = QueryPipeline::new(operation, interp, IrSerializer {});
                        let (res, conn2) = pipeline.execute();
                        self.transactions[j].1 = conn2;
                        proof {
                            let oldtxs = txs_v(old(self).transactions@);
                            assert(txs_v(self.transactions@) =~= oldtxs.update(
                                j as int,
                                (oldtxs[j as int].0, conn_v(self.transactions@[j as int].1)),
                            ));
                        }
                        match res {
                            Ok(d) => Ok(d),
                            Err(e) => Err(e),
                        }
                    }
                }
            }
        }
    }

    /// Execute a batch, as independent fan-out or as one all-or-nothing
    /// transactional series.
    #[verifier::loop_isolation(false)]
    #[verifier::rlimit(100)]
    pub fn execute_all(
        &mut self,
        tx_id: Option<TxId>,
        operations: Vec<QueryType>,
        transactional: bool,
    ) -> (r: Result<Vec<Result<ResponseData, CoreError>>, CoreError>)
        requires
            old(self).max_depth < usize::MAX,
        ensures
            ({
                let (sr, se) = execute_all_spec(
                    exec_v(*old(self)),
                    tx_id,
                    ops_v(operations@),
                    transactional,
                );
                &&& exec_v(*final(self)) == se
                &&& match (r, sr) {
                    (Ok(rs), Ok(ss)) => results_v(rs@) == ss,
                    (Err(a), Err(b)) => a == b,
                    _ => false,
                }
            }),
    {
        let ghost e0 = exec_v(*self);
        let ghost opsv = ops_v(operations@);
        let ghost maxd = self.max_depth as nat;
        if !transactional {
            let mut ops = operations;
            let mut results: Vec<Result<ResponseData, CoreError>> = Vec::new();
            proof {
                assert(ops_v(ops@) =~= opsv.skip(0));
                assert(results_v(results@) =~= Seq::<Result<ResV, CoreError>>::empty());
                assert(results_v(results@) + indep_spec(exec_v(*self), tx_id, ops_v(ops@)).0
                    =~= indep_spec(exec_v(*self), tx_id, ops_v(ops@)).0);
            }
            while ops.len() > 0
                invariant
                    results@.len() + ops@.len() == opsv.len(),
                    ops_v(ops@) == opsv.skip(results@.len() as int),
                    self.max_depth == old(self).max_depth,
                    indep_spec(e0, tx_id, opsv) == ({
                        let (rest, ef) = indep_spec(exec_v(*self), tx_id, ops_v(ops@));
                        (results_v(results@) + rest, ef)
                    }),
                decreases ops@.len(),
            {
                let ghost cur = ops_v(ops@);
                let ghost epre = exec_v(*self);
                let ghost respre = results_v(results@);
                let op = ops.remove(0);
                proof {
                    assert(cur[0] == qt_v(op));
                    assert(ops_v(ops@) =~= cur.drop_first());
                    assert(cur.drop_first() =~= opsv.skip(respre.len() as int + 1));
                }
                let txc: Option<TxId> = match &tx_id {
                    Some(t) => Some(t.clone()),
                    None => None,
                };
                proof {
                    assert(txc == tx_id);
                }
                let r1 = self.execute(txc, op);
                results.push(r1);
                proof {
                    assert(results_v(results@) =~= respre.push(results_v(results@).last()));
                    let (r0s, e1s) = execute_spec(epre, tx_id, cur[0]);
                    assert(results_v(results@).last() == r0s);
                    assert(exec_v(*self) == e1s);
                    let (rest2, ef2) = indep_spec(exec_v(*self), tx_id, ops_v(ops@));
                    assert(respre + (seq![r0s] + rest2) =~= results_v(results@) + rest2);
                }
            }
            proof {
                assert(ops_v(ops@).len() == 0);
                assert(indep_spec(exec_v(*self), tx_id, ops_v(ops@)) == (
                    Seq::<Result<ResV, CoreError>>::empty(),
                    exec_v(*self),
                ));
                assert(results_v(results@) + Seq::<Result<ResV, CoreError>>::empty()
                    =~= results_v(results@));
            }
            Ok(results)
        } else {
            let tx_slot: Option<usize> = match &tx_id {
                Some(id) => {
                    match self.find_tx(id) {
                        None => {
                            return Err(CoreError::TransactionNotFound);
                        }
                        Some(j) => {
                            proof {
                                let txs = txs_v(self.transactions@);
                                lemma_first_tx(txs, id.0@, j as int);
                                let f = tx_index(txs, id.0@);
                                if f < j as int {
                                    assert(txs[f].0.0@ == id.0@);
                                } else if (j as int) < f {
                                    assert(txs[j as int].0.0@ == id.0@);
                                }
                                assert(f == j as int);
                            }
                            Some(j)
                        }
                    }
                }
                None => None,
            };
            let mut work: Connection = match tx_slot {
                Some(j) => self.transactions[j].1.clone(),
                None => self.conn.clone(),
            };
            let ghost w0 = conn_v(work);
            let n = operations.len();
            let mut ops = operations;
            let mut oks: Vec<ResponseData> = Vec::new();
            proof {
                assert(ops_v(ops@) =~= opsv.skip(0));
                assert(resps_v(oks@) =~= Seq::<ResV>::empty());
                if batch_spec(ops_v(ops@), conn_v(work), maxd).0 is Ok {
                    assert(resps_v(oks@) + batch_spec(ops_v(ops@), conn_v(work), maxd).0->Ok_0
                        =~= batch_spec(ops_v(ops@), conn_v(work), maxd).0->Ok_0);
                }
            }
            while ops.len() > 0
                invariant
                    oks@.len() + ops@.len() == opsv.len(),
                    ops_v(ops@) == opsv.skip(oks@.len() as int),
                    *self == *old(self),
                    self.max_depth == old(self).max_depth,
                    batch_spec(opsv, w0, maxd) == ({
                        let (br, c2) = batch_spec(ops_v(ops@), conn_v(work), maxd);
                        match br {
                            Ok(vs) => (
                                Ok::<Seq<ResV>, (int, CoreError)>(resps_v(oks@) + vs),
                                c2,
                            ),
                            Err(ie) => (
                                Err::<Seq<ResV>, (int, CoreError)>(
                                    (ie.0 + oks@.len(), ie.1),
                                ),
                                c2,
                            ),
                        }
                    }),
                decreases ops@.len(),
            {
                let ghost cur = ops_v(ops@);
                let ghost wpre = conn_v(work);
                let ghost okspre = resps_v(oks@);
                let op = ops.remove(0);
                proof {
                    assert(cur[0] == qt_v(op));
                    assert(ops_v(ops@) =~= cur.drop_first());
                    assert(cur.drop_first() =~= opsv.skip(okspre.len() as int + 1));
                }
                let interp = crate::interpreter::QueryInterpreter::new(work, self.max_depth);
                let pipeline = QueryPipeline::new(op, interp, IrSerializer {});
                let (res, w2) = pipeline.execute();
                work = w2;
                match res {
                    Ok(d) => {
                        oks.push(d);
                        proof {
                            assert(resps_v(oks@) =~= okspre.push(resps_v(oks@).last()));
                            let (brest, _) = batch_spec(ops_v(ops@), conn_v(work), maxd);
                            match brest {
                                Ok(vs) => {
                                    assert(okspre + (seq![resps_v(oks@).last()] + vs) =~= resps_v(
                                        oks@,
                                    ) + vs);
                                }
                                Err(_) => {}
                            }
                        }
                    }
                    Err(e) => {
                        let fail_at = oks.len();
                        proof {
                            assert(batch_spec(opsv, w0, maxd).0 == Err::<
                                Seq<ResV>,
                                (int, CoreError),
                            >((fail_at as int, e)));
                        }
                        let mut reports: Vec<Result<ResponseData, CoreError>> = Vec::new();
                        let mut j: usize = 0;
                        while j < n
                            invariant
                                j <= n,
                                reports@.len() == j,
                                forall|k: int|
                                    0 <= k < j ==> results_v(reports@)[k] == aborted_reports(
                                        n as int,
                                        fail_at as int,
                                        e,
                                    )[k],
                            decreases n - j,
                        {
                            let ghost prerep = reports@;
                            if j == fail_at {
                                reports.push(Err(e.clone()));
                            } else {
                                reports.push(Err(CoreError::OperationNotApplied));
                            }
                            proof {
                                let ab = aborted_reports(n as int, fail_at as int, e);
                                assert forall|k: int| 0 <= k <= j as int implies results_v(
                                    reports@,
                                )[k] == ab[k] by {
                                    assert(results_v(reports@)[k] == match reports@[k] {
                                        Ok(d) => Ok::<ResV, CoreError>(res_v(d.data)),
                                        Err(er) => Err::<ResV, CoreError>(er),
                                    });
                                    if k < j as int {
                                        assert(reports@[k] == prerep[k]);
                                        assert(results_v(prerep)[k] == match prerep[k] {
                                            Ok(d) => Ok::<ResV, CoreError>(res_v(d.data)),
                                            Err(er) => Err::<ResV, CoreError>(er),
                                        });
                                    }
                                }
                            }
                            j += 1;
                        }
                        proof {
                            assert(results_v(reports@) =~= aborted_reports(
                                n as int,
                                fail_at as int,
                                e,
                            ));
                        }
                        return Ok(reports);
                    }
                }
            }
            proof {
                assert(ops_v(ops@).len() == 0);
                assert(batch_spec(opsv, w0, maxd) == (
                    Ok::<Seq<ResV>, (int, CoreError)>(resps_v(oks@)),
                    conn_v(work),
                ));
            }
            match tx_slot {
                Some(j) => {
                    self.transactions[j].1 = work;
                    proof {
                        let oldtxs = txs_v(old(self).transactions@);
                        assert(txs_v(self.transactions@) =~= oldtxs.update(
                            j as int,
                            (oldtxs[j as int].0, conn_v(self.transactions@[j as int].1)),
                        ));
                    }
                }
                None => {
                    self.conn = work;
                    proof {
                        assert(txs_v(self.transactions@) =~= txs_v(old(self).transactions@));
                    }
                }
            }
            let mut out: Vec<Result<ResponseData, CoreError>> = Vec::new();
            let ghost oksv = resps_v(oks@);
            let mut oks2 = oks;
            proof {
                assert(resps_v(oks2@) =~= oksv.skip(0));
            }
            while oks2.len() > 0
                invariant
                    out@.len() + oks2@.len() == oksv.len(),
                    resps_v(oks2@) == oksv.skip(out@.len() as int),
                    forall|k: int|
                        0 <= k < out@.len() ==> results_v(out@)[k] == oks_of(oksv)[k],
                decreases oks2@.len(),
            {
                let ghost pre = resps_v(oks2@);
                let d = oks2.remove(0);
                proof {
                    assert(pre[0] == res_v(d.data));
                    assert(resps_v(oks2@) =~= pre.drop_first());
                    assert(pre.drop_first() =~= oksv.skip(out@.len() as int + 1));
                }
                out.push(Ok(d));
            }
            proof {
                assert(results_v(out@) =~= oks_of(oksv));
            }
            Ok(out)
        }
    }

    /// Open a transaction. The pool hands out at most `pool_capacity`
    /// connections; when all are in use, no other task of this synchronous
    /// model can return one within any acquisition allowance, so the call
    /// reports an acquisition timeout instead of hanging. The expiry bound
    /// `valid_for_secs` is enforced by the embedding runtime (by timer or
    /// lazy check), not inside this model.
    pub fn start_tx(&mut self, max_acquisition_secs: u32, valid_for_secs: u32) -> (r: Result<
        TxId,
        CoreError,
    >)
        ensures
            r is Ok <==> exec_v(*old(self)).txs.len() < exec_v(*old(self)).capacity,
            match r {
                Ok(id) => {
                    &&& exec_v(*final(self)).txs == exec_v(*old(self)).txs.push(
                        (id, exec_v(*old(self)).conn),
                    )
                    &&& exec_v(*final(self)).conn == exec_v(*old(self)).conn
                    &&& exec_v(*final(self)).capacity == exec_v(*old(self)).capacity
                    &&& exec_v(*final(self)).max_depth == exec_v(*old(self)).max_depth
                },
                Err(e) => {
                    &&& e == CoreError::TransactionAcquisitionTimeout
                    &&& exec_v(*final(self)) == exec_v(*old(self))
                },
            },
    {
        if self.transactions.len() >= self.pool_capacity {
            return Err(CoreError::TransactionAcquisitionTimeout);
        }
        let id = TxId::new();
        let id2 = id.clone();
        let snapshot = self.conn.clone();
        self.transactions.push((id2, snapshot));
        proof {
            assert(txs_v(self.transactions@) =~= txs_v(old(self).transactions@).push(
                (id, conn_v(old(self).conn)),
            ));
        }
        Ok(id)
    }

    /// Commit a transaction: its working connection becomes the base state
    /// and the transaction is closed. Committing an unknown or already
    /// terminated id is a reported error.
    pub fn commit_tx(&mut self, tx_id: TxId) -> (r: Result<(), CoreError>)
        ensures
            r is Ok <==> has_tx(exec_v(*old(self)).txs, tx_id.0@),
            match r {
                Ok(()) => {
                    let j = tx_index(exec_v(*old(self)).txs, tx_id.0@);
                    &&& exec_v(*final(self)).conn == exec_v(*old(self)).txs[j].1
                    &&& exec_v(*final(self)).txs == exec_v(*old(self)).txs.remove(j)
                    &&& exec_v(*final(self)).capacity == exec_v(*old(self)).capacity
                    &&& exec_v(*final(self)).max_depth == exec_v(*old(self)).max_depth
                },
                Err(e) => {
                    &&& e == CoreError::TransactionNotFound
                    &&& exec_v(*final(self)) == exec_v(*old(self))
                },
            },
    {
        match self.find_tx(&tx_id) {
            None => Err(CoreError::TransactionNotFound),
            Some(j) => {
                proof {
                    let txs = txs_v(self.transactions@);
                    lemma_first_tx(txs, tx_id.0@, j as int);
                    let f = tx_index(txs, tx_id.0@);
                    if f < j as int {
                        assert(txs[f].0.0@ == tx_id.0@);
                    } else if (j as int) < f {
                        assert(txs[j as int].0.0@ == tx_id.0@);
                    }
                    assert(f == j as int);
                }
                let entry = self.transactions.remove(j);
                self.conn = entry.1;
                proof {
                    assert(txs_v(self.transactions@) =~= txs_v(old(self).transactions@).remove(
                        j as int,
                    ));
                }
                Ok(())
            }
        }
    }

    /// Roll a transaction back: its working connection is discarded and the
    /// base state stands. Rolling back an unknown or already terminated id
    /// is a reported error.
    pub fn rollback_tx(&mut self, tx_id: TxId) -> (r: Result<(), CoreError>)
        ensures
            r is Ok <==> has_tx(exec_v(*old(self)).txs, tx_id.0@),
            match r {
                Ok(()) => {
                    let j = tx_index(exec_v(*old(self)).txs, tx_id.0@);
                    &&& exec_v(*final(self)).conn == exec_v(*old(self)).conn
                    &&& exec_v(*final(self)).txs == exec_v(*old(self)).txs.remove(j)
                    &&& exec_v(*final(self)).capacity == exec_v(*old(self)).capacity
                    &&& exec_v(*final(self)).max_depth == exec_v(*old(self)).max_depth
                },
                Err(e) => {
                    &&& e == CoreError::TransactionNotFound
                    &&& exec_v(*final(self)) == exec_v(*old(self))
                },
            },
    {
        match self.find_tx(&tx_id) {
            None => Err(CoreError::TransactionNotFound),
            Some(j) => {
                proof {
                    let txs = txs_v(self.transactions@);
                    lemma_first_tx(txs, tx_id.0@, j as int);
                    let f = tx_index(txs, tx_id.0@);
                    if f < j as int {
                        assert(txs[f].0.0@ == tx_id.0@);
                    } else if (j as int) < f {
                        assert(txs[j as int].0.0@ == tx_id.0@);
                    }
                    assert(f == j as int);
                }
                let _entry = self.transactions.remove(j);
                proof {
                    assert(txs_v(self.transactions@) =~= txs_v(old(self).transactions@).remove(
                        j as int,
                    ));
                }
                Ok(())
            }
        }
    }
}

impl TransactionManager for InterpretingExecutor {
    fn start_tx(&mut self, max_acquisition_secs: u32, valid_for_secs: u32) -> (r: Result<
        TxId,
        CoreError,
    >) {
        InterpretingExecutor::start_tx(self, max_acquisition_secs, valid_for_secs)
    }

    fn commit_tx(&mut self, tx_id: TxId) -> (r: Result<(), CoreError>) {
        InterpretingExecutor::commit_tx(self, tx_id)
    }

    fn rollback_tx(&mut self, tx_id: TxId) -> (r: Result<(), CoreError>) {
        InterpretingExecutor::rollback_tx(self, tx_id)
    }
}

} // verus!

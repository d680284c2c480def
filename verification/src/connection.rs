//! The in-memory connection the interpreter issues backend calls against:
//! a stored row list plus an identifier counter for backend-generated keys.

use vstd::prelude::*;

use crate::field::DataSourceField;
use crate::record::ManyRecords;
use crate::record::ManyV;
use crate::record::RecV;
use crate::record::Record;
use crate::record::RecordIdentifier;
use crate::record::SRecV;
use crate::record::SingleRecord;
use crate::record::many_v;
use crate::record::recs_of;
use crate::record::srec_v;
use crate::strutil::str_eq;
use crate::value::PrismaValue;

verus! {

/// One stored row: the model it belongs to and the record with its names.
#[derive(Debug)]
pub struct Row {
    pub model: String,
    pub record: SingleRecord,
}

/// Model of a stored row.
pub ghost struct RowV {
    pub model: String,
    pub record: SRecV,
}

/// The model of a row.
pub open spec fn row_v(r: Row) -> RowV {
    RowV { model: r.model, record: srec_v(r.record) }
}

/// Model of a connection: the stored rows and the next generated key.
pub ghost struct ConnV {
    pub next_id: i64,
    pub rows: Seq<RowV>,
}

/// A live connection to the in-memory backend.
#[derive(Debug)]
pub struct Connection {
    pub next_id: i64,
    pub rows: Vec<Row>,
}

/// The model of a connection.
pub open spec fn conn_v(c: Connection) -> ConnV {
    ConnV { next_id: c.next_id, rows: c.rows@.map_values(|r: Row| row_v(r)) }
}

/// `values[i]` is the first provisionally-null value.
pub open spec fn value_null_at(values: Seq<PrismaValue>, i: int) -> bool {
    &&& 0 <= i < values.len()
    &&& values[i] is Null
    &&& forall|j: int| 0 <= j < i ==> !(values[j] is Null)
}

/// Some value is provisionally null.
pub open spec fn has_null_value(values: Seq<PrismaValue>) -> bool {
    exists|i: int| 0 <= i < values.len() && values[i] is Null
}

/// The index of the first provisionally-null value.
pub open spec fn first_null_value(values: Seq<PrismaValue>) -> int {
    choose|i: int| value_null_at(values, i)
}

/// A null anywhere gives a first null.
pub proof fn lemma_first_null_value(values: Seq<PrismaValue>, i: int)
    requires
        0 <= i < values.len(),
        values[i] is Null,
    ensures
        value_null_at(values, first_null_value(values)),
    decreases i,
{
    if forall|j: int| 0 <= j < i ==> !(values[j] is Null) {
        assert(value_null_at(values, i));
    } else {
        let j = choose|j: int| 0 <= j < i && values[j] is Null;
        lemma_first_null_value(values, j);
    }
}

/// The next identifier after one was consumed; the id space saturates at
/// the maximum rather than wrapping.
pub open spec fn bump(n: i64) -> i64 {
    if n < i64::MAX {
        (n + 1) as i64
    } else {
        n
    }
}

/// Values after a create: the first null slot carries the generated key.
pub open spec fn fill_first(values: Seq<PrismaValue>, id: i64) -> Seq<PrismaValue> {
    if has_null_value(values) {
        values.update(first_null_value(values), PrismaValue::Int(id))
    } else {
        values
    }
}

/// The record a create returns: the filled values, the caller's names, and
/// the parent key injected by the graph's data edges, if any.
pub open spec fn create_rec(
    c: ConnV,
    names: Seq<String>,
    values: Seq<PrismaValue>,
    parent: Option<Seq<(DataSourceField, PrismaValue)>>,
) -> SRecV {
    SRecV { record: RecV { values: fill_first(values, c.next_id), parent }, names }
}

/// The connection after a create: the new row is stored and one generated
/// key was consumed.
pub open spec fn create_conn(
    c: ConnV,
    model: String,
    names: Seq<String>,
    values: Seq<PrismaValue>,
    parent: Option<Seq<(DataSourceField, PrismaValue)>>,
) -> ConnV {
    ConnV {
        next_id: bump(c.next_id),
        rows: c.rows.push(RowV { model, record: create_rec(c, names, values, parent) }),
    }
}

/// The stored rows of one model, in storage order.
pub open spec fn filter_rows(rows: Seq<RowV>, model: Seq<char>) -> Seq<RowV>
    decreases rows.len(),
{
    if rows.len() == 0 {
        Seq::empty()
    } else {
        (if rows[0].model@ == model {
            seq![rows[0]]
        } else {
            Seq::empty()
        }) + filter_rows(rows.drop_first(), model)
    }
}

/// Extending the scanned prefix by one row appends its contribution.
pub proof fn lemma_filter_take_step(rows: Seq<RowV>, model: Seq<char>, k: int)
    requires
        0 <= k < rows.len(),
    ensures
        filter_rows(rows.take(k + 1), model) == filter_rows(rows.take(k), model) + (if rows[
            k
        ].model@ == model {
            seq![rows[k]]
        } else {
            Seq::empty()
        }),
    decreases k,
{
    let pre = rows.take(k + 1);
    if k == 0 {
        assert(pre.drop_first() =~= rows.take(0));
        assert(filter_rows(rows.take(0), model) =~= Seq::<RowV>::empty());
        assert(filter_rows(pre, model) =~= filter_rows(rows.take(0), model) + (if rows[0].model@
            == model {
            seq![rows[0]]
        } else {
            Seq::<RowV>::empty()
        }));
    } else {
        let tail = rows.drop_first();
        lemma_filter_take_step(tail, model, k - 1);
        assert(pre.drop_first() =~= tail.take(k));
        assert(rows.take(k).drop_first() =~= tail.take(k - 1));
        assert(tail[k - 1] == rows[k]);
        assert(filter_rows(pre, model) =~= filter_rows(rows.take(k), model) + (if rows[k].model@
            == model {
            seq![rows[k]]
        } else {
            Seq::<RowV>::empty()
        }));
    }
}

/// The stored records of a row list, elementwise.
pub open spec fn row_recs(s: Seq<RowV>) -> Seq<RecV> {
    s.map_values(|r: RowV| r.record.record)
}

/// What reading all records of one model returns: the matching rows'
/// records, under the first matching row's names.
pub open spec fn read_spec(c: ConnV, model: Seq<char>) -> ManyV {
    let m = filter_rows(c.rows, model);
    ManyV {
        records: row_recs(m),
        names: if m.len() > 0 {
            m[0].record.names
        } else {
            Seq::empty()
        },
    }
}

impl Clone for Connection {
    /// A copy with the same model.
    fn clone(&self) -> (r: Self)
        ensures
            conn_v(r) == conn_v(*self),
    {
        let mut rows: Vec<Row> = Vec::new();
        let mut i: usize = 0;
        while i < self.rows.len()
            invariant
                i <= self.rows@.len(),
                rows@.len() == i,
                forall|j: int| 0 <= j < i ==> row_v(rows@[j]) == row_v(self.rows@[j]),
            decreases self.rows@.len() - i,
        {
            let row = Row { model: self.rows[i].model.clone(), record: self.rows[i].record.clone() };
            proof {
                assert(srec_v(row.record) == srec_v(self.rows@[i as int].record));
            }
            rows.push(row);
            i += 1;
        }
        let r = Connection { next_id: self.next_id, rows };
        proof {
            assert(conn_v(r).rows =~= conn_v(*self).rows);
        }
        r
    }
}

impl Connection {
    /// A fresh connection with no rows; generated keys start at 1.
    pub fn new() -> (r: Connection)
        ensures
            conn_v(r).next_id == 1,
            conn_v(r).rows.len() == 0,
    {
        Connection { next_id: 1, rows: Vec::new() }
    }

    /// Insert one record: the first provisionally-null value receives the
    /// generated key, the row is stored, and the inserted record is
    /// returned with the given parent key attached.
    pub fn create(
        &mut self,
        model: String,
        field_names: Vec<String>,
        values: Vec<PrismaValue>,
        parent: Option<RecordIdentifier>,
    ) -> (r: SingleRecord)
        ensures
            conn_v(*final(self)) == create_conn(
                conn_v(*old(self)),
                model,
                field_names@,
                values@,
                match parent {
                    Some(p) => Some(p.pairs@),
                    None => None,
                },
            ),
            srec_v(r) == create_rec(
                conn_v(*old(self)),
                field_names@,
                values@,
                match parent {
                    Some(p) => Some(p.pairs@),
                    None => None,
                },
            ),
    {
        let ghost c0 = conn_v(*old(self));
        let mut vals = values;
        let mut i: usize = 0;
        let mut filled: bool = false;
        while i < vals.len() && !filled
            invariant
                i <= vals@.len(),
                *self == *old(self),
                self.next_id == c0.next_id,
                !filled ==> vals@ == values@,
                !filled ==> forall|j: int| 0 <= j < i ==> !(values@[j] is Null),
                filled ==> has_null_value(values@) && vals@ == fill_first(values@, c0.next_id),
            decreases vals@.len() - i,
        {
            if vals[i].is_null() {
                proof {
                    assert(value_null_at(values@, i as int));
                    lemma_first_null_value(values@, i as int);
                    assert(first_null_value(values@) == i as int) by {
                        let f = first_null_value(values@);
                        assert(value_null_at(values@, f));
                        if f < i as int {
                            assert(values@[f] is Null);
                        } else if (i as int) < f {
                            assert(values@[i as int] is Null);
                        }
                    }
                }
                vals[i] = PrismaValue::Int(self.next_id);
                filled = true;
            }
            i += 1;
        }
        proof {
            if !filled {
                assert(i >= vals@.len());
            }
        }
        proof {
            if !filled {
                assert(forall|k: int| 0 <= k < values@.len() ==> !(values@[k] is Null));
                assert(!has_null_value(values@));
                assert(vals@ == fill_first(values@, c0.next_id));
            }
        }
        let record = Record { values: vals, parent_id: parent };
        let single = SingleRecord { record, field_names };
        let stored = single.clone();
        self.rows.push(Row { model, record: stored });
        self.next_id = if self.next_id < i64::MAX {
            self.next_id + 1
        } else {
            self.next_id
        };
        proof {
            assert(conn_v(*self).rows =~= create_conn(
                c0,
                model,
                single.field_names@,
                values@,
                match parent {
                    Some(p) => Some(p.pairs@),
                    None => None,
                },
            ).rows);
        }
        single
    }

    /// Read every stored record of one model.
    pub fn read_all(&self, model: &str) -> (r: ManyRecords)
        ensures
            many_v(r) == read_spec(conn_v(*self), model@),
    {
        let ghost rowsv = conn_v(*self).rows;
        let mut records: Vec<Record> = Vec::new();
        let mut field_names: Vec<String> = Vec::new();
        let mut found: bool = false;
        let mut i: usize = 0;
        proof {
            assert(filter_rows(rowsv.take(0), model@) =~= Seq::<RowV>::empty());
        }
        while i < self.rows.len()
            invariant
                i <= self.rows@.len(),
                rowsv == conn_v(*self).rows,
                recs_of(records@) == row_recs(filter_rows(rowsv.take(i as int), model@)),
                found == (filter_rows(rowsv.take(i as int), model@).len() > 0),
                found ==> field_names@ == filter_rows(rowsv.take(i as int), model@)[0].record.names,
                !found ==> field_names@.len() == 0,
            decreases self.rows@.len() - i,
        {
            let ghost pref = filter_rows(rowsv.take(i as int), model@);
            let ghost prerecs = records@;
            if str_eq(self.rows[i].model.as_str(), model) {
                if !found {
                    field_names = self.rows[i].record.field_names.clone();
                    found = true;
                }
                let rec = self.rows[i].record.record.clone();
                proof {
                    assert(crate::record::rec_v(rec) == rowsv[i as int].record.record);
                }
                records.push(rec);
            }
            proof {
                lemma_filter_take_step(rowsv, model@, i as int);
                let post = filter_rows(rowsv.take(i as int + 1), model@);
                assert(recs_of(prerecs).len() == prerecs.len());
                assert(row_recs(pref).len() == pref.len());
                assert(prerecs.len() == pref.len());
                assert(post.len() == records@.len());
                assert forall|j: int| 0 <= j < post.len() implies recs_of(records@)[j] == row_recs(
                    post,
                )[j] by {
                    assert(recs_of(records@)[j] == crate::record::rec_v(records@[j]));
                    assert(row_recs(post)[j] == post[j].record.record);
                    if j < pref.len() {
                        assert(records@[j] == prerecs[j]);
                        assert(recs_of(prerecs)[j] == crate::record::rec_v(prerecs[j]));
                        assert(row_recs(pref)[j] == pref[j].record.record);
                        assert(post[j] == pref[j]);
                    }
                }
                assert(recs_of(records@) =~= row_recs(post));
            }
            i += 1;
        }
        proof {
            assert(rowsv.take(rowsv.len() as int) =~= rowsv);
        }
        let r = ManyRecords { records, field_names };
        proof {
            assert(many_v(r).records =~= read_spec(conn_v(*self), model@).records);
            if !found {
                assert(many_v(r).names =~= read_spec(conn_v(*self), model@).names);
            }
        }
        r
    }
}

} // verus!

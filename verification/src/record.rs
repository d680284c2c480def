//! Record identity: which fields identify a record of a model, and the
//! concrete key values of one actual record.

use vstd::prelude::*;

use crate::error::DomainError;
use crate::field::DataSourceField;
use crate::field::Field;
use crate::strutil::str_eq;
use crate::value::PrismaValue;

verus! {

/// `names[i]` is the first occurrence of `field` in `names`.
pub open spec fn found_at(names: Seq<String>, field: Seq<char>, i: int) -> bool {
    &&& 0 <= i < names.len()
    &&& names[i]@ == field
    &&& forall|j: int| 0 <= j < i ==> names[j]@ != field
}

/// `field` occurs somewhere in `names`.
pub open spec fn has_name(names: Seq<String>, field: Seq<char>) -> bool {
    exists|i: int| 0 <= i < names.len() && names[i]@ == field
}

/// The first index at which `field` occurs in `names`.
pub open spec fn name_index(names: Seq<String>, field: Seq<char>) -> int {
    choose|i: int| found_at(names, field, i)
}

/// An occurrence anywhere gives a first occurrence.
pub proof fn lemma_first_found(names: Seq<String>, field: Seq<char>, i: int)
    requires
        0 <= i < names.len(),
        names[i]@ == field,
    ensures
        found_at(names, field, name_index(names, field)),
    decreases i,
{
    if forall|j: int| 0 <= j < i ==> names[j]@ != field {
        assert(found_at(names, field, i));
    } else {
        let j = choose|j: int| 0 <= j < i && names[j]@ == field;
        lemma_first_found(names, field, j);
    }
}

/// The expansion of identifier fields into their storage columns, in order.
pub open spec fn expand_fields(fields: Seq<Field>) -> Seq<DataSourceField>
    decreases fields.len(),
{
    if fields.len() == 0 {
        Seq::empty()
    } else {
        fields[0].source_fields_spec() + expand_fields(fields.drop_first())
    }
}

/// Extending the expanded prefix by one field appends that field's columns.
pub proof fn lemma_expand_take_step(fields: Seq<Field>, i: int)
    requires
        0 <= i < fields.len(),
    ensures
        expand_fields(fields.take(i + 1)) == expand_fields(fields.take(i))
            + fields[i].source_fields_spec(),
    decreases i,
{
    let pre = fields.take(i + 1);
    if i == 0 {
        assert(pre.drop_first() =~= fields.take(0));
        assert(expand_fields(fields.take(0)) + fields[0].source_fields_spec() =~= fields[0].source_fields_spec());
        assert(expand_fields(pre) == pre[0].source_fields_spec() + expand_fields(pre.drop_first()));
        assert(expand_fields(fields.take(0)) =~= Seq::<DataSourceField>::empty());
        assert(expand_fields(pre) =~= fields[0].source_fields_spec());
    } else {
        let tail = fields.drop_first();
        lemma_expand_take_step(tail, i - 1);
        assert(pre.drop_first() =~= tail.take(i));
        assert(fields.take(i).drop_first() =~= tail.take(i - 1));
        assert(expand_fields(fields.take(i)) == fields[0].source_fields_spec() + expand_fields(tail.take(i - 1)));
        assert(expand_fields(pre) == fields[0].source_fields_spec() + expand_fields(tail.take(i)));
        assert(tail[i - 1] == fields[i]);
        assert(expand_fields(pre) == fields[0].source_fields_spec() + (expand_fields(tail.take(i - 1))
            + tail[i - 1].source_fields_spec()));
        assert(expand_fields(pre) =~= expand_fields(fields.take(i)) + fields[i].source_fields_spec());
    }
}

/// First index of `field` in `names`, scanning forward.
pub fn position_of(names: &Vec<String>, field: &str) -> (r: Option<usize>)
    ensures
        match r {
            Some(i) => found_at(names@, field@, i as int),
            None => !has_name(names@, field@),
        },
{
    let mut i: usize = 0;
    while i < names.len()
        invariant
            i <= names@.len(),
            forall|j: int| 0 <= j < i ==> names@[j]@ != field@,
        decreases names@.len() - i,
    {
        if str_eq(names[i].as_str(), field) {
            return Some(i);
        }
        i += 1;
    }
    None
}

/// An ordered, non-empty collection of fields that together uniquely
/// identify a record of one model.
#[derive(Debug, Clone)]
pub struct ModelIdentifier {
    pub fields: Vec<Field>,
}

impl ModelIdentifier {
    pub fn new(fields: Vec<Field>) -> (r: Self)
        ensures
            r.fields == fields,
    {
        Self { fields }
    }

    /// A model identifier of a single field.
    pub fn from(f: Field) -> (r: Self)
        ensures
            r.fields@ =~= seq![f],
    {
        Self { fields: vec![f] }
    }

    /// The names of the identifier's fields, in order.
    pub fn names(&self) -> (r: Vec<String>)
        ensures
            r@.len() == self.fields@.len(),
            forall|i: int| 0 <= i < r@.len() ==> r@[i]@ == self.fields@[i].name_spec(),
    {
        let mut out: Vec<String> = Vec::new();
        let mut i: usize = 0;
        while i < self.fields.len()
            invariant
                i <= self.fields@.len(),
                out@.len() == i,
                forall|j: int| 0 <= j < i ==> out@[j]@ == self.fields@[j].name_spec(),
            decreases self.fields@.len() - i,
        {
            out.push(self.fields[i].name().to_owned());
            i += 1;
        }
        out
    }

    /// The identifier's fields, in order.
    pub fn fields(&self) -> (r: &Vec<Field>)
        ensures
            r == &self.fields,
    {
        &self.fields
    }

    pub fn len(&self) -> (r: usize)
        ensures
            r == self.fields@.len(),
    {
        self.fields.len()
    }

    /// Whether the identifier consists of exactly one field.
    pub fn is_singular_field(&self) -> (r: bool)
        ensures
            r == (self.fields@.len() == 1),
    {
        self.len() == 1
    }

    /// The first field with the given name, if any.
    pub fn get(&self, name: &str) -> (r: Option<&Field>)
        ensures
            match r {
                Some(f) => exists|i: int|
                    {
                        &&& 0 <= i < self.fields@.len()
                        &&& self.fields@[i].name_spec() == name@
                        &&& forall|j: int| 0 <= j < i ==> self.fields@[j].name_spec() != name@
                        &&& *f == self.fields@[i]
                    },
                None => forall|i: int|
                    0 <= i < self.fields@.len() ==> self.fields@[i].name_spec() != name@,
            },
    {
        let mut i: usize = 0;
        while i < self.fields.len()
            invariant
                i <= self.fields@.len(),
                forall|j: int| 0 <= j < i ==> self.fields@[j].name_spec() != name@,
            decreases self.fields@.len() - i,
        {
            if str_eq(self.fields[i].name(), name) {
                return Some(&self.fields[i]);
            }
            i += 1;
        }
        None
    }

    /// Consume the identifier, yielding its fields.
    pub fn into_iter(self) -> (r: Vec<Field>)
        ensures
            r == self.fields,
    {
        self.fields
    }
}

impl Default for ModelIdentifier {
    fn default() -> (r: Self)
        ensures
            r.fields@.len() == 0,
    {
        Self { fields: Vec::new() }
    }
}

/// `pairs[i]` is the first provisionally-null slot.
pub open spec fn first_null_at(pairs: Seq<(DataSourceField, PrismaValue)>, i: int) -> bool {
    &&& 0 <= i < pairs.len()
    &&& pairs[i].1 is Null
    &&& forall|j: int| 0 <= j < i ==> !(pairs[j].1 is Null)
}

/// Some slot of `pairs` is provisionally null.
pub open spec fn has_null(pairs: Seq<(DataSourceField, PrismaValue)>) -> bool {
    exists|i: int| 0 <= i < pairs.len() && pairs[i].1 is Null
}

/// The concrete key of one record: (storage column, value) pairs, parallel
/// to the expansion of the model identifier it was built from.
#[derive(Debug)]
pub struct RecordIdentifier {
    pub pairs: Vec<(DataSourceField, PrismaValue)>,
}

/// A value-preserving copy of a pair list.
pub fn clone_pairs(v: &Vec<(DataSourceField, PrismaValue)>) -> (r: Vec<
    (DataSourceField, PrismaValue),
>)
    ensures
        r@ =~= v@,
{
    let mut out: Vec<(DataSourceField, PrismaValue)> = Vec::new();
    let mut i: usize = 0;
    while i < v.len()
        invariant
            i <= v@.len(),
            out@.len() == i,
            forall|j: int| 0 <= j < i ==> out@[j] == v@[j],
        decreases v@.len() - i,
    {
        out.push((v[i].0.clone(), v[i].1.clone()));
        i += 1;
    }
    out
}

impl Clone for RecordIdentifier {
    fn clone(&self) -> (r: Self)
        ensures
            r.pairs@ == self.pairs@,
    {
        Self { pairs: clone_pairs(&self.pairs) }
    }
}

/// Equality of two (column, value) pairs by content.
pub open spec fn pair_matches(
    a: (DataSourceField, PrismaValue),
    b: (DataSourceField, PrismaValue),
) -> bool {
    a.0.name@ == b.0.name@ && crate::value::value_matches(a.1, b.1)
}

/// Equality of two pair lists by content.
pub open spec fn pairs_match(
    a: Seq<(DataSourceField, PrismaValue)>,
    b: Seq<(DataSourceField, PrismaValue)>,
) -> bool {
    a.len() == b.len() && forall|i: int| 0 <= i < a.len() ==> pair_matches(a[i], b[i])
}

impl PartialEq for RecordIdentifier {
    fn eq(&self, other: &Self) -> (r: bool) {
        if self.pairs.len() != other.pairs.len() {
            return false;
        }
        let mut i: usize = 0;
        while i < self.pairs.len()
            invariant
                i <= self.pairs@.len(),
                self.pairs@.len() == other.pairs@.len(),
                forall|j: int| 0 <= j < i ==> pair_matches(self.pairs@[j], other.pairs@[j]),
            decreases self.pairs@.len() - i,
        {
            if !str_eq(self.pairs[i].0.name.as_str(), other.pairs[i].0.name.as_str()) {
                proof {
                    assert(self.pairs@[i as int].0.name@ != other.pairs@[i as int].0.name@);
                }
                return false;
            }
            if !(self.pairs[i].1.eq(&other.pairs[i].1)) {
                return false;
            }
            i += 1;
        }
        true
    }
}

impl Eq for RecordIdentifier {}

impl vstd::std_specs::cmp::PartialEqSpecImpl for RecordIdentifier {
    open spec fn obeys_eq_spec() -> bool {
        true
    }

    open spec fn eq_spec(&self, other: &Self) -> bool {
        pairs_match(self.pairs@, other.pairs@)
    }
}

impl RecordIdentifier {
    pub fn new(pairs: Vec<(DataSourceField, PrismaValue)>) -> (r: Self)
        ensures
            r.pairs == pairs,
    {
        Self { pairs }
    }

    /// Append one (column, value) pair.
    pub fn add(&mut self, pair: (DataSourceField, PrismaValue))
        ensures
            final(self).pairs@ == old(self).pairs@.push(pair),
    {
        self.pairs.push(pair);
    }

    /// The key values, in column order.
    pub fn values(&self) -> (r: Vec<PrismaValue>)
        ensures
            r@.len() == self.pairs@.len(),
            forall|i: int| 0 <= i < r@.len() ==> r@[i] == self.pairs@[i].1,
    {
        let mut out: Vec<PrismaValue> = Vec::new();
        let mut i: usize = 0;
        while i < self.pairs.len()
            invariant
                i <= self.pairs@.len(),
                out@.len() == i,
                forall|j: int| 0 <= j < i ==> out@[j] == self.pairs@[j].1,
            decreases self.pairs@.len() - i,
        {
            out.push(self.pairs[i].1.clone());
            i += 1;
        }
        out
    }

    pub fn len(&self) -> (r: usize)
        ensures
            r == self.pairs@.len(),
    {
        self.pairs.len()
    }

    pub fn is_empty(&self) -> (r: bool)
        ensures
            r == (self.pairs@.len() == 0),
    {
        self.len() == 0
    }

    /// Whether some slot still awaits a backend-autogenerated value.
    pub fn misses_autogen_value(&self) -> (r: bool)
        ensures
            r == has_null(self.pairs@),
    {
        let mut i: usize = 0;
        while i < self.pairs.len()
            invariant
                i <= self.pairs@.len(),
                forall|j: int| 0 <= j < i ==> !(self.pairs@[j].1 is Null),
            decreases self.pairs@.len() - i,
        {
            if self.pairs[i].1.is_null() {
                return true;
            }
            i += 1;
        }
        false
    }

    /// Fill the first provisionally-null slot with `value`. Returns whether a
    /// slot was filled; with no missing slot the identifier is unchanged.
    pub fn add_autogen_value(&mut self, value: PrismaValue) -> (r: bool)
        ensures
            r == has_null(old(self).pairs@),
            r ==> exists|i: int|
                {
                    &&& first_null_at(old(self).pairs@, i)
                    &&& final(self).pairs@ == old(self).pairs@.update(
                        i,
                        (old(self).pairs@[i].0, value),
                    )
                },
            !r ==> final(self).pairs@ == old(self).pairs@,
    {
        let mut i: usize = 0;
        while i < self.pairs.len()
            invariant
                i <= self.pairs@.len(),
                self.pairs@ == old(self).pairs@,
                forall|j: int| 0 <= j < i ==> !(self.pairs@[j].1 is Null),
            decreases self.pairs@.len() - i,
        {
            if self.pairs[i].1.is_null() {
                proof {
                    assert(first_null_at(old(self).pairs@, i as int));
                }
                self.pairs[i].1 = value;
                return true;
            }
            i += 1;
        }
        false
    }

    /// Consume the identifier, yielding its pairs.
    pub fn into_iter(self) -> (r: Vec<(DataSourceField, PrismaValue)>)
        ensures
            r == self.pairs,
    {
        self.pairs
    }
}

impl Default for RecordIdentifier {
    fn default() -> (r: Self)
        ensures
            r.pairs@.len() == 0,
    {
        Self { pairs: Vec::new() }
    }
}

impl From<Vec<(DataSourceField, PrismaValue)>> for RecordIdentifier {
    fn from(tup: Vec<(DataSourceField, PrismaValue)>) -> (r: Self) {
        Self::new(tup)
    }
}

impl vstd::std_specs::convert::FromSpecImpl<Vec<(DataSourceField, PrismaValue)>> for RecordIdentifier {
    open spec fn obeys_from_spec() -> bool {
        true
    }

    open spec fn from_spec(tup: Vec<(DataSourceField, PrismaValue)>) -> RecordIdentifier {
        RecordIdentifier { pairs: tup }
    }
}

/// Every storage column's name occurs in the record's field-name list.
pub open spec fn all_found(names: Seq<String>, dsfs: Seq<DataSourceField>) -> bool {
    forall|k: int| 0 <= k < dsfs.len() ==> has_name(names, dsfs[k].name@)
}

/// `dsfs[k]` is the first storage column whose name is missing from `names`.
pub open spec fn first_missing_at(names: Seq<String>, dsfs: Seq<DataSourceField>, k: int) -> bool {
    &&& 0 <= k < dsfs.len()
    &&& !has_name(names, dsfs[k].name@)
    &&& forall|j: int| 0 <= j < k ==> has_name(names, dsfs[j].name@)
}

/// The (column, value) pairs a record's identifier is made of: each expanded
/// storage column, paired with the record's value at that column's name.
pub open spec fn record_id_pairs(
    values: Seq<PrismaValue>,
    names: Seq<String>,
    dsfs: Seq<DataSourceField>,
) -> Seq<(DataSourceField, PrismaValue)> {
    Seq::new(dsfs.len(), |k: int| (dsfs[k], values[name_index(names, dsfs[k].name@)]))
}

/// Flatten identifier fields into their storage columns.
pub fn expand_exec(fields: &Vec<Field>) -> (r: Vec<DataSourceField>)
    ensures
        r@ == expand_fields(fields@),
{
    let mut out: Vec<DataSourceField> = Vec::new();
    proof {
        assert(fields@.take(0) =~= Seq::<Field>::empty());
        assert(out@ =~= expand_fields(fields@.take(0)));
    }
    let mut i: usize = 0;
    while i < fields.len()
        invariant
            i <= fields@.len(),
            out@ == expand_fields(fields@.take(i as int)),
        decreases fields@.len() - i,
    {
        match &fields[i] {
            Field::Scalar(sf) => {
                out.push(sf.data_source_field.clone());
                proof {
                    assert(fields@[i as int].source_fields_spec() =~= seq![sf.data_source_field]);
                }
            }
            Field::Relation(rf) => {
                let mut j: usize = 0;
                proof {
                    assert(out@ + rf.data_source_fields@.take(0) =~= out@);
                }
                while j < rf.data_source_fields.len()
                    invariant
                        j <= rf.data_source_fields@.len(),
                        out@ == expand_fields(fields@.take(i as int))
                            + rf.data_source_fields@.take(j as int),
                    decreases rf.data_source_fields@.len() - j,
                {
                    out.push(rf.data_source_fields[j].clone());
                    proof {
                        assert(expand_fields(fields@.take(i as int)) + rf.data_source_fields@.take(
                            j as int,
                        ).push(rf.data_source_fields@[j as int]) =~= expand_fields(
                            fields@.take(i as int),
                        ) + rf.data_source_fields@.take(j + 1));
                    }
                    j += 1;
                }
                proof {
                    assert(rf.data_source_fields@.take(rf.data_source_fields@.len() as int)
                        =~= rf.data_source_fields@);
                    assert(fields@[i as int].source_fields_spec() == rf.data_source_fields@);
                }
            }
        }
        proof {
            lemma_expand_take_step(fields@, i as int);
        }
        i += 1;
    }
    proof {
        assert(fields@.take(fields@.len() as int) =~= fields@);
    }
    out
}

/// Both first-occurrence indices of one name coincide.
proof fn lemma_found_at_unique(names: Seq<String>, field: Seq<char>, i: int, j: int)
    requires
        found_at(names, field, i),
        found_at(names, field, j),
    ensures
        i == j,
{
    if i < j {
        assert(names[i]@ == field);
    } else if j < i {
        assert(names[j]@ == field);
    }
}

/// An ordered sequence of values parallel to a caller-supplied list of field
/// names, plus the identifier of the owning parent record when the record was
/// produced by a nested operation.
#[derive(Debug)]
pub struct Record {
    pub values: Vec<PrismaValue>,
    pub parent_id: Option<RecordIdentifier>,
}

impl Clone for Record {
    fn clone(&self) -> (r: Self)
        ensures
            r.values@ == self.values@,
            match (r.parent_id, self.parent_id) {
                (Some(a), Some(b)) => a.pairs@ == b.pairs@,
                (None, None) => true,
                _ => false,
            },
    {
        let parent_id = match &self.parent_id {
            Some(p) => Some(p.clone()),
            None => None,
        };
        let mut values: Vec<PrismaValue> = Vec::new();
        let mut i: usize = 0;
        while i < self.values.len()
            invariant
                i <= self.values@.len(),
                values@.len() == i,
                forall|j: int| 0 <= j < i ==> values@[j] == self.values@[j],
            decreases self.values@.len() - i,
        {
            values.push(self.values[i].clone());
            i += 1;
        }
        proof {
            assert(values@ =~= self.values@);
        }
        Self { values, parent_id }
    }
}

impl Record {
    pub fn new(values: Vec<PrismaValue>) -> (r: Record)
        ensures
            r.values == values,
            r.parent_id is None,
    {
        Record { values, parent_id: None }
    }

    /// Build this record's concrete key for the given model identifier, by
    /// pairing each expanded storage column with the record's value under
    /// that column's name. Fails on the first column whose name is absent
    /// from `field_names`.
    pub fn identifier(&self, field_names: &Vec<String>, id: &ModelIdentifier) -> (r: Result<
        RecordIdentifier,
        DomainError,
    >)
        requires
            self.values@.len() == field_names@.len(),
        ensures
            match r {
                Ok(rid) => {
                    &&& all_found(field_names@, expand_fields(id.fields@))
                    &&& rid.pairs@.len() == expand_fields(id.fields@).len()
                    &&& rid.pairs@ == record_id_pairs(
                        self.values@,
                        field_names@,
                        expand_fields(id.fields@),
                    )
                },
                Err(e) => {
                    &&& !all_found(field_names@, expand_fields(id.fields@))
                    &&& exists|k: int|
                        {
                            &&& first_missing_at(field_names@, expand_fields(id.fields@), k)
                            &&& match e {
                                DomainError::FieldNotFound { name, model } => name@ == expand_fields(
                                    id.fields@,
                                )[k].name@ && model@ == Seq::<char>::empty(),
                            }
                        }
                },
            },
    {
        let dsfs = expand_exec(&id.fields);
        let ghost sdsfs = expand_fields(id.fields@);
        let mut pairs: Vec<(DataSourceField, PrismaValue)> = Vec::new();
        let mut k: usize = 0;
        while k < dsfs.len()
            invariant
                k <= dsfs@.len(),
                dsfs@ == sdsfs,
                sdsfs == expand_fields(id.fields@),
                self.values@.len() == field_names@.len(),
                pairs@.len() == k,
                forall|j: int| 0 <= j < k ==> has_name(field_names@, sdsfs[j].name@),
                forall|j: int| 0 <= j < k ==> pairs@[j] == (
                    sdsfs[j],
                    self.values@[name_index(field_names@, sdsfs[j].name@)],
                ),
            decreases dsfs@.len() - k,
        {
            match position_of(field_names, dsfs[k].name.as_str()) {
                Some(i) => {
                    proof {
                        let f = sdsfs[k as int].name@;
                        assert(found_at(field_names@, f, i as int));
                        lemma_first_found(field_names@, f, i as int);
                        lemma_found_at_unique(
                            field_names@,
                            f,
                            i as int,
                            name_index(field_names@, f),
                        );
                    }
                    pairs.push((dsfs[k].clone(), self.values[i].clone()));
                }
                None => {
                    proof {
                        assert(first_missing_at(field_names@, sdsfs, k as int));
                    }
                    return Err(
                        DomainError::FieldNotFound { name: dsfs[k].name.clone(), model: String::new() },
                    );
                }
            }
            k += 1;
        }
        proof {
            assert(pairs@ =~= record_id_pairs(self.values@, field_names@, sdsfs));
        }
        Ok(RecordIdentifier { pairs })
    }

    /// The record's value under the given field name.
    pub fn get_field_value(&self, field_names: &Vec<String>, field: &str) -> (r: Result<
        &PrismaValue,
        DomainError,
    >)
        requires
            self.values@.len() == field_names@.len(),
        ensures
            match r {
                Ok(v) => {
                    &&& has_name(field_names@, field@)
                    &&& found_at(field_names@, field@, name_index(field_names@, field@))
                    &&& *v == self.values@[name_index(field_names@, field@)]
                },
                Err(e) => {
                    &&& !has_name(field_names@, field@)
                    &&& match e {
                        DomainError::FieldNotFound { name, model } => name@ == field@ && model@
                            == Seq::<char>::empty(),
                    }
                },
            },
    {
        match position_of(field_names, field) {
            Some(i) => {
                proof {
                    assert(found_at(field_names@, field@, i as int));
                    lemma_first_found(field_names@, field@, i as int);
                    lemma_found_at_unique(field_names@, field@, i as int, name_index(field_names@, field@));
                }
                Ok(&self.values[i])
            }
            None => Err(
                DomainError::FieldNotFound { name: field.to_owned(), model: String::new() },
            ),
        }
    }

    /// Attach the identifier of the record's owning parent.
    pub fn set_parent_id(&mut self, parent_id: RecordIdentifier)
        ensures
            final(self).values == old(self).values,
            final(self).parent_id == Some(parent_id),
    {
        self.parent_id = Some(parent_id);
    }
}

impl Default for Record {
    fn default() -> (r: Self)
        ensures
            r.values@.len() == 0,
            r.parent_id is None,
    {
        Self { values: Vec::new(), parent_id: None }
    }
}

/// Mathematical model of a record: its values and its parent key, with all
/// list structure as sequences.
pub ghost struct RecV {
    pub values: Seq<PrismaValue>,
    pub parent: Option<Seq<(DataSourceField, PrismaValue)>>,
}

/// Model of a record together with its field-name ordering.
pub ghost struct SRecV {
    pub record: RecV,
    pub names: Seq<String>,
}

/// Model of a record list sharing one field-name ordering.
pub ghost struct ManyV {
    pub records: Seq<RecV>,
    pub names: Seq<String>,
}

/// The model of a record.
pub open spec fn rec_v(r: Record) -> RecV {
    RecV {
        values: r.values@,
        parent: match r.parent_id {
            Some(p) => Some(p.pairs@),
            None => None,
        },
    }
}

/// The model of a single record with its names.
pub open spec fn srec_v(s: SingleRecord) -> SRecV {
    SRecV { record: rec_v(s.record), names: s.field_names@ }
}

/// The models of a record list, elementwise.
pub open spec fn recs_of(s: Seq<Record>) -> Seq<RecV> {
    s.map_values(|r: Record| rec_v(r))
}

/// The model of a record list.
pub open spec fn many_v(m: ManyRecords) -> ManyV {
    ManyV { records: recs_of(m.records@), names: m.field_names@ }
}

/// Equality of two records by content.
pub open spec fn record_matches(a: Record, b: Record) -> bool {
    &&& a.values@ == b.values@
    &&& match (a.parent_id, b.parent_id) {
        (Some(x), Some(y)) => x.pairs@ == y.pairs@,
        (None, None) => true,
        _ => false,
    }
}

/// Equality of two record lists by content.
pub open spec fn records_match(a: Seq<Record>, b: Seq<Record>) -> bool {
    a.len() == b.len() && forall|i: int| 0 <= i < a.len() ==> record_matches(a[i], b[i])
}

/// One record together with the field-name ordering its values follow.
#[derive(Debug)]
pub struct SingleRecord {
    pub record: Record,
    pub field_names: Vec<String>,
}

impl Clone for SingleRecord {
    fn clone(&self) -> (r: Self)
        ensures
            record_matches(r.record, self.record),
            r.field_names@ == self.field_names@,
    {
        Self { record: self.record.clone(), field_names: self.field_names.clone() }
    }
}

impl SingleRecord {
    pub fn new(record: Record, field_names: Vec<String>) -> (r: Self)
        ensures
            r.record == record,
            r.field_names == field_names,
    {
        Self { record, field_names }
    }

    /// This record's concrete key for the given model identifier.
    pub fn identifier(&self, id: &ModelIdentifier) -> (r: Result<RecordIdentifier, DomainError>)
        requires
            self.record.values@.len() == self.field_names@.len(),
        ensures
            match r {
                Ok(rid) => {
                    &&& all_found(self.field_names@, expand_fields(id.fields@))
                    &&& rid.pairs@ == record_id_pairs(
                        self.record.values@,
                        self.field_names@,
                        expand_fields(id.fields@),
                    )
                },
                Err(e) => {
                    &&& !all_found(self.field_names@, expand_fields(id.fields@))
                    &&& exists|k: int|
                        {
                            &&& first_missing_at(self.field_names@, expand_fields(id.fields@), k)
                            &&& match e {
                                DomainError::FieldNotFound { name, model } => name@ == expand_fields(
                                    id.fields@,
                                )[k].name@ && model@ == Seq::<char>::empty(),
                            }
                        }
                },
            },
    {
        self.record.identifier(&self.field_names, id)
    }

    /// This record's value under the given field name.
    pub fn get_field_value(&self, field: &str) -> (r: Result<&PrismaValue, DomainError>)
        requires
            self.record.values@.len() == self.field_names@.len(),
        ensures
            match r {
                Ok(v) => {
                    &&& has_name(self.field_names@, field@)
                    &&& *v == self.record.values@[name_index(self.field_names@, field@)]
                },
                Err(e) => {
                    &&& !has_name(self.field_names@, field@)
                    &&& match e {
                        DomainError::FieldNotFound { name, model } => name@ == field@ && model@
                            == Seq::<char>::empty(),
                    }
                },
            },
    {
        self.record.get_field_value(&self.field_names, field)
    }

    /// Wrap this record as a one-element record list.
    pub fn into_many(self) -> (r: ManyRecords)
        ensures
            r.records@ =~= seq![self.record],
            r.field_names == self.field_names,
    {
        ManyRecords { records: vec![self.record], field_names: self.field_names }
    }
}

/// A list of records sharing one field-name ordering.
#[derive(Debug)]
pub struct ManyRecords {
    pub records: Vec<Record>,
    pub field_names: Vec<String>,
}

impl Clone for ManyRecords {
    fn clone(&self) -> (r: Self)
        ensures
            records_match(r.records@, self.records@),
            r.field_names@ == self.field_names@,
    {
        let mut records: Vec<Record> = Vec::new();
        let mut i: usize = 0;
        while i < self.records.len()
            invariant
                i <= self.records@.len(),
                records@.len() == i,
                forall|j: int| 0 <= j < i ==> record_matches(records@[j], self.records@[j]),
            decreases self.records@.len() - i,
        {
            records.push(self.records[i].clone());
            i += 1;
        }
        Self { records, field_names: self.field_names.clone() }
    }
}

impl ManyRecords {
    /// All records have as many values as there are field names.
    pub open spec fn wf(&self) -> bool {
        forall|i: int|
            0 <= i < self.records@.len() ==> self.records@[i].values@.len()
                == self.field_names@.len()
    }

    /// The concrete key of every record, in record order. All records share
    /// one field-name list, so either every key is found or the first record
    /// already reports the missing column.
    pub fn identifiers(&self, model_id: &ModelIdentifier) -> (r: Result<
        Vec<RecordIdentifier>,
        DomainError,
    >)
        requires
            self.wf(),
        ensures
            match r {
                Ok(v) => {
                    &&& v@.len() == self.records@.len()
                    &&& self.records@.len() > 0 ==> all_found(
                        self.field_names@,
                        expand_fields(model_id.fields@),
                    )
                    &&& forall|i: int|
                        0 <= i < v@.len() ==> v@[i].pairs@ == record_id_pairs(
                            self.records@[i].values@,
                            self.field_names@,
                            expand_fields(model_id.fields@),
                        )
                },
                Err(e) => {
                    &&& self.records@.len() > 0
                    &&& !all_found(self.field_names@, expand_fields(model_id.fields@))
                    &&& exists|k: int|
                        {
                            &&& first_missing_at(
                                self.field_names@,
                                expand_fields(model_id.fields@),
                                k,
                            )
                            &&& match e {
                                DomainError::FieldNotFound { name, model } => name@ == expand_fields(
                                    model_id.fields@,
                                )[k].name@ && model@ == Seq::<char>::empty(),
                            }
                        }
                },
            },
    {
        let mut out: Vec<RecordIdentifier> = Vec::new();
        let mut i: usize = 0;
        while i < self.records.len()
            invariant
                self.wf(),
                i <= self.records@.len(),
                out@.len() == i,
                i > 0 ==> all_found(self.field_names@, expand_fields(model_id.fields@)),
                forall|j: int|
                    0 <= j < i ==> out@[j].pairs@ == record_id_pairs(
                        self.records@[j].values@,
                        self.field_names@,
                        expand_fields(model_id.fields@),
                    ),
            decreases self.records@.len() - i,
        {
            match self.records[i].identifier(&self.field_names, model_id) {
                Ok(rid) => {
                    out.push(rid);
                }
                Err(e) => {
                    return Err(e);
                }
            }
            i += 1;
        }
        Ok(out)
    }

    /// Each record as a list of (field name, value) pairs.
    pub fn as_pairs(&self) -> (r: Vec<Vec<(String, PrismaValue)>>)
        requires
            self.wf(),
        ensures
            r@.len() == self.records@.len(),
            forall|i: int|
                0 <= i < r@.len() ==> r@[i]@.len() == self.field_names@.len(),
            forall|i: int, j: int|
                0 <= i < r@.len() && 0 <= j < self.field_names@.len() ==> r@[i]@[j] == (
                    self.field_names@[j],
                    self.records@[i].values@[j],
                ),
    {
        let mut out: Vec<Vec<(String, PrismaValue)>> = Vec::new();
        let mut i: usize = 0;
        while i < self.records.len()
            invariant
                self.wf(),
                i <= self.records@.len(),
                out@.len() == i,
                forall|a: int| 0 <= a < i ==> out@[a]@.len() == self.field_names@.len(),
                forall|a: int, b: int|
                    0 <= a < i && 0 <= b < self.field_names@.len() ==> out@[a]@[b] == (
                        self.field_names@[b],
                        self.records@[a].values@[b],
                    ),
            decreases self.records@.len() - i,
        {
            let mut row: Vec<(String, PrismaValue)> = Vec::new();
            let mut j: usize = 0;
            while j < self.field_names.len()
                invariant
                    self.wf(),
                    i < self.records@.len(),
                    j <= self.field_names@.len(),
                    row@.len() == j,
                    forall|b: int|
                        0 <= b < j ==> row@[b] == (
                            self.field_names@[b],
                            self.records@[i as int].values@[b],
                        ),
                decreases self.field_names@.len() - j,
            {
                row.push((self.field_names[j].clone(), self.records[i].values[j].clone()));
                j += 1;
            }
            out.push(row);
            i += 1;
        }
        out
    }

    /// Reverse the wrapped records in place.
    pub fn reverse(&mut self)
        ensures
            final(self).records@ == old(self).records@.reverse(),
            final(self).field_names == old(self).field_names,
    {
        let ghost orig = old(self).records@;
        let mut out: Vec<Record> = Vec::new();
        proof {
            assert(self.records@ =~= orig.take(orig.len() as int));
        }
        while self.records.len() > 0
            invariant
                self.records@ == orig.take(self.records@.len() as int),
                out@.len() + self.records@.len() == orig.len(),
                self.field_names == old(self).field_names,
                forall|j: int| 0 <= j < out@.len() ==> out@[j] == orig[orig.len() - 1 - j],
            decreases self.records@.len(),
        {
            let ghost pre = self.records@;
            match self.records.pop() {
                Some(rec) => {
                    proof {
                        assert(self.records@ =~= orig.take(self.records@.len() as int));
                        assert(rec == orig[pre.len() - 1]);
                    }
                    out.push(rec);
                }
                None => {}
            }
        }
        self.records = out;
        proof {
            assert(self.records@.len() == orig.len());
            if orig.len() > 0 {
                assert forall|i: int| 0 <= i < orig.len() implies self.records@[i]
                    == orig.reverse()[i] by {
                    assert(orig.reverse()[i] == orig[orig.len() - 1 - i]);
                }
            }
            assert(self.records@ =~= orig.reverse());
        }
    }
}

impl Default for ManyRecords {
    fn default() -> (r: Self)
        ensures
            r.records@.len() == 0,
            r.field_names@.len() == 0,
    {
        Self { records: Vec::new(), field_names: Vec::new() }
    }
}

/// Filling the one missing slot succeeds exactly once: after a first fill of
/// an identifier with a single null slot, a second attempt reports that no
/// missing slot is left and changes nothing.
pub proof fn lemma_fill_autogen_once(
    before: Seq<(DataSourceField, PrismaValue)>,
    after: Seq<(DataSourceField, PrismaValue)>,
    i: int,
    value: PrismaValue,
)
    requires
        first_null_at(before, i),
        forall|j: int| 0 <= j < before.len() && j != i ==> !(before[j].1 is Null),
        !(value is Null),
        after == before.update(i, (before[i].0, value)),
    ensures
        has_null(before),
        !has_null(after),
{
    assert(forall|j: int| 0 <= j < after.len() ==> !(after[j].1 is Null));
}

} // verus!

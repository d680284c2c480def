//! Walkers over the parsed data model: convenient, index-centric views of
//! the attributes the schema parser collected, carried as plain values.

use vstd::prelude::*;

verus! {

/// What kind of index an attribute declares.
#[derive(Debug, Clone, Copy, PartialEq, Eq, Structural)]
pub enum IndexType {
    Normal,
    Unique,
    Fulltext,
}

/// The algorithm an index was declared with.
#[derive(Debug, Clone, Copy, PartialEq, Eq, Structural)]
pub enum IndexAlgorithm {
    BTree,
    Hash,
}

/// One indexed field, by its id inside the model.
#[derive(Debug, Clone, Copy, PartialEq, Eq, Structural)]
pub struct FieldWithArgs {
    pub field_id: u32,
}

/// The data the parser collected about one scalar field.
#[derive(Debug)]
pub struct ScalarFieldData {
    pub name: String,
}

impl Clone for ScalarFieldData {
    fn clone(&self) -> (r: Self)
        ensures
            r == *self,
    {
        Self { name: self.name.clone() }
    }
}

/// The data the parser collected about one model.
#[derive(Debug)]
pub struct ModelAttributes {
    pub name: String,
}

impl Clone for ModelAttributes {
    fn clone(&self) -> (r: Self)
        ensures
            r == *self,
    {
        Self { name: self.name.clone() }
    }
}

/// The schema-source attribute an index came from, carried by name.
#[derive(Debug)]
pub struct Attribute {
    pub name: String,
}

/// One index attribute: its kind, its optional names, the fields it covers
/// in declaration order, and the single field it was declared on, if any.
#[derive(Debug)]
pub struct IndexAttribute {
    pub tpe: IndexType,
    pub name: Option<String>,
    pub db_name: Option<String>,
    pub fields: Vec<FieldWithArgs>,
    pub source_field: Option<u32>,
    pub algorithm: Option<IndexAlgorithm>,
}

impl IndexAttribute {
    pub fn is_unique(&self) -> (r: bool)
        ensures
            r == (self.tpe is Unique),
    {
        match self.tpe {
            IndexType::Unique => true,
            _ => false,
        }
    }

    pub fn is_fulltext(&self) -> (r: bool)
        ensures
            r == (self.tpe is Fulltext),
    {
        match self.tpe {
            IndexType::Fulltext => true,
            _ => false,
        }
    }
}

/// What the parser collected, keyed by plain ids: scalar fields by
/// (model id, field id) and model attributes by model id.
#[derive(Debug)]
pub struct ParserDatabase {
    pub scalar_fields: Vec<((u32, u32), ScalarFieldData)>,
    pub model_attributes: Vec<(u32, ModelAttributes)>,
}

/// `entries[j]` is the first scalar-field entry with the given key.
pub open spec fn sf_found_at(
    entries: Seq<((u32, u32), ScalarFieldData)>,
    model_id: u32,
    field_id: u32,
    j: int,
) -> bool {
    &&& 0 <= j < entries.len()
    &&& entries[j].0 == (model_id, field_id)
    &&& forall|k: int| 0 <= k < j ==> entries[k].0 != (model_id, field_id)
}

/// Some scalar-field entry carries the given key.
pub open spec fn has_sf(
    entries: Seq<((u32, u32), ScalarFieldData)>,
    model_id: u32,
    field_id: u32,
) -> bool {
    exists|j: int| 0 <= j < entries.len() && entries[j].0 == (model_id, field_id)
}

/// The first scalar-field entry with the given key.
pub open spec fn sf_at(
    entries: Seq<((u32, u32), ScalarFieldData)>,
    model_id: u32,
    field_id: u32,
) -> ScalarFieldData {
    entries[choose|j: int| sf_found_at(entries, model_id, field_id, j)].1
}

/// `entries[j]` is the first model entry with the given id.
pub open spec fn model_found_at(
    entries: Seq<(u32, ModelAttributes)>,
    model_id: u32,
    j: int,
) -> bool {
    &&& 0 <= j < entries.len()
    &&& entries[j].0 == model_id
    &&& forall|k: int| 0 <= k < j ==> entries[k].0 != model_id
}

/// Some model entry carries the given id.
pub open spec fn has_model(entries: Seq<(u32, ModelAttributes)>, model_id: u32) -> bool {
    exists|j: int| 0 <= j < entries.len() && entries[j].0 == model_id
}

/// The first model entry with the given id.
pub open spec fn model_at(entries: Seq<(u32, ModelAttributes)>, model_id: u32) -> ModelAttributes {
    entries[choose|j: int| model_found_at(entries, model_id, j)].1
}

/// A match anywhere gives a first match.
pub proof fn lemma_first_sf(
    entries: Seq<((u32, u32), ScalarFieldData)>,
    model_id: u32,
    field_id: u32,
    j: int,
)
    requires
        0 <= j < entries.len(),
        entries[j].0 == (model_id, field_id),
    ensures
        sf_found_at(
            entries,
            model_id,
            field_id,
            choose|k: int| sf_found_at(entries, model_id, field_id, k),
        ),
    decreases j,
{
    if forall|k: int| 0 <= k < j ==> entries[k].0 != (model_id, field_id) {
        assert(sf_found_at(entries, model_id, field_id, j));
    } else {
        let k = choose|k: int| 0 <= k < j && entries[k].0 == (model_id, field_id);
        lemma_first_sf(entries, model_id, field_id, k);
    }
}

/// A match anywhere gives a first match.
pub proof fn lemma_first_model(entries: Seq<(u32, ModelAttributes)>, model_id: u32, j: int)
    requires
        0 <= j < entries.len(),
        entries[j].0 == model_id,
    ensures
        model_found_at(entries, model_id, choose|k: int| model_found_at(entries, model_id, k)),
    decreases j,
{
    if forall|k: int| 0 <= k < j ==> entries[k].0 != model_id {
        assert(model_found_at(entries, model_id, j));
    } else {
        let k = choose|k: int| 0 <= k < j && entries[k].0 == model_id;
        lemma_first_model(entries, model_id, k);
    }
}

/// A walker over one scalar field of a model.
#[derive(Debug)]
pub struct ScalarFieldWalker {
    pub model_id: u32,
    pub field_id: u32,
    pub scalar_field: ScalarFieldData,
}

/// A walker over one covered field of an index, by argument position.
#[derive(Debug)]
pub struct ScalarFieldAttributeWalker {
    pub model_id: u32,
    pub fields: Vec<FieldWithArgs>,
    pub field_arg_id: usize,
}

/// A walker over one model.
#[derive(Debug)]
pub struct ModelWalker {
    pub model_id: u32,
    pub model_attributes: ModelAttributes,
}

/// A walker over one index of a model.
#[derive(Debug)]
pub struct IndexWalker {
    pub model_id: u32,
    pub index: Option<Attribute>,
    pub db: ParserDatabase,
    pub index_attribute: IndexAttribute,
}

impl IndexWalker {
    /// The walker's parser database knows every field the index covers,
    /// and the model the index belongs to.
    pub open spec fn wf(&self) -> bool {
        &&& forall|i: int|
            0 <= i < self.index_attribute.fields@.len() ==> has_sf(
                self.db.scalar_fields@,
                self.model_id,
                (#[trigger] self.index_attribute.fields@[i]).field_id,
            )
        &&& has_model(self.db.model_attributes@, self.model_id)
    }

    /// The name the index carries in the database, if mapped.
    pub fn mapped_name(&self) -> (r: Option<&str>)
        ensures
            match r {
                Some(s) => self.index_attribute.db_name matches Some(n) && n@ == s@,
                None => self.index_attribute.db_name is None,
            },
    {
        match &self.index_attribute.db_name {
            Some(s) => Some(s.as_str()),
            None => None,
        }
    }

    /// The schema keyword the index was declared with.
    pub fn attribute_name(&self) -> (r: &str)
        ensures
            self.index_attribute.tpe is Unique ==> r@ == "unique"@,
            !(self.index_attribute.tpe is Unique) ==> r@ == "index"@,
    {
        if self.index_attribute.is_unique() {
            "unique"
        } else {
            "index"
        }
    }

    pub fn index_type(&self) -> (r: IndexType)
        ensures
            r == self.index_attribute.tpe,
    {
        self.attribute().tpe
    }

    /// The name given in the schema, if any.
    pub fn name(&self) -> (r: Option<&str>)
        ensures
            match r {
                Some(s) => self.index_attribute.name matches Some(n) && n@ == s@,
                None => self.index_attribute.name is None,
            },
    {
        match &self.index_attribute.name {
            Some(s) => Some(s.as_str()),
            None => None,
        }
    }

    pub fn algorithm(&self) -> (r: Option<IndexAlgorithm>)
        ensures
            r == self.index_attribute.algorithm,
    {
        self.index_attribute.algorithm
    }

    /// The schema-source attribute the index came from, if kept.
    pub fn ast_attribute(&self) -> (r: Option<&Attribute>)
        ensures
            match r {
                Some(a) => self.index matches Some(x) && *a == x,
                None => self.index is None,
            },
    {
        match &self.index {
            Some(a) => Some(a),
            None => None,
        }
    }

    pub fn attribute(&self) -> (r: &IndexAttribute)
        ensures
            r == &self.index_attribute,
    {
        &self.index_attribute
    }

    /// A walker for each field the index covers, in declaration order.
    pub fn fields(&self) -> (r: Vec<ScalarFieldWalker>)
        requires
            self.wf(),
        ensures
            r@.len() == self.index_attribute.fields@.len(),
            forall|i: int|
                0 <= i < r@.len() ==> {
                    &&& (#[trigger] r@[i]).model_id == self.model_id
                    &&& r@[i].field_id == self.index_attribute.fields@[i].field_id
                    &&& r@[i].scalar_field == sf_at(
                        self.db.scalar_fields@,
                        self.model_id,
                        self.index_attribute.fields@[i].field_id,
                    )
                },
    {
        let mut out: Vec<ScalarFieldWalker> = Vec::new();
        let mut i: usize = 0;
        while i < self.index_attribute.fields.len()
            invariant
                self.wf(),
                i <= self.index_attribute.fields@.len(),
                out@.len() == i,
                forall|j: int|
                    0 <= j < i ==> {
                        &&& (#[trigger] out@[j]).model_id == self.model_id
                        &&& out@[j].field_id == self.index_attribute.fields@[j].field_id
                        &&& out@[j].scalar_field == sf_at(
                            self.db.scalar_fields@,
                            self.model_id,
                            self.index_attribute.fields@[j].field_id,
                        )
                    },
            decreases self.index_attribute.fields@.len() - i,
        {
            let fid = self.index_attribute.fields[i].field_id;
            let mut j: usize = 0;
            let mut picked: Option<ScalarFieldData> = None;
            while j < self.db.scalar_fields.len()
                invariant
                    j <= self.db.scalar_fields@.len(),
                    match picked {
                        Some(d) => exists|k: int|
                            sf_found_at(self.db.scalar_fields@, self.model_id, fid, k) && k
                                < j && d == self.db.scalar_fields@[k].1,
                        None => forall|k: int|
                            0 <= k < j ==> self.db.scalar_fields@[k].0 != (self.model_id, fid),
                    },
                decreases self.db.scalar_fields@.len() - j,
            {
                if picked.is_none() && self.db.scalar_fields[j].0.0 == self.model_id
                    && self.db.scalar_fields[j].0.1 == fid {
                    proof {
                        assert(self.db.scalar_fields@[j as int].0 == (self.model_id, fid));
                        assert(sf_found_at(self.db.scalar_fields@, self.model_id, fid, j as int));
                    }
                    picked = Some(self.db.scalar_fields[j].1.clone());
                }
                j += 1;
            }
            match picked {
                Some(data) => {
                    proof {
                        let k = choose|k: int|
                            sf_found_at(self.db.scalar_fields@, self.model_id, fid, k) && k
                                < self.db.scalar_fields@.len() && data
                                == self.db.scalar_fields@[k].1;
                        lemma_first_sf(self.db.scalar_fields@, self.model_id, fid, k);
                        let f = choose|x: int|
                            sf_found_at(self.db.scalar_fields@, self.model_id, fid, x);
                        if f < k {
                            assert(self.db.scalar_fields@[f].0 == (self.model_id, fid));
                        } else if k < f {
                            assert(self.db.scalar_fields@[k].0 == (self.model_id, fid));
                        }
                        assert(f == k);
                    }
                    out.push(
                        ScalarFieldWalker {
                            model_id: self.model_id,
                            field_id: fid,
                            scalar_field: data,
                        },
                    );
                }
                None => {
                    proof {
                        assert(!has_sf(self.db.scalar_fields@, self.model_id, fid));
                        assert(false);
                    }
                }
            }
            i += 1;
        }
        out
    }

    /// A walker for each covered field by argument position.
    pub fn scalar_field_attributes(&self) -> (r: Vec<ScalarFieldAttributeWalker>)
        ensures
            r@.len() == self.index_attribute.fields@.len(),
            forall|i: int|
                0 <= i < r@.len() ==> {
                    &&& (#[trigger] r@[i]).model_id == self.model_id
                    &&& r@[i].fields@ == self.index_attribute.fields@
                    &&& r@[i].field_arg_id == i
                },
    {
        let mut out: Vec<ScalarFieldAttributeWalker> = Vec::new();
        let mut i: usize = 0;
        while i < self.index_attribute.fields.len()
            invariant
                i <= self.index_attribute.fields@.len(),
                out@.len() == i,
                forall|j: int|
                    0 <= j < i ==> {
                        &&& (#[trigger] out@[j]).model_id == self.model_id
                        &&& out@[j].fields@ == self.index_attribute.fields@
                        &&& out@[j].field_arg_id == j
                    },
            decreases self.index_attribute.fields@.len() - i,
        {
            out.push(
                ScalarFieldAttributeWalker {
                    model_id: self.model_id,
                    fields: self.index_attribute.fields.clone(),
                    field_arg_id: i,
                },
            );
            proof {
                assert(out@[i as int].fields@ =~= self.index_attribute.fields@);
            }
            i += 1;
        }
        out
    }

    /// Whether the index covers exactly the given fields, in order. Fields
    /// are identified by their model and field ids.
    pub fn contains_exactly_fields(&self, fields: &Vec<ScalarFieldWalker>) -> (r: bool)
        ensures
            r == {
                &&& self.index_attribute.fields@.len() == fields@.len()
                &&& forall|i: int|
                    0 <= i < fields@.len() ==> {
                        &&& (#[trigger] fields@[i]).model_id == self.model_id
                        &&& fields@[i].field_id == self.index_attribute.fields@[i].field_id
                    }
            },
    {
        if self.index_attribute.fields.len() != fields.len() {
            return false;
        }
        let mut i: usize = 0;
        while i < fields.len()
            invariant
                i <= fields@.len(),
                self.index_attribute.fields@.len() == fields@.len(),
                forall|j: int|
                    0 <= j < i ==> {
                        &&& (#[trigger] fields@[j]).model_id == self.model_id
                        &&& fields@[j].field_id == self.index_attribute.fields@[j].field_id
                    },
            decreases fields@.len() - i,
        {
            if !(fields[i].model_id == self.model_id && fields[i].field_id
                == self.index_attribute.fields[i].field_id) {
                return false;
            }
            i += 1;
        }
        true
    }

    /// Whether the index is defined on a single field (otherwise: on the
    /// model).
    pub fn is_defined_on_field(&self) -> (r: bool)
        ensures
            r == (self.index_attribute.source_field is Some),
    {
        self.index_attribute.source_field.is_some()
    }

    pub fn is_unique(&self) -> (r: bool)
        ensures
            r == (self.index_attribute.tpe is Unique),
    {
        self.index_attribute.is_unique()
    }

    pub fn is_fulltext(&self) -> (r: bool)
        ensures
            r == (self.index_attribute.tpe is Fulltext),
    {
        self.index_attribute.is_fulltext()
    }

    /// A walker over the model the index belongs to.
    pub fn model(&self) -> (r: ModelWalker)
        requires
            self.wf(),
        ensures
            r.model_id == self.model_id,
            r.model_attributes == model_at(self.db.model_attributes@, self.model_id),
    {
        let mut j: usize = 0;
        let mut picked: Option<ModelAttributes> = None;
        while j < self.db.model_attributes.len()
            invariant
                j <= self.db.model_attributes@.len(),
                match picked {
                    Some(d) => exists|k: int|
                        model_found_at(self.db.model_attributes@, self.model_id, k) && k < j && d
                            == self.db.model_attributes@[k].1,
                    None => forall|k: int|
                        0 <= k < j ==> self.db.model_attributes@[k].0 != self.model_id,
                },
            decreases self.db.model_attributes@.len() - j,
        {
            if picked.is_none() && self.db.model_attributes[j].0 == self.model_id {
                proof {
                    assert(model_found_at(self.db.model_attributes@, self.model_id, j as int));
                }
                picked = Some(self.db.model_attributes[j].1.clone());
            }
            j += 1;
        }
        match picked {
            Some(attrs) => {
                proof {
                    let k = choose|k: int|
                        model_found_at(self.db.model_attributes@, self.model_id, k) && k
                            < self.db.model_attributes@.len() && attrs
                            == self.db.model_attributes@[k].1;
                    lemma_first_model(self.db.model_attributes@, self.model_id, k);
                    let f = choose|x: int|
                        model_found_at(self.db.model_attributes@, self.model_id, x);
                    if f < k {
                        assert(self.db.model_attributes@[f].0 == self.model_id);
                    } else if k < f {
                        assert(self.db.model_attributes@[k].0 == self.model_id);
                    }
                    assert(f == k);
                }
                ModelWalker { model_id: self.model_id, model_attributes: attrs }
            }
            None => {
                proof {
                    assert(!has_model(self.db.model_attributes@, self.model_id));
                    assert(false);
                }
                ModelWalker {
                    model_id: self.model_id,
                    model_attributes: ModelAttributes { name: String::new() },
                }
            }
        }
    }
}

} // verus!

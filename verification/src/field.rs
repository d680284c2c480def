//! Identifier fields: scalar fields backed by one storage column and relation
//! fields backed by one or more storage columns that implement a foreign key.

use vstd::prelude::*;

verus! {

/// One storage column of the backend, named as the backend knows it.
#[derive(Debug)]
pub struct DataSourceField {
    pub name: String,
}

impl Clone for DataSourceField {
    fn clone(&self) -> (r: Self)
        ensures
            r == *self,
    {
        Self { name: self.name.clone() }
    }
}

/// Handle to the model a field belongs to, carried by name.
#[derive(Debug)]
pub struct ModelWeakRef {
    pub name: String,
}

impl Clone for ModelWeakRef {
    fn clone(&self) -> (r: Self)
        ensures
            r == *self,
    {
        Self { name: self.name.clone() }
    }
}

/// Which side of a relation a relation field stands on.
#[derive(Debug, Clone, PartialEq, Eq, Structural)]
pub enum RelationSide {
    A,
    B,
}

/// The storage-level type of a scalar field.
#[derive(Debug, Clone, Copy, PartialEq, Eq, Structural)]
pub enum TypeIdentifier {
    String,
    Float,
    Boolean,
    Enum,
    Json,
    DateTime,
    GraphQLID,
    UUID,
    Int,
    Relation,
}

/// The type a scalar field was declared with in the data model.
#[derive(Debug, Clone, Copy, PartialEq, Eq, Structural)]
pub enum ScalarType {
    String,
    Int,
    Float,
    Boolean,
    Decimal,
    DateTime,
}

impl From<ScalarType> for TypeIdentifier {
    fn from(st: ScalarType) -> (r: Self) {
        match st {
            ScalarType::String => Self::String,
            ScalarType::Int => Self::Int,
            ScalarType::Float => Self::Float,
            ScalarType::Boolean => Self::Boolean,
            ScalarType::Decimal => Self::Float,
            ScalarType::DateTime => Self::DateTime,
        }
    }
}

impl vstd::std_specs::convert::FromSpecImpl<ScalarType> for TypeIdentifier {
    open spec fn obeys_from_spec() -> bool {
        true
    }

    open spec fn from_spec(st: ScalarType) -> TypeIdentifier {
        match st {
            ScalarType::String => TypeIdentifier::String,
            ScalarType::Int => TypeIdentifier::Int,
            ScalarType::Float => TypeIdentifier::Float,
            ScalarType::Boolean => TypeIdentifier::Boolean,
            ScalarType::Decimal => TypeIdentifier::Float,
            ScalarType::DateTime => TypeIdentifier::DateTime,
        }
    }
}

/// A fully built scalar field: one storage column.
#[derive(Debug, Clone)]
pub struct ScalarField {
    pub name: String,
    pub type_identifier: TypeIdentifier,
    pub is_required: bool,
    pub is_list: bool,
    pub is_auto_generated_int_id: bool,
    pub is_unique: bool,
    pub internal_enum: Option<String>,
    pub model: ModelWeakRef,
    pub data_source_field: DataSourceField,
}

/// A fully built relation field: a foreign key over one or more storage columns.
#[derive(Debug, Clone)]
pub struct RelationField {
    pub name: String,
    pub is_required: bool,
    pub is_list: bool,
    pub is_auto_generated_int_id: bool,
    pub is_unique: bool,
    pub relation_name: String,
    pub relation_side: RelationSide,
    pub model: ModelWeakRef,
    pub relation: Option<String>,
    pub data_source_fields: Vec<DataSourceField>,
}

/// Blueprint of a scalar field before it is attached to its model.
#[derive(Debug, Clone)]
pub struct ScalarFieldTemplate {
    pub name: String,
    pub type_identifier: TypeIdentifier,
    pub is_required: bool,
    pub is_list: bool,
    pub is_auto_generated_int_id: bool,
    pub is_unique: bool,
    pub internal_enum: Option<String>,
    pub data_source_field: DataSourceField,
}

/// Blueprint of a relation field before it is attached to its model.
#[derive(Debug, Clone)]
pub struct RelationFieldTemplate {
    pub name: String,
    pub is_required: bool,
    pub is_list: bool,
    pub is_auto_generated_int_id: bool,
    pub is_unique: bool,
    pub relation_name: String,
    pub relation_side: RelationSide,
    pub data_source_fields: Vec<DataSourceField>,
}

/// Blueprint of a field of either kind.
#[derive(Debug, Clone)]
pub enum FieldTemplate {
    Relation(RelationFieldTemplate),
    Scalar(ScalarFieldTemplate),
}

/// A field of either kind, as the rest of the engine sees it.
#[derive(Debug, Clone)]
pub enum Field {
    Relation(RelationField),
    Scalar(ScalarField),
}

/// A non-owning handle to a field of either kind, carried by name.
#[derive(Debug, Clone)]
pub enum FieldWeak {
    Relation(String),
    Scalar(String),
}

impl FieldWeak {
    /// A handle to the given field.
    pub fn from_field(f: &Field) -> (r: FieldWeak)
        ensures
            match (f, r) {
                (Field::Scalar(sf), FieldWeak::Scalar(n)) => n@ == sf.name@,
                (Field::Relation(rf), FieldWeak::Relation(n)) => n@ == rf.name@,
                _ => false,
            },
    {
        match f {
            Field::Scalar(sf) => FieldWeak::Scalar(sf.name.clone()),
            Field::Relation(rf) => FieldWeak::Relation(rf.name.clone()),
        }
    }
}

impl Field {
    /// The field's name, seen as a sequence of characters.
    pub open spec fn name_spec(&self) -> Seq<char> {
        match self {
            Field::Scalar(sf) => sf.name@,
            Field::Relation(rf) => rf.name@,
        }
    }

    /// The storage columns that implement this field: a scalar field is its
    /// single column, a relation field its foreign-key columns.
    pub open spec fn source_fields_spec(&self) -> Seq<DataSourceField> {
        match self {
            Field::Scalar(sf) => seq![sf.data_source_field],
            Field::Relation(rf) => rf.data_source_fields@,
        }
    }

    pub fn name(&self) -> (r: &str)
        ensures
            r@ == self.name_spec(),
    {
        match self {
            Field::Scalar(sf) => sf.name.as_str(),
            Field::Relation(rf) => rf.name.as_str(),
        }
    }

    pub fn is_scalar(&self) -> (r: bool)
        ensures
            r == (self is Scalar),
    {
        match self {
            Field::Scalar(_) => true,
            Field::Relation(_) => false,
        }
    }

    pub fn is_list(&self) -> (r: bool)
        ensures
            r == match self {
                Field::Scalar(sf) => sf.is_list,
                Field::Relation(rf) => rf.is_list,
            },
    {
        match self {
            Field::Scalar(sf) => sf.is_list,
            Field::Relation(rf) => rf.is_list,
        }
    }

    pub fn is_required(&self) -> (r: bool)
        ensures
            r == match self {
                Field::Scalar(sf) => sf.is_required,
                Field::Relation(rf) => rf.is_required,
            },
    {
        match self {
            Field::Scalar(sf) => sf.is_required,
            Field::Relation(rf) => rf.is_required,
        }
    }
}

impl FieldTemplate {
    /// What `build` constructs: every template field is carried over, and the
    /// given model handle is attached; a relation field starts with no
    /// resolved relation.
    pub open spec fn build_spec(self, model: ModelWeakRef) -> Field {
        match self {
            FieldTemplate::Scalar(st) => Field::Scalar(
                ScalarField {
                    name: st.name,
                    type_identifier: st.type_identifier,
                    is_required: st.is_required,
                    is_list: st.is_list,
                    is_auto_generated_int_id: st.is_auto_generated_int_id,
                    is_unique: st.is_unique,
                    internal_enum: st.internal_enum,
                    model,
                    data_source_field: st.data_source_field,
                },
            ),
            FieldTemplate::Relation(rt) => Field::Relation(
                RelationField {
                    name: rt.name,
                    is_required: rt.is_required,
                    is_list: rt.is_list,
                    is_auto_generated_int_id: rt.is_auto_generated_int_id,
                    is_unique: rt.is_unique,
                    relation_name: rt.relation_name,
                    relation_side: rt.relation_side,
                    model,
                    relation: None,
                    data_source_fields: rt.data_source_fields,
                },
            ),
        }
    }

    /// Attach a template to its model, yielding the finished field.
    pub fn build(self, model: ModelWeakRef) -> (r: Field)
        ensures
            r == self.build_spec(model),
    {
        match self {
            FieldTemplate::Scalar(st) => {
                let scalar = ScalarField {
                    name: st.name,
                    type_identifier: st.type_identifier,
                    is_required: st.is_required,
                    is_list: st.is_list,
                    is_auto_generated_int_id: st.is_auto_generated_int_id,
                    is_unique: st.is_unique,
                    internal_enum: st.internal_enum,
                    model,
                    data_source_field: st.data_source_field,
                };

                Field::Scalar(scalar)
            }
            FieldTemplate::Relation(rt) => {
                let relation = RelationField {
                    name: rt.name,
                    is_required: rt.is_required,
                    is_list: rt.is_list,
                    is_auto_generated_int_id: rt.is_auto_generated_int_id,
                    is_unique: rt.is_unique,
                    relation_name: rt.relation_name,
                    relation_side: rt.relation_side,
                    model,
                    relation: None,
                    data_source_fields: rt.data_source_fields,
                };

                Field::Relation(relation)
            }
        }
    }
}

impl From<ScalarField> for Field {
    fn from(sf: ScalarField) -> (r: Self) {
        Field::Scalar(sf)
    }
}

impl vstd::std_specs::convert::FromSpecImpl<ScalarField> for Field {
    open spec fn obeys_from_spec() -> bool {
        true
    }

    open spec fn from_spec(sf: ScalarField) -> Field {
        Field::Scalar(sf)
    }
}

impl From<RelationField> for Field {
    fn from(rf: RelationField) -> (r: Self) {
        Field::Relation(rf)
    }
}

impl vstd::std_specs::convert::FromSpecImpl<RelationField> for Field {
    open spec fn obeys_from_spec() -> bool {
        true
    }

    open spec fn from_spec(rf: RelationField) -> Field {
        Field::Relation(rf)
    }
}

} // verus!

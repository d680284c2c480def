use query_core::field::DataSourceField;
use query_core::field::Field;
use query_core::field::FieldTemplate;
use query_core::field::FieldWeak;
use query_core::field::ModelWeakRef;
use query_core::field::RelationField;
use query_core::field::RelationSide;
use query_core::field::ScalarField;
use query_core::field::ScalarFieldTemplate;
use query_core::field::ScalarType;
use query_core::field::TypeIdentifier;
use query_core::record::ManyRecords;
use query_core::record::ModelIdentifier;
use query_core::record::Record;
use query_core::record::RecordIdentifier;
use query_core::record::SingleRecord;
use query_core::value::PrismaValue;
use query_core::error::DomainError;

fn dsf(name: &str) -> DataSourceField {
    DataSourceField { name: name.to_string() }
}

fn model() -> ModelWeakRef {
    ModelWeakRef { name: "User".to_string() }
}

fn scalar_field(name: &str) -> Field {
    Field::Scalar(ScalarField {
        name: name.to_string(),
        type_identifier: TypeIdentifier::Int,
        is_required: true,
        is_list: false,
        is_auto_generated_int_id: false,
        is_unique: false,
        internal_enum: None,
        model: model(),
        data_source_field: dsf(name),
    })
}

fn relation_field(name: &str, columns: &[&str]) -> Field {
    Field::Relation(RelationField {
        name: name.to_string(),
        is_required: true,
        is_list: false,
        is_auto_generated_int_id: false,
        is_unique: false,
        relation_name: "rel".to_string(),
        relation_side: RelationSide::A,
        model: model(),
        relation: None,
        data_source_fields: columns.iter().map(|c| dsf(c)).collect(),
    })
}

#[test]
fn field_accessors() {
    let f = scalar_field("age");
    assert_eq!(f.name(), "age");
    assert!(f.is_scalar());
    assert!(!f.is_list());
    assert!(f.is_required());
    let r = relation_field("author", &["author_id"]);
    assert!(!r.is_scalar());
    assert_eq!(r.name(), "author");
}

#[test]
fn field_template_build_scalar() {
    let t = FieldTemplate::Scalar(ScalarFieldTemplate {
        name: "id".to_string(),
        type_identifier: TypeIdentifier::Int,
        is_required: true,
        is_list: false,
        is_auto_generated_int_id: true,
        is_unique: true,
        internal_enum: None,
        data_source_field: dsf("id"),
    });
    let built = t.build(model());
    match built {
        Field::Scalar(sf) => {
            assert_eq!(sf.name, "id");
            assert!(sf.is_auto_generated_int_id);
            assert!(sf.is_unique);
            assert_eq!(sf.model.name, "User");
            assert_eq!(sf.data_source_field.name, "id");
        }
        Field::Relation(_) => panic!("expected a scalar field"),
    }
}

#[test]
fn type_identifier_from_scalar_type() {
    assert_eq!(TypeIdentifier::from(ScalarType::String), TypeIdentifier::String);
    assert_eq!(TypeIdentifier::from(ScalarType::Decimal), TypeIdentifier::Float);
    assert_eq!(TypeIdentifier::from(ScalarType::DateTime), TypeIdentifier::DateTime);
}

#[test]
fn model_identifier_basics() {
    let id = ModelIdentifier::new(vec![scalar_field("id"), scalar_field("email")]);
    assert_eq!(id.len(), 2);
    assert!(!id.is_singular_field());
    assert_eq!(id.names(), vec!["id".to_string(), "email".to_string()]);
    assert!(id.get("email").is_some());
    assert!(id.get("missing").is_none());
    let single = ModelIdentifier::from(scalar_field("id"));
    assert!(single.is_singular_field());
    let fields = single.into_iter();
    assert_eq!(fields.len(), 1);
}

#[test]
fn record_identifier_has_one_pair_per_storage_column() {
    // Two identifier fields expand into three storage columns: one scalar
    // column plus a two-column foreign key.
    let id = ModelIdentifier::new(vec![
        scalar_field("id"),
        relation_field("owner", &["owner_a", "owner_b"]),
    ]);
    let record = Record::new(vec![
        PrismaValue::Int(7),
        PrismaValue::Int(8),
        PrismaValue::Int(9),
    ]);
    let names = vec!["id".to_string(), "owner_a".to_string(), "owner_b".to_string()];
    let rid = record.identifier(&names, &id).unwrap();
    assert_eq!(rid.len(), 3);
    let values = rid.values();
    assert_eq!(values, vec![PrismaValue::Int(7), PrismaValue::Int(8), PrismaValue::Int(9)]);
}

#[test]
fn record_identifier_orders_pairs_by_expansion() {
    let id = ModelIdentifier::new(vec![scalar_field("b"), scalar_field("a")]);
    let record = Record::new(vec![PrismaValue::Int(1), PrismaValue::Int(2)]);
    let names = vec!["a".to_string(), "b".to_string()];
    let rid = record.identifier(&names, &id).unwrap();
    // Pair order follows the identifier's expansion, not the record's names.
    assert_eq!(rid.pairs[0].0.name, "b");
    assert_eq!(rid.pairs[0].1, PrismaValue::Int(2));
    assert_eq!(rid.pairs[1].0.name, "a");
    assert_eq!(rid.pairs[1].1, PrismaValue::Int(1));
}

#[test]
fn identifier_reports_missing_field() {
    let id = ModelIdentifier::new(vec![scalar_field("id")]);
    let record = Record::new(vec![PrismaValue::Int(1)]);
    let names = vec!["other".to_string()];
    match record.identifier(&names, &id) {
        Err(DomainError::FieldNotFound { name, model }) => {
            assert_eq!(name, "id");
            assert_eq!(model, "");
        }
        Ok(_) => panic!("expected a missing-field error"),
    }
}

#[test]
fn get_field_value_finds_and_fails() {
    let record = Record::new(vec![PrismaValue::Text("x".to_string()), PrismaValue::Int(3)]);
    let names = vec!["name".to_string(), "count".to_string()];
    assert_eq!(record.get_field_value(&names, "count").unwrap(), &PrismaValue::Int(3));
    assert!(matches!(
        record.get_field_value(&names, "nope"),
        Err(DomainError::FieldNotFound { .. })
    ));
}

#[test]
fn fill_missing_slot_succeeds_exactly_once() {
    let mut rid = RecordIdentifier::new(vec![
        (dsf("id"), PrismaValue::Null),
        (dsf("email"), PrismaValue::Text("a@b".to_string())),
    ]);
    assert!(rid.misses_autogen_value());
    assert!(rid.add_autogen_value(PrismaValue::Int(42)));
    assert_eq!(rid.pairs[0].1, PrismaValue::Int(42));
    // A second attempt against the same identifier reports no missing slot.
    assert!(!rid.misses_autogen_value());
    assert!(!rid.add_autogen_value(PrismaValue::Int(43)));
    assert_eq!(rid.pairs[0].1, PrismaValue::Int(42));
}

#[test]
fn fill_missing_slot_takes_first_null_only() {
    let mut rid = RecordIdentifier::new(vec![
        (dsf("a"), PrismaValue::Null),
        (dsf("b"), PrismaValue::Null),
    ]);
    assert!(rid.add_autogen_value(PrismaValue::Int(1)));
    assert_eq!(rid.pairs[0].1, PrismaValue::Int(1));
    assert_eq!(rid.pairs[1].1, PrismaValue::Null);
}

#[test]
fn record_identifier_equality_and_construction() {
    let a = RecordIdentifier::new(vec![(dsf("id"), PrismaValue::Int(1))]);
    let b = RecordIdentifier::from(vec![(dsf("id"), PrismaValue::Int(1))]);
    let c = RecordIdentifier::new(vec![(dsf("id"), PrismaValue::Int(2))]);
    assert_eq!(a, b);
    assert_ne!(a, c);
    assert!(!a.is_empty());
    let mut d = RecordIdentifier::default();
    assert!(d.is_empty());
    d.add((dsf("k"), PrismaValue::Boolean(true)));
    assert_eq!(d.len(), 1);
    assert_eq!(d.into_iter().len(), 1);
}

#[test]
fn single_record_wrapping_and_parentage() {
    let mut record = Record::new(vec![PrismaValue::Int(5)]);
    record.set_parent_id(RecordIdentifier::new(vec![(dsf("id"), PrismaValue::Int(9))]));
    let single = SingleRecord::new(record, vec!["id".to_string()]);
    assert_eq!(single.get_field_value("id").unwrap(), &PrismaValue::Int(5));
    let id = ModelIdentifier::new(vec![scalar_field("id")]);
    let rid = single.identifier(&id).unwrap();
    assert_eq!(rid.len(), 1);
    let many = single.into_many();
    assert_eq!(many.records.len(), 1);
    assert_eq!(many.records[0].parent_id.as_ref().unwrap().pairs[0].1, PrismaValue::Int(9));
}

#[test]
fn many_records_identifiers_pairs_and_reverse() {
    let mut many = ManyRecords {
        records: vec![
            Record::new(vec![PrismaValue::Int(1), PrismaValue::Text("a".to_string())]),
            Record::new(vec![PrismaValue::Int(2), PrismaValue::Text("b".to_string())]),
        ],
        field_names: vec!["id".to_string(), "name".to_string()],
    };
    let id = ModelIdentifier::new(vec![scalar_field("id")]);
    let ids = many.identifiers(&id).unwrap();
    assert_eq!(ids.len(), 2);
    assert_eq!(ids[0].pairs[0].1, PrismaValue::Int(1));
    assert_eq!(ids[1].pairs[0].1, PrismaValue::Int(2));

    let pairs = many.as_pairs();
    assert_eq!(pairs.len(), 2);
    assert_eq!(pairs[0][0], ("id".to_string(), PrismaValue::Int(1)));
    assert_eq!(pairs[1][1], ("name".to_string(), PrismaValue::Text("b".to_string())));

    many.reverse();
    assert_eq!(many.records[0].values[0], PrismaValue::Int(2));
    assert_eq!(many.records[1].values[0], PrismaValue::Int(1));
}

#[test]
fn field_weak_handles_carry_the_name() {
    let f = scalar_field("age");
    match FieldWeak::from_field(&f) {
        FieldWeak::Scalar(name) => assert_eq!(name, "age"),
        FieldWeak::Relation(_) => panic!("expected a scalar handle"),
    }
    let r = relation_field("author", &["author_id"]);
    assert!(matches!(FieldWeak::from_field(&r), FieldWeak::Relation(_)));
}

#[test]
fn prisma_value_equality() {
    assert_eq!(PrismaValue::Null, PrismaValue::Null);
    assert!(PrismaValue::Null.is_null());
    assert!(!PrismaValue::Int(0).is_null());
    assert_ne!(PrismaValue::Int(1), PrismaValue::Int(2));
    assert_eq!(
        PrismaValue::Text("x".to_string()),
        PrismaValue::Text("x".to_string())
    );
    assert_ne!(PrismaValue::Text("x".to_string()), PrismaValue::Null);
}

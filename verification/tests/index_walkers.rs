use query_core::error::CoreError;
use query_core::error::DomainError;
use query_core::walkers::Attribute;
use query_core::walkers::FieldWithArgs;
use query_core::walkers::IndexAlgorithm;
use query_core::walkers::IndexAttribute;
use query_core::walkers::IndexType;
use query_core::walkers::IndexWalker;
use query_core::walkers::ModelAttributes;
use query_core::walkers::ParserDatabase;
use query_core::walkers::ScalarFieldData;
use query_core::walkers::ScalarFieldWalker;

fn sample_db() -> ParserDatabase {
    ParserDatabase {
        scalar_fields: vec![
            ((1, 0), ScalarFieldData { name: "id".to_string() }),
            ((1, 1), ScalarFieldData { name: "email".to_string() }),
            ((2, 0), ScalarFieldData { name: "other".to_string() }),
        ],
        model_attributes: vec![
            (1, ModelAttributes { name: "User".to_string() }),
            (2, ModelAttributes { name: "Post".to_string() }),
        ],
    }
}

fn unique_walker() -> IndexWalker {
    IndexWalker {
        model_id: 1,
        index: Some(Attribute { name: "unique".to_string() }),
        db: sample_db(),
        index_attribute: IndexAttribute {
            tpe: IndexType::Unique,
            name: Some("by_email".to_string()),
            db_name: Some("idx_email".to_string()),
            fields: vec![FieldWithArgs { field_id: 1 }, FieldWithArgs { field_id: 0 }],
            source_field: Some(1),
            algorithm: Some(IndexAlgorithm::BTree),
        },
    }
}

#[test]
fn walker_names_and_kinds() {
    let w = unique_walker();
    assert_eq!(w.mapped_name(), Some("idx_email"));
    assert_eq!(w.name(), Some("by_email"));
    assert_eq!(w.attribute_name(), "unique");
    assert_eq!(w.index_type(), IndexType::Unique);
    assert_eq!(w.algorithm(), Some(IndexAlgorithm::BTree));
    assert!(w.is_unique());
    assert!(!w.is_fulltext());
    assert!(w.is_defined_on_field());
    assert!(w.ast_attribute().is_some());
    assert_eq!(w.attribute().fields.len(), 2);
}

#[test]
fn plain_index_uses_index_keyword() {
    let mut w = unique_walker();
    w.index_attribute.tpe = IndexType::Normal;
    w.index_attribute.source_field = None;
    assert_eq!(w.attribute_name(), "index");
    assert!(!w.is_unique());
    assert!(!w.is_defined_on_field());
}

#[test]
fn walker_fields_resolve_in_declaration_order() {
    let w = unique_walker();
    let fields = w.fields();
    assert_eq!(fields.len(), 2);
    assert_eq!(fields[0].field_id, 1);
    assert_eq!(fields[0].scalar_field.name, "email");
    assert_eq!(fields[1].field_id, 0);
    assert_eq!(fields[1].scalar_field.name, "id");
}

#[test]
fn scalar_field_attributes_carry_positions() {
    let w = unique_walker();
    let attrs = w.scalar_field_attributes();
    assert_eq!(attrs.len(), 2);
    assert_eq!(attrs[0].field_arg_id, 0);
    assert_eq!(attrs[1].field_arg_id, 1);
    assert_eq!(attrs[1].fields.len(), 2);
}

#[test]
fn contains_exactly_fields_compares_ids_in_order() {
    let w = unique_walker();
    let same = vec![
        ScalarFieldWalker {
            model_id: 1,
            field_id: 1,
            scalar_field: ScalarFieldData { name: "email".to_string() },
        },
        ScalarFieldWalker {
            model_id: 1,
            field_id: 0,
            scalar_field: ScalarFieldData { name: "id".to_string() },
        },
    ];
    assert!(w.contains_exactly_fields(&same));
    let reversed = vec![
        ScalarFieldWalker {
            model_id: 1,
            field_id: 0,
            scalar_field: ScalarFieldData { name: "id".to_string() },
        },
        ScalarFieldWalker {
            model_id: 1,
            field_id: 1,
            scalar_field: ScalarFieldData { name: "email".to_string() },
        },
    ];
    assert!(!w.contains_exactly_fields(&reversed));
    let shorter = vec![];
    assert!(!w.contains_exactly_fields(&shorter));
}

#[test]
fn walker_resolves_its_model() {
    let w = unique_walker();
    let m = w.model();
    assert_eq!(m.model_id, 1);
    assert_eq!(m.model_attributes.name, "User");
}

#[test]
fn domain_errors_lift_into_the_core_taxonomy() {
    let err = DomainError::FieldNotFound { name: "id".to_string(), model: "User".to_string() };
    match CoreError::from_domain(err) {
        CoreError::FieldNotFound { name } => assert_eq!(name, "id"),
        other => panic!("expected a field error, got {:?}", other),
    }
}

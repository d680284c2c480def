use query_core::datasource::parse_base64_string;
use query_core::datasource::datasource_from_database_str;
use query_core::datasource::ConnectorError;
use query_core::executor::TxId;

#[test]
fn parse_base64_string_decodes_valid_utf8() {
    // "aGVsbG8=" is the standard base64 encoding of "hello".
    assert_eq!(parse_base64_string("aGVsbG8=").unwrap(), "hello");
}

#[test]
fn parse_base64_string_keeps_plain_text() {
    // Not valid base64: the input is taken verbatim.
    assert_eq!(
        parse_base64_string("postgres://localhost/db").unwrap(),
        "postgres://localhost/db"
    );
}

#[test]
fn parse_base64_string_rejects_non_utf8_payload() {
    // "//4=" decodes to the bytes [0xff, 0xfe], which are not UTF-8.
    assert!(matches!(
        parse_base64_string("//4="),
        Err(ConnectorError::SchemaParserError { .. })
    ));
}

#[test]
fn datasource_schema_maps_postgres_scheme() {
    let schema = datasource_from_database_str("postgres://host/db").unwrap();
    assert_eq!(
        schema,
        "datasource db {\n    provider = \"postgresql\"\n    url = \"postgres://host/db\"\n}\n"
    );
}

#[test]
fn datasource_schema_maps_file_scheme() {
    let schema = datasource_from_database_str("file:dev.db").unwrap();
    assert_eq!(
        schema,
        "datasource db {\n    provider = \"sqlite\"\n    url = \"file:dev.db\"\n}\n"
    );
}

#[test]
fn datasource_schema_keeps_other_schemes() {
    let schema = datasource_from_database_str("mysql://host/db").unwrap();
    assert_eq!(
        schema,
        "datasource db {\n    provider = \"mysql\"\n    url = \"mysql://host/db\"\n}\n"
    );
}

#[test]
fn datasource_schema_without_scheme_uses_whole_string() {
    let schema = datasource_from_database_str("plain").unwrap();
    assert_eq!(
        schema,
        "datasource db {\n    provider = \"plain\"\n    url = \"plain\"\n}\n"
    );
}

#[test]
fn connector_error_variants_carry_their_details() {
    let err = ConnectorError::InvalidConnectionString { details: "".to_string() };
    assert!(matches!(err, ConnectorError::InvalidConnectionString { .. }));
}

#[test]
fn tx_id_generation_and_text() {
    let id = TxId::new();
    let text = id.to_string();
    assert!(text.starts_with('c'));
    assert!(!text.is_empty());
    let other = TxId::new();
    // Freshly issued ids are distinct.
    assert_ne!(id.to_string(), other.to_string());
}

#[test]
fn tx_id_equality_and_from() {
    let a = TxId::from("abc".to_string());
    let b = TxId::from("abc".to_string());
    let c = TxId::from("xyz".to_string());
    assert_eq!(a, b);
    assert_ne!(a, c);
    assert_eq!(a.to_string(), "abc");
    let d = a.clone();
    assert_eq!(a, d);
}

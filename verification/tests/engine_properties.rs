use surql_definition::field::FieldInfo;
use surql_definition::naming::derive_table_name;
use surql_definition::permission::{format_permissions, PermissionData, PermissionInfo};
use surql_definition::table::TableInfo;
use surql_definition::to_snake_case;
use surql_definition::type_conv::{LiteralValue, StructuralType, SurrealDBType};
use surql_definition::type_conv::{format_lit_as_expr, type_from_literal};
use surql_definition::validate::{validate_at_use, ValidationConfig};
use surql_definition::SchemaError;

fn leaf(name: &str) -> StructuralType {
    StructuralType { name: name.to_string(), param: None }
}

fn wrapper(name: &str, inner: StructuralType) -> StructuralType {
    StructuralType { name: name.to_string(), param: Some(Box::new(inner)) }
}

fn bare_field(name: &str, ty: &str) -> FieldInfo {
    let mut f = FieldInfo::new(name.to_string());
    f.field_type = Some(SurrealDBType::from_string(ty));
    f
}

fn field_table(name: &str, fields: Vec<FieldInfo>) -> TableInfo {
    TableInfo { custom_query: None, table_name: name.to_string(), permissions: None, fields }
}

fn guard(value: &str) -> PermissionData {
    PermissionData::from(value.to_string())
}

#[test]
fn infer_supports_every_primitive() {
    for name in [
        "i8", "i16", "i32", "i64", "i128", "isize", "u8", "u16", "u32", "u64", "u128", "usize",
    ] {
        assert_eq!(SurrealDBType::from_type(&leaf(name)).unwrap().to_string(), "int");
    }
    for name in ["f32", "f64"] {
        assert_eq!(SurrealDBType::from_type(&leaf(name)).unwrap().to_string(), "float");
    }
    assert_eq!(SurrealDBType::from_type(&leaf("bool")).unwrap().to_string(), "bool");
    assert_eq!(SurrealDBType::from_type(&leaf("String")).unwrap().to_string(), "string");
    assert_eq!(SurrealDBType::from_type(&leaf("char")).unwrap().to_string(), "string");
}

#[test]
fn infer_rejects_unknown_names() {
    match SurrealDBType::from_type(&leaf("HashMap")) {
        Err(SchemaError::UnsupportedType(name)) => assert_eq!(name, "HashMap"),
        other => panic!("expected an unsupported-type error, got {:?}", other),
    }
}

#[test]
fn infer_wrapper_fails_exactly_when_inner_fails() {
    let good = wrapper("Option", wrapper("Vec", leaf("i32")));
    assert_eq!(SurrealDBType::from_type(&good).unwrap().to_string(), "option<array<int>>");
    let bad = wrapper("Option", wrapper("Vec", leaf("Foo")));
    match SurrealDBType::from_type(&bad) {
        Err(SchemaError::UnsupportedType(name)) => assert_eq!(name, "Foo"),
        other => panic!("expected an unsupported-type error, got {:?}", other),
    }
    match SurrealDBType::from_type(&leaf("Option")) {
        Err(SchemaError::UnsupportedType(name)) => assert_eq!(name, "Option"),
        other => panic!("expected an unsupported-type error, got {:?}", other),
    }
}

#[test]
fn type_text_round_trips() {
    for text in [
        "int",
        "number",
        "record",
        "option<array<int>>",
        "array<option<array<string>>>",
        "datetime",
        "array<custom>",
    ] {
        assert_eq!(SurrealDBType::from_string(text).to_string(), text);
    }
}

#[test]
fn type_value_round_trips() {
    let t = SurrealDBType::from_string("option<array<int>>");
    assert_eq!(SurrealDBType::from_string(&t.to_string()), t);
    let u = SurrealDBType::new("array", Some(SurrealDBType::new("float", None)));
    assert_eq!(SurrealDBType::from_string(&u.to_string()), u);
}

#[test]
fn field_statement_ends_in_exactly_one_semicolon() {
    let q = bare_field("n", "int").generate_define_query("t");
    assert!(q.ends_with(";"));
    assert!(!q.ends_with(";;"));
    let mut asserted = bare_field("n", "int");
    asserted.assertion = Some("$value > 0;".to_string());
    let q2 = asserted.generate_define_query("t");
    assert_eq!(q2, "DEFINE FIELD n ON t TYPE int ASSERT $value > 0;");
}

#[test]
fn permissions_render_in_canonical_order() {
    let mut f = bare_field("n", "int");
    f.permissions = vec![
        PermissionInfo::Delete(guard("$auth.admin == true")),
        PermissionInfo::Select(guard("$auth.id != NONE")),
    ];
    let q = f.generate_define_query("t");
    assert_eq!(
        q,
        "DEFINE FIELD n ON t TYPE int PERMISSIONS FOR select $auth.id != NONE FOR delete $auth.admin == true;"
    );
}

#[test]
fn permissions_absent_when_no_rule() {
    assert!(format_permissions(vec![]).is_none());
    let q = bare_field("n", "int").generate_define_query("t");
    assert!(!q.contains("PERMISSIONS"));
}

#[test]
fn permissions_last_rule_of_a_kind_wins() {
    let rendered = format_permissions(vec![
        PermissionInfo::Select(guard("first")),
        PermissionInfo::Select(guard("second")),
    ])
    .unwrap();
    assert_eq!(rendered, "FOR select second");
}

#[test]
fn custom_query_is_returned_verbatim() {
    let t = TableInfo {
        custom_query: Some("DEFINE TABLE override_table SCHEMAFULL;".to_string()),
        table_name: "ignored".to_string(),
        permissions: None,
        fields: vec![bare_field("n", "int")],
    };
    assert_eq!(t.generate_define_query(), "DEFINE TABLE override_table SCHEMAFULL;");
}

#[test]
fn table_keeps_field_declaration_order() {
    let t = field_table(
        "t",
        vec![bare_field("alpha", "int"), bare_field("beta", "string"), bare_field("gamma", "bool")],
    );
    assert_eq!(
        t.generate_define_query(),
        "DEFINE TABLE t; DEFINE FIELD alpha ON t TYPE int; DEFINE FIELD beta ON t TYPE string; DEFINE FIELD gamma ON t TYPE bool;"
    );
}

#[test]
fn table_permissions_are_inserted() {
    let rules = vec![
        PermissionInfo::Update(guard("$auth.id != NONE")),
        PermissionInfo::Select(guard("true")),
    ];
    let t = TableInfo {
        custom_query: None,
        table_name: "t".to_string(),
        permissions: format_permissions(rules),
        fields: vec![],
    };
    assert_eq!(
        t.generate_define_query(),
        "DEFINE TABLE t PERMISSIONS FOR select true FOR update $auth.id != NONE;"
    );
}

#[test]
fn snake_case_handles_runs_and_digits() {
    assert_eq!(to_snake_case("SimplePrimitivesAuto"), "simple_primitives_auto");
    assert_eq!(to_snake_case("HTTPServer"), "httpserver");
    assert_eq!(to_snake_case("My2Fast2Furious"), "my2_fast2_furious");
    assert_eq!(to_snake_case("kebab-case"), "kebab_case");
    assert_eq!(derive_table_name(Some("explicit".to_string()), "SomeIdent"), "explicit");
    assert_eq!(derive_table_name(None, "T"), "t");
}

#[test]
fn minimal_record_renders_end_to_end() {
    let t = field_table(&derive_table_name(None, "T"), vec![bare_field("n", "int")]);
    assert_eq!(t.generate_define_query(), "DEFINE TABLE t; DEFINE FIELD n ON t TYPE int;");
}

#[test]
fn nested_optional_array_type_renders() {
    let q = bare_field("n", "option<array<int>>").generate_define_query("t");
    assert_eq!(q, "DEFINE FIELD n ON t TYPE option<array<int>>;");
}

#[test]
fn default_and_assert_embed_raw_expressions() {
    let mut f = bare_field("n", "int");
    f.default = Some(format_lit_as_expr(LiteralValue::Text("42".to_string())));
    f.assertion = Some(format_lit_as_expr(LiteralValue::Text("$value > 0".to_string())));
    let q = f.generate_define_query("t");
    assert_eq!(q, "DEFINE FIELD n ON t TYPE int DEFAULT 42 ASSERT $value > 0;");
}

#[test]
fn literals_format_by_kind() {
    assert_eq!(format_lit_as_expr(LiteralValue::Text("bare value".to_string())), "bare value");
    assert_eq!(format_lit_as_expr(LiteralValue::Boolean(true)), "true");
    assert_eq!(format_lit_as_expr(LiteralValue::Boolean(false)), "false");
    assert_eq!(format_lit_as_expr(LiteralValue::Other("2".to_string())), "2");
}

#[test]
fn explicit_type_must_be_text() {
    assert_eq!(type_from_literal(LiteralValue::Text("int".to_string())).unwrap().to_string(), "int");
    match type_from_literal(LiteralValue::Boolean(true)) {
        Err(SchemaError::MalformedAttribute(m)) => assert_eq!(m, "Expected a string for TYPE"),
        other => panic!("expected a malformed-attribute error, got {:?}", other),
    }
}

#[test]
fn use_time_validation_accepts_wellformed_statements() {
    let config = ValidationConfig { build_time: false, use_time: true };
    let t = field_table("t", vec![bare_field("n", "int")]);
    let q = t.generate_define_query();
    assert!(validate_at_use(&q, &config).is_ok());
}

#[test]
fn use_time_validation_refuses_garbage() {
    let config = ValidationConfig { build_time: false, use_time: true };
    match validate_at_use("INVALID SYNTAX;", &config) {
        Err(SchemaError::ValidationFailed(_, statement)) => {
            assert_eq!(statement, "INVALID SYNTAX;");
        },
        other => panic!("expected a validation failure, got {:?}", other),
    }
}

#[test]
fn build_time_validation_gates_synthesis() {
    let config = ValidationConfig { build_time: true, use_time: false };
    let good = field_table("test_table", vec![bare_field("dummy_field", "int")]);
    assert_eq!(
        good.synthesize(&config).unwrap(),
        "DEFINE TABLE test_table; DEFINE FIELD dummy_field ON test_table TYPE int;"
    );
    let bad = TableInfo {
        custom_query: Some("INVALID SYNTAX;".to_string()),
        table_name: "t".to_string(),
        permissions: None,
        fields: vec![bare_field("dummy_field", "int")],
    };
    match bad.synthesize(&config) {
        Err(SchemaError::ValidationFailed(_, statement)) => assert_eq!(statement, "INVALID SYNTAX;"),
        other => panic!("expected a validation failure, got {:?}", other),
    }
}

#[test]
fn build_time_validation_refuses_bad_assertions() {
    let config = ValidationConfig { build_time: true, use_time: false };
    let mut f = bare_field("invalid_field", "int");
    f.assertion = Some("INVALID ASSERTION".to_string());
    let t = field_table("invalid_assert_table", vec![f]);
    assert!(t.synthesize(&config).is_err());
}

#[test]
fn validation_is_off_by_default() {
    let config = ValidationConfig::default();
    assert!(!config.build_time);
    assert!(!config.use_time);
    let bad = TableInfo {
        custom_query: Some("INVALID SYNTAX;".to_string()),
        table_name: "t".to_string(),
        permissions: None,
        fields: vec![],
    };
    assert_eq!(bad.synthesize(&config).unwrap(), "INVALID SYNTAX;");
    assert!(validate_at_use("INVALID SYNTAX;", &config).is_ok());
}

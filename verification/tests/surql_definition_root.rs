use surql_definition::field::FieldInfo;
use surql_definition::table::TableInfo;
use surql_definition::type_conv::{LiteralValue, StructuralType, SurrealDBType};
use surql_definition::type_conv::format_lit_as_expr;

fn named_desc(name: &str) -> StructuralType {
    StructuralType { name: name.to_string(), param: None }
}

fn inferred(name: &str, ty: StructuralType) -> FieldInfo {
    let mut f = FieldInfo::new(name.to_string());
    f.field_type = Some(SurrealDBType::from_type(&ty).unwrap());
    f
}

fn typed(name: &str, ty: &str) -> FieldInfo {
    let mut f = FieldInfo::new(name.to_string());
    f.field_type = Some(SurrealDBType::from_string(ty));
    f
}

fn plain_table(name: &str, fields: Vec<FieldInfo>) -> TableInfo {
    TableInfo { custom_query: None, table_name: name.to_string(), permissions: None, fields }
}

#[test]
fn surql_definition_test_simple_struct() {
    let mut default_int = inferred("default_int", named_desc("i32"));
    default_int.default = Some(format_lit_as_expr(LiteralValue::Text("42".to_string())));
    default_int.assertion = Some(format_lit_as_expr(LiteralValue::Text("$value > 0".to_string())));
    let fields = vec![
        inferred("simple_int", named_desc("i32")),
        typed("specified_int", "int"),
        default_int,
    ];
    let t = plain_table("test_table", fields);
    let expected = "DEFINE TABLE test_table; DEFINE FIELD simple_int ON test_table TYPE int; DEFINE FIELD specified_int ON test_table TYPE int; DEFINE FIELD default_int ON test_table TYPE int DEFAULT 42 ASSERT $value > 0;";
    assert_eq!(t.generate_define_query(), expected);
}

#[test]
fn surql_definition_test_float_struct() {
    let fields = vec![
        inferred("floating_num", named_desc("f64")),
        typed("specified_float", "float"),
    ];
    let t = plain_table("float_table", fields);
    let expected = "DEFINE TABLE float_table; DEFINE FIELD floating_num ON float_table TYPE float; DEFINE FIELD specified_float ON float_table TYPE float;";
    assert_eq!(t.generate_define_query(), expected);
}

#[test]
fn surql_definition_test_string_struct() {
    let mut flexible_string = typed("flexible_string", "string");
    flexible_string.type_is_flexible = true;
    let fields = vec![
        inferred("simple_string", named_desc("String")),
        typed("specified_string", "string"),
        flexible_string,
    ];
    let t = plain_table("string_table", fields);
    let expected = "DEFINE TABLE string_table; DEFINE FIELD simple_string ON string_table TYPE string; DEFINE FIELD specified_string ON string_table TYPE string; DEFINE FIELD flexible_string ON string_table FLEXIBLE TYPE string;";
    assert_eq!(t.generate_define_query(), expected);
}

#[test]
fn surql_definition_test_bool_struct() {
    let mut value_bool = inferred("value_bool", named_desc("bool"));
    value_bool.value = Some(format_lit_as_expr(LiteralValue::Text("true".to_string())));
    value_bool.assertion =
        Some(format_lit_as_expr(LiteralValue::Text("$value == true".to_string())));
    let fields = vec![
        inferred("simple_bool", named_desc("bool")),
        typed("specified_bool", "bool"),
        value_bool,
    ];
    let t = plain_table("bool_table", fields);
    let expected = "DEFINE TABLE bool_table; DEFINE FIELD simple_bool ON bool_table TYPE bool; DEFINE FIELD specified_bool ON bool_table TYPE bool; DEFINE FIELD value_bool ON bool_table TYPE bool VALUE true ASSERT $value == true;";
    assert_eq!(t.generate_define_query(), expected);
}

#[test]
fn surql_definition_test_readonly_struct() {
    let mut readonly_field = typed("readonly_field", "int");
    readonly_field.value = Some(format_lit_as_expr(LiteralValue::Other("2".to_string())));
    readonly_field.readonly = true;
    let t = plain_table("readonly_table", vec![readonly_field]);
    let expected = "DEFINE TABLE readonly_table; DEFINE FIELD readonly_field ON readonly_table TYPE int VALUE 2 READONLY;";
    assert_eq!(t.generate_define_query(), expected);
}

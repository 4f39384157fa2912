//! The recursive model of database field types, its textual rendering and
//! parsing, and the inference of a database type from a structural
//! description of a host type.

use vstd::prelude::*;
use vstd::string::*;

use crate::text::str_eq_str;
use crate::SchemaError;

verus! {

/// A database field type: a base name, optionally wrapping an inner type
/// (`array<T>`, `option<T>`).
#[derive(Debug, PartialEq, Eq)]
pub struct SurrealDBType {
    pub name: String,
    pub inner: Option<Box<SurrealDBType>>,
}

/// The mathematical shape of a `SurrealDBType`: the same tree over plain
/// character sequences.
pub struct TypeShape {
    pub name: Seq<char>,
    pub inner: Option<Box<TypeShape>>,
}

/// The shape of an executable type value.
pub open spec fn type_shape(t: SurrealDBType) -> TypeShape
    decreases t,
{
    TypeShape {
        name: t.name@,
        inner: match t.inner {
            Some(b) => Some(Box::new(type_shape(*b))),
            None => None,
        },
    }
}

impl View for SurrealDBType {
    type V = TypeShape;

    open spec fn view(&self) -> TypeShape {
        type_shape(*self)
    }
}

/// The textual rendering of a type: `name`, or `name<inner>` when the type
/// wraps an inner one.
pub open spec fn render_type(t: TypeShape) -> Seq<char>
    decreases t,
{
    match t.inner {
        Some(inner) => t.name + "<"@ + render_type(*inner) + ">"@,
        None => t.name,
    }
}

/// Whether `s` reads as `prefix`, something, and a closing `>`.
pub open spec fn wrapped_by(s: Seq<char>, prefix: Seq<char>) -> bool {
    &&& s.len() > prefix.len()
    &&& s.subrange(0, prefix.len() as int) == prefix
    &&& s[s.len() - 1] == '>'
}

/// The characters strictly between `prefix` and the closing `>`.
pub open spec fn wrapped_inner(s: Seq<char>, prefix: Seq<char>) -> Seq<char> {
    s.subrange(prefix.len() as int, s.len() - 1)
}

/// Parsing of a textual type: the `array<...>` and `option<...>` wrappers
/// are recognized by their literal prefix and closing bracket and parsed
/// recursively; any other text is kept verbatim as a raw name, so parsing
/// never fails.
pub open spec fn parse_type(s: Seq<char>) -> TypeShape
    decreases s.len(),
{
    if wrapped_by(s, "array<"@) {
        TypeShape {
            name: "array"@,
            inner: Some(Box::new(parse_type(wrapped_inner(s, "array<"@)))),
        }
    } else if wrapped_by(s, "option<"@) {
        TypeShape {
            name: "option"@,
            inner: Some(Box::new(parse_type(wrapped_inner(s, "option<"@)))),
        }
    } else {
        TypeShape { name: s, inner: None }
    }
}

/// The fixed primitive vocabulary.
pub open spec fn fixed_primitive(name: Seq<char>) -> bool {
    ||| name == "int"@
    ||| name == "number"@
    ||| name == "float"@
    ||| name == "bool"@
    ||| name == "string"@
    ||| name == "record"@
}

/// A type built purely from the fixed primitive vocabulary and the `array`
/// and `option` wrappers, with no raw escape-hatch name.
pub open spec fn canonical_type(t: TypeShape) -> bool
    decreases t,
{
    match t.inner {
        None => fixed_primitive(t.name),
        Some(inner) => (t.name == "array"@ || t.name == "option"@) && canonical_type(*inner),
    }
}

/// Parsing inverts rendering on every canonical type.
pub proof fn lemma_parse_render_roundtrip(t: TypeShape)
    requires
        canonical_type(t),
    ensures
        parse_type(render_type(t)) == t,
    decreases t,
{
    reveal_strlit("int");
    reveal_strlit("number");
    reveal_strlit("float");
    reveal_strlit("bool");
    reveal_strlit("string");
    reveal_strlit("record");
    reveal_strlit("array");
    reveal_strlit("option");
    reveal_strlit("array<");
    reveal_strlit("option<");
    reveal_strlit("<");
    reveal_strlit(">");
    match t.inner {
        None => {
            let s = render_type(t);
            assert(s == t.name);
            assert(s.len() <= 6);
            assert(!wrapped_by(s, "array<"@));
            assert(!wrapped_by(s, "option<"@));
        },
        Some(inner) => {
            lemma_parse_render_roundtrip(*inner);
            let s = render_type(t);
            let body = render_type(*inner);
            assert(s == t.name + "<"@ + body + ">"@);
            if t.name == "array"@ {
                assert(s.subrange(0, 6) =~= "array<"@);
                assert(s[s.len() - 1] == '>');
                assert(wrapped_by(s, "array<"@));
                assert(wrapped_inner(s, "array<"@) =~= body);
                assert(parse_type(s).inner == Some(Box::new(parse_type(body))));
                assert(parse_type(s) == t);
            } else {
                assert(s.subrange(0, 6) =~= "option"@);
                assert("option"@[0] == 'o');
                assert("array<"@[0] == 'a');
                assert(s.subrange(0, 6)[0] == s[0]);
                assert(!wrapped_by(s, "array<"@));
                assert(s.subrange(0, 7) =~= "option<"@);
                assert(s[s.len() - 1] == '>');
                assert(wrapped_by(s, "option<"@));
                assert(wrapped_inner(s, "option<"@) =~= body);
                assert(parse_type(s) == t);
            }
        },
    }
}

/// Rendering inverts parsing on every text, raw names included.
pub proof fn lemma_render_parse_roundtrip(s: Seq<char>)
    ensures
        render_type(parse_type(s)) == s,
    decreases s.len(),
{
    reveal_strlit("array");
    reveal_strlit("option");
    reveal_strlit("array<");
    reveal_strlit("option<");
    reveal_strlit("<");
    reveal_strlit(">");
    if wrapped_by(s, "array<"@) {
        let body = wrapped_inner(s, "array<"@);
        lemma_render_parse_roundtrip(body);
        assert(render_type(parse_type(s)) == "array"@ + "<"@ + body + ">"@);
        assert("array"@ + "<"@ =~= "array<"@);
        let tail = s.subrange(s.len() - 1, s.len() as int);
        assert(tail =~= ">"@);
        assert(s =~= s.subrange(0, 6) + body + tail);
        assert("array"@ + "<"@ + body + ">"@ == s);
    } else if wrapped_by(s, "option<"@) {
        let body = wrapped_inner(s, "option<"@);
        lemma_render_parse_roundtrip(body);
        assert(render_type(parse_type(s)) == "option"@ + "<"@ + body + ">"@);
        assert("option"@ + "<"@ =~= "option<"@);
        let tail = s.subrange(s.len() - 1, s.len() as int);
        assert(tail =~= ">"@);
        assert(s =~= s.subrange(0, 7) + body + tail);
        assert("option"@ + "<"@ + body + ">"@ == s);
    } else {
        assert(render_type(parse_type(s)) == s);
    }
}

impl SurrealDBType {
    /// Build a type from a base name and an optional wrapped inner type.
    pub fn new(name: &str, inner: Option<SurrealDBType>) -> (r: Self)
        ensures
            r@.name == name@,
            match inner {
                Some(t) => r@.inner == Some(Box::new(t@)),
                None => r@.inner is None,
            },
    {
        SurrealDBType {
            name: name.to_owned(),
            inner: match inner {
                Some(t) => Some(Box::new(t)),
                None => None,
            },
        }
    }

    /// Parse a textual type. The fixed primitive names map to themselves,
    /// `array<...>` and `option<...>` recurse on the bracketed interior, and
    /// any other text becomes a raw type carrying the text verbatim.
    pub fn from_string(value: &str) -> (r: Self)
        ensures
            r@ == parse_type(value@),
        decreases value@.len(),
    {
        proof {
            reveal_strlit("int");
            reveal_strlit("number");
            reveal_strlit("float");
            reveal_strlit("bool");
            reveal_strlit("string");
            reveal_strlit("record");
            reveal_strlit("array<");
            reveal_strlit("option<");
        }
        if str_eq_str(value, "int") {
            return Self::new("int", None);
        }
        if str_eq_str(value, "number") {
            return Self::new("number", None);
        }
        if str_eq_str(value, "float") {
            return Self::new("float", None);
        }
        if str_eq_str(value, "bool") {
            return Self::new("bool", None);
        }
        if str_eq_str(value, "string") {
            return Self::new("string", None);
        }
        if str_eq_str(value, "record") {
            return Self::new("record", None);
        }
        let n = value.unicode_len();
        if n >= 7 {
            let prefix = value.substring_char(0, 6);
            if str_eq_str(prefix, "array<") && value.get_char(n - 1) == '>' {
                let interior = value.substring_char(6, n - 1);
                let inner = Self::from_string(interior);
                return Self::new("array", Some(inner));
            }
        }
        if n >= 8 {
            let prefix = value.substring_char(0, 7);
            if str_eq_str(prefix, "option<") && value.get_char(n - 1) == '>' {
                let interior = value.substring_char(7, n - 1);
                let inner = Self::from_string(interior);
                return Self::new("option", Some(inner));
            }
        }
        Self::new(value, None)
    }

    /// Render the type to its textual form.
    pub fn to_string(&self) -> (r: String)
        ensures
            r@ == render_type(self@),
        decreases *self,
    {
        match &self.inner {
            Some(inner) => {
                let mut r = self.name.clone();
                r.append("<");
                let inner_text = inner.to_string();
                r.append(inner_text.as_str());
                r.append(">");
                r
            },
            None => self.name.clone(),
        }
    }
}

/// A structural description of a host type, as the external collaborator
/// pre-parses it: the path's base name, and the single generic type
/// parameter when the name is a generic wrapper applied to exactly one.
#[derive(Debug)]
pub struct StructuralType {
    pub name: String,
    pub param: Option<Box<StructuralType>>,
}

/// The mathematical shape of a `StructuralType`.
pub struct StructuralShape {
    pub name: Seq<char>,
    pub param: Option<Box<StructuralShape>>,
}

/// The shape of an executable structural description.
pub open spec fn structural_shape(t: StructuralType) -> StructuralShape
    decreases t,
{
    StructuralShape {
        name: t.name@,
        param: match t.param {
            Some(b) => Some(Box::new(structural_shape(*b))),
            None => None,
        },
    }
}

impl View for StructuralType {
    type V = StructuralShape;

    open spec fn view(&self) -> StructuralShape {
        structural_shape(*self)
    }
}

/// A fixed-width signed or unsigned integer name.
pub open spec fn integer_structural_name(s: Seq<char>) -> bool {
    ||| s == "i8"@
    ||| s == "i16"@
    ||| s == "i32"@
    ||| s == "i64"@
    ||| s == "i128"@
    ||| s == "isize"@
    ||| s == "u8"@
    ||| s == "u16"@
    ||| s == "u32"@
    ||| s == "u64"@
    ||| s == "u128"@
    ||| s == "usize"@
}

/// A fixed-width floating-point name.
pub open spec fn float_structural_name(s: Seq<char>) -> bool {
    s == "f32"@ || s == "f64"@
}

/// A text or character name.
pub open spec fn text_structural_name(s: Seq<char>) -> bool {
    s == "String"@ || s == "char"@
}

/// A generic wrapper name the inference understands, applied to exactly one
/// type parameter.
pub open spec fn unary_wrapper(t: StructuralShape) -> bool {
    (t.name == "Option"@ || t.name == "Vec"@) && t.param is Some
}

/// The database type inferred for a structural description, or nothing when
/// the description is unsupported. The `Option` and `Vec` wrappers with
/// exactly one parameter recurse into `option` and `array`; integers map to
/// `int`, floats to `float`, `bool` to `bool`, text and characters to
/// `string`; everything else is unsupported.
pub open spec fn infer_type(t: StructuralShape) -> Option<TypeShape>
    decreases t,
{
    if unary_wrapper(t) {
        match infer_type(*t.param->0) {
            Some(inner) => Some(
                TypeShape {
                    name: if t.name == "Option"@ {
                        "option"@
                    } else {
                        "array"@
                    },
                    inner: Some(Box::new(inner)),
                },
            ),
            None => None,
        }
    } else if integer_structural_name(t.name) {
        Some(TypeShape { name: "int"@, inner: None })
    } else if float_structural_name(t.name) {
        Some(TypeShape { name: "float"@, inner: None })
    } else if t.name == "bool"@ {
        Some(TypeShape { name: "bool"@, inner: None })
    } else if text_structural_name(t.name) {
        Some(TypeShape { name: "string"@, inner: None })
    } else {
        None
    }
}

/// The name reported when inference fails: the innermost name that is not
/// a supported wrapper around a supported type.
pub open spec fn unsupported_name(t: StructuralShape) -> Seq<char>
    decreases t,
{
    if unary_wrapper(t) {
        unsupported_name(*t.param->0)
    } else {
        t.name
    }
}

/// The supported names never collide: a primitive structural name is not a
/// wrapper name.
proof fn lemma_primitive_name_is_no_wrapper(t: StructuralShape)
    requires
        integer_structural_name(t.name) || float_structural_name(t.name) || t.name == "bool"@
            || text_structural_name(t.name),
    ensures
        !unary_wrapper(t),
{
    reveal_strlit("Option");
    reveal_strlit("Vec");
    reveal_strlit("i8");
    reveal_strlit("i16");
    reveal_strlit("i32");
    reveal_strlit("i64");
    reveal_strlit("i128");
    reveal_strlit("isize");
    reveal_strlit("u8");
    reveal_strlit("u16");
    reveal_strlit("u32");
    reveal_strlit("u64");
    reveal_strlit("u128");
    reveal_strlit("usize");
    reveal_strlit("f32");
    reveal_strlit("f64");
    reveal_strlit("bool");
    reveal_strlit("String");
    reveal_strlit("char");
    assert("Option"@[0] == 'O');
    assert("Vec"@[0] == 'V');
    assert("String"@[0] == 'S');
    assert("i16"@[0] == 'i');
    assert("i32"@[0] == 'i');
    assert("i64"@[0] == 'i');
    assert("u16"@[0] == 'u');
    assert("u32"@[0] == 'u');
    assert("u64"@[0] == 'u');
    assert("f32"@[0] == 'f');
    assert("f64"@[0] == 'f');
}

/// The supported names never collide: a wrapper name is not a primitive
/// structural name.
proof fn lemma_wrapper_name_is_no_primitive(name: Seq<char>)
    requires
        name == "Option"@ || name == "Vec"@,
    ensures
        !integer_structural_name(name),
        !float_structural_name(name),
        name != "bool"@,
        !text_structural_name(name),
{
    reveal_strlit("Option");
    reveal_strlit("Vec");
    reveal_strlit("i8");
    reveal_strlit("i16");
    reveal_strlit("i32");
    reveal_strlit("i64");
    reveal_strlit("i128");
    reveal_strlit("isize");
    reveal_strlit("u8");
    reveal_strlit("u16");
    reveal_strlit("u32");
    reveal_strlit("u64");
    reveal_strlit("u128");
    reveal_strlit("usize");
    reveal_strlit("f32");
    reveal_strlit("f64");
    reveal_strlit("bool");
    reveal_strlit("String");
    reveal_strlit("char");
    assert("Option"@[0] == 'O');
    assert("Vec"@[0] == 'V');
    assert("String"@[0] == 'S');
    assert("i16"@[0] == 'i');
    assert("i32"@[0] == 'i');
    assert("i64"@[0] == 'i');
    assert("u16"@[0] == 'u');
    assert("u32"@[0] == 'u');
    assert("u64"@[0] == 'u');
    assert("f32"@[0] == 'f');
    assert("f64"@[0] == 'f');
}

/// Inference succeeds on every supported primitive structural name.
pub proof fn lemma_infer_supports_primitives(t: StructuralShape)
    requires
        integer_structural_name(t.name) || float_structural_name(t.name) || t.name == "bool"@
            || text_structural_name(t.name),
    ensures
        infer_type(t) is Some,
{
    lemma_primitive_name_is_no_wrapper(t);
}

/// On a wrapper with exactly one parameter, inference recurses: it succeeds
/// if and only if it succeeds on the parameter.
pub proof fn lemma_infer_wrapper_recurses(t: StructuralShape)
    requires
        unary_wrapper(t),
    ensures
        infer_type(t) is Some <==> infer_type(*t.param->0) is Some,
{
}

impl SurrealDBType {
    /// Infer the database type from a structural description, or report the
    /// offending name when the description is unsupported.
    pub fn from_type(t: &StructuralType) -> (r: Result<Self, SchemaError>)
        ensures
            infer_type(t@) matches Some(ty) ==> (r matches Ok(v) && v@ == ty),
            infer_type(t@) is None ==> (r matches Err(e) && e
                matches SchemaError::UnsupportedType(n) && n@ == unsupported_name(t@)),
        decreases *t,
    {
        let name = t.name.as_str();
        if str_eq_str(name, "Option") || str_eq_str(name, "Vec") {
            match &t.param {
                Some(inner_desc) => {
                    match Self::from_type(inner_desc) {
                        Ok(inner) => {
                            if str_eq_str(name, "Option") {
                                Ok(Self::new("option", Some(inner)))
                            } else {
                                Ok(Self::new("array", Some(inner)))
                            }
                        },
                        Err(e) => Err(e),
                    }
                },
                None => {
                    proof {
                        lemma_wrapper_name_is_no_primitive(t@.name);
                    }
                    Err(SchemaError::UnsupportedType(t.name.clone()))
                },
            }
        } else if str_eq_str(name, "i8") || str_eq_str(name, "i16") || str_eq_str(name, "i32")
            || str_eq_str(name, "i64") || str_eq_str(name, "i128") || str_eq_str(name, "isize")
            || str_eq_str(name, "u8") || str_eq_str(name, "u16") || str_eq_str(name, "u32")
            || str_eq_str(name, "u64") || str_eq_str(name, "u128") || str_eq_str(name, "usize") {
            proof {
                lemma_primitive_name_is_no_wrapper(t@);
            }
            Ok(Self::new("int", None))
        } else if str_eq_str(name, "f32") || str_eq_str(name, "f64") {
            proof {
                lemma_primitive_name_is_no_wrapper(t@);
            }
            Ok(Self::new("float", None))
        } else if str_eq_str(name, "bool") {
            proof {
                lemma_primitive_name_is_no_wrapper(t@);
            }
            Ok(Self::new("bool", None))
        } else if str_eq_str(name, "String") || str_eq_str(name, "char") {
            proof {
                lemma_primitive_name_is_no_wrapper(t@);
            }
            Ok(Self::new("string", None))
        } else {
            Err(SchemaError::UnsupportedType(t.name.clone()))
        }
    }
}

/// A pre-parsed literal value handed in by the external collaborator.
#[derive(Debug)]
pub enum LiteralValue {
    /// A text literal; its bare value, quotes already stripped.
    Text(String),
    /// A boolean literal.
    Boolean(bool),
    /// Any other literal kind, in its canonical source-level textual form.
    Other(String),
}

/// The expression text a literal embeds as: text literals embed their bare
/// value, booleans embed as `true` or `false`, and anything else embeds its
/// canonical source-level form.
pub open spec fn lit_expr(lit: LiteralValue) -> Seq<char> {
    match lit {
        LiteralValue::Text(s) => s@,
        LiteralValue::Boolean(b) => if b {
            "true"@
        } else {
            "false"@
        },
        LiteralValue::Other(s) => s@,
    }
}

/// Format a literal as the expression text it embeds as.
pub fn format_lit_as_expr(lit: LiteralValue) -> (r: String)
    ensures
        r@ == lit_expr(lit),
{
    match lit {
        LiteralValue::Text(s) => s,
        LiteralValue::Boolean(b) => {
            if b {
                "true".to_owned()
            } else {
                "false".to_owned()
            }
        },
        LiteralValue::Other(s) => s,
    }
}

/// The expected-kind message for a type attribute that is not text.
pub open spec fn type_literal_message() -> Seq<char> {
    "Expected a string for TYPE"@
}

/// The explicit type carried by a literal: it must be a text literal, whose
/// value is parsed; any other literal kind is a malformed attribute.
pub fn type_from_literal(lit: LiteralValue) -> (r: Result<SurrealDBType, SchemaError>)
    ensures
        lit matches LiteralValue::Text(s) ==> (r matches Ok(t) && t@ == parse_type(s@)),
        !(lit matches LiteralValue::Text(_)) ==> (r matches Err(e) && e
            matches SchemaError::MalformedAttribute(m) && m@ == type_literal_message()),
{
    match lit {
        LiteralValue::Text(s) => Ok(SurrealDBType::from_string(s.as_str())),
        _ => Err(SchemaError::MalformedAttribute("Expected a string for TYPE".to_owned())),
    }
}

} // verus!

//! One field's full configuration and its rendering to a single
//! field-definition statement.

use vstd::prelude::*;
use vstd::string::*;

use crate::permission::canonical_clauses;
use crate::permission::format_permissions_view;
use crate::permission::guard_of;
use crate::permission::lemma_permission_text_semicolon_free;
use crate::permission::render_permissions;
use crate::permission::PermissionInfo;
use crate::text::ends_with_semicolon;
use crate::text::join_space;
use crate::text::lemma_concat_semicolon_free;
use crate::text::terminate_statement;
use crate::text::terminated;
use crate::type_conv::render_type;
use crate::type_conv::type_shape;
use crate::type_conv::SurrealDBType;
use crate::type_conv::TypeShape;

verus! {

/// The view of an optional expression string.
pub open spec fn opt_text(v: Option<String>) -> Option<Seq<char>> {
    match v {
        Some(s) => Some(s@),
        None => None,
    }
}

/// The shape of an optional field type.
pub open spec fn shape_of(t: Option<SurrealDBType>) -> Option<TypeShape> {
    match t {
        Some(ty) => Some(type_shape(ty)),
        None => None,
    }
}

/// A labelled clause for an optional expression: nothing when absent.
pub open spec fn clause_text(label: Seq<char>, v: Option<Seq<char>>) -> Seq<char> {
    match v {
        Some(s) => label + s,
        None => Seq::empty(),
    }
}

/// A fixed keyword clause: nothing when the flag is off.
pub open spec fn flag_text(label: Seq<char>, on: bool) -> Seq<char> {
    if on {
        label
    } else {
        Seq::empty()
    }
}

/// The `TYPE` clause: present when a type is set and renders to nonempty
/// text.
pub open spec fn type_clause(t: Option<TypeShape>) -> Seq<char> {
    match t {
        Some(ty) => if render_type(ty).len() == 0 {
            Seq::empty()
        } else {
            " TYPE "@ + render_type(ty)
        },
        None => Seq::empty(),
    }
}

/// The `PERMISSIONS` clause: omitted entirely when no rule is present.
pub open spec fn permissions_clause(ps: Seq<PermissionInfo>) -> Seq<char> {
    match format_permissions_view(ps) {
        Some(p) => " PERMISSIONS "@ + p,
        None => Seq::empty(),
    }
}

/// The body of a field-definition statement, before termination: the fixed
/// clause order is name, table, FLEXIBLE, TYPE, DEFAULT, VALUE, READONLY,
/// ASSERT, PERMISSIONS, each emitted only when present.
pub open spec fn field_body(
    name: Seq<char>,
    table: Seq<char>,
    ty: Option<TypeShape>,
    flexible: bool,
    default: Option<Seq<char>>,
    readonly: bool,
    value: Option<Seq<char>>,
    assertion: Option<Seq<char>>,
    perms: Seq<PermissionInfo>,
) -> Seq<char> {
    "DEFINE FIELD "@ + name + " ON "@ + table + flag_text(" FLEXIBLE"@, flexible) + type_clause(
        ty,
    ) + clause_text(" DEFAULT "@, default) + clause_text(" VALUE "@, value) + flag_text(
        " READONLY"@,
        readonly,
    ) + clause_text(" ASSERT "@, assertion) + permissions_clause(perms)
}

/// One field's full configuration: its name, type, flags, expressions and
/// access rules. Built once per source field and owned by its table.
#[derive(Debug)]
pub struct FieldInfo {
    pub name: String,
    pub field_type: Option<SurrealDBType>,
    pub type_is_flexible: bool,
    pub default: Option<String>,
    pub readonly: bool,
    pub value: Option<String>,
    pub assertion: Option<String>,
    pub permissions: Vec<PermissionInfo>,
}

/// The complete field-definition statement for a field on a table.
pub open spec fn field_statement(f: FieldInfo, table: Seq<char>) -> Seq<char> {
    terminated(
        field_body(
            f.name@,
            table,
            shape_of(f.field_type),
            f.type_is_flexible,
            opt_text(f.default),
            f.readonly,
            opt_text(f.value),
            opt_text(f.assertion),
            f.permissions@,
        ),
    )
}

/// Build the field-definition statement from its parts: `DEFINE FIELD
/// <name> ON <table>` followed by the optional clauses in their fixed
/// order, terminated by a single semicolon.
#[verifier::rlimit(100)]
pub fn build_define_field_query(
    field_name: &str,
    table_name: &str,
    field_type: &Option<SurrealDBType>,
    type_is_flexible: bool,
    default: &Option<String>,
    readonly: bool,
    value: &Option<String>,
    assertion: &Option<String>,
    permissions: &Vec<PermissionInfo>,
) -> (r: String)
    ensures
        r@ == terminated(
            field_body(
                field_name@,
                table_name@,
                shape_of(*field_type),
                type_is_flexible,
                opt_text(*default),
                readonly,
                opt_text(*value),
                opt_text(*assertion),
                permissions@,
            ),
        ),
{
    let mut q = String::new();
    q.append("DEFINE FIELD ");
    q.append(field_name);
    q.append(" ON ");
    q.append(table_name);
    let ghost s0 = "DEFINE FIELD "@ + field_name@ + " ON "@ + table_name@;
    let ghost s1 = s0 + flag_text(" FLEXIBLE"@, type_is_flexible);
    if type_is_flexible {
        q.append(" FLEXIBLE");
    }
    proof {
        assert(q@ =~= s1);
    }
    let ghost s2 = s1 + type_clause(shape_of(*field_type));
    match field_type {
        Some(ty) => {
            let t = ty.to_string();
            if !t.as_str().is_empty() {
                q.append(" TYPE ");
                q.append(t.as_str());
            }
        },
        None => {},
    }
    proof {
        assert(q@ =~= s2);
    }
    let ghost s3 = s2 + clause_text(" DEFAULT "@, opt_text(*default));
    match default {
        Some(d) => {
            q.append(" DEFAULT ");
            q.append(d.as_str());
        },
        None => {},
    }
    proof {
        assert(q@ =~= s3);
    }
    let ghost s4 = s3 + clause_text(" VALUE "@, opt_text(*value));
    match value {
        Some(v) => {
            q.append(" VALUE ");
            q.append(v.as_str());
        },
        None => {},
    }
    proof {
        assert(q@ =~= s4);
    }
    let ghost s5 = s4 + flag_text(" READONLY"@, readonly);
    if readonly {
        q.append(" READONLY");
    }
    proof {
        assert(q@ =~= s5);
    }
    let ghost s6 = s5 + clause_text(" ASSERT "@, opt_text(*assertion));
    match assertion {
        Some(a) => {
            q.append(" ASSERT ");
            q.append(a.as_str());
        },
        None => {},
    }
    proof {
        assert(q@ =~= s6);
    }
    let ghost s7 = s6 + permissions_clause(permissions@);
    match render_permissions(permissions) {
        Some(p) => {
            q.append(" PERMISSIONS ");
            q.append(p.as_str());
        },
        None => {},
    }
    proof {
        assert(q@ =~= s7);
    }
    terminate_statement(&mut q);
    q
}

impl FieldInfo {
    /// A field of the given name with nothing else configured yet.
    pub fn new(name: String) -> (r: Self)
        ensures
            r.name == name,
            r.field_type is None,
            !r.type_is_flexible,
            r.default is None,
            !r.readonly,
            r.value is None,
            r.assertion is None,
            r.permissions@ == Seq::<PermissionInfo>::empty(),
    {
        let permissions: Vec<PermissionInfo> = Vec::new();
        proof {
            assert(permissions@ =~= Seq::<PermissionInfo>::empty());
        }
        FieldInfo {
            name,
            field_type: None,
            type_is_flexible: false,
            default: None,
            readonly: false,
            value: None,
            assertion: None,
            permissions,
        }
    }

    /// Render this field's definition statement on the given table. The
    /// statement always ends with a semicolon.
    pub fn generate_define_query(&self, table_name: &str) -> (r: String)
        ensures
            r@ == field_statement(*self, table_name@),
            ends_with_semicolon(r@),
    {
        proof {
            crate::text::lemma_terminated_ends_with_semicolon(
                field_body(
                    self.name@,
                    table_name@,
                    shape_of(self.field_type),
                    self.type_is_flexible,
                    opt_text(self.default),
                    self.readonly,
                    opt_text(self.value),
                    opt_text(self.assertion),
                    self.permissions@,
                ),
            );
        }
        build_define_field_query(
            self.name.as_str(),
            table_name,
            &self.field_type,
            self.type_is_flexible,
            &self.default,
            self.readonly,
            &self.value,
            &self.assertion,
            &self.permissions,
        )
    }
}

/// A field statement always ends in a semicolon; and when neither the table
/// name, the rendered type, the expressions nor the permission guards end
/// in one themselves, it ends in exactly one: the character before the
/// final semicolon is never another semicolon.
pub proof fn lemma_field_statement_single_terminator(f: FieldInfo, table: Seq<char>)
    requires
        !ends_with_semicolon(table),
        f.field_type matches Some(t) ==> !ends_with_semicolon(render_type(type_shape(t))),
        f.default matches Some(s) ==> !ends_with_semicolon(s@),
        f.value matches Some(s) ==> !ends_with_semicolon(s@),
        f.assertion matches Some(s) ==> !ends_with_semicolon(s@),
        forall|i: int|
            0 <= i < f.permissions@.len() ==> !ends_with_semicolon(guard_of(f.permissions@[i])),
    ensures
        ends_with_semicolon(field_statement(f, table)),
        !ends_with_semicolon(field_statement(f, table).drop_last()),
{
    reveal_strlit("DEFINE FIELD ");
    reveal_strlit(" ON ");
    reveal_strlit(" FLEXIBLE");
    reveal_strlit(" TYPE ");
    reveal_strlit(" DEFAULT ");
    reveal_strlit(" VALUE ");
    reveal_strlit(" READONLY");
    reveal_strlit(" ASSERT ");
    reveal_strlit(" PERMISSIONS ");
    reveal_strlit(";");
    let ty = shape_of(f.field_type);
    let perms = f.permissions@;
    let base_part = "DEFINE FIELD "@ + f.name@ + " ON "@ + table;
    lemma_concat_semicolon_free("DEFINE FIELD "@ + f.name@ + " ON "@, table);
    assert(!ends_with_semicolon(base_part));
    let flexible_part = flag_text(" FLEXIBLE"@, f.type_is_flexible);
    assert(!ends_with_semicolon(flexible_part));
    let type_part = type_clause(ty);
    assert(!ends_with_semicolon(type_part)) by {
        match ty {
            Some(t) => {
                if render_type(t).len() > 0 {
                    lemma_concat_semicolon_free(" TYPE "@, render_type(t));
                }
            },
            None => {},
        }
    }
    let default_part = clause_text(" DEFAULT "@, opt_text(f.default));
    assert(!ends_with_semicolon(default_part)) by {
        match opt_text(f.default) {
            Some(s) => {
                lemma_concat_semicolon_free(" DEFAULT "@, s);
            },
            None => {},
        }
    }
    let value_part = clause_text(" VALUE "@, opt_text(f.value));
    assert(!ends_with_semicolon(value_part)) by {
        match opt_text(f.value) {
            Some(s) => {
                lemma_concat_semicolon_free(" VALUE "@, s);
            },
            None => {},
        }
    }
    let readonly_part = flag_text(" READONLY"@, f.readonly);
    assert(!ends_with_semicolon(readonly_part));
    let assert_part = clause_text(" ASSERT "@, opt_text(f.assertion));
    assert(!ends_with_semicolon(assert_part)) by {
        match opt_text(f.assertion) {
            Some(s) => {
                lemma_concat_semicolon_free(" ASSERT "@, s);
            },
            None => {},
        }
    }
    let perms_part = permissions_clause(perms);
    assert(!ends_with_semicolon(perms_part)) by {
        match format_permissions_view(perms) {
            Some(p) => {
                lemma_permission_text_semicolon_free(perms);
                lemma_concat_semicolon_free(" PERMISSIONS "@, join_space(canonical_clauses(perms)));
            },
            None => {},
        }
    }
    let body = field_body(
        f.name@,
        table,
        ty,
        f.type_is_flexible,
        opt_text(f.default),
        f.readonly,
        opt_text(f.value),
        opt_text(f.assertion),
        perms,
    );
    lemma_concat_semicolon_free(base_part, flexible_part);
    lemma_concat_semicolon_free(base_part + flexible_part, type_part);
    lemma_concat_semicolon_free(base_part + flexible_part + type_part, default_part);
    lemma_concat_semicolon_free(base_part + flexible_part + type_part + default_part, value_part);
    lemma_concat_semicolon_free(base_part + flexible_part + type_part + default_part + value_part, readonly_part);
    lemma_concat_semicolon_free(base_part + flexible_part + type_part + default_part + value_part + readonly_part, assert_part);
    lemma_concat_semicolon_free(base_part + flexible_part + type_part + default_part + value_part + readonly_part + assert_part, perms_part);
    assert(!ends_with_semicolon(body));
    let st = field_statement(f, table);
    assert(st == body + ";"@);
    assert(st[st.len() - 1] == ';');
    assert(st.drop_last() =~= body);
}

} // verus!

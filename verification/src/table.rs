//! The table descriptor and the rendering of the complete schema
//! statement, with the optional build-time grammar check.

use vstd::prelude::*;
use vstd::string::*;

use crate::field::field_statement;
use crate::field::FieldInfo;
use crate::text::join_space;
use crate::text::join_with_space;
use crate::text::views_of_strings;
use crate::validate::grammar_accepts;
use crate::validate::parse_statement_text;
use crate::validate::ValidationConfig;
use crate::SchemaError;

verus! {

/// The table's name, an optional literal override statement, the optional
/// pre-rendered table-level permission text, and the fields in declaration
/// order. Built once per record type and rendered on demand.
#[derive(Debug)]
pub struct TableInfo {
    pub custom_query: Option<String>,
    pub table_name: String,
    pub permissions: Option<String>,
    pub fields: Vec<FieldInfo>,
}

/// Each field's rendered statement, in declaration order.
pub open spec fn field_statements(fs: Seq<FieldInfo>, table: Seq<char>) -> Seq<Seq<char>> {
    Seq::new(fs.len(), |i: int| field_statement(fs[i], table))
}

/// The table's own statement: `DEFINE TABLE <name>;`, with the permission
/// text inserted when present.
pub open spec fn table_head(t: TableInfo) -> Seq<char> {
    match t.permissions {
        Some(p) => "DEFINE TABLE "@ + t.table_name@ + " PERMISSIONS "@ + p@ + ";"@,
        None => "DEFINE TABLE "@ + t.table_name@ + ";"@,
    }
}

/// The complete schema statement: a custom override is returned verbatim
/// with nothing appended; otherwise the table statement is followed by each
/// field's statement in declaration order, separated by single spaces.
pub open spec fn table_statement(t: TableInfo) -> Seq<char> {
    match t.custom_query {
        Some(q) => q@,
        None => if t.fields@.len() == 0 {
            table_head(t)
        } else {
            table_head(t) + " "@ + join_space(field_statements(t.fields@, t.table_name@))
        },
    }
}

/// A custom full-statement override is the whole rendered output, byte for
/// byte: no field text is appended to it.
pub proof fn lemma_custom_query_is_verbatim(t: TableInfo)
    requires
        t.custom_query is Some,
    ensures
        table_statement(t) == t.custom_query->0@,
{
}

/// Table rendering preserves field declaration order exactly: the rendered
/// tail joins one statement per field, and its i-th one is the i-th
/// field's.
pub proof fn lemma_table_preserves_field_order(t: TableInfo, i: int)
    requires
        t.custom_query is None,
        t.fields@.len() > 0,
        0 <= i < t.fields@.len(),
    ensures
        table_statement(t) == table_head(t) + " "@ + join_space(
            field_statements(t.fields@, t.table_name@),
        ),
        field_statements(t.fields@, t.table_name@).len() == t.fields@.len(),
        field_statements(t.fields@, t.table_name@)[i] == field_statement(
            t.fields@[i],
            t.table_name@,
        ),
{
}

impl TableInfo {
    /// Render the complete schema statement.
    pub fn generate_define_query(&self) -> (r: String)
        ensures
            r@ == table_statement(*self),
    {
        match &self.custom_query {
            Some(q) => q.clone(),
            None => {
                let ghost all = field_statements(self.fields@, self.table_name@);
                let mut parts: Vec<String> = Vec::new();
                let mut i: usize = 0;
                while i < self.fields.len()
                    invariant
                        i <= self.fields@.len(),
                        all == field_statements(self.fields@, self.table_name@),
                        parts@.len() == i,
                        forall|j: int| 0 <= j < i ==> parts@[j]@ == all[j],
                    decreases self.fields@.len() - i,
                {
                    let fq = self.fields[i].generate_define_query(self.table_name.as_str());
                    parts.push(fq);
                    i += 1;
                }
                let mut q = String::new();
                q.append("DEFINE TABLE ");
                q.append(self.table_name.as_str());
                match &self.permissions {
                    Some(p) => {
                        q.append(" PERMISSIONS ");
                        q.append(p.as_str());
                    },
                    None => {},
                }
                q.append(";");
                proof {
                    assert(q@ =~= table_head(*self));
                }
                if parts.len() > 0 {
                    q.append(" ");
                    let joined = join_with_space(&parts);
                    q.append(joined.as_str());
                    proof {
                        assert(views_of_strings(parts@) =~= all);
                    }
                }
                q
            },
        }
    }

    /// Synthesize the statement for a consumer: render it and, when the
    /// build-time mode is on, hold it against the query grammar; a refusal
    /// carries the parser's message and the offending statement text.
    pub fn synthesize(&self, config: &ValidationConfig) -> (r: Result<String, SchemaError>)
        ensures
            !config.build_time ==> (r matches Ok(q) && q@ == table_statement(*self)),
            config.build_time && grammar_accepts(table_statement(*self)) ==> (r matches Ok(q)
                && q@ == table_statement(*self)),
            config.build_time && !grammar_accepts(table_statement(*self)) ==> (r matches Err(e)
                && e matches SchemaError::ValidationFailed(m, s) && s@ == table_statement(*self)),
    {
        let q = self.generate_define_query();
        if config.build_time {
            match parse_statement_text(q.as_str()) {
                Ok(()) => Ok(q),
                Err(m) => Err(SchemaError::ValidationFailed(m, q)),
            }
        } else {
            Ok(q)
        }
    }
}

} // verus!

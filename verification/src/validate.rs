//! The optional grammar-validation hook: a pass-through quality gate over
//! the finished statement text, disabled by default.

use vstd::prelude::*;
use vstd::string::*;

use crate::SchemaError;

verus! {

/// Whether the target query grammar accepts a statement text. The answer
/// is fixed by the text alone; nothing more is assumed about it.
pub uninterp spec fn grammar_accepts(statement: Seq<char>) -> bool;

/// When to run the grammar check: eagerly when the statement is
/// synthesized, each time it is retrieved for use, both, or — the
/// default — not at all.
#[derive(Debug)]
pub struct ValidationConfig {
    pub build_time: bool,
    pub use_time: bool,
}

impl Default for ValidationConfig {
    /// Both checks off: basic operation needs no grammar dependency.
    fn default() -> (r: Self)
        ensures
            !r.build_time,
            !r.use_time,
    {
        ValidationConfig { build_time: false, use_time: false }
    }
}

/// Relies on `surrealdb_core::sql::parse`: parses one statement text
/// against the query grammar, accepting or refusing it by the text alone;
/// on refusal the parser's message is handed back.
#[verifier::external_body]
pub(crate) fn parse_statement_text(statement: &str) -> (r: Result<(), String>)
    ensures
        r is Ok <==> grammar_accepts(statement@),
{
    match surrealdb_core::sql::parse(statement) {
        Ok(_) => Ok(()),
        Err(e) => Err(format!("{}", e)),
    }
}

/// Check an already-synthesized statement at its point of use: with the
/// use-time mode off every statement passes untouched; with it on, the
/// text must parse, and a refusal carries the parser's message and the
/// offending statement.
pub fn validate_at_use(statement: &str, config: &ValidationConfig) -> (r: Result<
    (),
    SchemaError,
>)
    ensures
        !config.use_time ==> r is Ok,
        config.use_time ==> (r is Ok <==> grammar_accepts(statement@)),
        r matches Err(e) ==> (e matches SchemaError::ValidationFailed(m, s) && s@ == statement@),
{
    if config.use_time {
        match parse_statement_text(statement) {
            Ok(()) => Ok(()),
            Err(m) => Err(SchemaError::ValidationFailed(m, statement.to_owned())),
        }
    } else {
        Ok(())
    }
}

} // verus!

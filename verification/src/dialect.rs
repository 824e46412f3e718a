//! Dialect classification of a resolved definition text: the presence of
//! the dialect-specific top-level keys decides whether the text is parsed
//! as a legacy definition or a suggested one, and a text carrying both
//! markers is rejected outright.

use vstd::prelude::*;

use crate::text::{contains_exec, contains_seq, str_chars};

verus! {

/// Which schema dialect a definition text declares.
#[derive(Clone, Copy, Debug, PartialEq, Eq, Structural)]
pub enum Dialect {
    /// The text carries a top-level `apis:` key and no `services:` key.
    Legacy,
    /// The text carries no top-level `apis:` key.
    Suggested,
    /// The text carries both dialects' top-level keys.
    Illegal,
}

/// The marker of the legacy dialect.
pub open spec fn legacy_marker() -> Seq<char> {
    "apis:\n"@
}

/// The marker of the suggested dialect.
pub open spec fn suggested_marker() -> Seq<char> {
    "services:\n"@
}

/// The dialect a text declares: both markers is illegal, the legacy
/// marker alone selects the legacy dialect, anything else is read as a
/// suggested-dialect definition.
pub open spec fn spec_classify(s: Seq<char>) -> Dialect {
    if contains_seq(s, legacy_marker()) && contains_seq(s, suggested_marker()) {
        Dialect::Illegal
    } else if contains_seq(s, legacy_marker()) {
        Dialect::Legacy
    } else {
        Dialect::Suggested
    }
}

/// Classifies a definition text by its top-level dialect markers.
pub fn classify_dialect(text: &str) -> (r: Dialect)
    ensures
        r == spec_classify(text@),
{
    let chars = str_chars(text);
    let legacy = str_chars("apis:\n");
    let suggested = str_chars("services:\n");
    let has_legacy = contains_exec(&chars, &legacy);
    let has_suggested = contains_exec(&chars, &suggested);
    if has_legacy && has_suggested {
        Dialect::Illegal
    } else if has_legacy {
        Dialect::Legacy
    } else {
        Dialect::Suggested
    }
}

/// The report given for a text that declares both dialects at once.
pub fn mixed_dialect_message() -> (r: String)
    ensures
        r@ == "yaml file cannot contains both 'apis' and 'services/routes' at the same time"@,
{
    String::from_str("yaml file cannot contains both 'apis' and 'services/routes' at the same time")
}

} // verus!

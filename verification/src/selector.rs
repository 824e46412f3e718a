//! Target-selector parsing. A suggested-dialect plugin names its targets
//! with the fixed grammar `global` | `s[name,name,...]` | `r[name,...]`,
//! where a name is one or more characters of `[-0-9a-zA-Z]`. A
//! legacy-dialect plugin names its target APIs with `all` | `none` | a
//! comma-separated list of API names.

use vstd::prelude::*;

use crate::entity::LegacyPluginAppliedType;
use crate::text::{
    chars_eq,
    chars_view,
    chars_to_string,
    find_char,
    find_char_from,
    str_chars,
    strings_view,
    subvec,
};

verus! {

/// A suggested-dialect plugin target as declared: the global collection,
/// or sets of declared service or route names, still unresolved.
#[derive(Debug, PartialEq)]
pub enum TargetSelector {
    Global,
    ServiceNames(Vec<String>),
    RouteNames(Vec<String>),
}

/// The target string matches none of the three selector forms: a fatal
/// definition error.
#[derive(Clone, Copy, Debug, PartialEq, Eq, Structural)]
pub struct InvalidTargetError;

impl InvalidTargetError {
    /// The report given for a target string outside the grammar.
    pub fn message(&self) -> (r: String)
        ensures
            r@
                == "invalid plugin defination: invalid target field, must one of global/services(s:[service-a,service-b,service-c])/routes(r:[route-a,route-b])"@,
    {
        String::from_str(
            "invalid plugin defination: invalid target field, must one of global/services(s:[service-a,service-b,service-c])/routes(r:[route-a,route-b])",
        )
    }
}

/// Splits a text on commas; a text without commas is one part, and every
/// comma separates two (possibly empty) parts.
pub open spec fn split_commas(s: Seq<char>) -> Seq<Seq<char>>
    decreases s.len(),
{
    match find_char_from(s, 0, ',') {
        Option::None => seq![s],
        Option::Some(j) => if 0 <= j < s.len() {
            seq![s.subrange(0, j)] + split_commas(s.subrange(j + 1, s.len() as int))
        } else {
            seq![s]
        },
    }
}

/// Splits a character vector on commas.
pub fn split_commas_chars(v: &Vec<char>) -> (r: Vec<Vec<char>>)
    ensures
        chars_view(r@) == split_commas(v@),
    decreases v@.len(),
{
    match find_char(v, 0, ',') {
        Option::None => {
            let mut out: Vec<Vec<char>> = Vec::new();
            out.push(subvec(v, 0, v.len()));
            assert(v@.subrange(0, v@.len() as int) =~= v@);
            assert(chars_view(out@) =~= split_commas(v@));
            out
        },
        Option::Some(j) => {
            let n = v.len();
            let head = subvec(v, 0, j);
            let tail = subvec(v, j + 1, n);
            let mut rest = split_commas_chars(&tail);
            let ghost rest_view = chars_view(rest@);
            let mut out: Vec<Vec<char>> = Vec::new();
            out.push(head);
            out.append(&mut rest);
            assert(chars_view(out@) =~= split_commas(v@)) by {
                assert forall|k: int| 0 <= k < out@.len() implies chars_view(out@)[k]
                    == split_commas(v@)[k] by {
                    if k > 0 {
                        assert(chars_view(out@)[k] == rest_view[k - 1]);
                    }
                }
            }
            out
        },
    }
}

/// A character a declared name may carry.
pub open spec fn is_name_char(c: char) -> bool {
    c == '-' || ('0' <= c && c <= '9') || ('a' <= c && c <= 'z') || ('A' <= c && c <= 'Z')
}

/// A well-formed declared name: nonempty, of name characters only.
pub open spec fn valid_name(s: Seq<char>) -> bool {
    s.len() > 0 && forall|k: int| 0 <= k < s.len() ==> is_name_char(s[k])
}

/// Every part of the comma-split body is a well-formed name.
pub open spec fn valid_parts(body: Seq<char>) -> bool {
    forall|k: int| 0 <= k < split_commas(body).len() ==> valid_name(#[trigger] split_commas(body)[k])
}

/// The selector has the bracketed shape `tag[...]`.
pub open spec fn is_bracket_form(s: Seq<char>, tag: char) -> bool {
    s.len() >= 4 && s[0] == tag && s[1] == '[' && s[s.len() - 1] == ']'
}

/// The text between the brackets.
pub open spec fn bracket_body(s: Seq<char>) -> Seq<char> {
    s.subrange(2, s.len() - 1)
}

/// Whether a single name is well formed.
fn is_valid_name_exec(v: &Vec<char>) -> (r: bool)
    ensures
        r == valid_name(v@),
{
    if v.len() == 0 {
        return false;
    }
    let n = v.len();
    let mut i: usize = 0;
    while i < n
        invariant
            i <= n,
            n == v@.len(),
            forall|k: int| 0 <= k < i ==> is_name_char(v@[k]),
        decreases n - i,
    {
        let c = v[i];
        let ok = c == '-' || ('0' <= c && c <= '9') || ('a' <= c && c <= 'z') || ('A' <= c && c
            <= 'Z');
        if !ok {
            assert(!is_name_char(v@[i as int]));
            return false;
        }
        i += 1;
    }
    true
}

/// Whether every part is a well-formed name.
fn all_valid_names(parts: &Vec<Vec<char>>) -> (r: bool)
    ensures
        r == (forall|k: int| 0 <= k < parts@.len() ==> valid_name(#[trigger] chars_view(parts@)[k])),
{
    let n = parts.len();
    let mut i: usize = 0;
    while i < n
        invariant
            i <= n,
            n == parts@.len(),
            forall|k: int| 0 <= k < i ==> valid_name(#[trigger] chars_view(parts@)[k]),
        decreases n - i,
    {
        if !is_valid_name_exec(&parts[i]) {
            assert(!valid_name(chars_view(parts@)[i as int]));
            return false;
        }
        i += 1;
    }
    true
}

/// Converts a list of character vectors into strings.
fn parts_to_strings(parts: Vec<Vec<char>>) -> (r: Vec<String>)
    ensures
        strings_view(r@) == chars_view(parts@),
{
    let n = parts.len();
    let mut r: Vec<String> = Vec::new();
    let mut i: usize = 0;
    while i < n
        invariant
            i <= n,
            n == parts@.len(),
            r@.len() == i,
            forall|k: int| 0 <= k < i ==> #[trigger] r@[k]@ == parts@[k]@,
        decreases n - i,
    {
        r.push(chars_to_string(&parts[i]));
        i += 1;
    }
    assert(strings_view(r@) =~= chars_view(parts@)) by {
        assert forall|k: int| 0 <= k < n implies strings_view(r@)[k] == chars_view(parts@)[k] by {
            assert(strings_view(r@)[k] == r@[k]@);
            assert(chars_view(parts@)[k] == parts@[k]@);
        }
    }
    r
}

/// Parses a suggested-dialect plugin target selector: `global` selects
/// the global collection; `s[...]` and `r[...]` carry comma-separated
/// well-formed names of services and routes; any other literal is a
/// fatal definition error.
pub fn parse_plugin_target(target: &str) -> (r: Result<TargetSelector, InvalidTargetError>)
    ensures
        target@ == "global"@ ==> r == Ok::<TargetSelector, InvalidTargetError>(
            TargetSelector::Global,
        ),
        target@ != "global"@ && is_bracket_form(target@, 's') && valid_parts(bracket_body(target@))
            ==> (r matches Ok(TargetSelector::ServiceNames(v)) && strings_view(v@) == split_commas(
            bracket_body(target@),
        )),
        target@ != "global"@ && is_bracket_form(target@, 'r') && valid_parts(bracket_body(target@))
            ==> (r matches Ok(TargetSelector::RouteNames(v)) && strings_view(v@) == split_commas(
            bracket_body(target@),
        )),
        !(target@ == "global"@ || (is_bracket_form(target@, 's') && valid_parts(
            bracket_body(target@),
        )) || (is_bracket_form(target@, 'r') && valid_parts(bracket_body(target@)))) ==> r
            is Err,
{
    let chars = str_chars(target);
    if chars_eq(&chars, &str_chars("global")) {
        return Ok(TargetSelector::Global);
    }
    if chars.len() >= 4 && chars[1] == '[' && chars[chars.len() - 1] == ']' {
        let tag = chars[0];
        if tag == 's' || tag == 'r' {
            let body = subvec(&chars, 2, chars.len() - 1);
            let parts = split_commas_chars(&body);
            if all_valid_names(&parts) {
                let names = parts_to_strings(parts);
                if tag == 's' {
                    return Ok(TargetSelector::ServiceNames(names));
                } else {
                    return Ok(TargetSelector::RouteNames(names));
                }
            }
        }
    }
    Err(InvalidTargetError)
}

/// Parses a legacy-dialect target-API selector: `all` applies the plugin
/// once at the unscoped collection, `none` skips it, and any other
/// literal is read as a comma-separated list of API names.
pub fn parse_legacy_target(target: &str) -> (r: (LegacyPluginAppliedType, Option<Vec<String>>))
    ensures
        target@ == "all"@ ==> r.0 == LegacyPluginAppliedType::ALL && r.1 is None,
        target@ == "none"@ ==> r.0 == LegacyPluginAppliedType::NONE && r.1 is None,
        target@ != "all"@ && target@ != "none"@ ==> r.0 == LegacyPluginAppliedType::SOME && (
        r.1 matches Some(v) && strings_view(v@) == split_commas(target@)),
{
    proof {
        reveal_strlit("all");
        reveal_strlit("none");
        assert("all"@.len() == 3 && "none"@.len() == 4);
    }
    let chars = str_chars(target);
    if chars_eq(&chars, &str_chars("all")) {
        (LegacyPluginAppliedType::ALL, None)
    } else if chars_eq(&chars, &str_chars("none")) {
        (LegacyPluginAppliedType::NONE, None)
    } else {
        let parts = split_commas_chars(&chars);
        (LegacyPluginAppliedType::SOME, Some(parts_to_strings(parts)))
    }
}

} // verus!

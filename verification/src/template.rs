//! Template resolution: a two-pass rewrite of the raw definition text.
//! Pass one substitutes environment values for `${NAME}` markers; a marker
//! whose variable is unset stays in the text untouched. Pass two
//! substitutes resolved values for `{{kind:argument}}` directive markers;
//! each distinct placeholder is resolved at most once, every occurrence
//! of it receives the same value, and an unresolved placeholder stays in
//! the text untouched. The environment and the directive resolutions are
//! handed in as plain lists of pairs; executing a directive against the
//! gateway happens between the two passes, outside this module.

use vstd::prelude::*;

use crate::kv::{assoc_get, assoc_lookup, pairs_view};
use crate::text::{chars_eq, chars_to_string, find_char, find_char_from, push_all, str_chars, subvec};

verus! {

/// The position of the first `}` at or after `i`, unless a line break
/// comes first: a marker's name may not span lines.
pub open spec fn find_close(s: Seq<char>, i: int) -> Option<int>
    decreases s.len() - i,
{
    if i < 0 || i >= s.len() {
        None
    } else if s[i] == '}' {
        Some(i)
    } else if s[i] == '\n' {
        None
    } else {
        find_close(s, i + 1)
    }
}

/// An environment marker `${NAME}` with a nonempty name starts at `i`.
pub open spec fn env_marker_at(s: Seq<char>, i: int) -> bool {
    &&& 0 <= i
    &&& i + 1 < s.len()
    &&& s[i] == '$'
    &&& s[i + 1] == '{'
    &&& match find_close(s, i + 2) {
        Some(j) => i + 2 < j < s.len(),
        None => false,
    }
}

/// No environment marker occurs anywhere in the text.
pub open spec fn no_env_markers(s: Seq<char>) -> bool {
    forall|i: int| !env_marker_at(s, i)
}

/// One left-to-right pass of environment substitution: each `${NAME}`
/// marker whose name the environment resolves is replaced by the value;
/// a marker with an unset name stays unchanged; substituted values are
/// not rescanned.
pub open spec fn env_subst(s: Seq<char>, env: Seq<(Seq<char>, Seq<char>)>) -> Seq<char>
    decreases s.len(),
{
    if s.len() < 2 {
        s
    } else if s[0] == '$' && s[1] == '{' {
        match find_close(s, 2) {
            Some(j) => if 2 < j < s.len() {
                let name = s.subrange(2, j);
                let rest = s.subrange(j + 1, s.len() as int);
                match assoc_lookup(env, name) {
                    Some(value) => value + env_subst(rest, env),
                    None => s.subrange(0, j + 1) + env_subst(rest, env),
                }
            } else {
                seq![s[0]] + env_subst(s.subrange(1, s.len() as int), env)
            },
            None => seq![s[0]] + env_subst(s.subrange(1, s.len() as int), env),
        }
    } else {
        seq![s[0]] + env_subst(s.subrange(1, s.len() as int), env)
    }
}

/// Finds the first `}` at or after `from`, stopping at a line break.
fn find_close_exec(s: &Vec<char>, from: usize) -> (r: Option<usize>)
    ensures
        match r {
            Some(j) => find_close(s@, from as int) == Some(j as int) && from <= j < s@.len(),
            None => find_close(s@, from as int) is None,
        },
{
    let n = s.len();
    let mut i: usize = from;
    while i < n
        invariant
            from <= i,
            n == s@.len(),
            find_close(s@, from as int) == find_close(s@, i as int),
        decreases n - i,
    {
        if s[i] == '}' {
            return Some(i);
        }
        if s[i] == '\n' {
            return None;
        }
        i += 1;
    }
    None
}

/// Shifting the scan for a closing brace onto a suffix of the text moves
/// its answer by the suffix's offset.
proof fn lemma_find_close_shift(s: Seq<char>, p: int, i: int)
    requires
        0 <= p <= i,
        p <= s.len(),
    ensures
        find_close(s.subrange(p, s.len() as int), i - p) == match find_close(s, i) {
            Some(j) => Some(j - p),
            None => None::<int>,
        },
    decreases s.len() - i,
{
    if i < s.len() {
        if s[i] != '}' && s[i] != '\n' {
            lemma_find_close_shift(s, p, i + 1);
        }
    }
}

/// Substitutes environment values for `${NAME}` markers; see
/// [`env_subst`].
pub fn replace_env(input: &str, env: &Vec<(String, String)>) -> (r: String)
    ensures
        r@ == env_subst(input@, pairs_view(env@)),
{
    let s = str_chars(input);
    let n = s.len();
    let ghost em = pairs_view(env@);
    let mut out: Vec<char> = Vec::new();
    let mut p: usize = 0;
    assert(s@.subrange(0, n as int) =~= s@);
    assert(out@ + env_subst(s@, em) =~= env_subst(s@, em));
    while p < n
        invariant
            p <= n,
            n == s@.len(),
            s@ == input@,
            em == pairs_view(env@),
            env_subst(input@, em) == out@ + env_subst(s@.subrange(p as int, n as int), em),
        decreases n - p,
    {
        let ghost sfx = s@.subrange(p as int, n as int);
        proof {
            lemma_find_close_shift(s@, p as int, p + 2);
        }
        let mut plain = true;
        if s[p] == '$' && p + 1 < n && s[p + 1] == '{' {
            let close = find_close_exec(&s, p + 2);
            match close {
                Some(j) if j > p + 2 => {
                    plain = false;
                    proof {
                        assert(sfx[0] == '$' && sfx[1] == '{');
                        assert(env_marker_at(sfx, 0));
                        assert(find_close(sfx, 2) == Some(j - p as int));
                        assert(sfx.subrange(2, j - p as int) =~= s@.subrange(p + 2, j as int));
                        assert(sfx.subrange(j - p as int + 1, sfx.len() as int) =~= s@.subrange(
                            j + 1,
                            n as int,
                        ));
                        assert(sfx.subrange(0, j - p as int + 1) =~= s@.subrange(
                            p as int,
                            j + 1,
                        ));
                    }
                    let name_chars = subvec(&s, p + 2, j);
                    let name = chars_to_string(&name_chars);
                    match assoc_get(env, &name) {
                        Some(value) => {
                            let value_chars = str_chars(value.as_str());
                            push_all(&mut out, &value_chars);
                        },
                        None => {
                            let marker = subvec(&s, p, j + 1);
                            push_all(&mut out, &marker);
                        },
                    }
                    p = j + 1;
                },
                _ => {},
            }
        }
        if plain {
            proof {
                assert(!(sfx.len() >= 2 && sfx[0] == '$' && sfx[1] == '{' && env_marker_at(
                    sfx,
                    0,
                )));
                if sfx.len() >= 2 {
                    assert(sfx.subrange(1, sfx.len() as int) =~= s@.subrange(p + 1, n as int));
                    assert(seq![sfx[0]] =~= s@.subrange(p as int, p + 1));
                }
            }
            out.push(s[p]);
            p = p + 1;
        }
    }
    assert(s@.subrange(n as int, n as int) =~= Seq::<char>::empty());
    assert(out@ == env_subst(input@, em));
    chars_to_string(&out)
}

/// A text without environment markers passes through environment
/// substitution unchanged; in particular one substitution pass is
/// idempotent as soon as its output carries no further markers.
pub proof fn lemma_env_subst_identity(s: Seq<char>, env: Seq<(Seq<char>, Seq<char>)>)
    requires
        no_env_markers(s),
    ensures
        env_subst(s, env) == s,
    decreases s.len(),
{
    if s.len() >= 2 {
        assert(!env_marker_at(s, 0));
        let tail = s.subrange(1, s.len() as int);
        assert forall|i: int| !env_marker_at(tail, i) by {
            if 0 <= i && i + 1 < tail.len() {
                lemma_find_close_shift(s, 1, i + 3);
                assert(tail == s.subrange(1, s.len() as int));
                if env_marker_at(tail, i) {
                    assert(env_marker_at(s, i + 1));
                }
            }
        }
        lemma_env_subst_identity(tail, env);
        assert(seq![s[0]] + tail =~= s);
    }
}

/// Environment substitution is idempotent on a text whose first pass
/// leaves no marker behind.
pub proof fn lemma_env_subst_idempotent(s: Seq<char>, env: Seq<(Seq<char>, Seq<char>)>)
    requires
        no_env_markers(env_subst(s, env)),
    ensures
        env_subst(env_subst(s, env), env) == env_subst(s, env),
{
    lemma_env_subst_identity(env_subst(s, env), env);
}

/// The position of the first `}}` pair at or after `i`, unless a line
/// break comes first.
pub open spec fn find_dclose(s: Seq<char>, i: int) -> Option<int>
    decreases s.len() - i,
{
    if i < 0 || i >= s.len() {
        None
    } else if s[i] == '}' && i + 1 < s.len() && s[i + 1] == '}' {
        Some(i)
    } else if s[i] == '\n' {
        None
    } else {
        find_dclose(s, i + 1)
    }
}

/// A directive marker `{{kind:argument}}` with nonempty content starts
/// at `i`.
pub open spec fn dir_marker_at(s: Seq<char>, i: int) -> bool {
    &&& 0 <= i
    &&& i + 1 < s.len()
    &&& s[i] == '{'
    &&& s[i + 1] == '{'
    &&& match find_dclose(s, i + 2) {
        Some(j) => i + 2 < j && j + 1 < s.len(),
        None => false,
    }
}

/// One left-to-right pass of directive substitution: each `{{content}}`
/// marker whose content the resolutions carry is replaced by the resolved
/// value — every occurrence of one content receives the same value — and
/// a marker without a resolution stays unchanged.
pub open spec fn dir_subst(s: Seq<char>, res: Seq<(Seq<char>, Seq<char>)>) -> Seq<char>
    decreases s.len(),
{
    if s.len() < 2 {
        s
    } else if s[0] == '{' && s[1] == '{' {
        match find_dclose(s, 2) {
            Some(j) => if 2 < j && j + 1 < s.len() {
                let content = s.subrange(2, j);
                let rest = s.subrange(j + 2, s.len() as int);
                match assoc_lookup(res, content) {
                    Some(value) => value + dir_subst(rest, res),
                    None => s.subrange(0, j + 2) + dir_subst(rest, res),
                }
            } else {
                seq![s[0]] + dir_subst(s.subrange(1, s.len() as int), res)
            },
            None => seq![s[0]] + dir_subst(s.subrange(1, s.len() as int), res),
        }
    } else {
        seq![s[0]] + dir_subst(s.subrange(1, s.len() as int), res)
    }
}

/// The contents of every directive marker in the text, left to right,
/// repetitions included.
pub open spec fn dir_contents(s: Seq<char>) -> Seq<Seq<char>>
    decreases s.len(),
{
    if s.len() < 2 {
        Seq::empty()
    } else if s[0] == '{' && s[1] == '{' {
        match find_dclose(s, 2) {
            Some(j) => if 2 < j && j + 1 < s.len() {
                seq![s.subrange(2, j)] + dir_contents(s.subrange(j + 2, s.len() as int))
            } else {
                dir_contents(s.subrange(1, s.len() as int))
            },
            None => dir_contents(s.subrange(1, s.len() as int)),
        }
    } else {
        dir_contents(s.subrange(1, s.len() as int))
    }
}

/// Finds the first `}}` pair at or after `from`, stopping at a line
/// break.
fn find_dclose_exec(s: &Vec<char>, from: usize) -> (r: Option<usize>)
    ensures
        match r {
            Some(j) => find_dclose(s@, from as int) == Some(j as int) && from <= j && j + 1
                < s@.len(),
            None => find_dclose(s@, from as int) is None,
        },
{
    let n = s.len();
    let mut i: usize = from;
    while i < n
        invariant
            from <= i,
            n == s@.len(),
            find_dclose(s@, from as int) == find_dclose(s@, i as int),
        decreases n - i,
    {
        if s[i] == '}' && i + 1 < n && s[i + 1] == '}' {
            return Some(i);
        }
        if s[i] == '\n' {
            return None;
        }
        i += 1;
    }
    None
}

/// Shifting the scan for a closing pair onto a suffix of the text moves
/// its answer by the suffix's offset.
proof fn lemma_find_dclose_shift(s: Seq<char>, p: int, i: int)
    requires
        0 <= p <= i,
        p <= s.len(),
    ensures
        find_dclose(s.subrange(p, s.len() as int), i - p) == match find_dclose(s, i) {
            Some(j) => Some(j - p),
            None => None::<int>,
        },
    decreases s.len() - i,
{
    if i < s.len() {
        if !(s[i] == '}' && i + 1 < s.len() && s[i + 1] == '}') && s[i] != '\n' {
            lemma_find_dclose_shift(s, p, i + 1);
        }
    }
}

/// Substitutes resolved values for `{{...}}` directive markers; see
/// [`dir_subst`].
pub fn apply_directives(input: &str, resolutions: &Vec<(String, String)>) -> (r: String)
    ensures
        r@ == dir_subst(input@, pairs_view(resolutions@)),
{
    let s = str_chars(input);
    let n = s.len();
    let ghost rm = pairs_view(resolutions@);
    let mut out: Vec<char> = Vec::new();
    let mut p: usize = 0;
    assert(s@.subrange(0, n as int) =~= s@);
    assert(out@ + dir_subst(s@, rm) =~= dir_subst(s@, rm));
    while p < n
        invariant
            p <= n,
            n == s@.len(),
            s@ == input@,
            rm == pairs_view(resolutions@),
            dir_subst(input@, rm) == out@ + dir_subst(s@.subrange(p as int, n as int), rm),
        decreases n - p,
    {
        let ghost sfx = s@.subrange(p as int, n as int);
        proof {
            lemma_find_dclose_shift(s@, p as int, p + 2);
        }
        let mut plain = true;
        if s[p] == '{' && p + 1 < n && s[p + 1] == '{' {
            let close = find_dclose_exec(&s, p + 2);
            match close {
                Some(j) if j > p + 2 => {
                    plain = false;
                    proof {
                        assert(sfx[0] == '{' && sfx[1] == '{');
                        assert(find_dclose(sfx, 2) == Some(j - p as int));
                        assert(sfx.subrange(2, j - p as int) =~= s@.subrange(p + 2, j as int));
                        assert(sfx.subrange(j - p as int + 2, sfx.len() as int) =~= s@.subrange(
                            j + 2,
                            n as int,
                        ));
                        assert(sfx.subrange(0, j - p as int + 2) =~= s@.subrange(
                            p as int,
                            j + 2,
                        ));
                    }
                    let content_chars = subvec(&s, p + 2, j);
                    let content = chars_to_string(&content_chars);
                    match assoc_get(resolutions, &content) {
                        Some(value) => {
                            let value_chars = str_chars(value.as_str());
                            push_all(&mut out, &value_chars);
                        },
                        None => {
                            let marker = subvec(&s, p, j + 2);
                            push_all(&mut out, &marker);
                        },
                    }
                    p = j + 2;
                },
                _ => {},
            }
        }
        if plain {
            proof {
                if sfx.len() >= 2 {
                    assert(sfx.subrange(1, sfx.len() as int) =~= s@.subrange(p + 1, n as int));
                    assert(seq![sfx[0]] =~= s@.subrange(p as int, p + 1));
                }
            }
            out.push(s[p]);
            p = p + 1;
        }
    }
    assert(s@.subrange(n as int, n as int) =~= Seq::<char>::empty());
    chars_to_string(&out)
}

/// Whether some string of the vector reads as the given one.
fn strings_contain(v: &Vec<String>, x: &String) -> (r: bool)
    ensures
        r == exists|k: int| 0 <= k < v@.len() && v@[k]@ == x@,
{
    let n = v.len();
    let mut i: usize = 0;
    while i < n
        invariant
            i <= n,
            n == v@.len(),
            forall|k: int| 0 <= k < i ==> v@[k]@ != x@,
        decreases n - i,
    {
        if v[i] == *x {
            return true;
        }
        i += 1;
    }
    false
}

/// Collects the distinct directive placeholders of the text: each
/// distinct content appears exactly once in the result, however often it
/// repeats in the text, so each is resolved at most once.
pub fn scan_directives(input: &str) -> (r: Vec<String>)
    ensures
        forall|k1: int, k2: int| 0 <= k1 < k2 < r@.len() ==> r@[k1]@ != r@[k2]@,
        forall|k: int| 0 <= k < r@.len() ==> dir_contents(input@).contains(#[trigger] r@[k]@),
        forall|c: Seq<char>|
            dir_contents(input@).contains(c) ==> exists|k: int|
                0 <= k < r@.len() && #[trigger] r@[k]@ == c,
{
    let s = str_chars(input);
    let n = s.len();
    let mut r: Vec<String> = Vec::new();
    let ghost mut seen: Seq<Seq<char>> = Seq::empty();
    let mut p: usize = 0;
    assert(s@.subrange(0, n as int) =~= s@);
    assert(seen + dir_contents(s@) =~= dir_contents(s@));
    while p < n
        invariant
            p <= n,
            n == s@.len(),
            s@ == input@,
            dir_contents(input@) == seen + dir_contents(s@.subrange(p as int, n as int)),
            forall|k: int| 0 <= k < r@.len() ==> seen.contains(#[trigger] r@[k]@),
            forall|c: Seq<char>|
                seen.contains(c) ==> exists|k: int| 0 <= k < r@.len() && #[trigger] r@[k]@ == c,
            forall|k1: int, k2: int| 0 <= k1 < k2 < r@.len() ==> r@[k1]@ != r@[k2]@,
        decreases n - p,
    {
        let ghost sfx = s@.subrange(p as int, n as int);
        proof {
            lemma_find_dclose_shift(s@, p as int, p + 2);
        }
        let mut plain = true;
        if s[p] == '{' && p + 1 < n && s[p + 1] == '{' {
            let close = find_dclose_exec(&s, p + 2);
            match close {
                Some(j) if j > p + 2 => {
                    plain = false;
                    proof {
                        assert(sfx[0] == '{' && sfx[1] == '{');
                        assert(find_dclose(sfx, 2) == Some(j - p as int));
                        assert(sfx.subrange(2, j - p as int) =~= s@.subrange(p + 2, j as int));
                        assert(sfx.subrange(j - p as int + 2, sfx.len() as int) =~= s@.subrange(
                            j + 2,
                            n as int,
                        ));
                    }
                    let content_chars = subvec(&s, p + 2, j);
                    let content = chars_to_string(&content_chars);
                    let ghost c = content@;
                    let had = strings_contain(&r, &content);
                    let ghost old_r = r@;
                    let ghost old_seen = seen;
                    if !had {
                        r.push(content);
                    }
                    proof {
                        let rest = s@.subrange(j + 2, n as int);
                        assert(dir_contents(sfx) == seq![c] + dir_contents(rest));
                        assert(seen + dir_contents(sfx) =~= seen.push(c) + dir_contents(rest));
                        seen = seen.push(c);
                        assert(seen[seen.len() - 1] == c);
                        assert forall|k: int| 0 <= k < r@.len() implies seen.contains(
                            #[trigger] r@[k]@,
                        ) by {
                            if k < old_r.len() {
                                assert(old_seen.contains(old_r[k]@));
                                let i = choose|i: int|
                                    0 <= i < old_seen.len() && old_seen[i] == old_r[k]@;
                                assert(seen[i] == r@[k]@);
                            } else {
                                assert(r@[k]@ == c);
                            }
                        }
                        assert forall|c2: Seq<char>| seen.contains(c2) implies exists|k: int|
                            0 <= k < r@.len() && #[trigger] r@[k]@ == c2 by {
                            let i = choose|i: int| 0 <= i < seen.len() && seen[i] == c2;
                            if i < old_seen.len() {
                                assert(old_seen[i] == c2);
                                assert(old_seen.contains(c2));
                                let k = choose|k: int| 0 <= k < old_r.len() && old_r[k]@ == c2;
                                assert(r@[k]@ == c2);
                            } else {
                                assert(c2 == c);
                                if had {
                                    let k = choose|k: int|
                                        0 <= k < old_r.len() && old_r[k]@ == c;
                                    assert(r@[k]@ == c2);
                                } else {
                                    assert(r@[old_r.len() as int]@ == c2);
                                }
                            }
                        }
                        if !had {
                            assert forall|k1: int, k2: int| 0 <= k1 < k2 < r@.len() implies r@[k1]@
                                != r@[k2]@ by {
                                if k2 == old_r.len() {
                                    assert(r@[k1]@ == old_r[k1]@);
                                }
                            }
                        }
                    }
                    p = j + 2;
                },
                _ => {},
            }
        }
        if plain {
            proof {
                if sfx.len() >= 2 {
                    assert(sfx.subrange(1, sfx.len() as int) =~= s@.subrange(p + 1, n as int));
                }
            }
            p = p + 1;
        }
    }
    proof {
        assert(s@.subrange(n as int, n as int) =~= Seq::<char>::empty());
        assert(dir_contents(input@) =~= seen);
    }
    r
}

/// The directive kind: the content up to the first colon, or the whole
/// content when it carries none.
pub open spec fn directive_kind(c: Seq<char>) -> Seq<char> {
    match find_char_from(c, 0, ':') {
        Some(j) => if 0 <= j <= c.len() {
            c.subrange(0, j)
        } else {
            c
        },
        None => c,
    }
}

/// The directive argument: the content after the first colon, or empty
/// when the content carries none.
pub open spec fn directive_arg(c: Seq<char>) -> Seq<char> {
    match find_char_from(c, 0, ':') {
        Some(j) => if 0 <= j < c.len() {
            c.subrange(j + 1, c.len() as int)
        } else {
            Seq::empty()
        },
        None => Seq::empty(),
    }
}

/// A recognized directive invocation, or the record of an unrecognized
/// kind, which is reported and left unresolved.
#[derive(Debug, PartialEq)]
pub enum Directive {
    /// Create (or fetch on conflict) a consumer with the argument as its
    /// custom identifier and username, and substitute its identifier.
    UpsertConsumer(String),
    /// An unrecognized directive kind.
    Unknown(String),
}

/// Splits a placeholder content on its first colon and classifies the
/// directive kind; `k-upsert-consumer` is the one recognized kind.
pub fn parse_directive(content: &str) -> (r: Directive)
    ensures
        directive_kind(content@) == "k-upsert-consumer"@ ==> (r matches Directive::UpsertConsumer(a)
            && a@ == directive_arg(content@)),
        directive_kind(content@) != "k-upsert-consumer"@ ==> (r matches Directive::Unknown(k) && k@
            == directive_kind(content@)),
{
    let chars = str_chars(content);
    let n = chars.len();
    let (kind_chars, arg_chars) = match find_char(&chars, 0, ':') {
        Some(j) => (subvec(&chars, 0, j), subvec(&chars, j + 1, n)),
        None => (subvec(&chars, 0, n), Vec::<char>::new()),
    };
    assert(chars@.subrange(0, n as int) =~= chars@);
    let kind = chars_to_string(&kind_chars);
    if chars_eq(&kind_chars, &str_chars("k-upsert-consumer")) {
        Directive::UpsertConsumer(chars_to_string(&arg_chars))
    } else {
        Directive::Unknown(kind)
    }
}

/// The full text of a directive marker with the given content.
pub open spec fn dir_marker_text(c: Seq<char>) -> Seq<char> {
    seq!['{', '{'] + c + seq!['}', '}']
}

/// A content that a directive marker can carry without being cut short:
/// nonempty, free of line breaks, with no closing pair inside and no
/// trailing closing brace.
pub open spec fn valid_dir_content(c: Seq<char>) -> bool {
    &&& c.len() > 0
    &&& forall|k: int| 0 <= k < c.len() ==> c[k] != '\n'
    &&& forall|k: int| 0 <= k < c.len() - 1 ==> !(#[trigger] c[k] == '}' && c[k + 1] == '}')
    &&& c[c.len() - 1] != '}'
}

/// A region free of closing pairs and line breaks scans through to the
/// closing pair at its end.
proof fn lemma_find_dclose_region(t: Seq<char>, i: int, target: int)
    requires
        0 <= i <= target,
        target + 1 < t.len(),
        t[target] == '}',
        t[target + 1] == '}',
        forall|p: int| i <= p < target ==> t[p] != '\n',
        forall|p: int| i <= p < target ==> !(#[trigger] t[p] == '}' && t[p + 1] == '}'),
    ensures
        find_dclose(t, i) == Some(target),
    decreases target - i,
{
    if i < target {
        lemma_find_dclose_region(t, i + 1, target);
    }
}

/// Unfolding directive substitution at a resolved marker: the marker
/// becomes exactly the resolved value, and the pass continues behind it.
pub proof fn lemma_dir_subst_resolved(
    c: Seq<char>,
    v: Seq<char>,
    rest: Seq<char>,
    res: Seq<(Seq<char>, Seq<char>)>,
)
    requires
        valid_dir_content(c),
        assoc_lookup(res, c) == Some(v),
    ensures
        dir_subst(dir_marker_text(c) + rest, res) == v + dir_subst(rest, res),
{
    let t = dir_marker_text(c) + rest;
    let target = c.len() as int + 2;
    assert(t.len() == c.len() + 4 + rest.len());
    assert(t[0] == '{' && t[1] == '{');
    assert(t[target] == '}' && t[target + 1] == '}');
    assert forall|p: int| 2 <= p < target implies #[trigger] t[p] != '\n' && !(t[p] == '}' && t[p
        + 1] == '}') by {
        assert(t[p] == c[p - 2]);
        if p < target - 1 {
            assert(t[p + 1] == c[p - 1]);
        } else {
            assert(t[p] == c[c.len() - 1]);
        }
    }
    lemma_find_dclose_region(t, 2, target);
    assert(t.subrange(2, target) =~= c);
    assert(t.subrange(target + 2, t.len() as int) =~= rest);
}

/// Unfolding the content scan at a marker: the marker contributes its
/// content once, and the scan continues behind it.
pub proof fn lemma_dir_contents_marker(c: Seq<char>, rest: Seq<char>)
    requires
        valid_dir_content(c),
    ensures
        dir_contents(dir_marker_text(c) + rest) == seq![c] + dir_contents(rest),
{
    let t = dir_marker_text(c) + rest;
    let target = c.len() as int + 2;
    assert(t.len() == c.len() + 4 + rest.len());
    assert(t[0] == '{' && t[1] == '{');
    assert(t[target] == '}' && t[target + 1] == '}');
    assert forall|p: int| 2 <= p < target implies #[trigger] t[p] != '\n' && !(t[p] == '}' && t[p
        + 1] == '}') by {
        assert(t[p] == c[p - 2]);
        if p < target - 1 {
            assert(t[p + 1] == c[p - 1]);
        } else {
            assert(t[p] == c[c.len() - 1]);
        }
    }
    lemma_find_dclose_region(t, 2, target);
    assert(t.subrange(2, target) =~= c);
    assert(t.subrange(target + 2, t.len() as int) =~= rest);
}

/// However often one placeholder repeats in the text, the scan sees that
/// one content and nothing else — so it is handed out for resolution
/// exactly once.
pub proof fn lemma_dir_contents_uniform(c: Seq<char>, n: nat)
    requires
        valid_dir_content(c),
    ensures
        dir_contents(repeat_seq(dir_marker_text(c), n)) == Seq::new(n, |i: int| c),
    decreases n,
{
    if n == 0 {
        assert(dir_contents(Seq::empty()) =~= Seq::<Seq<char>>::empty());
        assert(Seq::new(0, |i: int| c) =~= Seq::<Seq<char>>::empty());
    } else {
        lemma_dir_contents_uniform(c, (n - 1) as nat);
        lemma_dir_contents_marker(c, repeat_seq(dir_marker_text(c), (n - 1) as nat));
        assert(seq![c] + Seq::new((n - 1) as nat, |i: int| c) =~= Seq::new(n, |i: int| c));
    }
}

/// `n` copies of a text in a row.
pub open spec fn repeat_seq(s: Seq<char>, n: nat) -> Seq<char>
    decreases n,
{
    if n == 0 {
        Seq::empty()
    } else {
        s + repeat_seq(s, (n - 1) as nat)
    }
}

/// However often one placeholder repeats in the text, every occurrence
/// receives the one identical resolved value.
pub proof fn lemma_dir_subst_uniform(
    c: Seq<char>,
    v: Seq<char>,
    res: Seq<(Seq<char>, Seq<char>)>,
    n: nat,
)
    requires
        valid_dir_content(c),
        assoc_lookup(res, c) == Some(v),
    ensures
        dir_subst(repeat_seq(dir_marker_text(c), n), res) == repeat_seq(v, n),
    decreases n,
{
    if n == 0 {
        assert(dir_subst(Seq::empty(), res) =~= Seq::<char>::empty());
    } else {
        lemma_dir_subst_uniform(c, v, res, (n - 1) as nat);
        lemma_dir_subst_resolved(c, v, repeat_seq(dir_marker_text(c), (n - 1) as nat), res);
    }
}

/// The two passes in their fixed order: environment substitution first,
/// then directive substitution, so an environment value may appear
/// inside a directive argument.
pub fn resolve_template(
    input: &str,
    env: &Vec<(String, String)>,
    resolutions: &Vec<(String, String)>,
) -> (r: String)
    ensures
        r@ == dir_subst(env_subst(input@, pairs_view(env@)), pairs_view(resolutions@)),
{
    let after_env = replace_env(input, env);
    apply_directives(after_env.as_str(), resolutions)
}

} // verus!

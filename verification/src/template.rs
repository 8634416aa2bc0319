//! The template strategy: validation of a placeholder template at
//! spec-compile time, and placeholder substitution at run time.
//!
//! Validation strips all whitespace, masks every `"{{...}}"` that spans
//! a whole quoted string with the dummy literal `"a"`, masks every
//! remaining `{{...}}` with the bare literal `1`, and hands the result
//! to the standard JSON parser; a parse failure rejects the template
//! with a diagnostic. Both masking passes are textual rewrites, not
//! structure-aware ones: they replace every leftmost, non-overlapping,
//! shortest occurrence, wherever it stands.

use crate::escape::escape_chars;
use crate::escape::escape_seq;
use crate::text::chars_of;
use crate::text::push_all;
use crate::text::remove_whitespace;
use crate::text::replace_all;
use crate::text::replace_all_chars;
use crate::text::string_of;
use crate::text::strip_whitespace;
use vstd::prelude::*;
use vstd::string::StringExecFns;

verus! {

/// Whether a text parses as JSON. Names the verdict of
/// `serde_json::from_str::<serde_json::Value>`, which depends on the
/// text alone.
pub uninterp spec fn json_ok(s: Seq<char>) -> bool;

/// Relies on `serde_json::from_str::<serde_json::Value>`: it returns
/// `Ok` exactly when the text is a JSON document, and its error's
/// message describes the failure.
#[verifier::external_body]
fn parse_json_check(s: &String) -> (r: Option<String>)
    ensures
        r is None <==> json_ok(s@),
{
    match serde_json::from_str::<serde_json::Value>(s.as_str()) {
        Ok(_) => None,
        Err(e) => Some(e.to_string()),
    }
}

/// The position of the first `}}"` at or after `j` with no newline
/// before it, or -1: the shortest closing a non-greedy `.+?` can reach.
pub open spec fn quoted_close_from(s: Seq<char>, j: int) -> int
    decreases s.len() - j,
    when 0 <= j
{
    if j + 3 > s.len() {
        -1
    } else if s[j] == '}' && s[j + 1] == '}' && s[j + 2] == '"' {
        j
    } else if s[j] == '\n' {
        -1
    } else {
        quoted_close_from(s, j + 1)
    }
}

proof fn lemma_quoted_close_bounds(s: Seq<char>, j: int)
    requires
        0 <= j,
        quoted_close_from(s, j) >= 0,
    ensures
        j <= quoted_close_from(s, j),
        quoted_close_from(s, j) + 3 <= s.len(),
    decreases s.len() - j,
{
    if j + 3 > s.len() {
    } else if s[j] == '}' && s[j + 1] == '}' && s[j + 2] == '"' {
    } else if s[j] == '\n' {
    } else {
        lemma_quoted_close_bounds(s, j + 1);
    }
}

/// Whether a whole-string placeholder `"{{...}}"` (at least one
/// non-newline character inside) starts at `i`.
pub open spec fn quoted_match_at(s: Seq<char>, i: int) -> bool {
    &&& i + 7 <= s.len()
    &&& s[i] == '"'
    &&& s[i + 1] == '{'
    &&& s[i + 2] == '{'
    &&& s[i + 3] != '\n'
    &&& quoted_close_from(s, i + 4) >= 0
}

/// `s` from `i` on, with every leftmost, shortest `"{{...}}"` replaced
/// by the dummy string literal `"a"`.
pub open spec fn mask_quoted_from(s: Seq<char>, i: int) -> Seq<char>
    decreases s.len() - i,
    when 0 <= i <= s.len()
    via mask_quoted_from_dec
{
    if i == s.len() {
        Seq::<char>::empty()
    } else if quoted_match_at(s, i) {
        seq!['"', 'a', '"'] + mask_quoted_from(s, quoted_close_from(s, i + 4) + 3)
    } else {
        seq![s[i]] + mask_quoted_from(s, i + 1)
    }
}

#[via_fn]
proof fn mask_quoted_from_dec(s: Seq<char>, i: int) {
    if i < s.len() && quoted_match_at(s, i) {
        lemma_quoted_close_bounds(s, i + 4);
    }
}

/// The first masking pass over a whole text.
pub open spec fn mask_quoted(s: Seq<char>) -> Seq<char> {
    mask_quoted_from(s, 0)
}

/// The position of the first `}}` at or after `j` with no newline
/// before it, or -1.
pub open spec fn bare_close_from(s: Seq<char>, j: int) -> int
    decreases s.len() - j,
    when 0 <= j
{
    if j + 2 > s.len() {
        -1
    } else if s[j] == '}' && s[j + 1] == '}' {
        j
    } else if s[j] == '\n' {
        -1
    } else {
        bare_close_from(s, j + 1)
    }
}

proof fn lemma_bare_close_bounds(s: Seq<char>, j: int)
    requires
        0 <= j,
        bare_close_from(s, j) >= 0,
    ensures
        j <= bare_close_from(s, j),
        bare_close_from(s, j) + 2 <= s.len(),
    decreases s.len() - j,
{
    if j + 2 > s.len() {
    } else if s[j] == '}' && s[j + 1] == '}' {
    } else if s[j] == '\n' {
    } else {
        lemma_bare_close_bounds(s, j + 1);
    }
}

/// Whether a bare placeholder `{{...}}` (at least one non-newline
/// character inside) starts at `i`.
pub open spec fn bare_match_at(s: Seq<char>, i: int) -> bool {
    &&& i + 5 <= s.len()
    &&& s[i] == '{'
    &&& s[i + 1] == '{'
    &&& s[i + 2] != '\n'
    &&& bare_close_from(s, i + 3) >= 0
}

/// `s` from `i` on, with every leftmost, shortest `{{...}}` replaced by
/// the bare literal `1`.
pub open spec fn mask_bare_from(s: Seq<char>, i: int) -> Seq<char>
    decreases s.len() - i,
    when 0 <= i <= s.len()
    via mask_bare_from_dec
{
    if i == s.len() {
        Seq::<char>::empty()
    } else if bare_match_at(s, i) {
        seq!['1'] + mask_bare_from(s, bare_close_from(s, i + 3) + 2)
    } else {
        seq![s[i]] + mask_bare_from(s, i + 1)
    }
}

#[via_fn]
proof fn mask_bare_from_dec(s: Seq<char>, i: int) {
    if i < s.len() && bare_match_at(s, i) {
        lemma_bare_close_bounds(s, i + 3);
    }
}

/// The second masking pass over a whole text.
pub open spec fn mask_bare(s: Seq<char>) -> Seq<char> {
    mask_bare_from(s, 0)
}

/// The validation text of a template: whitespace stripped, whole-string
/// placeholders masked by `"a"`, remaining placeholders masked by `1`.
pub open spec fn validation_text(raw: Seq<char>) -> Seq<char> {
    mask_bare(mask_quoted(strip_whitespace(raw)))
}

/// Finds the first `}}"` at or after `start`, stopping at a newline.
fn find_quoted_close(s: &Vec<char>, start: usize) -> (r: Option<usize>)
    requires
        start <= s.len(),
    ensures
        match r {
            Some(j) => quoted_close_from(s@, start as int) == j,
            None => quoted_close_from(s@, start as int) == -1,
        },
{
    let mut j: usize = start;
    loop
        invariant
            start <= j <= s.len(),
            quoted_close_from(s@, start as int) == quoted_close_from(s@, j as int),
        decreases s.len() - j,
    {
        if s.len() - j < 3 {
            return None;
        }
        if s[j] == '}' && s[j + 1] == '}' && s[j + 2] == '"' {
            return Some(j);
        }
        if s[j] == '\n' {
            return None;
        }
        j = j + 1;
    }
}

/// Finds the first `}}` at or after `start`, stopping at a newline.
fn find_bare_close(s: &Vec<char>, start: usize) -> (r: Option<usize>)
    requires
        start <= s.len(),
    ensures
        match r {
            Some(j) => bare_close_from(s@, start as int) == j,
            None => bare_close_from(s@, start as int) == -1,
        },
{
    let mut j: usize = start;
    loop
        invariant
            start <= j <= s.len(),
            bare_close_from(s@, start as int) == bare_close_from(s@, j as int),
        decreases s.len() - j,
    {
        if s.len() - j < 2 {
            return None;
        }
        if s[j] == '}' && s[j + 1] == '}' {
            return Some(j);
        }
        if s[j] == '\n' {
            return None;
        }
        j = j + 1;
    }
}

/// Masks every whole-string placeholder `"{{...}}"` with `"a"`.
fn mask_quoted_exec(s: &Vec<char>) -> (r: Vec<char>)
    ensures
        r@ == mask_quoted(s@),
{
    let mut out: Vec<char> = Vec::new();
    let mut i: usize = 0;
    while i < s.len()
        invariant
            i <= s.len(),
            mask_quoted(s@) == out@ + mask_quoted_from(s@, i as int),
        decreases s.len() - i,
    {
        let mut matched: bool = false;
        if s.len() - i >= 7 && s[i] == '"' && s[i + 1] == '{' && s[i + 2] == '{' && s[i + 3]
            != '\n' {
            match find_quoted_close(s, i + 4) {
                Some(j) => {
                    proof {
                        lemma_quoted_close_bounds(s@, i + 4);
                        assert(quoted_match_at(s@, i as int));
                    }
                    out.push('"');
                    out.push('a');
                    out.push('"');
                    proof {
                        assert(mask_quoted(s@) =~= out@ + mask_quoted_from(s@, j + 3));
                    }
                    i = j + 3;
                    matched = true;
                },
                None => {},
            }
        }
        if !matched {
            proof {
                assert(!quoted_match_at(s@, i as int));
            }
            out.push(s[i]);
            proof {
                assert(mask_quoted(s@) =~= out@ + mask_quoted_from(s@, i + 1));
            }
            i = i + 1;
        }
    }
    proof {
        assert(mask_quoted(s@) =~= out@);
    }
    out
}

/// Masks every remaining bare placeholder `{{...}}` with `1`.
fn mask_bare_exec(s: &Vec<char>) -> (r: Vec<char>)
    ensures
        r@ == mask_bare(s@),
{
    let mut out: Vec<char> = Vec::new();
    let mut i: usize = 0;
    while i < s.len()
        invariant
            i <= s.len(),
            mask_bare(s@) == out@ + mask_bare_from(s@, i as int),
        decreases s.len() - i,
    {
        let mut matched: bool = false;
        if s.len() - i >= 5 && s[i] == '{' && s[i + 1] == '{' && s[i + 2] != '\n' {
            match find_bare_close(s, i + 3) {
                Some(j) => {
                    proof {
                        lemma_bare_close_bounds(s@, i + 3);
                        assert(bare_match_at(s@, i as int));
                    }
                    out.push('1');
                    proof {
                        assert(mask_bare(s@) =~= out@ + mask_bare_from(s@, j + 2));
                    }
                    i = j + 2;
                    matched = true;
                },
                None => {},
            }
        }
        if !matched {
            proof {
                assert(!bare_match_at(s@, i as int));
            }
            out.push(s[i]);
            proof {
                assert(mask_bare(s@) =~= out@ + mask_bare_from(s@, i + 1));
            }
            i = i + 1;
        }
    }
    proof {
        assert(mask_bare(s@) =~= out@);
    }
    out
}

/// Validates that a (whitespace-stripped) template text is JSON once
/// its placeholders are masked: whole-string placeholders by `"a"`,
/// bare ones by `1`. The parsed value is discarded; only the verdict
/// and, on failure, the parser's message are kept.
pub fn validate_query_str_is_json(query_str: &String) -> (r: Result<(), String>)
    ensures
        r is Ok <==> json_ok(mask_bare(mask_quoted(query_str@))),
{
    let masked = mask_quoted_exec(&chars_of(query_str.as_str()));
    let masked2 = mask_bare_exec(&masked);
    let text = string_of(&masked2);
    match parse_json_check(&text) {
        None => Ok(()),
        Some(m) => Err(m),
    }
}

/// One placeholder binding: the field's name and the display text of
/// its current value.
pub struct Binding {
    pub name: String,
    pub value: String,
}

/// The marker a named placeholder writes in the template.
pub open spec fn marker_of(name: Seq<char>) -> Seq<char> {
    seq!['{', '{'] + name + seq!['}', '}']
}

/// The result of substituting the bindings in declaration order: each
/// step replaces every occurrence of `{{name}}` by the escaped value
/// text.
pub open spec fn substituted(t: Seq<char>, bs: Seq<(Seq<char>, Seq<char>)>) -> Seq<char>
    decreases bs.len(),
{
    if bs.len() == 0 {
        t
    } else {
        substituted(replace_all(t, marker_of(bs[0].0), escape_seq(bs[0].1)), bs.skip(1))
    }
}

/// The name/value views of a binding list.
pub open spec fn binding_views(bs: Seq<Binding>) -> Seq<(Seq<char>, Seq<char>)> {
    bs.map_values(|b: Binding| (b.name@, b.value@))
}

/// A template that passed validation: its whitespace-stripped text is
/// JSON once every placeholder is masked.
#[derive(Debug)]
pub struct Template {
    text: Vec<char>,
}

impl Template {
    /// The whitespace-stripped template text.
    pub closed spec fn spec_text(&self) -> Seq<char> {
        self.text@
    }

    /// Every compiled template is JSON after masking.
    pub closed spec fn wf(&self) -> bool {
        json_ok(mask_bare(mask_quoted(self.text@)))
    }

    /// Compiles a raw template: strips all whitespace (inside string
    /// literals too), masks the placeholders, and parses the result as
    /// JSON. A template that fails to parse is rejected with a
    /// non-empty diagnostic carrying the parser's message; no runtime
    /// substitution is possible for it.
    pub fn compile(raw: &str) -> (r: Result<Template, String>)
        ensures
            r is Ok <==> json_ok(validation_text(raw@)),
            match r {
                Ok(t) => t.spec_text() == strip_whitespace(raw@) && t.wf(),
                Err(m) => m@.len() > 0 && m@.len() >= "Provided JSON is invalid: "@.len()
                    && m@.subrange(0, "Provided JSON is invalid: "@.len() as int)
                    == "Provided JSON is invalid: "@,
            },
    {
        let stripped = remove_whitespace(raw);
        match validate_query_str_is_json(&stripped) {
            Ok(()) => Ok(Template { text: chars_of(stripped.as_str()) }),
            Err(m) => {
                let prefix: String = String::from_str("Provided JSON is invalid: ");
                proof {
                    reveal_strlit("Provided JSON is invalid: ");
                }
                let full = prefix.concat(m.as_str());
                proof {
                    assert(full@.subrange(0, "Provided JSON is invalid: "@.len() as int)
                        =~= "Provided JSON is invalid: "@);
                }
                Err(full)
            },
        }
    }

    /// The template's text, whitespace-stripped, as a string.
    pub fn text_string(&self) -> (r: String)
        ensures
            r@ == self.spec_text(),
    {
        string_of(&self.text)
    }

    /// Substitutes the bindings in declaration order: each binding
    /// replaces every occurrence of its marker `{{name}}` with the
    /// JSON-escaped text of its value (escaped as a string body, with
    /// no surrounding quotes added). A value standing in a quoted
    /// template position therefore cannot break out of the string; a
    /// value in a bare position must itself be a JSON-legal token,
    /// which is the caller's responsibility.
    pub fn substitute(&self, bindings: &Vec<Binding>) -> (r: String)
        ensures
            r@ == substituted(self.spec_text(), binding_views(bindings@)),
    {
        let mut cur: Vec<char> = Vec::new();
        push_all(&mut cur, &self.text);
        let ghost bs = binding_views(bindings@);
        let mut k: usize = 0;
        proof {
            assert(cur@ =~= self.spec_text());
            assert(bs.skip(0) =~= bs);
        }
        while k < bindings.len()
            invariant
                k <= bindings.len(),
                bs == binding_views(bindings@),
                substituted(self.spec_text(), bs) == substituted(cur@, bs.skip(k as int)),
            decreases bindings.len() - k,
        {
            let mut marker: Vec<char> = Vec::new();
            marker.push('{');
            marker.push('{');
            push_all(&mut marker, &chars_of(bindings[k].name.as_str()));
            marker.push('}');
            marker.push('}');
            proof {
                assert(marker@ =~= marker_of(bindings@[k as int].name@));
            }
            let esc = escape_chars(&chars_of(bindings[k].value.as_str()));
            let next = replace_all_chars(&cur, &marker, &esc);
            proof {
                assert(bs.skip(k as int)[0] == (bindings@[k as int].name@, bindings@[k as int].value@));
                assert(bs.skip(k as int).skip(1) =~= bs.skip(k + 1));
                assert(substituted(cur@, bs.skip(k as int)) == substituted(next@, bs.skip(k + 1)));
            }
            cur = next;
            k = k + 1;
        }
        proof {
            assert(bs.skip(bindings@.len() as int) =~= Seq::<(Seq<char>, Seq<char>)>::empty());
            assert(substituted(cur@, bs.skip(bindings@.len() as int)) == cur@);
        }
        string_of(&cur)
    }
}

} // verus!

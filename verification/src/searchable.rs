//! The target-field list of a multi-match declaration, and its two
//! written forms: a parenthesized list of string literals after the
//! key, `fields("a", "b")`, or a name-value form whose value wraps the
//! same list in a labelled group, `fields = searchable("a", "b")`.
//! Both normalize to one ordered list of strings before binding; the
//! distinction is a grammar-level convenience.

use crate::text::is_whitespace_char;
use crate::text::string_of;
use vstd::string::StringExecFns;
use vstd::prelude::*;

verus! {

/// The ordered target-field list, normalized from either written form.
#[derive(Clone, Debug)]
pub struct Searchable(pub Vec<String>);

/// The first position at or after `i` that holds no whitespace.
pub open spec fn ws_end(s: Seq<char>, i: int) -> int
    decreases s.len() - i,
    when 0 <= i <= s.len()
{
    if i == s.len() {
        i
    } else if is_whitespace_char(s[i]) {
        ws_end(s, i + 1)
    } else {
        i
    }
}

proof fn lemma_ws_end_bounds(s: Seq<char>, i: int)
    requires
        0 <= i <= s.len(),
    ensures
        i <= ws_end(s, i) <= s.len(),
    decreases s.len() - i,
{
    if i < s.len() && is_whitespace_char(s[i]) {
        lemma_ws_end_bounds(s, i + 1);
    }
}

/// The first position at or after `i` holding the character `c`, or -1.
pub open spec fn first_of(s: Seq<char>, i: int, c: char) -> int
    decreases s.len() - i,
    when 0 <= i <= s.len()
{
    if i == s.len() {
        -1
    } else if s[i] == c {
        i
    } else {
        first_of(s, i + 1, c)
    }
}

proof fn lemma_first_of_bounds(s: Seq<char>, i: int, c: char)
    requires
        0 <= i <= s.len(),
        first_of(s, i, c) >= 0,
    ensures
        i <= first_of(s, i, c) < s.len(),
    decreases s.len() - i,
{
    if i < s.len() && s[i] != c {
        lemma_first_of_bounds(s, i + 1, c);
    }
}

/// The last position before `j` holding the character `c`, or -1.
pub open spec fn last_before(s: Seq<char>, j: int, c: char) -> int
    decreases j,
    when 0 <= j <= s.len()
{
    if j == 0 {
        -1
    } else if s[j - 1] == c {
        j - 1
    } else {
        last_before(s, j - 1, c)
    }
}

/// Whether `c` may stand in an identifier.
pub open spec fn is_ident_char(c: char) -> bool {
    let u = c as u32;
    (0x61 <= u && u <= 0x7A) || (0x41 <= u && u <= 0x5A) || (0x30 <= u && u <= 0x39) || u == 0x5F
}

/// The end of the identifier run starting at `i`.
pub open spec fn ident_end(s: Seq<char>, i: int) -> int
    decreases s.len() - i,
    when 0 <= i <= s.len()
{
    if i == s.len() {
        i
    } else if is_ident_char(s[i]) {
        ident_end(s, i + 1)
    } else {
        i
    }
}

/// Parses a comma-separated list of string literals from `i` on: each
/// item is the text between a pair of quotes, items are separated by
/// commas, whitespace stands freely between tokens, and a trailing
/// comma — like an empty list — is accepted. `None` is a syntax error.
pub open spec fn parse_items(s: Seq<char>, i: int) -> Option<Seq<Seq<char>>>
    decreases s.len() - i,
    when 0 <= i <= s.len()
    via parse_items_dec
{
    let j = ws_end(s, i);
    if j == s.len() {
        Some(Seq::<Seq<char>>::empty())
    } else if s[j] != '"' {
        None
    } else {
        let k = first_of(s, j + 1, '"');
        if k < 0 {
            None
        } else {
            let item = s.subrange(j + 1, k);
            let m = ws_end(s, k + 1);
            if m == s.len() {
                Some(seq![item])
            } else if s[m] == ',' {
                match parse_items(s, m + 1) {
                    Some(rest) => Some(seq![item] + rest),
                    None => None,
                }
            } else {
                None
            }
        }
    }
}

#[via_fn]
proof fn parse_items_dec(s: Seq<char>, i: int) {
    lemma_ws_end_bounds(s, i);
    let j = ws_end(s, i);
    if j < s.len() && s[j] == '"' {
        let k = first_of(s, j + 1, '"');
        if k >= 0 {
            lemma_first_of_bounds(s, j + 1, '"');
            lemma_ws_end_bounds(s, k + 1);
        }
    }
}

/// The inner list text of a `fields` value, whichever form it uses:
/// in the list form the text between the first `(` and the last `)`;
/// in the name-value form the text of the group that follows the
/// label after `=`, or nothing when no group follows; `None` when the
/// value has neither form.
pub open spec fn meta_inner(s: Seq<char>) -> Option<Seq<char>> {
    let p = first_of(s, 0, '(');
    let e = first_of(s, 0, '=');
    if p >= 0 && (e < 0 || p < e) {
        let q = last_before(s, s.len() as int, ')');
        if q > p {
            Some(s.subrange(p + 1, q))
        } else {
            None
        }
    } else if e >= 0 {
        let j = ws_end(s, e + 1);
        let k = ident_end(s, j);
        let m = ws_end(s, k);
        if m < s.len() && s[m] == '(' {
            let q = last_before(s, s.len() as int, ')');
            if q > m {
                Some(s.subrange(m + 1, q))
            } else {
                None
            }
        } else {
            Some(Seq::<char>::empty())
        }
    } else {
        None
    }
}

/// Skips whitespace.
fn ws_skip(s: &Vec<char>, i: usize) -> (r: usize)
    requires
        i <= s.len(),
    ensures
        r == ws_end(s@, i as int),
        i <= r <= s@.len(),
{
    let mut j: usize = i;
    while j < s.len() && is_ws(s[j])
        invariant
            i <= j <= s.len(),
            ws_end(s@, i as int) == ws_end(s@, j as int),
        decreases s.len() - j,
    {
        j = j + 1;
    }
    j
}

/// Whether `c` is whitespace.
fn is_ws(c: char) -> (b: bool)
    ensures
        b == is_whitespace_char(c),
{
    let u = c as u32;
    u == 0x9 || u == 0xA || u == 0xB || u == 0xC || u == 0xD || u == 0x20 || u == 0x85
        || u == 0xA0 || u == 0x1680 || (0x2000 <= u && u <= 0x200A) || u == 0x2028 || u == 0x2029
        || u == 0x202F || u == 0x205F || u == 0x3000
}

/// Finds the next occurrence of `c`.
fn find_char(s: &Vec<char>, i: usize, c: char) -> (r: Option<usize>)
    requires
        i <= s.len(),
    ensures
        match r {
            Some(j) => first_of(s@, i as int, c) == j && i <= j < s@.len(),
            None => first_of(s@, i as int, c) == -1,
        },
{
    let mut j: usize = i;
    while j < s.len()
        invariant
            i <= j <= s.len(),
            first_of(s@, i as int, c) == first_of(s@, j as int, c),
        decreases s.len() - j,
    {
        if s[j] == c {
            return Some(j);
        }
        j = j + 1;
    }
    None
}

/// Finds the last occurrence of `c`.
fn rfind_char(s: &Vec<char>, c: char) -> (r: Option<usize>)
    ensures
        match r {
            Some(j) => last_before(s@, s@.len() as int, c) == j && j < s@.len(),
            None => last_before(s@, s@.len() as int, c) == -1,
        },
{
    let mut j: usize = s.len();
    while j > 0
        invariant
            j <= s.len(),
            last_before(s@, s@.len() as int, c) == last_before(s@, j as int, c),
        decreases j,
    {
        if s[j - 1] == c {
            return Some(j - 1);
        }
        j = j - 1;
    }
    None
}

/// Whether `c` may stand in an identifier.
fn is_ident_c(c: char) -> (b: bool)
    ensures
        b == is_ident_char(c),
{
    let u = c as u32;
    (0x61 <= u && u <= 0x7A) || (0x41 <= u && u <= 0x5A) || (0x30 <= u && u <= 0x39) || u == 0x5F
}

/// Skips an identifier run.
fn ident_skip(s: &Vec<char>, i: usize) -> (r: usize)
    requires
        i <= s.len(),
    ensures
        r == ident_end(s@, i as int),
        i <= r <= s@.len(),
{
    let mut j: usize = i;
    while j < s.len() && is_ident_c(s[j])
        invariant
            i <= j <= s.len(),
            ident_end(s@, i as int) == ident_end(s@, j as int),
        decreases s.len() - j,
    {
        j = j + 1;
    }
    j
}

/// Copies `s[a..b]`.
fn copy_range(s: &Vec<char>, a: usize, b: usize) -> (r: Vec<char>)
    requires
        a <= b <= s.len(),
    ensures
        r@ == s@.subrange(a as int, b as int),
{
    let mut out: Vec<char> = Vec::new();
    let mut j: usize = a;
    while j < b
        invariant
            a <= j <= b <= s.len(),
            out@ == s@.subrange(a as int, j as int),
        decreases b - j,
    {
        out.push(s[j]);
        proof {
            assert(out@ =~= s@.subrange(a as int, j + 1));
        }
        j = j + 1;
    }
    out
}

/// Parses the comma-separated string literals from `i` on.
fn parse_items_exec(s: &Vec<char>, i: usize) -> (r: Option<Vec<String>>)
    requires
        i <= s.len(),
    ensures
        match r {
            Some(v) => parse_items(s@, i as int) == Some(v@.map_values(|x: String| x@)),
            None => parse_items(s@, i as int) is None,
        },
    decreases s.len() - i,
{
    let j = ws_skip(s, i);
    if j == s.len() {
        let out: Vec<String> = Vec::new();
        proof {
            assert(out@.map_values(|x: String| x@) =~= Seq::<Seq<char>>::empty());
        }
        return Some(out);
    }
    if s[j] != '"' {
        return None;
    }
    let k = match find_char(s, j + 1, '"') {
        Some(k) => k,
        None => {
            return None;
        },
    };
    let item = string_of(&copy_range(s, j + 1, k));
    let m = ws_skip(s, k + 1);
    if m == s.len() {
        let mut out: Vec<String> = Vec::new();
        out.push(item);
        proof {
            assert(out@.map_values(|x: String| x@) =~= seq![s@.subrange(j + 1, k as int)]);
        }
        return Some(out);
    }
    if s[m] != ',' {
        return None;
    }
    match parse_items_exec(s, m + 1) {
        Some(rest) => {
            let mut out: Vec<String> = Vec::new();
            out.push(item);
            let mut t: usize = 0;
            while t < rest.len()
                invariant
                    t <= rest.len(),
                    out@.len() == t + 1,
                    out@[0] == item,
                    forall|x: int| 0 <= x < t ==> out@[x + 1] == rest@[x],
                decreases rest.len() - t,
            {
                out.push(rest[t].clone());
                t = t + 1;
            }
            proof {
                let rv = match parse_items(s@, m + 1) {
                    Some(x) => x,
                    None => Seq::<Seq<char>>::empty(),
                };
                assert forall|x: int| #![trigger out@[x]] 0 <= x < out@.len() implies out@.map_values(
                    |y: String| y@,
                )[x] == (seq![s@.subrange(j + 1, k as int)] + rv)[x] by {
                    if x > 0 {
                        assert(out@[x] == rest@[x - 1]);
                        assert(rest@.map_values(|y: String| y@)[x - 1] == rv[x - 1]);
                    }
                }
                assert(out@.map_values(|y: String| y@) =~= seq![s@.subrange(j + 1, k as int)]
                    + rv);
            }
            Some(out)
        },
        None => None,
    }
}

impl Searchable {
    /// Parses a bare comma-separated list of string literals, the form
    /// the parenthesized list holds inside its parentheses.
    pub fn parse(input: &str) -> (r: Result<Searchable, String>)
        ensures
            match r {
                Ok(se) => parse_items(input@, 0) == Some(se.0@.map_values(|x: String| x@)),
                Err(m) => parse_items(input@, 0) is None && m@.len() > 0,
            },
    {
        let cs = crate::text::chars_of(input);
        match parse_items_exec(&cs, 0) {
            Some(v) => Ok(Searchable(v)),
            None => {
                proof {
                    reveal_strlit("Unable to parse list");
                }
                Err(String::from_str("Unable to parse list"))
            },
        }
    }

    /// Normalizes a whole `fields` value: accepts the parenthesized
    /// list form and the name-value form, extracts the inner list text
    /// and parses it. A value with neither form is rejected.
    pub fn from_meta(item: &str) -> (r: Result<Searchable, String>)
        ensures
            match r {
                Ok(se) => meta_inner(item@) is Some && parse_items(meta_inner(item@)->0, 0)
                    == Some(se.0@.map_values(|x: String| x@)),
                Err(m) => (meta_inner(item@) is None || parse_items(meta_inner(item@)->0, 0)
                    is None) && m@.len() > 0,
            },
    {
        let cs = crate::text::chars_of(item);
        let p = find_char(&cs, 0, '(');
        let e = find_char(&cs, 0, '=');
        let inner: Vec<char>;
        match (p, e) {
            (Some(pi), Some(ei)) if pi < ei => {
                match rfind_char(&cs, ')') {
                    Some(q) if q > pi => {
                        inner = copy_range(&cs, pi + 1, q);
                    },
                    _ => {
                        proof {
                            reveal_strlit("Expected a list of string");
                        }
                        return Err(
                            String::from_str("Expected a list of string"),
                        );
                    },
                }
            },
            (Some(pi), None) => {
                match rfind_char(&cs, ')') {
                    Some(q) if q > pi => {
                        inner = copy_range(&cs, pi + 1, q);
                    },
                    _ => {
                        proof {
                            reveal_strlit("Expected a list of string");
                        }
                        return Err(
                            String::from_str("Expected a list of string"),
                        );
                    },
                }
            },
            (_, Some(ei)) => {
                let j = ws_skip(&cs, ei + 1);
                let k = ident_skip(&cs, j);
                let m = ws_skip(&cs, k);
                if m < cs.len() && cs[m] == '(' {
                    match rfind_char(&cs, ')') {
                        Some(q) if q > m => {
                            inner = copy_range(&cs, m + 1, q);
                        },
                        _ => {
                            proof {
                                reveal_strlit("Expected a list of string");
                            }
                            return Err(
                                String::from_str("Expected a list of string"),
                            );
                        },
                    }
                } else {
                    inner = Vec::new();
                    proof {
                        assert(inner@ =~= Seq::<char>::empty());
                    }
                }
            },
            (None, None) => {
                proof {
                    reveal_strlit("Expected a list of string");
                }
                return Err(String::from_str("Expected a list of string"));
            },
        }
        match parse_items_exec(&inner, 0) {
            Some(v) => Ok(Searchable(v)),
            None => {
                proof {
                    reveal_strlit("Unable to parse list");
                }
                Err(String::from_str("Unable to parse list"))
            },
        }
    }
}

} // verus!

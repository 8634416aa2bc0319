//! The runtime clause model: the query document tree and its JSON
//! rendering. The shape is the Elasticsearch-style boolean query:
//!
//! ```text
//! Query       -> { "query": <clause> }
//! BoolQuery   -> { "bool": { "must": [ <clause>... ] } }
//! MultiMatch  -> { "multi_match": { "fields": [...], "query": <value> } }
//! RangeFilter -> { "range": { "<field>": { "gte": <v>?, "lte": <v>? } } }
//! TermsFilter -> { "terms": { "<field>": [ <terms>... ] } }
//! ```
//!
//! An absent range bound is omitted entirely; it never serializes as
//! `null`. Serialization cannot fail.

use crate::escape::escape_chars;
use crate::escape::escape_seq;
use crate::escape::hex_digit_char;
use crate::text::chars_of;
use crate::text::push_all;
use crate::text::string_of;
use vstd::prelude::*;

verus! {

/// The value domain a clause is declared over; it selects how leaf
/// values are encoded and never changes the document shape.
#[derive(Clone, Copy, PartialEq, Eq, Structural, Debug)]
pub enum ValueKind {
    Str,
    U32,
}

/// One leaf value read from a host field.
#[derive(Clone, Debug)]
pub enum FieldValue {
    Str(String),
    U32(u32),
}

/// `{ "fields": [...], "query": <value> }`.
#[derive(Clone, Debug)]
pub struct MultiMatch {
    pub fields: Vec<String>,
    pub query: FieldValue,
}

/// `{ "<field>": { "gte": <v>?, "lte": <v>? } }`; an absent bound is
/// left out of the document altogether.
#[derive(Clone, Debug)]
pub struct RangeFilter {
    pub field: String,
    pub lte: Option<FieldValue>,
    pub gte: Option<FieldValue>,
}

/// `{ "<field>": [ <terms>... ] }`; the list may be empty.
#[derive(Clone, Debug)]
pub struct TermsFilter {
    pub field: String,
    pub terms_list: Vec<FieldValue>,
}

/// The "must" combinator: all child clauses have to match.
#[derive(Debug)]
pub struct BoolQuery {
    pub must: Vec<ClauseType>,
}

/// One search condition.
#[derive(Debug)]
pub enum ClauseFilter {
    MultiMatch(MultiMatch),
    Range(RangeFilter),
    Terms(TermsFilter),
    BoolQuery(BoolQuery),
}

/// A clause together with its value-domain tag.
#[derive(Debug)]
pub enum ClauseType {
    Str(ClauseFilter),
    U32(ClauseFilter),
}

/// The root document: wraps exactly one clause.
#[derive(Debug)]
pub struct Query {
    pub query: ClauseType,
}

/// The value-domain tag of a clause.
pub open spec fn clause_tag(c: ClauseType) -> ValueKind {
    match c {
        ClauseType::Str(_) => ValueKind::Str,
        ClauseType::U32(_) => ValueKind::U32,
    }
}

/// The condition a clause wraps, whatever its tag.
pub open spec fn clause_filter(c: ClauseType) -> ClauseFilter {
    match c {
        ClauseType::Str(f) => f,
        ClauseType::U32(f) => f,
    }
}

/// Whether a leaf value lies in the value domain `k`.
pub open spec fn value_matches(v: FieldValue, k: ValueKind) -> bool {
    match v {
        FieldValue::Str(_) => k is Str,
        FieldValue::U32(_) => k is U32,
    }
}

/// Whether every leaf value of `f` lies in the value domain `k`;
/// a nested boolean clause carries its own tags.
pub open spec fn filter_matches(f: ClauseFilter, k: ValueKind) -> bool
    decreases f,
{
    match f {
        ClauseFilter::MultiMatch(m) => value_matches(m.query, k),
        ClauseFilter::Range(r) => (r.gte is Some ==> value_matches(r.gte->0, k)) && (r.lte is Some
            ==> value_matches(r.lte->0, k)),
        ClauseFilter::Terms(t) => forall|i: int|
            0 <= i < t.terms_list@.len() ==> value_matches(#[trigger] t.terms_list@[i], k),
        ClauseFilter::BoolQuery(b) => forall|i: int|
            0 <= i < b.must@.len() ==> clause_wf(#[trigger] b.must@[i]),
    }
}

/// The tag of a clause matches the values it holds.
pub open spec fn clause_wf(c: ClauseType) -> bool
    decreases c,
{
    match c {
        ClauseType::Str(f) => filter_matches(f, ValueKind::Str),
        ClauseType::U32(f) => filter_matches(f, ValueKind::U32),
    }
}

/// The tag of the root clause matches the values it holds.
pub open spec fn query_wf(q: Query) -> bool {
    clause_wf(q.query)
}

/// The decimal digits of `n`, most significant first.
pub open spec fn dec_digits(n: nat) -> Seq<char>
    decreases n,
{
    if n < 10 {
        seq![hex_digit_char(n as int)]
    } else {
        dec_digits(n / 10) + seq![hex_digit_char((n % 10) as int)]
    }
}

/// `s` as a JSON string literal: quoted, with its content escaped.
pub open spec fn json_of_str(s: Seq<char>) -> Seq<char> {
    seq!['"'] + escape_seq(s) + seq!['"']
}

/// The JSON encoding of a leaf value: a string literal or a bare
/// decimal number, as the value's domain dictates.
pub open spec fn json_of_value(v: FieldValue) -> Seq<char> {
    match v {
        FieldValue::Str(s) => json_of_str(s@),
        FieldValue::U32(n) => dec_digits(n as nat),
    }
}

/// The comma-separated JSON encodings of `vs[i..]`.
pub open spec fn json_vals_body(vs: Seq<FieldValue>, i: int) -> Seq<char>
    decreases vs.len() - i,
    when 0 <= i <= vs.len()
{
    if i == vs.len() {
        Seq::<char>::empty()
    } else if i + 1 == vs.len() {
        json_of_value(vs[i])
    } else {
        json_of_value(vs[i]) + seq![','] + json_vals_body(vs, i + 1)
    }
}

/// The comma-separated JSON string literals of `ss[i..]`.
pub open spec fn json_strs_body(ss: Seq<String>, i: int) -> Seq<char>
    decreases ss.len() - i,
    when 0 <= i <= ss.len()
{
    if i == ss.len() {
        Seq::<char>::empty()
    } else if i + 1 == ss.len() {
        json_of_str(ss[i]@)
    } else {
        json_of_str(ss[i]@) + seq![','] + json_strs_body(ss, i + 1)
    }
}

/// `{ "<field>": [ <terms>... ] }`.
pub open spec fn json_of_terms(t: TermsFilter) -> Seq<char> {
    seq!['{'] + json_of_str(t.field@) + seq![':', '['] + json_vals_body(t.terms_list@, 0) + seq![
        ']',
        '}',
    ]
}

/// The inner bounds object of a range: `gte` first, then `lte`, each
/// only when present.
pub open spec fn json_range_bounds(r: RangeFilter) -> Seq<char> {
    let gkey = seq!['"', 'g', 't', 'e', '"', ':'];
    let lkey = seq!['"', 'l', 't', 'e', '"', ':'];
    match (r.gte, r.lte) {
        (Some(g), Some(l)) => gkey + json_of_value(g) + seq![','] + lkey + json_of_value(l),
        (Some(g), None) => gkey + json_of_value(g),
        (None, Some(l)) => lkey + json_of_value(l),
        (None, None) => Seq::<char>::empty(),
    }
}

/// `{ "<field>": { <bounds> } }`.
pub open spec fn json_of_range(r: RangeFilter) -> Seq<char> {
    seq!['{'] + json_of_str(r.field@) + seq![':', '{'] + json_range_bounds(r) + seq!['}', '}']
}

/// `{ "fields": [...], "query": <value> }`.
pub open spec fn json_of_multi(m: MultiMatch) -> Seq<char> {
    seq!['{', '"', 'f', 'i', 'e', 'l', 'd', 's', '"', ':', '['] + json_strs_body(m.fields@, 0)
        + seq![']', ',', '"', 'q', 'u', 'e', 'r', 'y', '"', ':'] + json_of_value(m.query)
        + seq!['}']
}

/// A clause renders as the object of its kind; the value-domain tag
/// never changes the shape.
pub open spec fn json_of_clause(c: ClauseType) -> Seq<char>
    decreases c,
{
    match c {
        ClauseType::Str(f) => json_of_filter(f),
        ClauseType::U32(f) => json_of_filter(f),
    }
}

/// `{ "<kind>": <body> }` for each clause kind.
pub open spec fn json_of_filter(f: ClauseFilter) -> Seq<char>
    decreases f,
{
    match f {
        ClauseFilter::MultiMatch(m) => seq![
            '{',
            '"',
            'm',
            'u',
            'l',
            't',
            'i',
            '_',
            'm',
            'a',
            't',
            'c',
            'h',
            '"',
            ':',
        ] + json_of_multi(m) + seq!['}'],
        ClauseFilter::Range(r) => seq!['{', '"', 'r', 'a', 'n', 'g', 'e', '"', ':'] + json_of_range(
            r,
        ) + seq!['}'],
        ClauseFilter::Terms(t) => seq!['{', '"', 't', 'e', 'r', 'm', 's', '"', ':'] + json_of_terms(
            t,
        ) + seq!['}'],
        ClauseFilter::BoolQuery(b) => seq!['{', '"', 'b', 'o', 'o', 'l', '"', ':'] + json_of_bool(
            b,
        ) + seq!['}'],
    }
}

/// `{ "must": [ <clause>... ] }`.
pub open spec fn json_of_bool(b: BoolQuery) -> Seq<char>
    decreases b,
{
    seq!['{', '"', 'm', 'u', 's', 't', '"', ':', '['] + json_clauses_body(b.must@, 0) + seq![
        ']',
        '}',
    ]
}

/// The comma-separated JSON encodings of the clauses `cs[i..]`.
pub open spec fn json_clauses_body(cs: Seq<ClauseType>, i: int) -> Seq<char>
    decreases cs, cs.len() - i,
    when 0 <= i <= cs.len()
{
    if i == cs.len() {
        Seq::<char>::empty()
    } else if i + 1 == cs.len() {
        json_of_clause(cs[i])
    } else {
        json_of_clause(cs[i]) + seq![','] + json_clauses_body(cs, i + 1)
    }
}

/// The full document of a query tree.
pub open spec fn json_of_query(q: Query) -> Seq<char> {
    seq!['{', '"', 'q', 'u', 'e', 'r', 'y', '"', ':'] + json_of_clause(q.query) + seq!['}']
}

/// Appends the digits of `n` in decimal.
fn push_dec(out: &mut Vec<char>, n: u32)
    ensures
        final (out)@ == old(out)@ + dec_digits(n as nat),
    decreases n,
{
    if n < 10 {
        let c = crate::escape::hex_digit_exec(n);
        out.push(c);
    } else {
        push_dec(out, n / 10);
        let c = crate::escape::hex_digit_exec(n % 10);
        out.push(c);
        proof {
            assert(out@ =~= old(out)@ + dec_digits(n as nat));
        }
    }
}

/// Appends the JSON string literal for `s`.
fn push_json_str(out: &mut Vec<char>, s: &String)
    ensures
        final (out)@ == old(out)@ + json_of_str(s@),
{
    let cs = chars_of(s.as_str());
    let esc = escape_chars(&cs);
    out.push('"');
    push_all(out, &esc);
    out.push('"');
    proof {
        assert(out@ =~= old(out)@ + json_of_str(s@));
    }
}

/// Appends the JSON encoding of a leaf value.
fn push_value(out: &mut Vec<char>, v: &FieldValue)
    ensures
        final (out)@ == old(out)@ + json_of_value(*v),
{
    match v {
        FieldValue::Str(s) => {
            push_json_str(out, s);
        },
        FieldValue::U32(n) => {
            push_dec(out, *n);
        },
    }
}

/// Appends the comma-separated encodings of all of `vs`.
fn push_vals_body(out: &mut Vec<char>, vs: &Vec<FieldValue>)
    ensures
        final (out)@ == old(out)@ + json_vals_body(vs@, 0),
{
    let ghost target = old(out)@ + json_vals_body(vs@, 0);
    let mut i: usize = 0;
    while i < vs.len()
        invariant
            i <= vs.len(),
            target == out@ + json_vals_body(vs@, i as int),
        decreases vs.len() - i,
    {
        push_value(out, &vs[i]);
        if i + 1 < vs.len() {
            out.push(',');
        }
        proof {
            assert(target =~= out@ + json_vals_body(vs@, i + 1));
        }
        i = i + 1;
    }
    proof {
        assert(out@ =~= target);
    }
}

/// Appends the comma-separated string literals of all of `ss`.
fn push_strs_body(out: &mut Vec<char>, ss: &Vec<String>)
    ensures
        final (out)@ == old(out)@ + json_strs_body(ss@, 0),
{
    let ghost target = old(out)@ + json_strs_body(ss@, 0);
    let mut i: usize = 0;
    while i < ss.len()
        invariant
            i <= ss.len(),
            target == out@ + json_strs_body(ss@, i as int),
        decreases ss.len() - i,
    {
        push_json_str(out, &ss[i]);
        if i + 1 < ss.len() {
            out.push(',');
        }
        proof {
            assert(target =~= out@ + json_strs_body(ss@, i + 1));
        }
        i = i + 1;
    }
    proof {
        assert(out@ =~= target);
    }
}

/// Appends the terms object `{ "<field>": [ ... ] }`.
fn push_terms(out: &mut Vec<char>, t: &TermsFilter)
    ensures
        final (out)@ == old(out)@ + json_of_terms(*t),
{
    out.push('{');
    push_json_str(out, &t.field);
    out.push(':');
    out.push('[');
    push_vals_body(out, &t.terms_list);
    out.push(']');
    out.push('}');
    proof {
        assert(out@ =~= old(out)@ + json_of_terms(*t));
    }
}

/// Appends the range object `{ "<field>": { ... } }`, leaving an
/// absent bound out entirely.
#[verifier::rlimit(60)]
fn push_range(out: &mut Vec<char>, r: &RangeFilter)
    ensures
        final (out)@ == old(out)@ + json_of_range(*r),
{
    out.push('{');
    push_json_str(out, &r.field);
    out.push(':');
    out.push('{');
    let ghost head = out@;
    match &r.gte {
        Some(g) => {
            out.push('"');
            out.push('g');
            out.push('t');
            out.push('e');
            out.push('"');
            out.push(':');
            push_value(out, g);
            if r.lte.is_some() {
                out.push(',');
            }
        },
        None => {},
    }
    match &r.lte {
        Some(l) => {
            out.push('"');
            out.push('l');
            out.push('t');
            out.push('e');
            out.push('"');
            out.push(':');
            push_value(out, l);
        },
        None => {},
    }
    proof {
        assert(out@ =~= head + json_range_bounds(*r));
    }
    out.push('}');
    out.push('}');
    proof {
        assert(out@ =~= old(out)@ + json_of_range(*r));
    }
}

/// Appends the multi-match object `{ "fields": [...], "query": <v> }`.
fn push_multi(out: &mut Vec<char>, m: &MultiMatch)
    ensures
        final (out)@ == old(out)@ + json_of_multi(*m),
{
    out.push('{');
    out.push('"');
    out.push('f');
    out.push('i');
    out.push('e');
    out.push('l');
    out.push('d');
    out.push('s');
    out.push('"');
    out.push(':');
    out.push('[');
    push_strs_body(out, &m.fields);
    out.push(']');
    out.push(',');
    out.push('"');
    out.push('q');
    out.push('u');
    out.push('e');
    out.push('r');
    out.push('y');
    out.push('"');
    out.push(':');
    push_value(out, &m.query);
    out.push('}');
    proof {
        assert(out@ =~= old(out)@ + json_of_multi(*m));
    }
}

/// Appends the rendering of one clause.
fn push_clause(out: &mut Vec<char>, c: &ClauseType)
    ensures
        final (out)@ == old(out)@ + json_of_clause(*c),
    decreases *c,
{
    match c {
        ClauseType::Str(f) => {
            push_filter(out, f);
        },
        ClauseType::U32(f) => {
            push_filter(out, f);
        },
    }
}

/// Appends `{ "<kind>": <body> }` for one clause kind.
fn push_filter(out: &mut Vec<char>, f: &ClauseFilter)
    ensures
        final (out)@ == old(out)@ + json_of_filter(*f),
    decreases *f,
{
    match f {
        ClauseFilter::MultiMatch(m) => {
            out.push('{');
            out.push('"');
            out.push('m');
            out.push('u');
            out.push('l');
            out.push('t');
            out.push('i');
            out.push('_');
            out.push('m');
            out.push('a');
            out.push('t');
            out.push('c');
            out.push('h');
            out.push('"');
            out.push(':');
            push_multi(out, m);
            out.push('}');
            proof {
                assert(out@ =~= old(out)@ + json_of_filter(*f));
            }
        },
        ClauseFilter::Range(r) => {
            out.push('{');
            out.push('"');
            out.push('r');
            out.push('a');
            out.push('n');
            out.push('g');
            out.push('e');
            out.push('"');
            out.push(':');
            push_range(out, r);
            out.push('}');
            proof {
                assert(out@ =~= old(out)@ + json_of_filter(*f));
            }
        },
        ClauseFilter::Terms(t) => {
            out.push('{');
            out.push('"');
            out.push('t');
            out.push('e');
            out.push('r');
            out.push('m');
            out.push('s');
            out.push('"');
            out.push(':');
            push_terms(out, t);
            out.push('}');
            proof {
                assert(out@ =~= old(out)@ + json_of_filter(*f));
            }
        },
        ClauseFilter::BoolQuery(b) => {
            out.push('{');
            out.push('"');
            out.push('b');
            out.push('o');
            out.push('o');
            out.push('l');
            out.push('"');
            out.push(':');
            push_bool(out, b);
            out.push('}');
            proof {
                assert(out@ =~= old(out)@ + json_of_filter(*f));
            }
        },
    }
}

/// Appends `{ "must": [ <clause>... ] }`.
fn push_bool(out: &mut Vec<char>, b: &BoolQuery)
    ensures
        final (out)@ == old(out)@ + json_of_bool(*b),
    decreases *b,
{
    out.push('{');
    out.push('"');
    out.push('m');
    out.push('u');
    out.push('s');
    out.push('t');
    out.push('"');
    out.push(':');
    out.push('[');
    let ghost target = out@ + json_clauses_body(b.must@, 0);
    let mut i: usize = 0;
    while i < b.must.len()
        invariant
            i <= b.must.len(),
            target == out@ + json_clauses_body(b.must@, i as int),
        decreases b.must.len() - i,
    {
        push_clause(out, &b.must[i]);
        if i + 1 < b.must.len() {
            out.push(',');
        }
        proof {
            assert(target =~= out@ + json_clauses_body(b.must@, i + 1));
        }
        i = i + 1;
    }
    out.push(']');
    out.push('}');
    proof {
        assert(out@ =~= old(out)@ + json_of_bool(*b));
    }
}

impl Query {
    /// Renders the whole document to JSON text. Serialization cannot
    /// fail: every tree has exactly the rendering `json_of_query`
    /// gives it.
    pub fn to_json(&self) -> (r: String)
        ensures
            r@ == json_of_query(*self),
    {
        let mut out: Vec<char> = Vec::new();
        out.push('{');
        out.push('"');
        out.push('q');
        out.push('u');
        out.push('e');
        out.push('r');
        out.push('y');
        out.push('"');
        out.push(':');
        push_clause(&mut out, &self.query);
        out.push('}');
        proof {
            assert(out@ =~= json_of_query(*self));
        }
        string_of(&out)
    }
}

} // verus!

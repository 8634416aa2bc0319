//! The filter-specification compiler: an ordered list of typed filter
//! declarations is resolved against a host schema at spec-compile time
//! (an unresolved reference is a build-time diagnostic), and then built
//! into a `Query` tree at run time from the host's current field
//! values, one clause per declaration, in declaration order.

use crate::clauses::clause_filter;
use crate::clauses::clause_tag;
use crate::clauses::clause_wf;
use crate::clauses::query_wf;
use crate::clauses::value_matches;
use crate::clauses::BoolQuery;
use crate::clauses::ClauseFilter;
use crate::clauses::ClauseType;
use crate::clauses::FieldValue;
use crate::clauses::MultiMatch;
use crate::clauses::Query;
use crate::clauses::RangeFilter;
use crate::clauses::TermsFilter;
use crate::clauses::ValueKind;
use vstd::prelude::*;
use vstd::string::StringExecFns;

verus! {

/// One value a host field can hold: a scalar or a list, over the two
/// supported value domains.
#[derive(Clone, Debug)]
pub enum HostValue {
    Str(String),
    U32(u32),
    StrList(Vec<String>),
    U32List(Vec<u32>),
}

/// One named field of a host instance.
#[derive(Debug)]
pub struct HostField {
    pub name: String,
    pub value: HostValue,
}

/// A host instance: the record the declarations are bound against and
/// read from. Its field list embodies the host schema.
#[derive(Debug)]
pub struct HostInstance {
    pub fields: Vec<HostField>,
}

/// One filter declaration. `name` doubles as the document field label
/// and, for `Terms`, the host member read; `gte`, `lte` and `query`
/// name host members to read; `fields` lists the document fields a
/// multi-match targets.
#[derive(Clone, Debug)]
pub enum FilterType {
    Range { name: String, data_type: ValueKind, gte: Option<String>, lte: Option<String> },
    Terms { name: String, data_type: ValueKind },
    MultiMatch { query: String, data_type: ValueKind, fields: Vec<String> },
}

/// The mathematical value of a leaf.
pub enum ValModel {
    Str(Seq<char>),
    U32(u32),
}

/// The value domain a model value lies in.
pub open spec fn model_kind(m: ValModel) -> ValueKind {
    match m {
        ValModel::Str(_) => ValueKind::Str,
        ValModel::U32(_) => ValueKind::U32,
    }
}

/// The model of a leaf value.
pub open spec fn view_of_value(v: FieldValue) -> ValModel {
    match v {
        FieldValue::Str(s) => ValModel::Str(s@),
        FieldValue::U32(n) => ValModel::U32(n),
    }
}

/// The model of a scalar host value; a list has none.
pub open spec fn scalar_model(h: HostValue) -> Option<ValModel> {
    match h {
        HostValue::Str(s) => Some(ValModel::Str(s@)),
        HostValue::U32(n) => Some(ValModel::U32(n)),
        HostValue::StrList(_) => None,
        HostValue::U32List(_) => None,
    }
}

/// The value domain of a scalar host value.
pub open spec fn scalar_kind(h: HostValue) -> Option<ValueKind> {
    match scalar_model(h) {
        Some(m) => Some(model_kind(m)),
        None => None,
    }
}

/// The models of a list host value's elements; a scalar has none.
pub open spec fn list_model(h: HostValue) -> Option<Seq<ValModel>> {
    match h {
        HostValue::StrList(l) => Some(l@.map_values(|s: String| ValModel::Str(s@))),
        HostValue::U32List(l) => Some(l@.map_values(|n: u32| ValModel::U32(n))),
        HostValue::Str(_) => None,
        HostValue::U32(_) => None,
    }
}

/// The value domain of a list host value's elements.
pub open spec fn list_kind(h: HostValue) -> Option<ValueKind> {
    match h {
        HostValue::StrList(_) => Some(ValueKind::Str),
        HostValue::U32List(_) => Some(ValueKind::U32),
        HostValue::Str(_) => None,
        HostValue::U32(_) => None,
    }
}

/// The index of the first field named `name` at or after `i`, or -1.
pub open spec fn find_from(fs: Seq<HostField>, name: Seq<char>, i: int) -> int
    decreases fs.len() - i,
    when 0 <= i <= fs.len()
{
    if i == fs.len() {
        -1
    } else if fs[i].name@ == name {
        i
    } else {
        find_from(fs, name, i + 1)
    }
}

/// Whether one declaration resolves against the host schema: every
/// host member it names exists, a read member's shape and value domain
/// agree with the declaration, and a multi-match targets at least one
/// document field.
pub open spec fn decl_resolves(d: FilterType, fs: Seq<HostField>) -> bool {
    match d {
        FilterType::Terms { name, data_type } => {
            let i = find_from(fs, name@, 0);
            &&& i >= 0
            &&& list_kind(fs[i].value) == Some(data_type)
        },
        FilterType::Range { name, data_type, gte, lte } => {
            &&& find_from(fs, name@, 0) >= 0
            &&& (gte is Some ==> {
                let i = find_from(fs, gte->0@, 0);
                &&& i >= 0
                &&& scalar_kind(fs[i].value) == Some(data_type)
            })
            &&& (lte is Some ==> {
                let i = find_from(fs, lte->0@, 0);
                &&& i >= 0
                &&& scalar_kind(fs[i].value) == Some(data_type)
            })
        },
        FilterType::MultiMatch { query, data_type, fields } => {
            let i = find_from(fs, query@, 0);
            &&& i >= 0
            &&& scalar_kind(fs[i].value) == Some(data_type)
            &&& fields@.len() >= 1
        },
    }
}

/// Whether every declaration of the list resolves.
pub open spec fn filters_resolve(ds: Seq<FilterType>, fs: Seq<HostField>) -> bool {
    forall|i: int| 0 <= i < ds.len() ==> decl_resolves(#[trigger] ds[i], fs)
}

/// Whether one clause is exactly what one declaration constructs from
/// the host's current field values.
pub open spec fn clause_represents(c: ClauseType, d: FilterType, fs: Seq<HostField>) -> bool {
    match d {
        FilterType::Terms { name, data_type } => {
            let i = find_from(fs, name@, 0);
            &&& clause_tag(c) == data_type
            &&& clause_filter(c) is Terms
            &&& clause_filter(c)->Terms_0.field@ == name@
            &&& Some(
                clause_filter(c)->Terms_0.terms_list@.map_values(
                    |v: FieldValue| view_of_value(v),
                ),
            ) == list_model(fs[i].value)
        },
        FilterType::Range { name, data_type, gte, lte } => {
            let r = clause_filter(c)->Range_0;
            &&& clause_tag(c) == data_type
            &&& clause_filter(c) is Range
            &&& r.field@ == name@
            &&& (match gte {
                Some(g) => r.gte is Some && Some(view_of_value(r.gte->0)) == scalar_model(
                    fs[find_from(fs, g@, 0)].value,
                ),
                None => r.gte is None,
            })
            &&& (match lte {
                Some(l) => r.lte is Some && Some(view_of_value(r.lte->0)) == scalar_model(
                    fs[find_from(fs, l@, 0)].value,
                ),
                None => r.lte is None,
            })
        },
        FilterType::MultiMatch { query, data_type, fields } => {
            let m = clause_filter(c)->MultiMatch_0;
            &&& clause_tag(c) == data_type
            &&& clause_filter(c) is MultiMatch
            &&& m.fields@.map_values(|s: String| s@) == fields@.map_values(|s: String| s@)
            &&& Some(view_of_value(m.query)) == scalar_model(fs[find_from(fs, query@, 0)].value)
        },
    }
}

/// Finds the first host field with the given name.
fn find_field(fields: &Vec<HostField>, name: &String) -> (r: Option<usize>)
    ensures
        match r {
            Some(i) => find_from(fields@, name@, 0) == i && i < fields@.len(),
            None => find_from(fields@, name@, 0) == -1,
        },
{
    let mut j: usize = 0;
    while j < fields.len()
        invariant
            j <= fields.len(),
            find_from(fields@, name@, 0) == find_from(fields@, name@, j as int),
        decreases fields.len() - j,
    {
        if fields[j].name.eq(name) {
            return Some(j);
        }
        j = j + 1;
    }
    None
}

/// Whether a host value is a scalar of the domain `k`.
fn scalar_kind_is(v: &HostValue, k: ValueKind) -> (b: bool)
    ensures
        b == (scalar_kind(*v) == Some(k)),
{
    match v {
        HostValue::Str(_) => k == ValueKind::Str,
        HostValue::U32(_) => k == ValueKind::U32,
        HostValue::StrList(_) => false,
        HostValue::U32List(_) => false,
    }
}

/// Whether a host value is a list over the domain `k`.
fn list_kind_is(v: &HostValue, k: ValueKind) -> (b: bool)
    ensures
        b == (list_kind(*v) == Some(k)),
{
    match v {
        HostValue::StrList(_) => k == ValueKind::Str,
        HostValue::U32List(_) => k == ValueKind::U32,
        HostValue::Str(_) => false,
        HostValue::U32(_) => false,
    }
}

/// A diagnostic for a reference to a host member that is missing or of
/// the wrong shape.
fn member_error(what: &str, name: &String) -> (r: String)
    requires
        what@.len() > 0,
    ensures
        r@.len() > 0,
        r@ == what@ + name@,
{
    String::from_str(what).concat(name.as_str())
}

/// Resolves every declaration against the host schema, in order:
/// returns `Ok` exactly when all referenced members exist with the
/// declared shapes and every multi-match has a target field; otherwise
/// the first failure's diagnostic.
pub fn resolve_filters(filters: &Vec<FilterType>, host: &HostInstance) -> (r: Result<
    (),
    String,
>)
    ensures
        r is Ok <==> filters_resolve(filters@, host.fields@),
        r is Err ==> r->Err_0@.len() > 0,
{
    let mut i: usize = 0;
    while i < filters.len()
        invariant
            i <= filters.len(),
            forall|j: int| 0 <= j < i ==> decl_resolves(#[trigger] filters@[j], host.fields@),
        decreases filters.len() - i,
    {
        match &filters[i] {
            FilterType::Terms { name, data_type } => {
                match find_field(&host.fields, name) {
                    Some(fi) => {
                        if !list_kind_is(&host.fields[fi].value, *data_type) {
                            proof {
                                reveal_strlit("field is not a list of the declared data_type: ");
                            }
                            return Err(
                                member_error("field is not a list of the declared data_type: ", name),
                            );
                        }
                    },
                    None => {
                        proof {
                            reveal_strlit("no such member: ");
                        }
                        return Err(member_error("no such member: ", name));
                    },
                }
            },
            FilterType::Range { name, data_type, gte, lte } => {
                match find_field(&host.fields, name) {
                    Some(_) => {},
                    None => {
                        proof {
                            reveal_strlit("no such member: ");
                        }
                        return Err(member_error("no such member: ", name));
                    },
                }
                match gte {
                    Some(g) => {
                        match find_field(&host.fields, g) {
                            Some(fi) => {
                                if !scalar_kind_is(&host.fields[fi].value, *data_type) {
                                    proof {
                                        reveal_strlit(
                                            "member is not a scalar of the declared data_type: ",
                                        );
                                    }
                                    return Err(
                                        member_error(
                                            "member is not a scalar of the declared data_type: ",
                                            g,
                                        ),
                                    );
                                }
                            },
                            None => {
                                proof {
                                    reveal_strlit("no such member: ");
                                }
                                return Err(member_error("no such member: ", g));
                            },
                        }
                    },
                    None => {},
                }
                match lte {
                    Some(l) => {
                        match find_field(&host.fields, l) {
                            Some(fi) => {
                                if !scalar_kind_is(&host.fields[fi].value, *data_type) {
                                    proof {
                                        reveal_strlit(
                                            "member is not a scalar of the declared data_type: ",
                                        );
                                    }
                                    return Err(
                                        member_error(
                                            "member is not a scalar of the declared data_type: ",
                                            l,
                                        ),
                                    );
                                }
                            },
                            None => {
                                proof {
                                    reveal_strlit("no such member: ");
                                }
                                return Err(member_error("no such member: ", l));
                            },
                        }
                    },
                    None => {},
                }
            },
            FilterType::MultiMatch { query, data_type, fields } => {
                match find_field(&host.fields, query) {
                    Some(fi) => {
                        if !scalar_kind_is(&host.fields[fi].value, *data_type) {
                            proof {
                                reveal_strlit("member is not a scalar of the declared data_type: ");
                            }
                            return Err(
                                member_error(
                                    "member is not a scalar of the declared data_type: ",
                                    query,
                                ),
                            );
                        }
                    },
                    None => {
                        proof {
                            reveal_strlit("no such member: ");
                        }
                        return Err(member_error("no such member: ", query));
                    },
                }
                if fields.len() == 0 {
                    proof {
                        reveal_strlit("multi_match needs at least one target field");
                    }
                    return Err(String::from_str("multi_match needs at least one target field"));
                }
            },
        }
        proof {
            assert(decl_resolves(filters@[i as int], host.fields@));
        }
        i = i + 1;
    }
    Ok(())
}

/// Reads a scalar host value as a leaf value.
fn scalar_value(v: &HostValue) -> (r: FieldValue)
    requires
        scalar_model(*v) is Some,
    ensures
        Some(view_of_value(r)) == scalar_model(*v),
        scalar_kind(*v) == Some(ValueKind::Str) ==> r is Str,
        scalar_kind(*v) == Some(ValueKind::U32) ==> r is U32,
{
    match v {
        HostValue::Str(s) => FieldValue::Str(s.clone()),
        HostValue::U32(n) => FieldValue::U32(*n),
        HostValue::StrList(_) => vstd::pervasive::unreached(),
        HostValue::U32List(_) => vstd::pervasive::unreached(),
    }
}

/// Reads a list host value as leaf values, in order.
fn list_values(v: &HostValue) -> (r: Vec<FieldValue>)
    requires
        list_model(*v) is Some,
    ensures
        Some(r@.map_values(|x: FieldValue| view_of_value(x))) == list_model(*v),
        list_kind(*v) == Some(ValueKind::Str) ==> forall|j: int|
            0 <= j < r@.len() ==> #[trigger] r@[j] is Str,
        list_kind(*v) == Some(ValueKind::U32) ==> forall|j: int|
            0 <= j < r@.len() ==> #[trigger] r@[j] is U32,
{
    let mut out: Vec<FieldValue> = Vec::new();
    match v {
        HostValue::StrList(l) => {
            let mut i: usize = 0;
            while i < l.len()
                invariant
                    i <= l.len(),
                    out@.len() == i,
                    forall|j: int| 0 <= j < i ==> #[trigger] out@[j] == FieldValue::Str(l@[j]),
                decreases l.len() - i,
            {
                out.push(FieldValue::Str(l[i].clone()));
                i = i + 1;
            }
            proof {
                let f = |x: FieldValue| view_of_value(x);
                let g = |s: String| ValModel::Str(s@);
                assert forall|j: int| 0 <= j < l@.len() implies out@.map_values(f)[j]
                    == l@.map_values(g)[j] by {
                    assert(out@[j] == FieldValue::Str(l@[j]));
                }
                assert(out@.map_values(f) =~= l@.map_values(g));
            }
        },
        HostValue::U32List(l) => {
            let mut i: usize = 0;
            while i < l.len()
                invariant
                    i <= l.len(),
                    out@.len() == i,
                    forall|j: int| 0 <= j < i ==> #[trigger] out@[j] == FieldValue::U32(l@[j]),
                decreases l.len() - i,
            {
                out.push(FieldValue::U32(l[i]));
                i = i + 1;
            }
            proof {
                let f = |x: FieldValue| view_of_value(x);
                let g = |n: u32| ValModel::U32(n);
                assert forall|j: int| 0 <= j < l@.len() implies out@.map_values(f)[j]
                    == l@.map_values(g)[j] by {
                    assert(out@[j] == FieldValue::U32(l@[j]));
                }
                assert(out@.map_values(f) =~= l@.map_values(g));
            }
        },
        HostValue::Str(_) => {
            vstd::pervasive::unreached()
        },
        HostValue::U32(_) => {
            vstd::pervasive::unreached()
        },
    }
    out
}

/// Clones a list of field names.
fn clone_names(v: &Vec<String>) -> (r: Vec<String>)
    ensures
        r@ == v@,
{
    let mut out: Vec<String> = Vec::new();
    let mut i: usize = 0;
    while i < v.len()
        invariant
            i <= v.len(),
            out@ == v@.take(i as int),
        decreases v.len() - i,
    {
        out.push(v[i].clone());
        proof {
            assert(out@ =~= v@.take(i + 1));
        }
        i = i + 1;
    }
    proof {
        assert(v@.take(v@.len() as int) =~= v@);
    }
    out
}

/// Wraps a condition in the clause tag of its declared value domain.
fn tag_clause(k: ValueKind, f: ClauseFilter) -> (c: ClauseType)
    ensures
        clause_tag(c) == k,
        clause_filter(c) == f,
{
    match k {
        ValueKind::Str => ClauseType::Str(f),
        ValueKind::U32 => ClauseType::U32(f),
    }
}

/// Builds the one clause a resolved declaration constructs from the
/// host's current field values.
fn build_clause(d: &FilterType, host: &HostInstance) -> (c: ClauseType)
    requires
        decl_resolves(*d, host.fields@),
    ensures
        clause_represents(c, *d, host.fields@),
        clause_wf(c),
{
    match d {
        FilterType::Terms { name, data_type } => {
            let fi = match find_field(&host.fields, name) {
                Some(fi) => fi,
                None => vstd::pervasive::unreached(),
            };
            let terms = list_values(&host.fields[fi].value);
            tag_clause(
                *data_type,
                ClauseFilter::Terms(TermsFilter { field: name.clone(), terms_list: terms }),
            )
        },
        FilterType::Range { name, data_type, gte, lte } => {
            let g = match gte {
                Some(gname) => {
                    let fi = match find_field(&host.fields, gname) {
                        Some(fi) => fi,
                        None => vstd::pervasive::unreached(),
                    };
                    Some(scalar_value(&host.fields[fi].value))
                },
                None => None,
            };
            let l = match lte {
                Some(lname) => {
                    let fi = match find_field(&host.fields, lname) {
                        Some(fi) => fi,
                        None => vstd::pervasive::unreached(),
                    };
                    Some(scalar_value(&host.fields[fi].value))
                },
                None => None,
            };
            tag_clause(
                *data_type,
                ClauseFilter::Range(RangeFilter { field: name.clone(), lte: l, gte: g }),
            )
        },
        FilterType::MultiMatch { query, data_type, fields } => {
            let fi = match find_field(&host.fields, query) {
                Some(fi) => fi,
                None => vstd::pervasive::unreached(),
            };
            let q = scalar_value(&host.fields[fi].value);
            tag_clause(
                *data_type,
                ClauseFilter::MultiMatch(MultiMatch { fields: clone_names(fields), query: q }),
            )
        },
    }
}

/// Builds the query document for a resolved declaration list: one
/// clause per declaration, in declaration order, gathered under a
/// boolean "must" combinator at the root. Every clause holds exactly
/// the host's current values, and every tag matches its values.
pub fn build_search_query(filters: &Vec<FilterType>, host: &HostInstance) -> (r: Query)
    requires
        filters_resolve(filters@, host.fields@),
    ensures
        clause_tag(r.query) == ValueKind::Str,
        clause_filter(r.query) is BoolQuery,
        clause_filter(r.query)->BoolQuery_0.must@.len() == filters@.len(),
        forall|i: int|
            0 <= i < filters@.len() ==> clause_represents(
                #[trigger] clause_filter(r.query)->BoolQuery_0.must@[i],
                filters@[i],
                host.fields@,
            ),
        query_wf(r),
{
    let mut must: Vec<ClauseType> = Vec::new();
    let mut i: usize = 0;
    while i < filters.len()
        invariant
            i <= filters.len(),
            filters_resolve(filters@, host.fields@),
            must@.len() == i,
            forall|j: int|
                0 <= j < i ==> clause_represents(
                    #[trigger] must@[j],
                    filters@[j],
                    host.fields@,
                ),
            forall|j: int| 0 <= j < i ==> clause_wf(#[trigger] must@[j]),
        decreases filters.len() - i,
    {
        proof {
            assert(decl_resolves(filters@[i as int], host.fields@));
        }
        let c = build_clause(&filters[i], host);
        must.push(c);
        i = i + 1;
    }
    Query { query: ClauseType::Str(ClauseFilter::BoolQuery(BoolQuery { must })) }
}

} // verus!

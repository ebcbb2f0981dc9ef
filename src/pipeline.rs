//! Assembles the aggregation pipeline of a query.

use vstd::prelude::*;

use crate::action_error::{ActionError, ActionErrorType};
use crate::bson::{BV, Bson, Entries, bview, bview_entries, bview_items, insert, keys_of, vinsert, lemma_items_len, lemma_items_push, lemma_vinsert_keys, single, stage_name};
use crate::filter::{build_where_input, one_entry, where_spec};
use crate::json::{Json, Number, size};
use crate::predicate::{compile_op, op_step};
use crate::query::{build_order_by_input, build_select_input, order_spec, select_spec};
use crate::schema::{Graph, Model, ModelIndexType, Relation};
use crate::text::{concat, owned, str_eq};

verus! {

/// How many rows a query asks for.
#[derive(Debug, Clone, Copy, PartialEq, Eq, Structural)]
pub enum QueryPipelineType {
    Unique,
    First,
    Many,
}

/// The value behind an optional reference.
pub open spec fn opt(o: Option<&Json>) -> Option<Json> {
    match o {
        Some(x) => Some(*x),
        None => None,
    }
}

/// An integer member of a query object: absent, an integer, or a type error.
pub open spec fn int_member(q: Json, k: Seq<char>) -> Result<Option<i64>, ActionErrorType> {
    match q.member(k) {
        None => Ok(None),
        Some(Json::Number(Number::Int(n))) => Ok(Some(n)),
        Some(_) => Err(ActionErrorType::UnexpectedInputType),
    }
}

/// Reads an integer member of a query object.
pub fn read_int(q: &Json, k: &str) -> (r: Result<Option<i64>, ActionError>)
    ensures
        r matches Ok(n) ==> int_member(*q, k@) == Ok::<Option<i64>, ActionErrorType>(n),
        r matches Err(e) ==> int_member(*q, k@) == Err::<Option<i64>, ActionErrorType>(e.kind),
{
    match q.get(k) {
        None => Ok(None),
        Some(Json::Number(Number::Int(n))) => Ok(Some(*n)),
        Some(_) => Err(ActionError::unexpected_input_type("integer", k)),
    }
}

/// Whether the pagination numbers are in their domains: `skip` not negative,
/// `pageSize` and `pageNumber` positive, `take` with a magnitude, and the skip
/// that a page implies within 64 bits.
pub open spec fn paging_valid(take: Option<i64>, skip: Option<i64>, page_size: Option<i64>, page_number: Option<i64>) -> bool {
    &&& take matches Some(t) ==> t != i64::MIN
    &&& skip matches Some(s) ==> s >= 0
    &&& page_size matches Some(p) ==> p >= 1
    &&& page_number matches Some(p) ==> p >= 1
    &&& match (page_size, page_number) {
        (Some(ps), Some(pn)) => (pn - 1) * ps <= i64::MAX,
        _ => true,
    }
}

pub open spec fn abs(t: i64) -> int {
    if t < 0 { -(t as int) } else { t as int }
}

/// The `$skip` and `$limit` stages: a page when both page numbers are given,
/// else `skip` and the magnitude of `take`.
pub open spec fn paging_stages(take: Option<i64>, skip: Option<i64>, page_size: Option<i64>, page_number: Option<i64>) -> Seq<BV> {
    match (page_size, page_number) {
        (Some(ps), Some(pn)) => seq![
            BV::Doc(seq![("$skip"@, BV::Int64(((pn - 1) * ps) as i64))]),
            BV::Doc(seq![("$limit"@, BV::Int64(ps))]),
        ],
        _ => (match skip {
            Some(s) => seq![BV::Doc(seq![("$skip"@, BV::Int64(s))])],
            None => Seq::empty(),
        }) + (match take {
            Some(t) => seq![BV::Doc(seq![("$limit"@, BV::Int64(abs(t) as i64))])],
            None => Seq::empty(),
        }),
    }
}

/// Appends the `$skip` and `$limit` stages.
pub fn push_paging(out: &mut Vec<Bson>, take: Option<i64>, skip: Option<i64>, page_size: Option<i64>, page_number: Option<i64>)
    requires
        paging_valid(take, skip, page_size, page_number),
    ensures
        bview_items(final(out)@) == bview_items(old(out)@) + paging_stages(take, skip, page_size, page_number),
{
    let ghost start = bview_items(out@);
    if page_size.is_some() && page_number.is_some() {
        let ps = page_size.unwrap();
        let pn = page_number.unwrap();
        proof {
            assert((pn - 1) * ps >= 0) by (nonlinear_arith)
                requires pn >= 1, ps >= 1;
        }
        let s1 = single("$skip", Bson::Int64((pn - 1) * ps));
        let s2 = single("$limit", Bson::Int64(ps));
        proof { lemma_items_push(out@, s1); }
        out.push(s1);
        proof { lemma_items_push(out@, s2); }
        out.push(s2);
        assert(bview_items(out@) =~= start + paging_stages(take, skip, page_size, page_number));
    } else {
        if let Some(s) = skip {
            let st = single("$skip", Bson::Int64(s));
            proof { lemma_items_push(out@, st); }
            out.push(st);
        }
        let ghost mid = bview_items(out@);
        if let Some(t) = take {
            let n: i64 = if t < 0 { -t } else { t };
            let st = single("$limit", Bson::Int64(n));
            proof { lemma_items_push(out@, st); }
            out.push(st);
        }
        assert(bview_items(out@) =~= start + paging_stages(take, skip, page_size, page_number));
    }
}

/// Whether `k` alone is the key of the primary index or of a unique index.
pub open spec fn is_single_unique(m: Model, k: Seq<char>) -> bool {
    (m.primary.items@.len() == 1 && m.primary.items@[0].field_name@ == k) || exists|i: int|
        0 <= i < m.indices@.len() && (#[trigger] m.indices@[i]).items@.len() == 1
            && (m.indices@[i].index_type == ModelIndexType::Unique || m.indices@[i].index_type == ModelIndexType::Primary)
            && m.indices@[i].items@[0].field_name@ == k
}

/// Whether the cursor runs in ascending order: the `orderBy` direction, flipped by a negative `take`.
pub open spec fn cursor_ascending(dir: Seq<char>, take: Option<i64>) -> bool {
    (dir == "asc"@) != (take matches Some(t) && t < 0)
}

/// The predicate that a cursor adds to the `$match`: `k >= v` in ascending
/// order, else `k <= v`, over the column of `k`.
pub open spec fn cursor_spec(g: Graph, m: Model, order_by: Option<Json>, cursor: Json, take: Option<i64>) -> Result<Seq<(Seq<char>, BV)>, ActionErrorType> {
    match (cursor, order_by) {
        (Json::Object(ce), Some(Json::Object(oe))) => if oe@.len() != 1 || ce@.len() != 1 {
            Err(ActionErrorType::InvalidQueryInput)
        } else if ce@[0].0@ != oe@[0].0@ {
            Err(ActionErrorType::InvalidQueryInput)
        } else {
            let k = oe@[0].0@;
            match oe@[0].1 {
                Json::Str(dir) => if dir@ != "asc"@ && dir@ != "desc"@ {
                    Err(ActionErrorType::InvalidQueryInput)
                } else if !is_single_unique(m, k) {
                    Err(ActionErrorType::InvalidQueryInput)
                } else if !m.is_queryable(k) {
                    Err(ActionErrorType::UnexpectedInputKey)
                } else {
                    match m.field_spec(k) {
                        Some(f) => {
                            let op = if cursor_ascending(dir@, take) { "gte"@ } else { "lte"@ };
                            match op_step(g.enums@, f.field_type, false, op, ce@[0].1) {
                                Ok(Some((ok, b))) => Ok(seq![(f.column_name@, BV::Doc(seq![(ok, b)]))]),
                                Ok(None) => Ok(seq![(f.column_name@, BV::Doc(Seq::empty()))]),
                                Err(e) => Err(e),
                            }
                        },
                        None => Err(ActionErrorType::UnexpectedInputKey),
                    }
                },
                _ => Err(ActionErrorType::InvalidQueryInput),
            }
        },
        _ => Err(ActionErrorType::InvalidQueryInput),
    }
}

fn single_unique(m: &Model, k: &str) -> (r: bool)
    ensures
        r == is_single_unique(*m, k@),
{
    if m.primary.items.len() == 1 && str_eq(m.primary.items[0].field_name.as_str(), k) {
        return true;
    }
    let mut i: usize = 0;
    while i < m.indices.len()
        invariant
            i <= m.indices@.len(),
            forall|j: int| 0 <= j < i ==> !(
                (#[trigger] m.indices@[j]).items@.len() == 1
                && (m.indices@[j].index_type == ModelIndexType::Unique || m.indices@[j].index_type == ModelIndexType::Primary)
                && m.indices@[j].items@[0].field_name@ == k@),
        decreases m.indices.len() - i,
    {
        let index = &m.indices[i];
        if index.items.len() == 1 && (index.index_type == ModelIndexType::Unique || index.index_type == ModelIndexType::Primary)
            && str_eq(index.items[0].field_name.as_str(), k) {
            return true;
        }
        i = i + 1;
    }
    false
}

/// Checks a cursor against its `orderBy` and builds the predicate it adds to the `$match`.
pub fn build_cursor_where(m: &Model, g: &Graph, order_by: Option<&Json>, cursor: &Json, take: Option<i64>) -> (r: Result<Entries, ActionError>)
    ensures
        r matches Ok(d) ==> cursor_spec(*g, *m, opt(order_by), *cursor, take) == Ok::<Seq<(Seq<char>, BV)>, ActionErrorType>(bview_entries(d@)),
        r matches Err(e) ==> cursor_spec(*g, *m, opt(order_by), *cursor, take) == Err::<Seq<(Seq<char>, BV)>, ActionErrorType>(e.kind),
{
    let ce = match cursor {
        Json::Object(ce) => ce,
        _ => { return Err(ActionError::invalid_query_input("'cursor' should be an object represents unique where input.")); },
    };
    let oe = match order_by {
        Some(Json::Object(oe)) => oe,
        _ => { return Err(ActionError::invalid_query_input("'cursor' should be used together with an object 'orderBy'.")); },
    };
    if oe.len() != 1 || ce.len() != 1 {
        return Err(ActionError::invalid_query_input("'cursor' and 'orderBy' should each have a single key which represents a unique constraint."));
    }
    let k = oe[0].0.as_str();
    if !str_eq(ce[0].0.as_str(), k) {
        return Err(ActionError::invalid_query_input("'cursor' and 'orderBy' should have single same key."));
    }
    let dir = match &oe[0].1 {
        Json::Str(dir) => dir.as_str(),
        _ => { return Err(ActionError::invalid_query_input("Field value of 'orderBy' should be one of 'asc' or 'desc'.")); },
    };
    let asc = str_eq(dir, "asc");
    if !asc && !str_eq(dir, "desc") {
        return Err(ActionError::invalid_query_input("Field value of 'orderBy' should be one of 'asc' or 'desc'."));
    }
    if !single_unique(m, k) {
        return Err(ActionError::invalid_query_input("'cursor' should be on a key of a single-field unique index."));
    }
    if !m.queryable(k) {
        return Err(ActionError::unexpected_input_key(k, "cursor"));
    }
    let f = match m.field(k) {
        Some(f) => f,
        None => { return Err(ActionError::unexpected_input_key(k, "cursor")); },
    };
    let negative = match take {
        Some(t) => t < 0,
        None => false,
    };
    let op = if asc != negative { "gte" } else { "lte" };
    let inner = match compile_op(g, &f.field_type, false, op, &ce[0].1) {
        Ok(Some(e)) => single(e.0.as_str(), e.1),
        Ok(None) => {
            let empty: Entries = Vec::new();
            assert(bview_entries(empty@) =~= Seq::<(Seq<char>, BV)>::empty());
            Bson::Doc(empty)
        },
        Err(e) => { return Err(e); },
    };
    let mut d: Entries = Vec::new();
    insert(&mut d, f.column_name.clone(), inner);
    Ok(d)
}

/// Keys of an object's entries.
pub open spec fn entry_keys(entries: Seq<(String, Json)>) -> Seq<String> {
    entries.map_values(|e: (String, Json)| e.0)
}

/// Checks that a `Unique` query names, in its `where`, exactly the key set of a
/// unique or primary index; `FieldIsNotUnique` otherwise, also when the `where`
/// is missing or no object.
pub fn validate_where_unique(m: &Model, where_: Option<&Json>) -> (r: Result<(), ActionError>)
    ensures
        r is Ok <==> (where_ matches Some(w) && *w is Object && m.is_unique_key_set(entry_keys(w.entries()))),
        r matches Err(e) ==> e.kind == ActionErrorType::FieldIsNotUnique,
{
    let entries = match where_ {
        Some(Json::Object(entries)) => entries,
        _ => { return Err(ActionError::field_is_not_unique()); },
    };
    let mut keys: Vec<String> = Vec::new();
    let mut i: usize = 0;
    while i < entries.len()
        invariant
            i <= entries@.len(),
            keys@ == entry_keys(entries@.take(i as int)),
        decreases entries.len() - i,
    {
        keys.push(entries[i].0.clone());
        i = i + 1;
        assert(keys@ =~= entry_keys(entries@.take(i as int)));
    }
    assert(entries@.take(i as int) =~= entries@);
    if !m.unique_key_set(&keys) {
        return Err(ActionError::field_is_not_unique());
    }
    Ok(())
}

/// Whether a nested query asks for the last rows of its order: a negative `take`.
pub open spec fn negative_take(j: Json) -> bool {
    j.member("take"@) matches Some(Json::Number(Number::Int(n))) && n < 0
}

pub fn has_negative_take(j: &Json) -> (r: bool)
    ensures
        r == negative_take(*j),
{
    match j.get("take") {
        Some(Json::Number(Number::Int(n))) => *n < 0,
        _ => false,
    }
}

/// One `$unset` stage for each relation key of a `where`, in order.
pub open spec fn unset_stages(m: Model, entries: Seq<(String, Json)>) -> Seq<BV>
    decreases entries.len(),
{
    if entries.len() == 0 {
        Seq::empty()
    } else {
        let s = unset_stages(m, entries.drop_last());
        if m.relation_spec(entries.last().0@) is Some {
            s.push(BV::Doc(seq![("$unset"@, BV::Str(entries.last().0@))]))
        } else {
            s
        }
    }
}

/// The number of relation keys of a `where`.
pub open spec fn relation_key_count(m: Model, entries: Seq<(String, Json)>) -> nat
    decreases entries.len(),
{
    if entries.len() == 0 {
        0
    } else {
        relation_key_count(m, entries.drop_last()) + if m.relation_spec(entries.last().0@) is Some { 1nat } else { 0nat }
    }
}

/// Builds the `$unset` stages that drop the arrays joined for relation predicates.
pub fn build_unsets_for_match_lookup(m: &Model, where_: &Json) -> (r: Vec<Bson>)
    ensures
        bview_items(r@) == unset_stages(*m, where_.entries()),
{
    let mut out: Vec<Bson> = Vec::new();
    let entries = match where_ {
        Json::Object(entries) => entries,
        _ => { return out; },
    };
    let mut i: usize = 0;
    while i < entries.len()
        invariant
            where_.entries() == entries@,
            i <= entries@.len(),
            bview_items(out@) == unset_stages(*m, entries@.take(i as int)),
        decreases entries.len() - i,
    {
        proof {
            assert(entries@.take(i as int + 1).drop_last() =~= entries@.take(i as int));
            assert(entries@.take(i as int + 1).last() == entries@[i as int]);
        }
        let k = entries[i].0.as_str();
        if m.relation(k).is_some() {
            let st = single("$unset", Bson::Str(owned(k)));
            proof { lemma_items_push(out@, st); }
            out.push(st);
        }
        i = i + 1;
    }
    assert(entries@.take(i as int) =~= entries@);
    out
}

/// The body of the `$match` stage: the compiled `where` (inside a `$nor` when
/// negated), joined with the cursor's predicate under `$and` when both are present.
pub open spec fn match_body_spec(w: Seq<(Seq<char>, BV)>, negate: bool, cursor: Option<Seq<(Seq<char>, BV)>>) -> Option<Seq<(Seq<char>, BV)>> {
    let body = if negate { seq![("$nor"@, BV::Array(seq![BV::Doc(w)]))] } else { w };
    if body.len() > 0 {
        match cursor {
            Some(c) => Some(seq![("$and"@, BV::Array(seq![BV::Doc(body), BV::Doc(c)]))]),
            None => Some(body),
        }
    } else {
        cursor
    }
}

/// The pieces of a query's pipeline, in the order they run.
pub struct Parts {
    /// `$lookup` stages that join the rows a relation predicate tests.
    pub predictions: Vec<Bson>,
    /// The body of the `$match` stage, if any.
    pub match_body: Option<Entries>,
    /// `$unset` stages that drop the joined arrays again.
    pub unsets: Vec<Bson>,
    /// The body of the `$sort` stage, if any.
    pub sort: Option<Entries>,
    /// `$skip` and `$limit` stages.
    pub paging: Vec<Bson>,
    /// The body of the `$project` stage, if any.
    pub project: Option<Entries>,
    /// `$lookup` stages of `include`, each possibly followed by a `$set` that reverses it.
    pub includes: Vec<Bson>,
}

pub open spec fn opt_entries(o: Option<Entries>) -> Option<Seq<(Seq<char>, BV)>> {
    match o {
        Some(d) => Some(bview_entries(d@)),
        None => None,
    }
}

/// The stage `{name: body}` for a present body, else no stage.
pub open spec fn stage_if(name: Seq<char>, body: Option<Seq<(Seq<char>, BV)>>) -> Seq<BV> {
    match body {
        Some(d) => seq![BV::Doc(seq![(name, BV::Doc(d))])],
        None => Seq::empty(),
    }
}

/// The mathematical value of `Parts`.
pub struct PartsV {
    pub predictions: Seq<BV>,
    pub match_body: Option<Seq<(Seq<char>, BV)>>,
    pub unsets: Seq<BV>,
    pub sort: Option<Seq<(Seq<char>, BV)>>,
    pub paging: Seq<BV>,
    pub project: Option<Seq<(Seq<char>, BV)>>,
    pub includes: Seq<BV>,
}

pub open spec fn parts_view(p: Parts) -> PartsV {
    PartsV {
        predictions: bview_items(p.predictions@),
        match_body: opt_entries(p.match_body),
        unsets: bview_items(p.unsets@),
        sort: opt_entries(p.sort),
        paging: bview_items(p.paging@),
        project: opt_entries(p.project),
        includes: bview_items(p.includes@),
    }
}

/// The stages of the parts, in order.
pub open spec fn stages_of(p: PartsV) -> Seq<BV> {
    p.predictions + stage_if("$match"@, p.match_body) + p.unsets + stage_if("$sort"@, p.sort) + p.paging
        + stage_if("$project"@, p.project) + p.includes
}

/// The stages of the parts, in order.
pub open spec fn parts_stages(p: Parts) -> Seq<BV> {
    stages_of(parts_view(p))
}

fn push_stage(out: &mut Vec<Bson>, name: &str, body: Option<Entries>)
    ensures
        bview_items(final(out)@) == bview_items(old(out)@) + stage_if(name@, opt_entries(body)),
{
    match body {
        Some(d) => {
            let st = single(name, Bson::Doc(d));
            proof { lemma_items_push(out@, st); }
            out.push(st);
        },
        None => {
            assert(bview_items(out@) =~= bview_items(out@) + Seq::<BV>::empty());
        },
    }
}

fn append_all(out: &mut Vec<Bson>, mut more: Vec<Bson>)
    ensures
        bview_items(final(out)@) == bview_items(old(out)@) + bview_items(more@),
{
    let ghost a = out@;
    let ghost b = more@;
    out.append(&mut more);
    proof {
        lemma_items_concat(a, b);
        assert(out@ =~= a + b);
    }
}

proof fn lemma_items_concat(a: Seq<Bson>, b: Seq<Bson>)
    ensures
        bview_items(a + b) == bview_items(a) + bview_items(b),
    decreases b.len(),
{
    if b.len() == 0 {
        assert(a + b =~= a);
        assert(bview_items(a) + bview_items(b) =~= bview_items(a));
    } else {
        lemma_items_concat(a, b.drop_last());
        assert((a + b).drop_last() =~= a + b.drop_last());
        assert((a + b).last() == b.last());
        assert(bview_items(a) + bview_items(b) =~= (bview_items(a) + bview_items(b.drop_last())).push(bview(b.last())));
    }
}

/// The stages of the parts, in order.
pub fn assemble(p: Parts) -> (r: Vec<Bson>)
    ensures
        bview_items(r@) == parts_stages(p),
{
    let ghost q = p;
    let Parts { predictions, match_body, unsets, sort, paging, project, includes } = p;
    let mut out: Vec<Bson> = Vec::new();
    assert(bview_items(out@) =~= Seq::<BV>::empty());
    append_all(&mut out, predictions);
    push_stage(&mut out, "$match", match_body);
    append_all(&mut out, unsets);
    push_stage(&mut out, "$sort", sort);
    append_all(&mut out, paging);
    push_stage(&mut out, "$project", project);
    append_all(&mut out, includes);
    proof {
        assert(bview_items(out@) =~= parts_stages(q));
    }
    out
}

/// A `$lookup` stage.
pub open spec fn lookup_stage(from: Seq<char>, as_: Seq<char>, let_: Seq<(Seq<char>, BV)>, pipeline: Seq<BV>) -> BV {
    BV::Doc(seq![("$lookup"@, BV::Doc(seq![
        ("from"@, BV::Str(from)),
        ("as"@, BV::Str(as_)),
        ("let"@, BV::Doc(let_)),
        ("pipeline"@, BV::Array(pipeline)),
    ]))])
}

/// The `$set` stage that reverses the array joined under `name`.
pub open spec fn reverse_stage(name: Seq<char>) -> BV {
    BV::Doc(seq![("$set"@, BV::Doc(seq![(name, BV::Doc(seq![("$reverseArray"@, BV::Str(seq!['$'] + name))]))]))])
}

/// The `$unwind` and `$replaceRoot` stages that lift the rows joined under `name`.
pub open spec fn unwind_stage(name: Seq<char>) -> BV {
    BV::Doc(seq![("$unwind"@, BV::Doc(seq![("path"@, BV::Str(seq!['$'] + name))]))])
}

pub open spec fn replace_root_stage(name: Seq<char>) -> BV {
    BV::Doc(seq![("$replaceRoot"@, BV::Doc(seq![("newRoot"@, BV::Str(seq!['$'] + name))]))])
}

fn doc4(k1: &str, v1: Bson, k2: &str, v2: Bson, k3: &str, v3: Bson, k4: &str, v4: Bson) -> (r: Bson)
    ensures
        r@ == BV::Doc(seq![(k1@, v1@), (k2@, v2@), (k3@, v3@), (k4@, v4@)]),
{
    let mut d: Entries = Vec::new();
    d.push((owned(k1), v1));
    proof { crate::bson::lemma_entries_push(Seq::empty(), d@[0]); assert(d@ =~= Seq::<(String, Bson)>::empty().push(d@[0])); }
    let ghost p1 = d@;
    d.push((owned(k2), v2));
    proof { crate::bson::lemma_entries_push(p1, d@[1]); assert(d@ =~= p1.push(d@[1])); }
    let ghost p2 = d@;
    d.push((owned(k3), v3));
    proof { crate::bson::lemma_entries_push(p2, d@[2]); assert(d@ =~= p2.push(d@[2])); }
    let ghost p3 = d@;
    d.push((owned(k4), v4));
    proof { crate::bson::lemma_entries_push(p3, d@[3]); assert(d@ =~= p3.push(d@[3])); }
    let r = Bson::Doc(d);
    assert(r@ == BV::Doc(bview_entries(d@)));
    assert(bview_entries(d@) =~= seq![(k1@, v1@), (k2@, v2@), (k3@, v3@), (k4@, v4@)]);
    r
}

fn make_lookup(from: &str, as_: &str, let_: Entries, pipeline: Vec<Bson>) -> (r: Bson)
    ensures
        r@ == lookup_stage(from@, as_@, bview_entries(let_@), bview_items(pipeline@)),
{
    let body = doc4("from", Bson::Str(owned(from)), "as", Bson::Str(owned(as_)), "let", Bson::Doc(let_), "pipeline", Bson::Array(pipeline));
    single("$lookup", body)
}

fn dollar(s: &str) -> (r: String)
    ensures
        r@ == seq!['$'] + s@,
{
    proof { reveal_strlit("$"); }
    concat("$", s)
}

fn dollar2(s: &str) -> (r: String)
    ensures
        r@ == seq!['$', '$'] + s@,
{
    proof { reveal_strlit("$$"); }
    concat("$$", s)
}

fn pair(a: Bson, b: Bson) -> (r: Bson)
    ensures
        r@ == BV::Array(seq![a@, b@]),
{
    let mut v: Vec<Bson> = Vec::new();
    let ghost a0 = a@;
    let ghost b0 = b@;
    proof { lemma_items_push(v@, a); }
    v.push(a);
    let ghost p1 = v@;
    proof { lemma_items_push(p1, b); }
    v.push(b);
    assert(bview_items(v@) =~= seq![a0, b0]);
    Bson::Array(v)
}

/// Whether a stage is one that paginates or sorts: `$sort`, `$skip` or `$limit`.
pub open spec fn is_paging_stage(b: BV) -> bool {
    stage_name(b) == Some("$sort"@) || stage_name(b) == Some("$skip"@) || stage_name(b) == Some("$limit"@)
}

/// Whether no stage of a pipeline sorts or paginates.
pub open spec fn no_paging(pipe: Seq<BV>) -> bool {
    forall|i: int| 0 <= i < pipe.len() ==> !is_paging_stage(#[trigger] pipe[i])
}

/// The shape of the pipeline of a join over a join table, for the relation
/// `name`: the join rows, the joined rows under the relation name (a pipeline
/// without sorting or pagination), `$unwind` and `$replaceRoot`, and after them
/// only the sorting and pagination of the nested query.
pub open spec fn through_shape(pipe: Seq<BV>, name: Seq<char>) -> bool {
    &&& pipe.len() >= 4
    &&& stage_name(pipe[0]) == Some("$match"@)
    &&& exists|from: Seq<char>, let_: Seq<(Seq<char>, BV)>, inner: Seq<BV>|
        pipe[1] == #[trigger] lookup_stage(from, name, let_, inner) && no_paging(inner)
    &&& pipe[2] == unwind_stage(name)
    &&& pipe[3] == replace_root_stage(name)
    &&& forall|i: int| 4 <= i < pipe.len() ==> is_paging_stage(#[trigger] pipe[i])
}

/// The stage names of parts: joins, `$unset`s, pagination and the joins of `include`.
pub open spec fn parts_names_ok(p: Parts) -> bool {
    &&& forall|i: int| 0 <= i < p.predictions@.len() ==> stage_name(#[trigger] p.predictions@[i]@) == Some("$lookup"@)
    &&& forall|i: int| 0 <= i < bview_items(p.unsets@).len() ==> stage_name(#[trigger] bview_items(p.unsets@)[i]) == Some("$unset"@)
    &&& forall|i: int| 0 <= i < bview_items(p.paging@).len() ==>
        (stage_name(#[trigger] bview_items(p.paging@)[i]) == Some("$skip"@) || stage_name(bview_items(p.paging@)[i]) == Some("$limit"@))
    &&& forall|i: int| 0 <= i < p.includes@.len() ==>
        (stage_name(#[trigger] p.includes@[i]@) == Some("$lookup"@) || stage_name(p.includes@[i]@) == Some("$set"@))
}

proof fn lemma_unset_names(m: Model, entries: Seq<(String, Json)>)
    ensures
        forall|i: int| 0 <= i < unset_stages(m, entries).len() ==> stage_name(#[trigger] unset_stages(m, entries)[i]) == Some("$unset"@),
    decreases entries.len(),
{
    if entries.len() > 0 {
        lemma_unset_names(m, entries.drop_last());
    }
}

proof fn lemma_parts_names(g: Graph, m: Model, where_: Option<Json>, negate: bool, order_by: Option<Json>, cursor: Option<Json>,
    take: Option<i64>, skip: Option<i64>, page_size: Option<i64>, page_number: Option<i64>, has_joins: bool, select: Option<Json>, p: Parts)
    requires
        parts_ok(g, m, where_, negate, order_by, cursor, take, skip, page_size, page_number, has_joins, select, p),
    ensures
        parts_names_ok(p),
{
    match where_ {
        Some(w) => { lemma_unset_names(m, w.entries()); },
        None => {},
    }
    lemma_items_len(p.predictions@);
    lemma_items_len(p.includes@);
}

/// The stages of parts without sorting or pagination hold none of either.
proof fn lemma_no_paging(p: Parts)
    requires
        parts_names_ok(p),
        p.sort is None,
        p.paging@.len() == 0,
    ensures
        no_paging(parts_stages(p)),
{
    reveal_strlit("$lookup");
    reveal_strlit("$unset");
    reveal_strlit("$set");
    reveal_strlit("$match");
    reveal_strlit("$project");
    reveal_strlit("$sort");
    reveal_strlit("$skip");
    reveal_strlit("$limit");
    assert("$lookup"@.len() == 7 && "$unset"@.len() == 6 && "$set"@.len() == 4 && "$match"@.len() == 6 && "$project"@.len() == 8);
    assert("$sort"@.len() == 5 && "$skip"@.len() == 5 && "$limit"@.len() == 6);
    assert("$unset"@[1] != "$limit"@[1] && "$match"@[1] != "$limit"@[1]);
    lemma_items_len(p.predictions@);
    lemma_items_len(p.includes@);
    lemma_items_len(p.paging@);
    let s = parts_stages(p);
    let a = bview_items(p.predictions@);
    let b = stage_if("$match"@, opt_entries(p.match_body));
    let c = bview_items(p.unsets@);
    let e = stage_if("$project"@, opt_entries(p.project));
    let f = bview_items(p.includes@);
    assert(stage_if("$sort"@, opt_entries(p.sort)) =~= Seq::<BV>::empty());
    assert(bview_items(p.paging@) =~= Seq::<BV>::empty());
    assert(s =~= a + b + c + e + f);
    assert forall|i: int| 0 <= i < s.len() implies !is_paging_stage(#[trigger] s[i]) by {
        if i < a.len() {
            assert(s[i] == a[i]);
            assert(a[i] == p.predictions@[i]@);
            assert(stage_name(s[i]) == Some("$lookup"@));
        } else if i < a.len() + b.len() {
            assert(s[i] == b[i - a.len()]);
            assert(stage_name(s[i]) == Some("$match"@));
        } else if i < a.len() + b.len() + c.len() {
            assert(s[i] == c[i - a.len() - b.len()]);
            assert(stage_name(s[i]) == Some("$unset"@));
        } else if i < a.len() + b.len() + c.len() + e.len() {
            assert(s[i] == e[i - a.len() - b.len() - c.len()]);
            assert(stage_name(s[i]) == Some("$project"@));
        } else {
            let j = i - a.len() - b.len() - c.len() - e.len();
            assert(s[i] == f[j]);
            assert(f[j] == p.includes@[j]@);
            assert(stage_name(s[i]) == Some("$lookup"@) || stage_name(s[i]) == Some("$set"@));
        }
        assert("$lookup"@ != "$sort"@ && "$lookup"@ != "$skip"@ && "$lookup"@ != "$limit"@);
        assert("$match"@ != "$sort"@ && "$match"@ != "$skip"@ && "$match"@ != "$limit"@);
        assert("$unset"@ != "$sort"@ && "$unset"@ != "$skip"@ && "$unset"@ != "$limit"@);
        assert("$project"@ != "$sort"@ && "$project"@ != "$skip"@ && "$project"@ != "$limit"@);
        assert("$set"@ != "$sort"@ && "$set"@ != "$skip"@ && "$set"@ != "$limit"@);
    }
}

/// The stage `{"$limit": 1}`.
pub open spec fn limit_one() -> BV {
    BV::Doc(seq![("$limit"@, BV::Int64(1))])
}

/// Whether a stage is a `$lookup` whose pipeline holds `{"$limit": 1}`.
pub open spec fn joins_one_row(b: BV) -> bool {
    exists|from: Seq<char>, name: Seq<char>, let_: Seq<(Seq<char>, BV)>, pipe: Seq<BV>|
        b == #[trigger] lookup_stage(from, name, let_, pipe) && pipe.contains(limit_one())
}

/// Whether a pipeline has a `$match` stage that holds a `$nor`.
pub open spec fn has_negated_match(pipe: Seq<BV>) -> bool {
    exists|i: int, body: Seq<(Seq<char>, BV)>|
        0 <= i < pipe.len() && #[trigger] pipe[i] == BV::Doc(seq![("$match"@, BV::Doc(body))]) && #[trigger] keys_of(body).contains("$nor"@)
}

/// `$` before a name: a field path.
pub open spec fn dl(s: Seq<char>) -> Seq<char> {
    seq!['$'] + s
}

/// `$$` before a name: a variable.
pub open spec fn dl2(s: Seq<char>) -> Seq<char> {
    seq!['$', '$'] + s
}

/// `{"$eq": [a, b]}`.
pub open spec fn eq_pair(a: Seq<char>, b: Seq<char>) -> BV {
    BV::Doc(seq![("$eq"@, BV::Array(seq![BV::Str(a), BV::Str(b)]))])
}

/// `{"$and": items}`.
pub open spec fn and_doc(items: Seq<BV>) -> BV {
    BV::Doc(seq![("$and"@, BV::Array(items))])
}

/// Which pair of models a join's keys run between.
#[derive(Debug, Clone, Copy, PartialEq, Eq, Structural)]
pub enum KeyMode {
    /// From the local model to the related model of a direct relation.
    Direct,
    /// From the local model to the join model.
    ToJoin,
    /// From the join model to the related model.
    FromJoin,
}

/// The `let` entry and the equality that the `i`-th key pair of a join adds.
/// `m1` is the model whose fields `refs` name and `m2` the model whose fields
/// `names` name, except in `Direct` mode, where `names` are fields of `m1` and
/// `refs` fields of `m2`.
pub open spec fn key_step(mode: KeyMode, m1: Model, m2: Model, names: Seq<String>, refs: Seq<String>, i: int) -> Result<(Seq<char>, BV, BV), ActionErrorType> {
    match mode {
        KeyMode::Direct => match m1.field_spec(names[i]@) {
            None => Err(ActionErrorType::InvalidKey),
            Some(f) => if i >= refs.len() {
                Err(ActionErrorType::InvalidKey)
            } else {
                match m2.field_spec(refs[i]@) {
                    None => Err(ActionErrorType::InvalidKey),
                    Some(rf) => Ok((refs[i]@, BV::Str(dl(f.column_name@)), eq_pair(dl(rf.column_name@), dl2(refs[i]@)))),
                }
            },
        },
        KeyMode::ToJoin => if i >= refs.len() {
            Err(ActionErrorType::InvalidKey)
        } else {
            match m1.field_spec(refs[i]@) {
                None => Err(ActionErrorType::InvalidKey),
                Some(l) => match m2.field_spec(names[i]@) {
                    None => Err(ActionErrorType::InvalidKey),
                    Some(j) => Ok((names[i]@, BV::Str(dl(l.column_name@)), eq_pair(dl(j.column_name@), dl2(names[i]@)))),
                },
            }
        },
        KeyMode::FromJoin => if i >= refs.len() {
            Err(ActionErrorType::InvalidKey)
        } else {
            match m1.field_spec(refs[i]@) {
                None => Err(ActionErrorType::InvalidKey),
                Some(fo) => match m2.field_spec(names[i]@) {
                    None => Err(ActionErrorType::InvalidKey),
                    Some(j) => Ok((names[i]@, BV::Str(dl(j.column_name@)), eq_pair(dl(fo.column_name@), dl2(names[i]@)))),
                },
            }
        },
    }
}

/// The `let` document and the equalities of the first `n` key pairs of a join.
pub open spec fn join_keys(mode: KeyMode, m1: Model, m2: Model, names: Seq<String>, refs: Seq<String>, n: nat) -> Result<(Seq<(Seq<char>, BV)>, Seq<BV>), ActionErrorType>
    decreases n,
{
    if n == 0 {
        Ok((Seq::empty(), Seq::empty()))
    } else {
        match join_keys(mode, m1, m2, names, refs, (n - 1) as nat) {
            Err(e) => Err(e),
            Ok((lv, eqs)) => match key_step(mode, m1, m2, names, refs, n - 1) {
                Err(e) => Err(e),
                Ok((k, v, e)) => Ok((vinsert(lv, k, v), eqs.push(e))),
            },
        }
    }
}

proof fn lemma_join_keys_fails(mode: KeyMode, m1: Model, m2: Model, names: Seq<String>, refs: Seq<String>, k: nat, n: nat)
    requires
        k <= n,
        join_keys(mode, m1, m2, names, refs, k) is Err,
    ensures
        join_keys(mode, m1, m2, names, refs, n) == join_keys(mode, m1, m2, names, refs, k),
    decreases n,
{
    if n > k {
        lemma_join_keys_fails(mode, m1, m2, names, refs, k, (n - 1) as nat);
    }
}

fn key_step_exec(mode: KeyMode, m1: &Model, m2: &Model, names: &Vec<String>, refs: &Vec<String>, i: usize) -> (r: Result<(String, Bson, Bson), ActionError>)
    requires
        i < names@.len(),
    ensures
        r matches Ok(t) ==> key_step(mode, *m1, *m2, names@, refs@, i as int) == Ok::<(Seq<char>, BV, BV), ActionErrorType>((t.0@, t.1@, t.2@)),
        r matches Err(e) ==> key_step(mode, *m1, *m2, names@, refs@, i as int) == Err::<(Seq<char>, BV, BV), ActionErrorType>(e.kind),
{
    match mode {
        KeyMode::Direct => {
            let f = match m1.field(names[i].as_str()) {
                Some(f) => f,
                None => { return Err(ActionError::invalid_key(names[i].as_str(), m1.name())); },
            };
            if i >= refs.len() {
                return Err(ActionError::invalid_key(names[i].as_str(), m2.name()));
            }
            let r = refs[i].as_str();
            let rf = match m2.field(r) {
                Some(rf) => rf,
                None => { return Err(ActionError::invalid_key(r, m2.name())); },
            };
            Ok((owned(r), Bson::Str(dollar(f.column_name())), single("$eq", pair(Bson::Str(dollar(rf.column_name())), Bson::Str(dollar2(r))))))
        },
        KeyMode::ToJoin => {
            if i >= refs.len() {
                return Err(ActionError::invalid_key(names[i].as_str(), m2.name()));
            }
            let l = match m1.field(refs[i].as_str()) {
                Some(f) => f,
                None => { return Err(ActionError::invalid_key(refs[i].as_str(), m1.name())); },
            };
            let n = names[i].as_str();
            let j = match m2.field(n) {
                Some(f) => f,
                None => { return Err(ActionError::invalid_key(n, m2.name())); },
            };
            Ok((owned(n), Bson::Str(dollar(l.column_name())), single("$eq", pair(Bson::Str(dollar(j.column_name())), Bson::Str(dollar2(n))))))
        },
        KeyMode::FromJoin => {
            if i >= refs.len() {
                return Err(ActionError::invalid_key(names[i].as_str(), m2.name()));
            }
            let fo = match m1.field(refs[i].as_str()) {
                Some(f) => f,
                None => { return Err(ActionError::invalid_key(refs[i].as_str(), m1.name())); },
            };
            let n = names[i].as_str();
            let j = match m2.field(n) {
                Some(f) => f,
                None => { return Err(ActionError::invalid_key(n, m2.name())); },
            };
            Ok((owned(n), Bson::Str(dollar(j.column_name())), single("$eq", pair(Bson::Str(dollar(fo.column_name())), Bson::Str(dollar2(n))))))
        },
    }
}

/// Builds the `let` document and the equalities of a join's key pairs.
fn build_join_keys(mode: KeyMode, m1: &Model, m2: &Model, names: &Vec<String>, refs: &Vec<String>) -> (r: Result<(Entries, Vec<Bson>), ActionError>)
    ensures
        r matches Ok(t) ==> join_keys(mode, *m1, *m2, names@, refs@, names@.len()) == Ok::<(Seq<(Seq<char>, BV)>, Seq<BV>), ActionErrorType>((bview_entries(t.0@), bview_items(t.1@))),
        r matches Err(e) ==> join_keys(mode, *m1, *m2, names@, refs@, names@.len()) == Err::<(Seq<(Seq<char>, BV)>, Seq<BV>), ActionErrorType>(e.kind),
{
    let mut lv: Entries = Vec::new();
    let mut eqs: Vec<Bson> = Vec::new();
    assert(bview_entries(lv@) =~= Seq::<(Seq<char>, BV)>::empty());
    assert(bview_items(eqs@) =~= Seq::<BV>::empty());
    let mut i: usize = 0;
    while i < names.len()
        invariant
            i <= names@.len(),
            join_keys(mode, *m1, *m2, names@, refs@, i as nat) == Ok::<(Seq<(Seq<char>, BV)>, Seq<BV>), ActionErrorType>((bview_entries(lv@), bview_items(eqs@))),
        decreases names.len() - i,
    {
        match key_step_exec(mode, m1, m2, names, refs, i) {
            Ok((k, v, e)) => {
                insert(&mut lv, k, v);
                proof { lemma_items_push(eqs@, e); }
                eqs.push(e);
            },
            Err(e) => {
                proof {
                    lemma_join_keys_fails(mode, *m1, *m2, names@, refs@, (i + 1) as nat, names@.len());
                }
                return Err(e);
            },
        }
        i = i + 1;
    }
    Ok((lv, eqs))
}

/// `d` with each entry of `more` inserted in turn.
pub open spec fn merged(d: Seq<(Seq<char>, BV)>, more: Seq<(Seq<char>, BV)>) -> Seq<(Seq<char>, BV)>
    decreases more.len(),
{
    if more.len() == 0 {
        d
    } else {
        vinsert(merged(d, more.drop_last()), more.last().0, more.last().1)
    }
}

/// The inner pipeline source of a relation lookup, as a value.
pub enum InnerV {
    Defaults,
    Query(Json),
    Predicate(Json, bool),
}

pub open spec fn inner_view(i: Inner) -> InnerV {
    match i {
        Inner::Defaults => InnerV::Defaults,
        Inner::Query(v) => InnerV::Query(*v),
        Inner::Predicate(w, negate) => InnerV::Predicate(*w, negate),
    }
}

pub open spec fn empty_parts_v() -> PartsV {
    PartsV {
        predictions: Seq::empty(),
        match_body: None,
        unsets: Seq::empty(),
        sort: None,
        paging: Seq::empty(),
        project: None,
        includes: Seq::empty(),
    }
}

/// `{"$match": {"$expr": {"$and": eqs}}}`.
pub open spec fn join_match(eqs: Seq<BV>) -> BV {
    BV::Doc(seq![("$match"@, BV::Doc(seq![("$expr"@, and_doc(eqs))]))])
}

/// The stages of one relation's join. A direct relation gives a `$lookup` on
/// the related model whose pipeline is the nested query with the key
/// equalities added to its `$match` under `$expr`. A relation through a join
/// model gives a `$lookup` on the join model whose pipeline matches the join
/// rows, joins the related rows (the nested query, without its sorting and
/// pagination, with the key equalities first in its `$match`), lifts them with
/// `$unwind` and `$replaceRoot`, and then sorts and paginates. A nested query
/// with a negative `take` adds a `$set` that reverses the joined array. The
/// `bound` caps the size of the nested query; it only serves termination.
pub open spec fn lookup_spec(g: Graph, m: Model, rel: Relation, mutation_mode: bool, inner: InnerV, bound: nat) -> Result<Seq<BV>, ActionErrorType>
    decreases bound, 6nat, 0nat,
{
    match g.model_spec(rel.model@) {
        None => Err(ActionErrorType::ModelNotFound),
        Some(rm) => {
            let reversed = match inner {
                InnerV::Query(v) => negative_take(v),
                _ => false,
            };
            let first = match rel.through {
                None => direct_spec(g, m, rm, rel, mutation_mode, inner, bound),
                Some(t) => through_spec(g, m, rel, t@, inner, bound),
            };
            match first {
                Err(e) => Err(e),
                Ok(s0) => Ok(if reversed { seq![s0, reverse_stage(rel.name@)] } else { seq![s0] }),
            }
        },
    }
}

/// The parts of a lookup's nested pipeline: none for `true`, the nested query,
/// or the inner `where` of a relation predicate (negated for `all`) limited to
/// one row.
pub open spec fn inner_parts_spec(g: Graph, rm: Model, mutation_mode: bool, inner: InnerV, bound: nat) -> Result<PartsV, ActionErrorType>
    decreases bound, 4nat, 0nat,
{
    match inner {
        InnerV::Defaults => Ok(empty_parts_v()),
        InnerV::Query(v) => if !(v is Object) {
            Ok(empty_parts_v())
        } else if size(v) <= bound {
            parts_from_json_spec(g, rm, QueryPipelineType::Many, mutation_mode, v)
        } else {
            Err(ActionErrorType::InternalServerError)
        },
        InnerV::Predicate(w, negate) => if size(w) < bound {
            parts_spec(g, rm, false, Some(w), negate, None, None, Some(1), None, None, None, None, None, bound)
        } else {
            Err(ActionErrorType::InternalServerError)
        },
    }
}

/// The parts of a query object's pipeline: after the object check, the
/// uniqueness check of a `Unique` query and the integer arguments.
pub open spec fn parts_from_json_spec(g: Graph, m: Model, kind: QueryPipelineType, mutation_mode: bool, q: Json) -> Result<PartsV, ActionErrorType>
    decreases size(q), 3nat, 0nat,
{
    if !(q is Object) {
        Err(ActionErrorType::InvalidQueryInput)
    } else if kind == QueryPipelineType::Unique && !where_is_unique(m, q) {
        Err(ActionErrorType::FieldIsNotUnique)
    } else {
        match int_member(q, "take"@) {
            Err(e) => Err(e),
            Ok(t) => match int_member(q, "skip"@) {
                Err(e) => Err(e),
                Ok(s) => match int_member(q, "pageSize"@) {
                    Err(e) => Err(e),
                    Ok(ps) => match int_member(q, "pageNumber"@) {
                        Err(e) => Err(e),
                        Ok(pn) => parts_spec(
                            g, m, mutation_mode, q.member("where"@), false, q.member("orderBy"@), q.member("cursor"@), t, s, ps, pn,
                            if mutation_mode { None } else { q.member("include"@) },
                            if mutation_mode { None } else { q.member("select"@) },
                            size(q),
                        ),
                    },
                },
            },
        }
    }
}

/// The relation-predicate joins, the `$match` body and the `$unset`s of a
/// pipeline, checked in order: the cursor, the relation predicates, the `where`.
pub open spec fn head_spec(
    g: Graph,
    m: Model,
    where_: Option<Json>,
    negate: bool,
    order_by: Option<Json>,
    cursor: Option<Json>,
    take: Option<i64>,
    bound: nat,
) -> Result<(Seq<BV>, Option<Seq<(Seq<char>, BV)>>, Seq<BV>), ActionErrorType>
    decreases bound, 2nat, 0nat,
{
    match cursor_doc_spec(g, m, order_by, cursor, take) {
        Err(e) => Err(e),
        Ok(cd) => {
            let preds = match where_ {
                Some(w) => if negate {
                    Ok(Seq::empty())
                } else if size(w) < bound {
                    predictions_spec(g, m, w, size(w))
                } else {
                    Err(ActionErrorType::InternalServerError)
                },
                None => Ok(Seq::empty()),
            };
            match preds {
                Err(e) => Err(e),
                Ok(pr) => match where_doc_spec(g, m, where_) {
                    Err(e) => Err(e),
                    Ok(wd) => Ok((
                        pr,
                        match_body_spec(wd, negate, cd),
                        match where_ {
                            Some(w) => if negate { Seq::empty() } else { unset_stages(m, w.entries()) },
                            None => Seq::empty(),
                        },
                    )),
                },
            }
        },
    }
}

/// The sort, pagination, projection and `include` joins of a pipeline,
/// checked in that order.
pub open spec fn rest_spec(
    g: Graph,
    m: Model,
    mutation_mode: bool,
    order_by: Option<Json>,
    take: Option<i64>,
    skip: Option<i64>,
    page_size: Option<i64>,
    page_number: Option<i64>,
    joins: Option<Json>,
    select: Option<Json>,
    bound: nat,
) -> Result<(Option<Seq<(Seq<char>, BV)>>, Seq<BV>, Option<Seq<(Seq<char>, BV)>>, Seq<BV>), ActionErrorType>
    decreases bound, 2nat, 0nat,
{
    match sort_spec(m, order_by, take) {
        Err(e) => Err(e),
        Ok(so) => if !paging_valid(take, skip, page_size, page_number) {
            Err(ActionErrorType::UnexpectedInputValue)
        } else {
            match project_spec(m, select) {
                Err(e) => Err(e),
                Ok(pj) => {
                    let incs = match joins {
                        Some(j) => if size(j) < bound {
                            includes_spec(g, m, mutation_mode, j, size(j))
                        } else {
                            Err(ActionErrorType::InternalServerError)
                        },
                        None => Ok(Seq::empty()),
                    };
                    match incs {
                        Err(e) => Err(e),
                        Ok(inc) => Ok((so, paging_stages(take, skip, page_size, page_number), pj, inc)),
                    }
                },
            }
        },
    }
}

/// The parts of a pipeline: first the head, then the rest; the first failing
/// check gives the error.
pub open spec fn parts_spec(
    g: Graph,
    m: Model,
    mutation_mode: bool,
    where_: Option<Json>,
    negate: bool,
    order_by: Option<Json>,
    cursor: Option<Json>,
    take: Option<i64>,
    skip: Option<i64>,
    page_size: Option<i64>,
    page_number: Option<i64>,
    joins: Option<Json>,
    select: Option<Json>,
    bound: nat,
) -> Result<PartsV, ActionErrorType>
    decreases bound, 2nat, 1nat,
{
    match head_spec(g, m, where_, negate, order_by, cursor, take, bound) {
        Err(e) => Err(e),
        Ok((pr, mb, un)) => match rest_spec(g, m, mutation_mode, order_by, take, skip, page_size, page_number, joins, select, bound) {
            Err(e) => Err(e),
            Ok((so, pg, pj, inc)) => Ok(PartsV {
                predictions: pr,
                match_body: mb,
                unsets: un,
                sort: so,
                paging: pg,
                project: pj,
                includes: inc,
            }),
        },
    }
}

/// The command of a relation predicate: `Some(false)` for `some`, `is`,
/// `none`, `isNot`; `Some(true)` for `all`, whose inner `where` is negated.
pub open spec fn predicate_negation(cmd: Seq<char>) -> Option<bool> {
    if cmd == "some"@ || cmd == "is"@ || cmd == "none"@ || cmd == "isNot"@ {
        Some(false)
    } else if cmd == "all"@ {
        Some(true)
    } else {
        None
    }
}

/// The inner `where` of a relation predicate: bare, or under a `where` key.
pub open spec fn inner_where(v: Json) -> Json {
    match v.member("where"@) {
        Some(w) => w,
        None => v,
    }
}

/// The joins for the relation predicates of a `where` object.
pub open spec fn predictions_spec(g: Graph, m: Model, w: Json, bound: nat) -> Result<Seq<BV>, ActionErrorType>
    decreases bound, 1nat, w.entries().len() + 1,
{
    if w is Object {
        predictions_fold(g, m, w.entries(), bound)
    } else {
        Err(ActionErrorType::InvalidQueryInput)
    }
}

/// One join for each relation key, in order, over the relation's inner `where`.
pub open spec fn predictions_fold(g: Graph, m: Model, entries: Seq<(String, Json)>, bound: nat) -> Result<Seq<BV>, ActionErrorType>
    decreases bound, 1nat, entries.len(),
{
    if entries.len() == 0 {
        Ok(Seq::empty())
    } else {
        match predictions_fold(g, m, entries.drop_last(), bound) {
            Err(e) => Err(e),
            Ok(acc) => {
                let k = entries.last().0@;
                let v = entries.last().1;
                match m.relation_spec(k) {
                    None => Ok(acc),
                    Some(rel) => match one_entry(v) {
                        Err(e) => Err(e),
                        Ok((cmd, iv)) => match predicate_negation(cmd) {
                            None => Err(ActionErrorType::UnexpectedInputKey),
                            Some(negate) => if size(v) < bound {
                                match lookup_spec(g, m, rel, false, InnerV::Predicate(inner_where(iv), negate), size(v)) {
                                    Err(e) => Err(e),
                                    Ok(st) => Ok(acc + st),
                                }
                            } else {
                                Err(ActionErrorType::InternalServerError)
                            },
                        },
                    },
                }
            },
        }
    }
}

/// The joins of an `include` object.
pub open spec fn includes_spec(g: Graph, m: Model, mutation_mode: bool, j: Json, bound: nat) -> Result<Seq<BV>, ActionErrorType>
    decreases bound, 1nat, j.entries().len() + 1,
{
    if j is Object {
        includes_fold(g, m, mutation_mode, j.entries(), bound)
    } else {
        Err(ActionErrorType::InvalidQueryInput)
    }
}

/// The joins of each relation of `include`, in order: `true` or `false` for all
/// related rows, an object for a nested query.
pub open spec fn includes_fold(g: Graph, m: Model, mutation_mode: bool, entries: Seq<(String, Json)>, bound: nat) -> Result<Seq<BV>, ActionErrorType>
    decreases bound, 1nat, entries.len(),
{
    if entries.len() == 0 {
        Ok(Seq::empty())
    } else {
        match includes_fold(g, m, mutation_mode, entries.drop_last(), bound) {
            Err(e) => Err(e),
            Ok(acc) => {
                let v = entries.last().1;
                match m.relation_spec(entries.last().0@) {
                    None => Err(ActionErrorType::InvalidQueryInput),
                    Some(rel) => {
                        let inner = match v {
                            Json::Bool(_) => Some(InnerV::Defaults),
                            Json::Object(_) => Some(InnerV::Query(v)),
                            _ => None,
                        };
                        match inner {
                            None => Err(ActionErrorType::InvalidQueryInput),
                            Some(i) => if size(v) < bound {
                                match lookup_spec(g, m, rel, mutation_mode, i, size(v)) {
                                    Err(e) => Err(e),
                                    Ok(st) => Ok(acc + st),
                                }
                            } else {
                                Err(ActionErrorType::InternalServerError)
                            },
                        }
                    },
                }
            },
        }
    }
}

/// The pipeline of a query object.
pub open spec fn plan_spec(g: Graph, m: Model, kind: QueryPipelineType, mutation_mode: bool, q: Json) -> Result<Seq<BV>, ActionErrorType> {
    match parts_from_json_spec(g, m, kind, mutation_mode, q) {
        Ok(p) => Ok(stages_of(p)),
        Err(e) => Err(e),
    }
}

/// Whether an executable list of stages agrees with an outcome.
pub open spec fn agrees_stages(r: Result<Vec<Bson>, ActionError>, s: Result<Seq<BV>, ActionErrorType>) -> bool {
    match r {
        Ok(st) => s == Ok::<Seq<BV>, ActionErrorType>(bview_items(st@)),
        Err(e) => s == Err::<Seq<BV>, ActionErrorType>(e.kind),
    }
}

/// Whether executable parts agree with an outcome.
pub open spec fn agrees_parts(r: Result<Parts, ActionError>, s: Result<PartsV, ActionErrorType>) -> bool {
    match r {
        Ok(p) => s == Ok::<PartsV, ActionErrorType>(parts_view(p)),
        Err(e) => s == Err::<PartsV, ActionErrorType>(e.kind),
    }
}

/// What the inner pipeline of a relation lookup is built from.
pub enum Inner<'a> {
    /// `true` under `include`: every related row.
    Defaults,
    /// A nested query under `include`.
    Query(&'a Json),
    /// The inner `where` of a relation predicate, negated for `all`; at most one row.
    Predicate(&'a Json, bool),
}

pub open spec fn inner_size(i: Inner) -> nat {
    match i {
        Inner::Defaults => 0,
        Inner::Query(v) => size(*v),
        Inner::Predicate(w, _) => size(*w) + 1,
    }
}

/// Whether the inner `where` of a relation predicate is negated, as `all` asks.
pub open spec fn negated(i: Inner) -> bool {
    match i {
        Inner::Predicate(_, negate) => negate,
        _ => false,
    }
}

pub open spec fn inner_reversed(i: Inner) -> bool {
    match i {
        Inner::Query(v) => negative_take(*v),
        _ => false,
    }
}

fn empty_parts() -> (r: Parts)
    ensures
        parts_stages(r) == Seq::<BV>::empty(),
{
    let r = Parts {
        predictions: Vec::new(),
        match_body: None,
        unsets: Vec::new(),
        sort: None,
        paging: Vec::new(),
        project: None,
        includes: Vec::new(),
    };
    assert(parts_stages(r) =~= Seq::<BV>::empty());
    r
}

/// The parts of the inner pipeline of a relation lookup.
fn inner_parts(rm: &Model, g: &Graph, mutation_mode: bool, inner: &Inner, bound: Ghost<nat>) -> (r: Result<Parts, ActionError>)
    requires
        inner_size(*inner) <= bound@,
    ensures
        agrees_parts(r, inner_parts_spec(*g, *rm, mutation_mode, inner_view(*inner), bound@)),
        r matches Ok(p) ==> parts_names_ok(p),
        r matches Ok(p) ==> (inner is Predicate ==> p.sort is None && bview_items(p.paging@) == seq![limit_one()]),
        r matches Ok(p) ==> (negated(*inner) ==> p.match_body is Some && keys_of(bview_entries(p.match_body->0@)).contains("$nor"@)),
    decreases bound@, 4nat,
{
    match inner {
        Inner::Defaults => {
            let p = empty_parts();
            assert(bview_items(p.unsets@) =~= Seq::<BV>::empty());
            assert(bview_items(p.paging@) =~= Seq::<BV>::empty());
            Ok(p)
        },
        Inner::Query(v) => match v {
            Json::Object(_) => {
                let p = build_parts_from_json(rm, g, QueryPipelineType::Many, mutation_mode, v)?;
                proof {
                    let (t, s, ps, pn) = query_ints(**v)->0;
                    lemma_parts_names(*g, *rm, v.member("where"@), false, v.member("orderBy"@), v.member("cursor"@), t, s, ps, pn,
                        !mutation_mode && v.member("include"@) is Some, if mutation_mode { None } else { v.member("select"@) }, p);
                }
                Ok(p)
            },
            _ => {
                let p = empty_parts();
                assert(bview_items(p.unsets@) =~= Seq::<BV>::empty());
                assert(bview_items(p.paging@) =~= Seq::<BV>::empty());
                Ok(p)
            },
        },
        Inner::Predicate(w, negate) => {
            let p = build_parts(
                rm, g, false, Some(*w), *negate, None, None, Some(1), None, None, None, None, None, bound,
            )?;
            proof {
                lemma_parts_names(*g, *rm, Some(**w), *negate, None, None, Some(1), None, None, None, false, None, p);
                assert(paging_stages(Some(1), None, None, None) =~= seq![limit_one()]);
                if *negate {
                    assert(keys_of(bview_entries(p.match_body->0@))[0] == "$nor"@);
                }
            }
            Ok(p)
        },
    }
}

/// The `$lookup` stage of a direct relation.
pub open spec fn direct_spec(g: Graph, m: Model, rm: Model, rel: Relation, mutation_mode: bool, inner: InnerV, bound: nat) -> Result<BV, ActionErrorType>
    decreases bound, 5nat, 0nat,
{
    match join_keys(KeyMode::Direct, m, rm, rel.fields@, rel.references@, rel.fields@.len()) {
        Err(e) => Err(e),
        Ok((lv, eqs)) => match inner_parts_spec(g, rm, mutation_mode, inner, bound) {
            Err(e) => Err(e),
            Ok(p) => {
                let base = match p.match_body { Some(d) => d, None => Seq::empty() };
                let body = vinsert(base, "$expr"@, and_doc(eqs));
                Ok(lookup_stage(rm.table_name@, rel.name@, lv, stages_of(PartsV { match_body: Some(body), ..p })))
            },
        },
    }
}

/// The `$lookup` stage of a relation through the join model named `t`.
pub open spec fn through_spec(g: Graph, m: Model, rel: Relation, t: Seq<char>, inner: InnerV, bound: nat) -> Result<BV, ActionErrorType>
    decreases bound, 5nat, 0nat,
{
    match g.model_spec(t) {
        None => Err(ActionErrorType::ModelNotFound),
        Some(jm) => if rel.fields@.len() == 0 || rel.references@.len() == 0 {
            Err(ActionErrorType::InvalidKey)
        } else {
            match (jm.relation_spec(rel.fields@[0]@), jm.relation_spec(rel.references@[0]@)) {
                (None, _) => Err(ActionErrorType::InvalidKey),
                (_, None) => Err(ActionErrorType::InvalidKey),
                (Some(lr), Some(fr)) => match g.model_spec(fr.model@) {
                    None => Err(ActionErrorType::ModelNotFound),
                    Some(fm) => match join_keys(KeyMode::ToJoin, m, jm, lr.fields@, lr.references@, lr.fields@.len()) {
                        Err(e) => Err(e),
                        Ok((olv, oeq)) => match join_keys(KeyMode::FromJoin, fm, jm, fr.fields@, fr.references@, fr.fields@.len()) {
                            Err(e) => Err(e),
                            Ok((ilv, ieq)) => match inner_parts_spec(g, fm, false, inner, bound) {
                                Err(e) => Err(e),
                                Ok(p) => {
                                    let user = match p.match_body { Some(d) => d, None => Seq::empty() };
                                    let body = merged(vinsert(Seq::empty(), "$expr"@, and_doc(ieq)), user);
                                    let inner_pipe = stages_of(PartsV { match_body: Some(body), sort: None, paging: Seq::empty(), ..p });
                                    let outer = seq![
                                        join_match(oeq),
                                        lookup_stage(fm.table_name@, rel.name@, ilv, inner_pipe),
                                        unwind_stage(rel.name@),
                                        replace_root_stage(rel.name@),
                                    ] + stage_if("$sort"@, p.sort) + p.paging;
                                    Ok(lookup_stage(jm.table_name@, rel.name@, olv, outer))
                                },
                            },
                        },
                    },
                },
            }
        },
    }
}

fn direct_lookup(m: &Model, g: &Graph, rm: &Model, rel: &Relation, mutation_mode: bool, inner: &Inner, bound: Ghost<nat>) -> (r: Result<Bson, ActionError>)
    requires
        inner_size(*inner) <= bound@,
    ensures
        r matches Ok(b) ==> direct_spec(*g, *m, *rm, *rel, mutation_mode, inner_view(*inner), bound@) == Ok::<BV, ActionErrorType>(b@),
        r matches Err(e) ==> direct_spec(*g, *m, *rm, *rel, mutation_mode, inner_view(*inner), bound@) == Err::<BV, ActionErrorType>(e.kind),
        r matches Ok(b) ==> (inner is Predicate ==> exists|from: Seq<char>, let_: Seq<(Seq<char>, BV)>, pipe: Seq<BV>|
            b@ == #[trigger] lookup_stage(from, rel.name@, let_, pipe) && pipe.contains(limit_one())),
        r matches Ok(b) ==> (negated(*inner) ==> exists|from: Seq<char>, let_: Seq<(Seq<char>, BV)>, pipe: Seq<BV>|
            b@ == #[trigger] lookup_stage(from, rel.name@, let_, pipe) && has_negated_match(pipe)),
    decreases bound@, 5nat,
{
    let (let_value, eq_values) = build_join_keys(KeyMode::Direct, m, rm, &rel.fields, &rel.references)?;
    let ghost lv = bview_entries(let_value@);
    let ghost eqv = bview_items(eq_values@);
    let mut parts = inner_parts(rm, g, mutation_mode, inner, bound)?;
    let ghost pv = parts_view(parts);
    let ghost before_body = parts.match_body;
    let mut body = match parts.match_body {
        Some(d) => d,
        None => Vec::new(),
    };
    let ghost old_body = bview_entries(body@);
    proof {
        assert(old_body == (match pv.match_body { Some(d) => d, None => Seq::<(Seq<char>, BV)>::empty() })) by {
            assert(bview_entries(Seq::<(String, Bson)>::empty()) =~= Seq::<(Seq<char>, BV)>::empty());
        }
    }
    let expr = single("$and", Bson::Array(eq_values));
    let ghost expr_view = expr@;
    insert(&mut body, owned("$expr"), expr);
    proof {
        if negated(*inner) {
            lemma_vinsert_keys(old_body, "$expr"@, expr_view, "$nor"@);
        }
    }
    parts.match_body = Some(body);
    let ghost gp = parts;
    assert(parts_view(gp) == PartsV { match_body: Some(vinsert(old_body, "$expr"@, and_doc(eqv))), ..pv });
    let pipeline = assemble(parts);
    proof {
        if inner is Predicate {
            let pipe = parts_stages(gp);
            let n = bview_items(gp.predictions@).len() + stage_if("$match"@, opt_entries(gp.match_body)).len()
                + bview_items(gp.unsets@).len();
            assert(stage_if("$sort"@, opt_entries(gp.sort)) =~= Seq::<BV>::empty());
            assert(pipe[n as int] == limit_one());
        }
        if negated(*inner) {
            let pipe = parts_stages(gp);
            let n = bview_items(gp.predictions@).len();
            let body = bview_entries(gp.match_body->0@);
            assert(pipe[n as int] == BV::Doc(seq![("$match"@, BV::Doc(body))]));
            assert(keys_of(body).contains("$nor"@));
            assert(has_negated_match(pipe));
        }
    }
    let st = make_lookup(rm.table_name(), rel.name.as_str(), let_value, pipeline);
    Ok(st)
}

#[verifier::rlimit(60)]
fn through_lookup(m: &Model, g: &Graph, rel: &Relation, through: &String, inner: &Inner, bound: Ghost<nat>) -> (r: Result<Bson, ActionError>)
    requires
        inner_size(*inner) <= bound@,
    ensures
        r matches Ok(b) ==> through_spec(*g, *m, *rel, through@, inner_view(*inner), bound@) == Ok::<BV, ActionErrorType>(b@),
        r matches Err(e) ==> through_spec(*g, *m, *rel, through@, inner_view(*inner), bound@) == Err::<BV, ActionErrorType>(e.kind),
        r matches Ok(b) ==> exists|from: Seq<char>, let_: Seq<(Seq<char>, BV)>, pipe: Seq<BV>|
            b@ == #[trigger] lookup_stage(from, rel.name@, let_, pipe) && through_shape(pipe, rel.name@)
            && g.model_spec(through@) is Some && from == g.model_spec(through@)->0.table_name@
            && (inner is Predicate ==> pipe.contains(limit_one())),
    decreases bound@, 5nat,
{
    let jm = g.model(through.as_str())?;
    if rel.fields.len() == 0 || rel.references.len() == 0 {
        return Err(ActionError::invalid_key(rel.name.as_str(), m.name()));
    }
    let local_rel = match jm.relation(rel.fields[0].as_str()) {
        Some(x) => x,
        None => { return Err(ActionError::invalid_key(rel.fields[0].as_str(), jm.name())); },
    };
    let foreign_rel = match jm.relation(rel.references[0].as_str()) {
        Some(x) => x,
        None => { return Err(ActionError::invalid_key(rel.references[0].as_str(), jm.name())); },
    };
    let fm = g.model(foreign_rel.model.as_str())?;
    let (outer_let, outer_eq) = build_join_keys(KeyMode::ToJoin, m, jm, &local_rel.fields, &local_rel.references)?;
    let (inner_let, inner_eq) = build_join_keys(KeyMode::FromJoin, fm, jm, &foreign_rel.fields, &foreign_rel.references)?;
    let ghost ieqv = bview_items(inner_eq@);
    let mut parts = inner_parts(fm, g, false, inner, bound)?;
    let ghost pv = parts_view(parts);
    let mut body: Entries = Vec::new();
    assert(bview_entries(body@) =~= Seq::<(Seq<char>, BV)>::empty());
    insert(&mut body, owned("$expr"), single("$and", Bson::Array(inner_eq)));
    let ghost first_body = bview_entries(body@);
    match parts.match_body {
        Some(user) => merge_entries(&mut body, user),
        None => {},
    }
    proof {
        let user = match pv.match_body { Some(d) => d, None => Seq::<(Seq<char>, BV)>::empty() };
        assert(bview_entries(body@) == merged(first_body, user));
    }
    parts.match_body = Some(body);
    let sort = parts.sort;
    parts.sort = None;
    let paging = parts.paging;
    parts.paging = Vec::new();
    let ghost paging_view = bview_items(paging@);
    proof {
        assert(parts_names_ok(parts));
        lemma_no_paging(parts);
    }
    proof {
        assert(bview_items(parts.paging@) =~= Seq::<BV>::empty());
    }
    let inner_pipeline = assemble(parts);
    let name = rel.name.as_str();
    let mut outer: Vec<Bson> = Vec::new();
    let s0 = single("$match", single("$expr", single("$and", Bson::Array(outer_eq))));
    let ghost inner_view = bview_items(inner_pipeline@);
    let s1 = make_lookup(fm.table_name(), name, inner_let, inner_pipeline);
    let s2 = single("$unwind", single("path", Bson::Str(dollar(name))));
    let s3 = single("$replaceRoot", single("newRoot", Bson::Str(dollar(name))));
    let ghost v0 = s0@;
    let ghost v1 = s1@;
    let ghost v2 = s2@;
    let ghost v3 = s3@;
    proof { lemma_items_push(outer@, s0); }
    outer.push(s0);
    proof { lemma_items_push(outer@, s1); }
    outer.push(s1);
    proof { lemma_items_push(outer@, s2); }
    outer.push(s2);
    proof { lemma_items_push(outer@, s3); }
    outer.push(s3);
    let ghost head = bview_items(outer@);
    assert(head =~= seq![v0, v1, v2, v3]);
    let ghost sort_view = stage_if("$sort"@, opt_entries(sort));
    push_stage(&mut outer, "$sort", sort);
    append_all(&mut outer, paging);
    proof {
        let pipe = bview_items(outer@);
        assert(pipe =~= head + sort_view + paging_view);
        reveal_strlit("$match");
        assert(stage_name(v0) == Some("$match"@));
        assert(pipe[2] == unwind_stage(rel.name@));
        assert(pipe[3] == replace_root_stage(rel.name@));
        assert(no_paging(inner_view));
        assert forall|i: int| 4 <= i < pipe.len() implies is_paging_stage(#[trigger] pipe[i]) by {
            if i < 4 + sort_view.len() {
                assert(pipe[i] == sort_view[i - 4]);
            } else {
                assert(pipe[i] == paging_view[i - 4 - sort_view.len()]);
            }
        }
        assert(through_shape(pipe, rel.name@));
        if inner is Predicate {
            assert(sort_view =~= Seq::<BV>::empty());
            assert(pipe[4] == limit_one());
        }
    }
    let st = make_lookup(jm.table_name(), name, outer_let, outer);
    Ok(st)
}

/// Builds the join of one relation: a `$lookup` stage named after the relation,
/// followed by a `$set` that reverses the joined array when the nested query has
/// a negative `take`.
pub fn relation_lookup(m: &Model, g: &Graph, rel: &Relation, mutation_mode: bool, inner: &Inner, bound: Ghost<nat>) -> (r: Result<Vec<Bson>, ActionError>)
    requires
        inner_size(*inner) <= bound@,
    ensures
        agrees_stages(r, lookup_spec(*g, *m, *rel, mutation_mode, inner_view(*inner), bound@)),
        r matches Ok(st) ==> st@.len() == (if inner_reversed(*inner) { 2int } else { 1int })
            && stage_name(st@[0]@) == Some("$lookup"@)
            && (inner_reversed(*inner) ==> st@[1]@ == reverse_stage(rel.name@)),
        r matches Ok(st) ==> (rel.through is Some ==> exists|from: Seq<char>, let_: Seq<(Seq<char>, BV)>, pipe: Seq<BV>|
            st@[0]@ == #[trigger] lookup_stage(from, rel.name@, let_, pipe) && through_shape(pipe, rel.name@)
            && g.model_spec(rel.through->0@) is Some && from == g.model_spec(rel.through->0@)->0.table_name@),
        r matches Ok(st) ==> (inner is Predicate ==> exists|from: Seq<char>, let_: Seq<(Seq<char>, BV)>, pipe: Seq<BV>|
            st@[0]@ == #[trigger] lookup_stage(from, rel.name@, let_, pipe) && pipe.contains(limit_one())),
        r matches Ok(st) ==> (negated(*inner) && rel.through is None ==> exists|from: Seq<char>, let_: Seq<(Seq<char>, BV)>, pipe: Seq<BV>|
            st@[0]@ == #[trigger] lookup_stage(from, rel.name@, let_, pipe) && has_negated_match(pipe)),
    decreases bound@, 6nat,
{
    let rm = g.model(rel.model.as_str())?;
    let reversed = match inner {
        Inner::Query(v) => has_negative_take(v),
        _ => false,
    };
    let st = match &rel.through {
        None => direct_lookup(m, g, rm, rel, mutation_mode, inner, bound)?,
        Some(through) => through_lookup(m, g, rel, through, inner, bound)?,
    };
    proof {
        reveal_strlit("$lookup");
    }
    let mut out: Vec<Bson> = Vec::new();
    let ghost sv = st@;
    proof { lemma_items_push(out@, st); }
    out.push(st);
    assert(bview_items(out@) =~= seq![sv]);
    if reversed {
        let name = rel.name.as_str();
        let set = single("$set", single(name, single("$reverseArray", Bson::Str(dollar(name)))));
        proof { lemma_items_push(out@, set); }
        out.push(set);
        assert(bview_items(out@) =~= seq![sv, reverse_stage(rel.name@)]);
    }
    Ok(out)
}

/// Inserts each entry of `more` into `d`, in order.
fn merge_entries(d: &mut Entries, more: Entries)
    ensures
        bview_entries(final(d)@) == merged(bview_entries(old(d)@), bview_entries(more@)),
{
    let mut more = more;
    let ghost all = bview_entries(more@);
    let ghost start = bview_entries(d@);
    proof { crate::bson::lemma_entries_len(more@); }
    let ghost n = more@.len();
    while more.len() > 0
        invariant
            n == all.len(),
            more@.len() <= n,
            bview_entries(d@) == merged(start, all.take(n - more@.len())),
            forall|j: int| 0 <= j < more@.len() ==> (#[trigger] more@[j].0@, bview(more@[j].1)) == all[n - more@.len() + j],
        decreases more.len(),
    {
        let ghost k0 = n - more@.len();
        let ghost before = more@;
        let (k, v) = more.remove(0);
        proof {
            assert((k@, bview(v)) == all[k0]);
            assert(all.take(k0 + 1).drop_last() =~= all.take(k0));
            assert forall|j: int| 0 <= j < more@.len() implies (#[trigger] more@[j].0@, bview(more@[j].1)) == all[n - more@.len() + j] by {
                assert(more@[j] == before[j + 1]);
            }
        }
        insert(d, k, v);
    }
    assert(all.take(n as int) =~= all);
}

/// Builds the joins that relation predicates of a `where` test: one `$lookup`
/// for each relation key, over at most one related row that matches the inner
/// `where` (negated for `all`).
pub fn build_match_prediction_lookup(m: &Model, g: &Graph, w: &Json) -> (r: Result<Vec<Bson>, ActionError>)
    ensures
        agrees_stages(r, predictions_spec(*g, *m, *w, size(*w))),
        r matches Ok(st) ==> st@.len() == relation_key_count(*m, w.entries())
            && forall|i: int| 0 <= i < st@.len() ==> stage_name(#[trigger] st@[i]@) == Some("$lookup"@),
        r matches Ok(st) ==> forall|i: int| 0 <= i < st@.len() ==> #[trigger] joins_one_row(st@[i]@),
    decreases size(*w), 0nat,
{
    let mut out: Vec<Bson> = Vec::new();
    let entries = match w {
        Json::Object(entries) => entries,
        _ => { return Err(ActionError::invalid_query_input("'where' should be an object.")); },
    };
    let mut i: usize = 0;
    while i < entries.len()
        invariant
            *w == Json::Object(*entries),
            i <= entries@.len(),
            out@.len() == relation_key_count(*m, entries@.take(i as int)),
            forall|j: int| 0 <= j < out@.len() ==> stage_name(#[trigger] out@[j]@) == Some("$lookup"@),
            forall|j: int| 0 <= j < out@.len() ==> #[trigger] joins_one_row(out@[j]@),
            predictions_fold(*g, *m, entries@.take(i as int), size(*w)) == Ok::<Seq<BV>, ActionErrorType>(bview_items(out@)),
        decreases entries.len() - i,
    {
        proof {
            assert(entries@.take(i as int + 1).drop_last() =~= entries@.take(i as int));
            assert(entries@.take(i as int + 1).last() == entries@[i as int]);
            crate::json::lemma_entry_smaller(entries@, i as int);
        }
        let k = entries[i].0.as_str();
        match m.relation(k) {
            Some(rel) => {
                let (cmd, inner_where) = match crate::filter::one_length_json_obj(&entries[i].1) {
                    Ok(x) => x,
                    Err(e) => {
                        proof { lemma_predictions_fails(*g, *m, entries@, size(*w), i as int + 1); }
                        return Err(e);
                    },
                };
                let negate = if str_eq(cmd, "some") || str_eq(cmd, "is") || str_eq(cmd, "none") || str_eq(cmd, "isNot") {
                    false
                } else if str_eq(cmd, "all") {
                    true
                } else {
                    proof { lemma_predictions_fails(*g, *m, entries@, size(*w), i as int + 1); }
                    return Err(ActionError::unexpected_input_key(cmd, k));
                };
                // the inner `where` may stand bare or under a `where` key
                let inner_where = match inner_where.get("where") {
                    Some(w) => w,
                    None => inner_where,
                };
                let inner = Inner::Predicate(inner_where, negate);
                let mut st = match relation_lookup(m, g, rel, false, &inner, Ghost(size(entries@[i as int].1))) {
                    Ok(st) => st,
                    Err(e) => {
                        proof { lemma_predictions_fails(*g, *m, entries@, size(*w), i as int + 1); }
                        return Err(e);
                    },
                };
                proof {
                    assert(joins_one_row(st@[0]@));
                    lemma_items_concat(out@, st@);
                }
                out.append(&mut st);
            },
            None => {},
        }
        i = i + 1;
    }
    assert(entries@.take(i as int) =~= entries@);
    Ok(out)
}

proof fn lemma_predictions_fails(g: Graph, m: Model, entries: Seq<(String, Json)>, bound: nat, n: int)
    requires
        0 < n <= entries.len(),
        predictions_fold(g, m, entries.take(n), bound) is Err,
    ensures
        predictions_fold(g, m, entries, bound) == predictions_fold(g, m, entries.take(n), bound),
    decreases entries.len(),
{
    if n < entries.len() {
        assert(entries.drop_last().take(n) =~= entries.take(n));
        lemma_predictions_fails(g, m, entries.drop_last(), bound, n);
    } else {
        assert(entries.take(n) =~= entries);
    }
}

proof fn lemma_includes_fails(g: Graph, m: Model, mutation_mode: bool, entries: Seq<(String, Json)>, bound: nat, n: int)
    requires
        0 < n <= entries.len(),
        includes_fold(g, m, mutation_mode, entries.take(n), bound) is Err,
    ensures
        includes_fold(g, m, mutation_mode, entries, bound) == includes_fold(g, m, mutation_mode, entries.take(n), bound),
    decreases entries.len(),
{
    if n < entries.len() {
        assert(entries.drop_last().take(n) =~= entries.take(n));
        lemma_includes_fails(g, m, mutation_mode, entries.drop_last(), bound, n);
    } else {
        assert(entries.take(n) =~= entries);
    }
}

/// The number of stages that the joins of `include` take: one `$lookup` for
/// each relation, and one `$set` more for a nested query with a negative `take`.
pub open spec fn join_stage_count(entries: Seq<(String, Json)>) -> nat
    decreases entries.len(),
{
    if entries.len() == 0 {
        0
    } else {
        let v = entries.last().1;
        join_stage_count(entries.drop_last()) + if v is Object && negative_take(v) { 2nat } else { 1nat }
    }
}

/// Builds the joins of `include`: for each relation key, in order, its
/// `$lookup` and, when the nested query has a negative `take`, a `$set` that
/// reverses the joined array.
pub fn build_lookup_inputs(m: &Model, g: &Graph, mutation_mode: bool, joins: &Json) -> (r: Result<Vec<Bson>, ActionError>)
    ensures
        agrees_stages(r, includes_spec(*g, *m, mutation_mode, *joins, size(*joins))),
        r matches Ok(st) ==> forall|i: int| 0 <= i < st@.len() ==>
            (stage_name(#[trigger] st@[i]@) == Some("$lookup"@) || stage_name(st@[i]@) == Some("$set"@)),
        r matches Ok(st) ==> st@.len() == join_stage_count(joins.entries()),
    decreases size(*joins), 0nat,
{
    let mut out: Vec<Bson> = Vec::new();
    let entries = match joins {
        Json::Object(entries) => entries,
        _ => { return Err(ActionError::invalid_query_input("'include' should be an object.")); },
    };
    let mut i: usize = 0;
    while i < entries.len()
        invariant
            *joins == Json::Object(*entries),
            i <= entries@.len(),
            out@.len() == join_stage_count(entries@.take(i as int)),
            includes_fold(*g, *m, mutation_mode, entries@.take(i as int), size(*joins)) == Ok::<Seq<BV>, ActionErrorType>(bview_items(out@)),
            forall|j: int| 0 <= j < out@.len() ==>
                (stage_name(#[trigger] out@[j]@) == Some("$lookup"@) || stage_name(out@[j]@) == Some("$set"@)),
        decreases entries.len() - i,
    {
        proof {
            crate::json::lemma_entry_smaller(entries@, i as int);
            assert(entries@.take(i as int + 1).drop_last() =~= entries@.take(i as int));
            assert(entries@.take(i as int + 1).last() == entries@[i as int]);
        }
        let k = entries[i].0.as_str();
        let v = &entries[i].1;
        let rel = match m.relation(k) {
            Some(rel) => rel,
            None => {
                proof { lemma_includes_fails(*g, *m, mutation_mode, entries@, size(*joins), i as int + 1); }
                return Err(ActionError::invalid_query_input("Relation in 'include' does not exist."));
            },
        };
        let inner = match v {
            Json::Bool(_) => Inner::Defaults,
            Json::Object(_) => Inner::Query(v),
            _ => {
                proof { lemma_includes_fails(*g, *m, mutation_mode, entries@, size(*joins), i as int + 1); }
                return Err(ActionError::invalid_query_input("A relation in 'include' takes a boolean or an object."));
            },
        };
        let mut st = match relation_lookup(m, g, rel, mutation_mode, &inner, Ghost(size(*v))) {
            Ok(st) => st,
            Err(e) => {
                proof { lemma_includes_fails(*g, *m, mutation_mode, entries@, size(*joins), i as int + 1); }
                return Err(e);
            },
        };
        proof {
            reveal_strlit("$set");
            assert(stage_name(reverse_stage(rel.name@)) == Some("$set"@));
        }
        let ghost before = out@;
        let ghost sv = st@;
        proof { lemma_items_concat(out@, st@); }
        out.append(&mut st);
        proof {
            assert forall|j: int| 0 <= j < out@.len() implies
                (stage_name(#[trigger] out@[j]@) == Some("$lookup"@) || stage_name(out@[j]@) == Some("$set"@)) by {
                if j >= before.len() {
                    assert(out@[j] == sv[j - before.len()]);
                }
            }
        }
        i = i + 1;
    }
    assert(entries@.take(i as int) =~= entries@);
    Ok(out)
}

/// The sort body of an `orderBy`, reversed when `take` is negative; `None` when empty.
pub open spec fn sort_spec(m: Model, order_by: Option<Json>, take: Option<i64>) -> Result<Option<Seq<(Seq<char>, BV)>>, ActionErrorType> {
    match order_by {
        None => Ok(None),
        Some(o) => match order_spec(m, o, take matches Some(t) && t < 0) {
            Ok(d) => Ok(if d.len() > 0 { Some(d) } else { None }),
            Err(e) => Err(e),
        },
    }
}

/// The projection of a `select`, `None` when absent or empty.
pub open spec fn project_spec(m: Model, select: Option<Json>) -> Result<Option<Seq<(Seq<char>, BV)>>, ActionErrorType> {
    match select {
        None => Ok(None),
        Some(s) => select_spec(m, s),
    }
}

/// The compiled `where`; empty when absent.
pub open spec fn where_doc_spec(g: Graph, m: Model, w: Option<Json>) -> Result<Seq<(Seq<char>, BV)>, ActionErrorType> {
    match w {
        None => Ok(Seq::empty()),
        Some(w) => where_spec(g, m, w),
    }
}

/// The cursor's predicate; `None` when there is no cursor.
pub open spec fn cursor_doc_spec(g: Graph, m: Model, order_by: Option<Json>, cursor: Option<Json>, take: Option<i64>) -> Result<Option<Seq<(Seq<char>, BV)>>, ActionErrorType> {
    match cursor {
        None => Ok(None),
        Some(c) => match cursor_spec(g, m, order_by, c, take) {
            Ok(d) => Ok(Some(d)),
            Err(e) => Err(e),
        },
    }
}

/// What the parts of a query's pipeline hold, given its arguments.
pub open spec fn parts_ok(
    g: Graph,
    m: Model,
    where_: Option<Json>,
    negate: bool,
    order_by: Option<Json>,
    cursor: Option<Json>,
    take: Option<i64>,
    skip: Option<i64>,
    page_size: Option<i64>,
    page_number: Option<i64>,
    has_joins: bool,
    select: Option<Json>,
    p: Parts,
) -> bool {
    &&& where_doc_spec(g, m, where_) matches Ok(wd)
    &&& cursor_doc_spec(g, m, order_by, cursor, take) matches Ok(cd)
    &&& opt_entries(p.match_body) == match_body_spec(wd, negate, cd)
    &&& bview_items(p.unsets@) == (match where_ {
        Some(w) => if negate { Seq::<BV>::empty() } else { unset_stages(m, w.entries()) },
        None => Seq::<BV>::empty(),
    })
    &&& p.predictions@.len() == (match where_ {
        Some(w) => if negate { 0 } else { relation_key_count(m, w.entries()) },
        None => 0,
    })
    &&& forall|i: int| 0 <= i < p.predictions@.len() ==> stage_name(#[trigger] p.predictions@[i]@) == Some("$lookup"@)
    &&& sort_spec(m, order_by, take) == Ok::<Option<Seq<(Seq<char>, BV)>>, ActionErrorType>(opt_entries(p.sort))
    &&& paging_valid(take, skip, page_size, page_number)
    &&& bview_items(p.paging@) == paging_stages(take, skip, page_size, page_number)
    &&& project_spec(m, select) == Ok::<Option<Seq<(Seq<char>, BV)>>, ActionErrorType>(opt_entries(p.project))
    &&& (!has_joins ==> p.includes@.len() == 0)
    &&& forall|i: int| 0 <= i < p.includes@.len() ==>
        (stage_name(#[trigger] p.includes@[i]@) == Some("$lookup"@) || stage_name(p.includes@[i]@) == Some("$set"@))
}

/// Builds the parts of a query's pipeline. The `$match`, `$unset`, `$sort`,
/// `$skip`, `$limit` and `$project` parts are exactly those that the `where`,
/// cursor, `orderBy`, pagination and `select` compile to; a negative `take`
/// reverses the sort, and a page given by `pageSize` and `pageNumber` replaces
/// `skip` and `take`.
pub open spec fn head_view(h: (Vec<Bson>, Option<Entries>, Vec<Bson>)) -> (Seq<BV>, Option<Seq<(Seq<char>, BV)>>, Seq<BV>) {
    (bview_items(h.0@), opt_entries(h.1), bview_items(h.2@))
}

pub open spec fn rest_view(t: (Option<Entries>, Vec<Bson>, Option<Entries>, Vec<Bson>)) -> (Option<Seq<(Seq<char>, BV)>>, Seq<BV>, Option<Seq<(Seq<char>, BV)>>, Seq<BV>) {
    (opt_entries(t.0), bview_items(t.1@), opt_entries(t.2), bview_items(t.3@))
}

fn build_head(
    m: &Model,
    g: &Graph,
    where_: Option<&Json>,
    negate: bool,
    order_by: Option<&Json>,
    cursor: Option<&Json>,
    take: Option<i64>,
    bound: Ghost<nat>,
) -> (r: Result<(Vec<Bson>, Option<Entries>, Vec<Bson>), ActionError>)
    requires
        where_ matches Some(w) ==> size(*w) < bound@,
        negate ==> where_ is Some,
    ensures
        r matches Ok(h) ==> head_spec(*g, *m, opt(where_), negate, opt(order_by), opt(cursor), take, bound@) == Ok::<(Seq<BV>, Option<Seq<(Seq<char>, BV)>>, Seq<BV>), ActionErrorType>(head_view(h)),
        r matches Err(e) ==> head_spec(*g, *m, opt(where_), negate, opt(order_by), opt(cursor), take, bound@) == Err::<(Seq<BV>, Option<Seq<(Seq<char>, BV)>>, Seq<BV>), ActionErrorType>(e.kind),
        r matches Ok(h) ==> h.0@.len() == (match where_ {
            Some(w) => if negate { 0 } else { relation_key_count(*m, w.entries()) },
            None => 0,
        }),
        r matches Ok(h) ==> forall|i: int| 0 <= i < h.0@.len() ==> stage_name(#[trigger] h.0@[i]@) == Some("$lookup"@),
    decreases bound@, 1nat,
{
    // the cursor is checked before anything else
    let cursor_doc = match cursor {
        Some(c) => Some(build_cursor_where(m, g, order_by, c, take)?),
        None => None,
    };
    let predictions = match where_ {
        Some(w) => if negate { Vec::new() } else { build_match_prediction_lookup(m, g, w)? },
        None => Vec::new(),
    };
    let where_doc = match where_ {
        Some(w) => match build_where_input(m, g, w)? {
            Bson::Doc(d) => d,
            _ => Vec::new(),
        },
        None => Vec::new(),
    };
    let body: Entries = if negate {
        let mut list: Vec<Bson> = Vec::new();
        let wd = Bson::Doc(where_doc);
        proof { lemma_items_push(list@, wd); }
        list.push(wd);
        let mut b: Entries = Vec::new();
        insert(&mut b, owned("$nor"), Bson::Array(list));
        proof {
            assert(bview_items(list@) =~= seq![bview(list@[0])]);
        }
        b
    } else {
        where_doc
    };
    let match_body = if body.len() > 0 {
        match cursor_doc {
            Some(c) => {
                let both = pair(Bson::Doc(body), Bson::Doc(c));
                let mut b: Entries = Vec::new();
                insert(&mut b, owned("$and"), both);
                Some(b)
            },
            None => Some(body),
        }
    } else {
        cursor_doc
    };
    let unsets = match where_ {
        Some(w) => if negate { Vec::new() } else { build_unsets_for_match_lookup(m, w) },
        None => Vec::new(),
    };
    Ok((predictions, match_body, unsets))
}

fn build_rest(
    m: &Model,
    g: &Graph,
    mutation_mode: bool,
    order_by: Option<&Json>,
    take: Option<i64>,
    skip: Option<i64>,
    page_size: Option<i64>,
    page_number: Option<i64>,
    joins: Option<&Json>,
    select: Option<&Json>,
    bound: Ghost<nat>,
) -> (r: Result<(Option<Entries>, Vec<Bson>, Option<Entries>, Vec<Bson>), ActionError>)
    requires
        joins matches Some(i) ==> size(*i) < bound@,
    ensures
        r matches Ok(t) ==> rest_spec(*g, *m, mutation_mode, opt(order_by), take, skip, page_size, page_number, opt(joins), opt(select), bound@)
            == Ok::<(Option<Seq<(Seq<char>, BV)>>, Seq<BV>, Option<Seq<(Seq<char>, BV)>>, Seq<BV>), ActionErrorType>(rest_view(t)),
        r matches Err(e) ==> rest_spec(*g, *m, mutation_mode, opt(order_by), take, skip, page_size, page_number, opt(joins), opt(select), bound@)
            == Err::<(Option<Seq<(Seq<char>, BV)>>, Seq<BV>, Option<Seq<(Seq<char>, BV)>>, Seq<BV>), ActionErrorType>(e.kind),
        r matches Ok(t) ==> (joins is None ==> t.3@.len() == 0),
        r matches Ok(t) ==> forall|i: int| 0 <= i < t.3@.len() ==>
            (stage_name(#[trigger] t.3@[i]@) == Some("$lookup"@) || stage_name(t.3@[i]@) == Some("$set"@)),
    decreases bound@, 1nat,
{
    let reverse = match take {
        Some(t) => t < 0,
        None => false,
    };
    let sort = match order_by {
        Some(o) => match build_order_by_input(m, o, reverse)? {
            Bson::Doc(d) => if d.len() > 0 { Some(d) } else { None },
            _ => None,
        },
        None => None,
    };
    let valid = match take { Some(t) => t != i64::MIN, None => true }
        && match skip { Some(s) => s >= 0, None => true }
        && match page_size { Some(p) => p >= 1, None => true }
        && match page_number { Some(p) => p >= 1, None => true };
    if !valid {
        return Err(ActionError::unexpected_input_value("pagination numbers in range", ""));
    }
    if page_size.is_some() && page_number.is_some() {
        let ps = page_size.unwrap();
        let pn = page_number.unwrap();
        if pn - 1 > i64::MAX / ps {
            proof {
                let q = i64::MAX / ps;
                assert(i64::MAX < (q + 1) * ps) by (nonlinear_arith)
                    requires ps >= 1, q == i64::MAX / ps;
                assert((q + 1) * ps <= (pn - 1) * ps) by (nonlinear_arith)
                    requires ps >= 1, q + 1 <= pn - 1;
            }
            return Err(ActionError::unexpected_input_value("pagination numbers in range", ""));
        }
        proof {
            assert((pn - 1) * ps <= i64::MAX) by (nonlinear_arith)
                requires pn - 1 <= i64::MAX / ps, ps >= 1, pn >= 1;
        }
    }
    let mut paging: Vec<Bson> = Vec::new();
    assert(bview_items(paging@) =~= Seq::<BV>::empty());
    push_paging(&mut paging, take, skip, page_size, page_number);
    proof {
        assert(Seq::<BV>::empty() + paging_stages(take, skip, page_size, page_number) =~= paging_stages(take, skip, page_size, page_number));
    }
    let project = match select {
        Some(s) => match build_select_input(m, s)? {
            Some(Bson::Doc(d)) => Some(d),
            _ => None,
        },
        None => None,
    };
    let includes = match joins {
        Some(i) => build_lookup_inputs(m, g, mutation_mode, i)?,
        None => Vec::new(),
    };
    Ok((sort, paging, project, includes))
}


fn build_parts(
    m: &Model,
    g: &Graph,
    mutation_mode: bool,
    where_: Option<&Json>,
    negate: bool,
    order_by: Option<&Json>,
    cursor: Option<&Json>,
    take: Option<i64>,
    skip: Option<i64>,
    page_size: Option<i64>,
    page_number: Option<i64>,
    joins: Option<&Json>,
    select: Option<&Json>,
    bound: Ghost<nat>,
) -> (r: Result<Parts, ActionError>)
    requires
        where_ matches Some(w) ==> size(*w) < bound@,
        joins matches Some(i) ==> size(*i) < bound@,
        negate ==> where_ is Some,
    ensures
        agrees_parts(r, parts_spec(*g, *m, mutation_mode, opt(where_), negate, opt(order_by), opt(cursor), take, skip, page_size, page_number, opt(joins), opt(select), bound@)),
        r matches Ok(p) ==> parts_ok(*g, *m, opt(where_), negate, opt(order_by), opt(cursor), take, skip, page_size, page_number, joins is Some, opt(select), p),
    decreases bound@, 2nat,
{
    let (predictions, match_body, unsets) = build_head(m, g, where_, negate, order_by, cursor, take, bound)?;
    let (sort, paging, project, includes) = build_rest(m, g, mutation_mode, order_by, take, skip, page_size, page_number, joins, select, bound)?;
    let p = Parts { predictions, match_body, unsets, sort, paging, project, includes };
    assert(parts_view(p) == PartsV {
        predictions: bview_items(p.predictions@),
        match_body: opt_entries(p.match_body),
        unsets: bview_items(p.unsets@),
        sort: opt_entries(p.sort),
        paging: bview_items(p.paging@),
        project: opt_entries(p.project),
        includes: bview_items(p.includes@),
    });
    Ok(p)
}

/// Whether the `where` of a query object names exactly the key set of a unique index.
pub open spec fn where_is_unique(m: Model, q: Json) -> bool {
    match q.member("where"@) {
        Some(w) => w is Object && m.is_unique_key_set(entry_keys(w.entries())),
        None => false,
    }
}

/// Whether a query object has a `where` object whose key set is no unique index's.
pub open spec fn where_is_not_unique(m: Model, q: Json) -> bool {
    q is Object && match q.member("where"@) {
        Some(w) => w is Object && !m.is_unique_key_set(entry_keys(w.entries())),
        None => false,
    }
}

/// The integer arguments of a query object, when each is absent or an integer.
pub open spec fn query_ints(q: Json) -> Option<(Option<i64>, Option<i64>, Option<i64>, Option<i64>)> {
    match (int_member(q, "take"@), int_member(q, "skip"@), int_member(q, "pageSize"@), int_member(q, "pageNumber"@)) {
        (Ok(t), Ok(s), Ok(ps), Ok(pn)) => Some((t, s, ps, pn)),
        _ => None,
    }
}

/// What the parts built from a query object hold. In mutation mode `include`
/// and `select` are left out.
pub open spec fn query_parts_ok(g: Graph, m: Model, mutation_mode: bool, q: Json, p: Parts) -> bool {
    &&& q is Object
    &&& query_ints(q) matches Some((t, s, ps, pn))
    &&& parts_ok(
        g, m, q.member("where"@), false, q.member("orderBy"@), q.member("cursor"@), t, s, ps, pn,
        !mutation_mode && q.member("include"@) is Some,
        if mutation_mode { None } else { q.member("select"@) },
        p,
    )
}

fn build_parts_from_json(m: &Model, g: &Graph, kind: QueryPipelineType, mutation_mode: bool, q: &Json) -> (r: Result<Parts, ActionError>)
    ensures
        agrees_parts(r, parts_from_json_spec(*g, *m, kind, mutation_mode, *q)),
        r matches Ok(p) ==> query_parts_ok(*g, *m, mutation_mode, *q, p),
        r is Ok && kind == QueryPipelineType::Unique ==> where_is_unique(*m, *q),
        kind == QueryPipelineType::Unique && where_is_not_unique(*m, *q) ==> (r matches Err(e) && e.kind == ActionErrorType::FieldIsNotUnique),
    decreases size(*q), 3nat,
{
    if !(match q { Json::Object(_) => true, _ => false }) {
        return Err(ActionError::invalid_query_input("Query input should be an object."));
    }
    let where_ = q.get("where");
    if kind == QueryPipelineType::Unique {
        validate_where_unique(m, where_)?;
    }
    let order_by = q.get("orderBy");
    let cursor = q.get("cursor");
    let take = read_int(q, "take")?;
    let skip = read_int(q, "skip")?;
    let page_size = read_int(q, "pageSize")?;
    let page_number = read_int(q, "pageNumber")?;
    let joins = if !mutation_mode { q.get("include") } else { None };
    let select = if !mutation_mode { q.get("select") } else { None };
    build_parts(m, g, mutation_mode, where_, false, order_by, cursor, take, skip, page_size, page_number, joins, select, Ghost(size(*q)))
}

/// Builds the aggregation pipeline of a query object: relation-predicate
/// lookups, `$match`, `$unset`, `$sort`, `$skip`/`$limit`, `$project`, then the
/// lookups of `include`. A `Unique` query must name exactly the key set of a
/// unique index in its `where`. In mutation mode `include` and `select` are
/// left out.
pub fn build_query_pipeline_from_json(m: &Model, g: &Graph, kind: QueryPipelineType, mutation_mode: bool, q: &Json) -> (r: Result<Vec<Bson>, ActionError>)
    ensures
        agrees_stages(r, plan_spec(*g, *m, kind, mutation_mode, *q)),
        r matches Ok(st) ==> exists|p: Parts| query_parts_ok(*g, *m, mutation_mode, *q, p) && bview_items(st@) == parts_stages(p),
        r is Ok && kind == QueryPipelineType::Unique ==> where_is_unique(*m, *q),
        kind == QueryPipelineType::Unique && where_is_not_unique(*m, *q) ==> (r matches Err(e) && e.kind == ActionErrorType::FieldIsNotUnique),
{
    let p = build_parts_from_json(m, g, kind, mutation_mode, q)?;
    let ghost gp = p;
    let st = assemble(p);
    assert(bview_items(st@) == stages_of(parts_view(gp)));
    assert(query_parts_ok(*g, *m, mutation_mode, *q, gp));
    Ok(st)
}

} // verus!

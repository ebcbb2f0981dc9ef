//! Properties that hold of every query the planner compiles.

use vstd::prelude::*;

use crate::bson::{BV, bview_items, keys_of, lemma_vinsert_keys};
use crate::filter::{one_entry, where_entries_spec, where_step};
use crate::input_decoder::{literal_spec, scalar_view};
use crate::json::{Json, Number};
use crate::action_error::{ActionError, ActionErrorType};
use crate::bson::Bson;
use crate::json::{lemma_entry_smaller, size};
use crate::pipeline::{QueryPipelineType, agrees_stages, cursor_ascending, cursor_spec, paging_stages, plan_spec, sort_spec, where_is_unique};
use crate::predicate::{comparison_key, op_step};
use crate::query::{is_primary_key, projection_spec, sort_value};
use crate::schema::{Field, FieldType, Graph, Model, views};
use crate::util::lemma_first_index_props;
use crate::value::{Value, value_bson};

verus! {

/// A `select` never drops a primary-key field: the projection names the column
/// of every field of the primary index among the model's keys.
pub proof fn projection_keeps_primary_key(m: Model, entries: Seq<(String, Json)>, keys: Seq<String>, k: Seq<char>, f: Field)
    requires
        views(keys).contains(k),
        is_primary_key(m, k),
        m.field_spec(k) == Some(f),
    ensures
        keys_of(projection_spec(m, entries, keys)).contains(f.column_name@),
    decreases keys.len(),
{
    let init = keys.drop_last();
    let d = projection_spec(m, entries, init);
    if keys.last()@ == k {
        lemma_vinsert_keys(d, f.column_name@, BV::Int32(1), f.column_name@);
    } else {
        let j = choose|j: int| 0 <= j < views(keys).len() && views(keys)[j] == k;
        assert(j < init.len());
        assert(views(init)[j] == k);
        projection_keeps_primary_key(m, entries, init, k, f);
        let last = keys.last()@;
        match m.field_spec(last) {
            Some(g) => {
                lemma_vinsert_keys(d, g.column_name@, BV::Int32(1), f.column_name@);
            },
            None => {},
        }
    }
}

/// Whether every key of a `where` names a field, none of them a logical key.
pub open spec fn scalar_keys_only(m: Model, entries: Seq<(String, Json)>) -> bool {
    forall|i: int| 0 <= i < entries.len() ==> {
        let k = (#[trigger] entries[i]).0@;
        &&& k != "AND"@ && k != "OR"@ && k != "NOT"@
        &&& m.field_spec(k) is Some
    }
}

/// Whether `x` is the column of the field named `k`.
pub open spec fn column_of(m: Model, k: Seq<char>, x: Seq<char>) -> bool {
    m.field_spec(k) matches Some(f) && f.column_name@ == x
}

/// A `where` over fields alone binds every key of the compiled `$match` to a
/// column name, never to a field name.
pub proof fn where_binds_column_names(g: Graph, m: Model, entries: Seq<(String, Json)>, d: Seq<(Seq<char>, BV)>)
    requires
        scalar_keys_only(m, entries),
        where_entries_spec(g, m, entries) == Ok::<Seq<(Seq<char>, BV)>, crate::action_error::ActionErrorType>(d),
    ensures
        forall|x: Seq<char>| keys_of(d).contains(x) ==> exists|i: int| 0 <= i < entries.len()
            && #[trigger] column_of(m, entries[i].0@, x),
    decreases entries.len(),
{
    if entries.len() > 0 {
        let init = entries.drop_last();
        assert forall|i: int| 0 <= i < init.len() implies {
            let k = (#[trigger] init[i]).0@;
            &&& k != "AND"@ && k != "OR"@ && k != "NOT"@
            &&& m.field_spec(k) is Some
        } by {
            assert(init[i] == entries[i]);
        }
        let n = entries.len() - 1;
        assert(entries.last() == entries[n]);
        match where_entries_spec(g, m, init) {
            Ok(d0) => {
                where_binds_column_names(g, m, init, d0);
                let k = entries.last().0@;
                let f = m.field_spec(k)->0;
                match where_step(g, m, k, entries.last().1) {
                    Ok(Some((key, b))) => {
                        assert(key == f.column_name@);
                        assert forall|x: Seq<char>| keys_of(d).contains(x) implies exists|i: int| 0 <= i < entries.len()
                            && #[trigger] column_of(m, entries[i].0@, x) by {
                            lemma_vinsert_keys(d0, key, b, x);
                            if x == key {
                                assert(column_of(m, entries[n].0@, x));
                            } else {
                                let i = choose|i: int| 0 <= i < init.len()
                                    && #[trigger] column_of(m, init[i].0@, x);
                                assert(init[i] == entries[i]);
                            }
                        }
                    },
                    _ => {
                        assert(d == d0);
                        assert forall|x: Seq<char>| keys_of(d).contains(x) implies exists|i: int| 0 <= i < entries.len()
                            && #[trigger] column_of(m, entries[i].0@, x) by {
                            let i = choose|i: int| 0 <= i < init.len()
                                && #[trigger] column_of(m, init[i].0@, x);
                            assert(init[i] == entries[i]);
                        }
                    },
                }
            },
            Err(_) => {},
        }
    }
}

/// With `orderBy = {k: dir}`, the sort direction is `dir` exactly when `take`
/// is not negative.
pub proof fn sort_direction_follows_take(dir: Seq<char>, take: i64)
    requires
        dir == "asc"@ || dir == "desc"@,
    ensures
        sort_value(dir, take < 0) == Some(if (dir == "asc"@) != (take < 0) { 1i32 } else { -1i32 }),
{
    reveal_strlit("asc");
    reveal_strlit("desc");
}

/// The predicate that a cursor adds is `>=` exactly when the direction is
/// ascending and `take` is not negative, or descending and `take` is negative.
pub proof fn cursor_predicate_follows_direction(
    g: Graph,
    m: Model,
    order_by: Json,
    cursor: Json,
    take: Option<i64>,
    d: Seq<(Seq<char>, BV)>,
)
    requires
        cursor_spec(g, m, Some(order_by), cursor, take) == Ok::<Seq<(Seq<char>, BV)>, crate::action_error::ActionErrorType>(d),
    ensures
        order_by.entries().len() == 1,
        order_by.entries()[0].1 is Str,
        d.len() == 1,
        d[0].1 matches BV::Doc(inner) && inner.len() == 1
            && inner[0].0 == (if cursor_ascending(order_by.entries()[0].1->Str_0@, take) { "$gte"@ } else { "$lte"@ }),
{
    reveal_strlit("equals");
    reveal_strlit("not");
    reveal_strlit("gt");
    reveal_strlit("gte");
    reveal_strlit("lt");
    reveal_strlit("lte");
    reveal_strlit("in");
    reveal_strlit("notIn");
    reveal_strlit("contains");
    reveal_strlit("startsWith");
    reveal_strlit("endsWith");
    reveal_strlit("matches");
    reveal_strlit("mode");
    let oe = order_by.entries();
    let dir = oe[0].1->Str_0@;
    let k = oe[0].0@;
    let f = m.field_spec(k)->0;
    let op = if cursor_ascending(dir, take) { "gte"@ } else { "lte"@ };
    assert("gte"@.len() == 3 && "lte"@.len() == 3 && "not"@.len() == 3);
    assert("gte"@[0] != "not"@[0] && "lte"@[0] != "not"@[0]);
    assert("equals"@.len() == 6 && "gt"@.len() == 2);
    assert("gte"@ != "equals"@ && "gte"@ != "not"@ && "gte"@ != "gt"@);
    assert("lte"@ != "equals"@ && "lte"@ != "not"@ && "lte"@ != "gt"@ && "lte"@ != "gte"@ && "lte"@ != "lt"@);
    assert(comparison_key("gte"@) == Some("$gte"@));
    assert(comparison_key("lte"@) == Some("$lte"@));
    match op_step(g.enums@, f.field_type, false, op, cursor.entries()[0].1) {
        Ok(Some((ok, b))) => {
            assert(ok == comparison_key(op)->0);
        },
        Ok(None) => {
            assert(false);
        },
        Err(_) => {},
    }
}

/// A relation predicate tests for one related row under `some` and `is`, and
/// for none under `none`, `isNot` and `all`.
pub proof fn relation_predicate_size(g: Graph, m: Model, k: Seq<char>, v: Json, cmd: Seq<char>, inner: Json)
    requires
        k != "AND"@ && k != "OR"@ && k != "NOT"@,
        m.is_queryable(k),
        m.field_spec(k) is None,
        m.relation_spec(k) is Some,
        one_entry(v) == Ok::<(Seq<char>, Json), crate::action_error::ActionErrorType>((cmd, inner)),
        cmd == "some"@ || cmd == "is"@ || cmd == "none"@ || cmd == "isNot"@ || cmd == "all"@,
    ensures
        where_step(g, m, k, v) == Ok::<Option<(Seq<char>, BV)>, crate::action_error::ActionErrorType>(Some((
            k,
            BV::Doc(seq![("$size"@, BV::Int32(if cmd == "some"@ || cmd == "is"@ { 1i32 } else { 0i32 }))]),
        ))),
{
}

/// `take = 0` ends the pagination with a `$limit` of zero.
pub proof fn take_zero_limits_to_zero(skip: Option<i64>)
    ensures
        paging_stages(Some(0), skip, None, None).last() == BV::Doc(seq![("$limit"@, BV::Int64(0))]),
{
}

/// A negative `take` without `orderBy` is no error: there is no sort, and the
/// limit is the magnitude of `take`.
pub proof fn negative_take_without_order_by(m: Model, t: i64)
    requires
        t < 0,
        t != i64::MIN,
    ensures
        sort_spec(m, None, Some(t)) == Ok::<Option<Seq<(Seq<char>, BV)>>, crate::action_error::ActionErrorType>(None),
        paging_stages(Some(t), None, None, None) == seq![BV::Doc(seq![("$limit"@, BV::Int64((-t) as i64))])],
{
}

/// When both `pageSize` and `pageNumber` are given, `skip` and `take` change nothing.
pub proof fn page_overrides_skip_and_take(take: Option<i64>, skip: Option<i64>, page_size: i64, page_number: i64)
    ensures
        paging_stages(take, skip, Some(page_size), Some(page_number)) == paging_stages(None, None, Some(page_size), Some(page_number)),
{
}

/// An empty `AND` or `OR` list adds nothing to the `$match` and is no error.
pub proof fn empty_logical_list_adds_nothing(g: Graph, m: Model, k: Seq<char>, items: Vec<Json>)
    requires
        k == "AND"@ || k == "OR"@,
        items@.len() == 0,
    ensures
        where_step(g, m, k, Json::Array(items)) == Ok::<Option<(Seq<char>, BV)>, crate::action_error::ActionErrorType>(None),
{
}

/// Whether a backend value reads back as the JSON value `j`.
pub open spec fn reads_back_as(b: BV, j: Json) -> bool {
    match (b, j) {
        (BV::Bool(x), Json::Bool(y)) => x == y,
        (BV::Int32(x), Json::Number(Number::Int(y))) => x as int == y as int,
        (BV::Int64(x), Json::Number(Number::Int(y))) => x as int == y as int,
        (BV::Double(x), Json::Number(y)) => x == y,
        (BV::Str(x), Json::Str(y)) => x == y@,
        _ => false,
    }
}

/// Whether a field type keeps its JSON form through decoding and encoding:
/// every scalar type but decimals, dates, date-times and object ids.
pub open spec fn round_trips(ft: FieldType) -> bool {
    ft.is_int() || ft.is_float() || ft is Bool || ft is String || ft is Enum
}

/// A literal decoded for such a field and encoded for the backend reads back
/// as the literal (integers given within `i64`).
pub proof fn decode_then_encode_round_trips(enums: Seq<(String, Vec<String>)>, ft: FieldType, j: Json, v: Value)
    requires
        round_trips(ft),
        !(j matches Json::Number(Number::UInt(_))),
        literal_spec(enums, ft, j) matches Ok(s) && scalar_view(v) == Some(s),
    ensures
        value_bson(v) matches Some(b) && reads_back_as(b, j),
{
}

proof fn lemma_no_members(q: Json)
    requires
        q.entries().len() == 0,
    ensures
        forall|k: Seq<char>| #[trigger] q.member(k) is None,
{
    assert forall|k: Seq<char>| #[trigger] q.member(k) is None by {
        lemma_first_index_props(q.entries(), |e: (String, Json)| e.0@ == k);
    }
}

/// The argument names of a query object are distinct.
proof fn lemma_argument_names()
    ensures
        "take"@ != "where"@ && "take"@ != "orderBy"@ && "take"@ != "cursor"@ && "take"@ != "skip"@
            && "take"@ != "pageSize"@ && "take"@ != "pageNumber"@ && "take"@ != "include"@ && "take"@ != "select"@,
        "where"@ != "orderBy"@ && "where"@ != "cursor"@ && "where"@ != "take"@ && "where"@ != "skip"@
            && "where"@ != "pageSize"@ && "where"@ != "pageNumber"@ && "where"@ != "include"@ && "where"@ != "select"@,
{
    reveal_strlit("take");
    reveal_strlit("where");
    reveal_strlit("orderBy");
    reveal_strlit("cursor");
    reveal_strlit("skip");
    reveal_strlit("pageSize");
    reveal_strlit("pageNumber");
    reveal_strlit("include");
    reveal_strlit("select");
    assert("take"@.len() == 4 && "skip"@.len() == 4 && "where"@.len() == 5 && "orderBy"@.len() == 7);
    assert("cursor"@.len() == 6 && "pageSize"@.len() == 8 && "pageNumber"@.len() == 10);
    assert("include"@.len() == 7 && "select"@.len() == 6);
    assert("take"@[0] != "skip"@[0]);
}

/// The empty query object compiles, for a `First` or `Many` query, to no stages.
pub proof fn empty_query_has_no_stages(g: Graph, m: Model, kind: QueryPipelineType, mutation_mode: bool, q: Json)
    requires
        q is Object,
        q.entries().len() == 0,
        kind != QueryPipelineType::Unique,
    ensures
        plan_spec(g, m, kind, mutation_mode, q) == Ok::<Seq<BV>, ActionErrorType>(Seq::empty()),
{
    lemma_no_members(q);
    assert(paging_stages(None, None, None, None) =~= Seq::<BV>::empty());
    assert(crate::pipeline::stage_if("$match"@, None) =~= Seq::<BV>::empty());
    assert(crate::pipeline::stages_of(crate::pipeline::empty_parts_v()) =~= Seq::<BV>::empty());
}

/// A query object whose only argument is `take = n` compiles to one `$limit`
/// of the magnitude of `n`: `take = 0` gives `{"$limit": 0}`, and a negative
/// `take` without `orderBy` is no error.
pub proof fn lone_take_gives_one_limit(g: Graph, m: Model, kind: QueryPipelineType, mutation_mode: bool, q: Json, n: i64)
    requires
        q is Object,
        q.entries().len() == 1,
        q.entries()[0].0@ == "take"@,
        q.entries()[0].1 == Json::Number(Number::Int(n)),
        n != i64::MIN,
        kind != QueryPipelineType::Unique,
    ensures
        plan_spec(g, m, kind, mutation_mode, q) == Ok::<Seq<BV>, ActionErrorType>(
            seq![BV::Doc(seq![("$limit"@, BV::Int64(if n < 0 { (-n) as i64 } else { n }))])],
        ),
{
    lemma_argument_names();
    crate::json::lemma_one_member(q, "take"@);
    crate::json::lemma_one_member(q, "where"@);
    crate::json::lemma_one_member(q, "orderBy"@);
    crate::json::lemma_one_member(q, "cursor"@);
    crate::json::lemma_one_member(q, "skip"@);
    crate::json::lemma_one_member(q, "pageSize"@);
    crate::json::lemma_one_member(q, "pageNumber"@);
    crate::json::lemma_one_member(q, "include"@);
    crate::json::lemma_one_member(q, "select"@);
    let lim = seq![BV::Doc(seq![("$limit"@, BV::Int64(if n < 0 { (-n) as i64 } else { n }))])];
    assert(paging_stages(Some(n), None, None, None) =~= lim);
    assert(crate::pipeline::stage_if("$match"@, None) =~= Seq::<BV>::empty());
}

/// A `where` whose only key is an empty `AND` or `OR` list compiles to no
/// stages (when the model has no relation of that name).
pub proof fn empty_logical_where_has_no_stages(g: Graph, m: Model, kind: QueryPipelineType, mutation_mode: bool, q: Json, w: Json)
    requires
        q is Object,
        q.entries().len() == 1,
        q.entries()[0].0@ == "where"@,
        q.entries()[0].1 == w,
        w is Object,
        w.entries().len() == 1,
        w.entries()[0].0@ == "AND"@ || w.entries()[0].0@ == "OR"@,
        w.entries()[0].1 matches Json::Array(items) && items@.len() == 0,
        m.relation_spec(w.entries()[0].0@) is None,
        kind != QueryPipelineType::Unique,
    ensures
        plan_spec(g, m, kind, mutation_mode, q) == Ok::<Seq<BV>, ActionErrorType>(Seq::empty()),
{
    lemma_argument_names();
    crate::json::lemma_one_member(q, "take"@);
    crate::json::lemma_one_member(q, "where"@);
    crate::json::lemma_one_member(q, "orderBy"@);
    crate::json::lemma_one_member(q, "cursor"@);
    crate::json::lemma_one_member(q, "skip"@);
    crate::json::lemma_one_member(q, "pageSize"@);
    crate::json::lemma_one_member(q, "pageNumber"@);
    crate::json::lemma_one_member(q, "include"@);
    crate::json::lemma_one_member(q, "select"@);
    lemma_entry_smaller(q.entries(), 0);
    lemma_empty_logical_where(g, m, w);
    assert(size(w) < size(q));
    let none = None::<Json>;
    assert(crate::pipeline::head_spec(g, m, Some(w), false, none, none, None, size(q))
        == Ok::<(Seq<BV>, Option<Seq<(Seq<char>, BV)>>, Seq<BV>), ActionErrorType>((Seq::empty(), None, Seq::empty())));
    assert(paging_stages(None, None, None, None) =~= Seq::<BV>::empty());
    assert(crate::pipeline::rest_spec(g, m, mutation_mode, none, None, None, None, None, none, none, size(q))
        == Ok::<(Option<Seq<(Seq<char>, BV)>>, Seq<BV>, Option<Seq<(Seq<char>, BV)>>, Seq<BV>), ActionErrorType>((None, Seq::empty(), None, Seq::empty())));
    assert(crate::pipeline::stage_if("$match"@, None) =~= Seq::<BV>::empty());
    assert(crate::pipeline::stages_of(crate::pipeline::empty_parts_v()) =~= Seq::<BV>::empty());
}

proof fn lemma_empty_logical_where(g: Graph, m: Model, w: Json)
    requires
        w is Object,
        w.entries().len() == 1,
        w.entries()[0].0@ == "AND"@ || w.entries()[0].0@ == "OR"@,
        w.entries()[0].1 matches Json::Array(items) && items@.len() == 0,
        m.relation_spec(w.entries()[0].0@) is None,
    ensures
        crate::pipeline::where_doc_spec(g, m, Some(w)) == Ok::<Seq<(Seq<char>, BV)>, ActionErrorType>(Seq::empty()),
        crate::pipeline::predictions_spec(g, m, w, size(w)) == Ok::<Seq<BV>, ActionErrorType>(Seq::empty()),
        crate::pipeline::unset_stages(m, w.entries()) == Seq::<BV>::empty(),
{
    let e = w.entries();
    assert(e.drop_last() =~= Seq::<(String, Json)>::empty());
    assert(e.last() == e[0]);
    assert(crate::pipeline::predictions_fold(g, m, e.drop_last(), size(w)) == Ok::<Seq<BV>, ActionErrorType>(Seq::empty()));
    assert(crate::pipeline::predictions_fold(g, m, e, size(w)) == Ok::<Seq<BV>, ActionErrorType>(Seq::empty()));
    assert(where_step(g, m, e[0].0@, e[0].1) == Ok::<Option<(Seq<char>, BV)>, ActionErrorType>(None));
    assert(crate::filter::where_entries_spec(g, m, e.drop_last()) == Ok::<Seq<(Seq<char>, BV)>, ActionErrorType>(Seq::empty()));
    assert(crate::filter::where_entries_spec(g, m, e) == Ok::<Seq<(Seq<char>, BV)>, ActionErrorType>(Seq::empty()));
    assert(crate::pipeline::unset_stages(m, e.drop_last()) =~= Seq::<BV>::empty());
}

/// A `Unique` query object whose `where` is missing, no object, or not exactly
/// the key set of a unique index fails with `FieldIsNotUnique`; for any other
/// query the kind does not change the outcome.
pub proof fn unique_check_only_adds_field_is_not_unique(g: Graph, m: Model, kind: QueryPipelineType, mutation_mode: bool, q: Json)
    requires
        q is Object,
    ensures
        kind == QueryPipelineType::Unique && !where_is_unique(m, q)
            ==> plan_spec(g, m, kind, mutation_mode, q) == Err::<Seq<BV>, ActionErrorType>(ActionErrorType::FieldIsNotUnique),
        kind != QueryPipelineType::Unique || where_is_unique(m, q)
            ==> plan_spec(g, m, kind, mutation_mode, q) == plan_spec(g, m, QueryPipelineType::Many, mutation_mode, q),
{
}

/// Planning is deterministic: two results of the same query, model and
/// schema either both succeed with equal stages or both fail with the same
/// kind of error.
pub proof fn planning_is_deterministic(
    g: Graph,
    m: Model,
    kind: QueryPipelineType,
    mutation_mode: bool,
    q: Json,
    r1: Result<Vec<Bson>, ActionError>,
    r2: Result<Vec<Bson>, ActionError>,
)
    requires
        agrees_stages(r1, plan_spec(g, m, kind, mutation_mode, q)),
        agrees_stages(r2, plan_spec(g, m, kind, mutation_mode, q)),
    ensures
        r1 is Ok <==> r2 is Ok,
        r1 matches Ok(a) ==> (r2 matches Ok(b) && bview_items(a@) == bview_items(b@)),
        r1 matches Err(e1) ==> (r2 matches Err(e2) && e1.kind == e2.kind),
{
}

} // verus!

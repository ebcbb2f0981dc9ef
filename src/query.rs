//! The parts of a query other than `where` and `include`: sorting, projection,
//! pagination, cursors and unique lookups.

use vstd::prelude::*;

use crate::action_error::{ActionError, ActionErrorType};
use crate::bson::{BV, Bson, Entries, bview, bview_entries, insert, vinsert};
use crate::filter::one_entry;
use crate::json::Json;
use crate::schema::Model;
use crate::text::str_eq;

verus! {

/// The sort value of a direction: 1 ascending, -1 descending, swapped when `reverse`.
pub open spec fn sort_value(dir: Seq<char>, reverse: bool) -> Option<i32> {
    if dir == "asc"@ {
        Some(if reverse { -1i32 } else { 1i32 })
    } else if dir == "desc"@ {
        Some(if reverse { 1i32 } else { -1i32 })
    } else {
        None
    }
}

/// One `{field: direction}` object of an `orderBy`: the field must be
/// queryable, and the sort binds to its column.
pub open spec fn order_item_spec(m: Model, item: Json, reverse: bool) -> Result<(Seq<char>, BV), ActionErrorType> {
    match one_entry(item) {
        Ok((k, v)) => if !m.is_queryable(k) {
            Err(ActionErrorType::UnexpectedInputKey)
        } else {
            match m.field_spec(k) {
                None => Err(ActionErrorType::UnexpectedInputKey),
                Some(f) => match v {
                    Json::Str(s) => match sort_value(s@, reverse) {
                        Some(n) => Ok((f.column_name@, BV::Int32(n))),
                        None => Err(ActionErrorType::UnexpectedInputValue),
                    },
                    _ => Err(ActionErrorType::UnexpectedInputValue),
                },
            }
        },
        Err(e) => Err(e),
    }
}

pub open spec fn order_items_spec(m: Model, items: Seq<Json>, reverse: bool) -> Result<Seq<(Seq<char>, BV)>, ActionErrorType>
    decreases items.len(),
{
    if items.len() == 0 {
        Ok(Seq::empty())
    } else {
        match order_items_spec(m, items.drop_last(), reverse) {
            Err(e) => Err(e),
            Ok(d) => match order_item_spec(m, items.last(), reverse) {
                Err(e) => Err(e),
                Ok((k, b)) => Ok(vinsert(d, k, b)),
            },
        }
    }
}

/// The body of the `$sort` stage: an object is one entry, an array lists entries in order.
pub open spec fn order_spec(m: Model, j: Json, reverse: bool) -> Result<Seq<(Seq<char>, BV)>, ActionErrorType> {
    match j {
        Json::Object(_) => order_items_spec(m, seq![j], reverse),
        Json::Array(items) => order_items_spec(m, items@, reverse),
        _ => Err(ActionErrorType::InvalidQueryInput),
    }
}

fn order_item(m: &Model, item: &Json, reverse: bool) -> (r: Result<(String, Bson), ActionError>)
    ensures
        r matches Ok(e) ==> order_item_spec(*m, *item, reverse) == Ok::<(Seq<char>, BV), ActionErrorType>((e.0@, bview(e.1))),
        r matches Err(e) ==> order_item_spec(*m, *item, reverse) == Err::<(Seq<char>, BV), ActionErrorType>(e.kind),
{
    match crate::filter::one_length_json_obj(item) {
        Ok((k, v)) => {
            if !m.queryable(k) {
                return Err(ActionError::unexpected_input_key(k, "orderBy"));
            }
            let f = match m.field(k) {
                Some(f) => f,
                None => { return Err(ActionError::unexpected_input_key(k, "orderBy")); },
            };
            match v {
            Json::Str(s) => {
                let n: i32 = if str_eq(s.as_str(), "asc") {
                    if reverse { -1 } else { 1 }
                } else if str_eq(s.as_str(), "desc") {
                    if reverse { 1 } else { -1 }
                } else {
                    return Err(ActionError::unexpected_input_value("asc' or 'desc", k));
                };
                Ok((f.column_name.clone(), Bson::Int32(n)))
            },
            _ => Err(ActionError::unexpected_input_value("asc' or 'desc", k)),
            }
        },
        Err(e) => Err(e),
    }
}

/// Compiles an `orderBy` into the body of a `$sort` stage over column names;
/// `reverse` swaps every direction.
pub fn build_order_by_input(m: &Model, order_by: &Json, reverse: bool) -> (r: Result<Bson, ActionError>)
    ensures
        r matches Ok(b) ==> order_spec(*m, *order_by, reverse) == Ok::<Seq<(Seq<char>, BV)>, ActionErrorType>(b@->Doc_0) && b@ is Doc,
        r matches Err(e) ==> order_spec(*m, *order_by, reverse) == Err::<Seq<(Seq<char>, BV)>, ActionErrorType>(e.kind),
{
    let mut out: Entries = Vec::new();
    match order_by {
        Json::Object(_) => {
            proof {
                assert(seq![*order_by].drop_last() =~= Seq::<Json>::empty());
                assert(seq![*order_by].last() == *order_by);
                assert(bview_entries(out@) =~= Seq::<(Seq<char>, BV)>::empty());
                assert(order_items_spec(*m, Seq::<Json>::empty(), reverse) == Ok::<Seq<(Seq<char>, BV)>, ActionErrorType>(Seq::empty()));
            }
            match order_item(m, order_by, reverse) {
                Ok(e) => {
                    insert(&mut out, e.0, e.1);
                },
                Err(e) => {
                    return Err(e);
                },
            }
            proof {
                assert(seq![*order_by].drop_last() =~= Seq::<Json>::empty());
            }
            Ok(Bson::Doc(out))
        },
        Json::Array(items) => {
            let mut i: usize = 0;
            while i < items.len()
                invariant
                    *order_by == Json::Array(*items),
                    i <= items@.len(),
                    order_items_spec(*m, items@.take(i as int), reverse) == Ok::<Seq<(Seq<char>, BV)>, ActionErrorType>(bview_entries(out@)),
                decreases items.len() - i,
            {
                proof {
                    assert(items@.take(i as int + 1).drop_last() =~= items@.take(i as int));
                    assert(items@.take(i as int + 1).last() == items@[i as int]);
                }
                match order_item(m, &items[i], reverse) {
                    Ok(e) => {
                        insert(&mut out, e.0, e.1);
                    },
                    Err(e) => {
                        proof {
                            lemma_order_fails(*m, items@, reverse, i as int + 1);
                        }
                        return Err(e);
                    },
                }
                i = i + 1;
            }
            assert(items@.take(i as int) =~= items@);
            Ok(Bson::Doc(out))
        },
        _ => Err(ActionError::invalid_query_input("Order by inputs should be an object or an array of objects.")),
    }
}

proof fn lemma_order_fails(m: Model, items: Seq<Json>, reverse: bool, n: int)
    requires
        0 < n <= items.len(),
        order_items_spec(m, items.take(n), reverse) is Err,
    ensures
        order_items_spec(m, items, reverse) == order_items_spec(m, items.take(n), reverse),
    decreases items.len(),
{
    if n < items.len() {
        assert(items.drop_last().take(n) =~= items.take(n));
        lemma_order_fails(m, items.drop_last(), reverse, n);
    } else {
        assert(items.take(n) =~= items);
    }
}

/// Whether `k` names a field of the primary index.
pub open spec fn is_primary_key(m: Model, k: Seq<char>) -> bool {
    exists|i: int| 0 <= i < m.primary.items@.len() && (#[trigger] m.primary.items@[i]).field_name@ == k
}

/// Whether some entry of `select` sets `k` to `b`.
pub open spec fn sets(entries: Seq<(String, Json)>, k: Seq<char>, b: bool) -> bool {
    exists|i: int| 0 <= i < entries.len() && (#[trigger] entries[i]).0@ == k && entries[i].1 == Json::Bool(b)
}

pub open spec fn has_false(entries: Seq<(String, Json)>) -> bool {
    exists|i: int| 0 <= i < entries.len() && (#[trigger] entries[i]).1 == Json::Bool(false)
}

/// Whether `select` keeps the field `k`: with any `false` in it, every field not
/// set to `false`; else the fields set to `true`. Primary-key fields always stay.
pub open spec fn keeps(m: Model, entries: Seq<(String, Json)>, k: Seq<char>) -> bool {
    is_primary_key(m, k) || if has_false(entries) {
        !sets(entries, k, false)
    } else {
        sets(entries, k, true)
    }
}

/// The projection over the model's keys in order: each kept field's column maps to 1.
pub open spec fn projection_spec(m: Model, entries: Seq<(String, Json)>, keys: Seq<String>) -> Seq<(Seq<char>, BV)>
    decreases keys.len(),
{
    if keys.len() == 0 {
        Seq::empty()
    } else {
        let d = projection_spec(m, entries, keys.drop_last());
        let k = keys.last()@;
        match m.field_spec(k) {
            Some(f) => if keeps(m, entries, k) {
                vinsert(d, f.column_name@, BV::Int32(1))
            } else {
                d
            },
            None => d,
        }
    }
}

pub open spec fn all_bools(entries: Seq<(String, Json)>) -> bool {
    forall|i: int| 0 <= i < entries.len() ==> (#[trigger] entries[i]).1 is Bool
}

/// The `$project` body of a `select`, `None` for an empty one.
pub open spec fn select_spec(m: Model, j: Json) -> Result<Option<Seq<(Seq<char>, BV)>>, ActionErrorType> {
    match j {
        Json::Object(entries) => if !all_bools(entries@) {
            Err(ActionErrorType::UnexpectedInputType)
        } else if entries@.len() == 0 {
            Ok(None)
        } else {
            Ok(Some(projection_spec(m, entries@, m.all_keys@)))
        },
        _ => Err(ActionErrorType::InvalidQueryInput),
    }
}

fn primary_has(m: &Model, k: &str) -> (r: bool)
    ensures
        r == is_primary_key(*m, k@),
{
    let items = &m.primary.items;
    let mut i: usize = 0;
    while i < items.len()
        invariant
            items == &m.primary.items,
            i <= items@.len(),
            forall|j: int| 0 <= j < i ==> (#[trigger] items@[j]).field_name@ != k@,
        decreases items.len() - i,
    {
        if str_eq(items[i].field_name.as_str(), k) {
            return true;
        }
        i = i + 1;
    }
    false
}

fn find_set(entries: &Vec<(String, Json)>, k: &str, b: bool) -> (r: bool)
    ensures
        r == sets(entries@, k@, b),
{
    let mut i: usize = 0;
    while i < entries.len()
        invariant
            i <= entries@.len(),
            forall|j: int| 0 <= j < i ==> !((#[trigger] entries@[j]).0@ == k@ && entries@[j].1 == Json::Bool(b)),
        decreases entries.len() - i,
    {
        let hit = match &entries[i].1 {
            Json::Bool(x) => *x == b,
            _ => false,
        };
        if hit && str_eq(entries[i].0.as_str(), k) {
            return true;
        }
        i = i + 1;
    }
    false
}

/// Compiles a `select` into the body of a `$project` stage, or `None` when it is empty.
pub fn build_select_input(m: &Model, select: &Json) -> (r: Result<Option<Bson>, ActionError>)
    ensures
        r matches Ok(None) ==> select_spec(*m, *select) == Ok::<Option<Seq<(Seq<char>, BV)>>, ActionErrorType>(None),
        r matches Ok(Some(b)) ==> b@ is Doc && select_spec(*m, *select) == Ok::<Option<Seq<(Seq<char>, BV)>>, ActionErrorType>(Some(b@->Doc_0)),
        r matches Err(e) ==> select_spec(*m, *select) == Err::<Option<Seq<(Seq<char>, BV)>>, ActionErrorType>(e.kind),
{
    let entries = match select {
        Json::Object(entries) => entries,
        _ => { return Err(ActionError::invalid_query_input("'select' should be an object.")); },
    };
    let mut any_false = false;
    let mut i: usize = 0;
    while i < entries.len()
        invariant
            *select == Json::Object(*entries),
            i <= entries@.len(),
            forall|j: int| 0 <= j < i ==> (#[trigger] entries@[j]).1 is Bool,
            any_false == exists|j: int| 0 <= j < i && (#[trigger] entries@[j]).1 == Json::Bool(false),
        decreases entries.len() - i,
    {
        match &entries[i].1 {
            Json::Bool(b) => {
                if !*b {
                    any_false = true;
                }
            },
            _ => {
                assert(!all_bools(entries@));
                return Err(ActionError::unexpected_input_type("bool", entries[i].0.as_str()));
            },
        }
        i = i + 1;
        proof {
            if any_false {
                assert(exists|j: int| 0 <= j < i && (#[trigger] entries@[j]).1 == Json::Bool(false));
            }
        }
    }
    if entries.len() == 0 {
        return Ok(None);
    }
    let keys = &m.all_keys;
    let mut out: Entries = Vec::new();
    let mut i: usize = 0;
    while i < keys.len()
        invariant
            *select == Json::Object(*entries),
            keys == &m.all_keys,
            any_false == has_false(entries@),
            i <= keys@.len(),
            projection_spec(*m, entries@, keys@.take(i as int)) == bview_entries(out@),
        decreases keys.len() - i,
    {
        proof {
            assert(keys@.take(i as int + 1).drop_last() =~= keys@.take(i as int));
            assert(keys@.take(i as int + 1).last() == keys@[i as int]);
        }
        let k = keys[i].as_str();
        match m.field(k) {
            Some(f) => {
                let keep = primary_has(m, k) || if any_false {
                    !find_set(entries, k, false)
                } else {
                    find_set(entries, k, true)
                };
                if keep {
                    insert(&mut out, f.column_name.clone(), Bson::Int32(1));
                }
            },
            None => {},
        }
        i = i + 1;
    }
    assert(keys@.take(i as int) =~= keys@);
    Ok(Some(Bson::Doc(out)))
}

} // verus!

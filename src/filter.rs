//! Compiles `where` objects into the body of a `$match` stage.

use vstd::prelude::*;

use crate::action_error::{ActionError, ActionErrorType};
use crate::bson::{BV, Bson, Entries, bview, bview_entries, bview_items, insert, lemma_items_push, single, vinsert};
use crate::json::{Json, lemma_entry_smaller, lemma_item_smaller, size};
use crate::predicate::{entry_spec, parse_bson_where_entry};
use crate::schema::{Graph, Model};
use crate::text::{owned, str_eq};

verus! {

/// A document's entries, or the kind of error.
pub type DocResult = Result<Seq<(Seq<char>, BV)>, ActionErrorType>;

/// The size test of a relation predicate: `some` and `is` ask for one related row,
/// `none`, `isNot` and `all` for none.
pub open spec fn relation_size(cmd: Seq<char>) -> Option<i32> {
    if cmd == "some"@ || cmd == "is"@ {
        Some(1)
    } else if cmd == "none"@ || cmd == "isNot"@ || cmd == "all"@ {
        Some(0)
    } else {
        None
    }
}

/// The command and the inner `where` of a relation predicate `{cmd: inner}`.
pub open spec fn one_entry(v: Json) -> Result<(Seq<char>, Json), ActionErrorType> {
    match v {
        Json::Object(entries) => if entries@.len() == 1 {
            Ok((entries@[0].0@, entries@[0].1))
        } else {
            Err(ActionErrorType::UnexpectedObjectLength)
        },
        _ => Err(ActionErrorType::UnexpectedInputType),
    }
}

/// The backend entry that one key of a `where` contributes.
pub open spec fn where_step(g: Graph, m: Model, k: Seq<char>, v: Json) -> Result<Option<(Seq<char>, BV)>, ActionErrorType>
    decreases v, 2nat,
{
    if k == "AND"@ || k == "OR"@ {
        match v {
            Json::Array(items) => if items@.len() == 0 {
                Ok(None)
            } else {
                match where_list_spec(g, m, items@) {
                    Ok(docs) => Ok(Some((if k == "AND"@ { "$and"@ } else { "$or"@ }, BV::Array(docs)))),
                    Err(e) => Err(e),
                }
            },
            _ => Err(ActionErrorType::UnexpectedInputType),
        }
    } else if k == "NOT"@ {
        match where_spec(g, m, v) {
            Ok(d) => Ok(Some(("$nor"@, BV::Array(seq![BV::Doc(d)])))),
            Err(e) => Err(e),
        }
    } else if !m.is_queryable(k) {
        Err(ActionErrorType::UnexpectedInputKey)
    } else {
        match m.field_spec(k) {
            Some(f) => match entry_spec(g.enums@, f.field_type, v) {
                Ok(b) => Ok(Some((f.column_name@, b))),
                Err(e) => Err(e),
            },
            None => if m.relation_spec(k) is Some {
                match one_entry(v) {
                    Ok((cmd, _)) => match relation_size(cmd) {
                        Some(n) => Ok(Some((k, BV::Doc(seq![("$size"@, BV::Int32(n))])))),
                        None => Err(ActionErrorType::UnexpectedInputKey),
                    },
                    Err(e) => Err(e),
                }
            } else {
                Err(ActionErrorType::UnexpectedInputKey)
            },
        }
    }
}

/// The entries of a `where` object, each inserted in turn.
pub open spec fn where_entries_spec(g: Graph, m: Model, entries: Seq<(String, Json)>) -> DocResult
    decreases entries, 0nat,
{
    if entries.len() == 0 {
        Ok(Seq::empty())
    } else {
        match where_entries_spec(g, m, entries.drop_last()) {
            Err(e) => Err(e),
            Ok(d) => match where_step(g, m, entries.last().0@, entries.last().1) {
                Err(e) => Err(e),
                Ok(None) => Ok(d),
                Ok(Some((k, b))) => Ok(vinsert(d, k, b)),
            },
        }
    }
}

/// The compiled `where`: an object, compiled key by key.
pub open spec fn where_spec(g: Graph, m: Model, w: Json) -> DocResult
    decreases w, 1nat,
{
    match w {
        Json::Object(entries) => where_entries_spec(g, m, entries@),
        _ => Err(ActionErrorType::InvalidQueryInput),
    }
}

/// A list of `where` objects, each compiled.
pub open spec fn where_list_spec(g: Graph, m: Model, items: Seq<Json>) -> Result<Seq<BV>, ActionErrorType>
    decreases items, 0nat,
{
    if items.len() == 0 {
        Ok(Seq::empty())
    } else {
        match where_list_spec(g, m, items.drop_last()) {
            Err(e) => Err(e),
            Ok(s) => match where_spec(g, m, items.last()) {
                Err(e) => Err(e),
                Ok(d) => Ok(s.push(BV::Doc(d))),
            },
        }
    }
}

/// Splits a one-entry object into its key and value.
pub fn one_length_json_obj(v: &Json) -> (r: Result<(&str, &Json), ActionError>)
    ensures
        r matches Ok((k, x)) ==> one_entry(*v) == Ok::<(Seq<char>, Json), ActionErrorType>((k@, *x)) && size(*x) < size(*v),
        r matches Err(e) ==> one_entry(*v) == Err::<(Seq<char>, Json), ActionErrorType>(e.kind),
{
    match v {
        Json::Object(entries) => {
            if entries.len() == 1 {
                proof {
                    lemma_entry_smaller(entries@, 0);
                }
                Ok((entries[0].0.as_str(), &entries[0].1))
            } else {
                Err(ActionError::unexpected_object_length("1", ""))
            }
        },
        _ => Err(ActionError::unexpected_input_type("object", "")),
    }
}

fn relation_size_of(cmd: &str) -> (r: Option<i32>)
    ensures
        r == relation_size(cmd@),
{
    if str_eq(cmd, "some") || str_eq(cmd, "is") {
        Some(1)
    } else if str_eq(cmd, "none") || str_eq(cmd, "isNot") || str_eq(cmd, "all") {
        Some(0)
    } else {
        None
    }
}

fn compile_where_step(g: &Graph, m: &Model, k: &str, v: &Json) -> (r: Result<Option<(String, Bson)>, ActionError>)
    ensures
        r matches Ok(None) ==> where_step(*g, *m, k@, *v) == Ok::<Option<(Seq<char>, BV)>, ActionErrorType>(None),
        r matches Ok(Some(e)) ==> where_step(*g, *m, k@, *v) == Ok::<Option<(Seq<char>, BV)>, ActionErrorType>(Some((e.0@, bview(e.1)))),
        r matches Err(e) ==> where_step(*g, *m, k@, *v) == Err::<Option<(Seq<char>, BV)>, ActionErrorType>(e.kind),
    decreases size(*v), 2nat,
{
    let is_and = str_eq(k, "AND");
    if is_and || str_eq(k, "OR") {
        return match v {
            Json::Array(items) if items.len() == 0 => Ok(None),
            Json::Array(_) => match compile_where_list(g, m, v) {
                Ok(docs) => Ok(Some((owned(if is_and { "$and" } else { "$or" }), Bson::Array(docs)))),
                Err(e) => Err(e),
            },
            _ => Err(ActionError::unexpected_input_type("array", k)),
        };
    }
    if str_eq(k, "NOT") {
        return match build_where_input(m, g, v) {
            Ok(d) => {
                let mut list: Vec<Bson> = Vec::new();
                proof {
                    lemma_items_push(list@, d);
                }
                list.push(d);
                proof {
                    assert(bview_items(list@) =~= seq![bview(list@[0])]);
                }
                Ok(Some((owned("$nor"), Bson::Array(list))))
            },
            Err(e) => Err(e),
        };
    }
    if !m.queryable(k) {
        return Err(ActionError::unexpected_input_key(k, ""));
    }
    match m.field(k) {
        Some(f) => match parse_bson_where_entry(g, &f.field_type, v) {
            Ok(b) => Ok(Some((f.column_name.clone(), b))),
            Err(e) => Err(e),
        },
        None => match m.relation(k) {
            Some(_) => match one_length_json_obj(v) {
                Ok((cmd, _)) => match relation_size_of(cmd) {
                    Some(n) => Ok(Some((owned(k), single("$size", Bson::Int32(n))))),
                    None => Err(ActionError::unexpected_input_key(cmd, k)),
                },
                Err(e) => Err(e),
            },
            None => Err(ActionError::unexpected_input_key(k, "")),
        },
    }
}

/// Compiles a `where` object into the body of a `$match` stage. Logical keys
/// `AND`, `OR` and `NOT` nest, and an empty `AND` or `OR` list adds nothing; a field key compiles against the field's type and
/// binds to its column name; a relation key tests the size of the related rows
/// that the prediction lookup joined.
pub fn build_where_input(m: &Model, g: &Graph, w: &Json) -> (r: Result<Bson, ActionError>)
    ensures
        r matches Ok(b) ==> where_spec(*g, *m, *w) == Ok::<Seq<(Seq<char>, BV)>, ActionErrorType>(b@->Doc_0) && b@ is Doc,
        r matches Err(e) ==> where_spec(*g, *m, *w) == Err::<Seq<(Seq<char>, BV)>, ActionErrorType>(e.kind),
    decreases size(*w), 1nat,
{
    let entries = match w {
        Json::Object(entries) => entries,
        _ => { return Err(ActionError::invalid_query_input("'where' should be an object.")); },
    };
    let mut out: Entries = Vec::new();
    let mut i: usize = 0;
    while i < entries.len()
        invariant
            *w == Json::Object(*entries),
            i <= entries@.len(),
            where_entries_spec(*g, *m, entries@.take(i as int)) == Ok::<Seq<(Seq<char>, BV)>, ActionErrorType>(bview_entries(out@)),
        decreases entries.len() - i,
    {
        proof {
            assert(entries@.take(i as int + 1).drop_last() =~= entries@.take(i as int));
            assert(entries@.take(i as int + 1).last() == entries@[i as int]);
            lemma_entry_smaller(entries@, i as int);
        }
        match compile_where_step(g, m, entries[i].0.as_str(), &entries[i].1) {
            Ok(Some(e)) => {
                insert(&mut out, e.0, e.1);
            },
            Ok(None) => {},
            Err(e) => {
                proof {
                    lemma_where_entries_fails(*g, *m, entries@, i as int + 1);
                }
                return Err(e);
            },
        }
        i = i + 1;
    }
    assert(entries@.take(i as int) =~= entries@);
    Ok(Bson::Doc(out))
}

fn compile_where_list(g: &Graph, m: &Model, v: &Json) -> (r: Result<Vec<Bson>, ActionError>)
    requires
        v is Array,
    ensures
        r matches Ok(docs) ==> where_list_spec(*g, *m, v->Array_0@) == Ok::<Seq<BV>, ActionErrorType>(bview_items(docs@)),
        r matches Err(e) ==> where_list_spec(*g, *m, v->Array_0@) == Err::<Seq<BV>, ActionErrorType>(e.kind),
    decreases size(*v), 0nat,
{
    let items = match v {
        Json::Array(items) => items,
        _ => { return Err(ActionError::unexpected_input_type("array", "")); },
    };
    let mut out: Vec<Bson> = Vec::new();
    let mut i: usize = 0;
    while i < items.len()
        invariant
            *v == Json::Array(*items),
            i <= items@.len(),
            where_list_spec(*g, *m, items@.take(i as int)) == Ok::<Seq<BV>, ActionErrorType>(bview_items(out@)),
        decreases items.len() - i,
    {
        proof {
            assert(items@.take(i as int + 1).drop_last() =~= items@.take(i as int));
            assert(items@.take(i as int + 1).last() == items@[i as int]);
            lemma_item_smaller(items@, i as int);
        }
        match build_where_input(m, g, &items[i]) {
            Ok(d) => {
                proof {
                    lemma_items_push(out@, d);
                }
                out.push(d);
            },
            Err(e) => {
                proof {
                    lemma_where_list_fails(*g, *m, items@, i as int + 1);
                }
                return Err(e);
            },
        }
        i = i + 1;
    }
    assert(items@.take(i as int) =~= items@);
    Ok(out)
}

proof fn lemma_where_entries_fails(g: Graph, m: Model, entries: Seq<(String, Json)>, n: int)
    requires
        0 < n <= entries.len(),
        where_entries_spec(g, m, entries.take(n)) is Err,
    ensures
        where_entries_spec(g, m, entries) == where_entries_spec(g, m, entries.take(n)),
    decreases entries.len(),
{
    if n < entries.len() {
        assert(entries.drop_last().take(n) =~= entries.take(n));
        lemma_where_entries_fails(g, m, entries.drop_last(), n);
    } else {
        assert(entries.take(n) =~= entries);
    }
}

proof fn lemma_where_list_fails(g: Graph, m: Model, items: Seq<Json>, n: int)
    requires
        0 < n <= items.len(),
        where_list_spec(g, m, items.take(n)) is Err,
    ensures
        where_list_spec(g, m, items) == where_list_spec(g, m, items.take(n)),
    decreases items.len(),
{
    if n < items.len() {
        assert(items.drop_last().take(n) =~= items.take(n));
        lemma_where_list_fails(g, m, items.drop_last(), n);
    } else {
        assert(items.take(n) =~= items);
    }
}

} // verus!

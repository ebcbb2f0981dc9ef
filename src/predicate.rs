//! Compiles the value given for one field in a `where` into a backend predicate.

use vstd::prelude::*;

use crate::action_error::{ActionError, ActionErrorType};
use crate::bson::{Bson, BV, Entries, bview, bview_items, insert, lemma_items_push, single, vinsert};
use crate::json::{Json, Number, copy_number, lemma_entry_smaller, lemma_item_smaller, size};
use crate::outside::{
    decimal_text, escape_regex, is_object_id_text, lower_hex_digit, object_id_hex, parse_date,
    parse_datetime_millis, parse_decimal, parsed_date, regex_escaped, rfc3339_millis,
};
use crate::schema::{FieldType, Graph, enum_has};
use crate::text::{concat, owned, str_eq};
use crate::outside::{day_start, day_start_millis};

verus! {

/// The outcome of compiling: a backend value, or the kind of error.
pub type Compiled = Result<BV, ActionErrorType>;

/// Whether an executable result agrees with a compiled outcome.
pub open spec fn agrees(r: Result<Bson, ActionError>, c: Compiled) -> bool {
    match r {
        Ok(b) => c == Ok::<BV, ActionErrorType>(bview(b)),
        Err(e) => c == Err::<BV, ActionErrorType>(e.kind),
    }
}

/// A bare literal given for a field of type `ft`.
pub open spec fn scalar_spec(enums: Seq<(String, Vec<String>)>, ft: FieldType, j: Json) -> Compiled {
    match ft {
        FieldType::ObjectId => match j {
            Json::Str(s) => if is_object_id_text(s@) {
                Ok(BV::ObjectId(s@.map_values(|c: char| lower_hex_digit(c))))
            } else {
                Err(ActionErrorType::UnexpectedInputValue)
            },
            _ => Err(ActionErrorType::UnexpectedInputType),
        },
        FieldType::Bool => match j {
            Json::Bool(b) => Ok(BV::Bool(b)),
            _ => Err(ActionErrorType::UnexpectedInputType),
        },
        FieldType::I8 | FieldType::I16 | FieldType::I32 | FieldType::I64 | FieldType::I128
        | FieldType::U8 | FieldType::U16 | FieldType::U32 | FieldType::U64 | FieldType::U128 => match j {
            Json::Number(Number::Int(n)) => Ok(BV::Int64(n)),
            Json::Number(Number::UInt(_)) => Err(ActionErrorType::UnexpectedInputValue),
            _ => Err(ActionErrorType::UnexpectedInputType),
        },
        FieldType::F32 | FieldType::F64 => match j {
            Json::Number(n) => Ok(BV::Double(n)),
            _ => Err(ActionErrorType::UnexpectedInputType),
        },
        FieldType::Decimal => match j {
            Json::Str(s) => match decimal_text(s@) {
                Some(t) => Ok(BV::Decimal(t)),
                None => Err(ActionErrorType::UnexpectedInputValue),
            },
            _ => Err(ActionErrorType::UnexpectedInputType),
        },
        FieldType::String => match j {
            Json::Str(s) => Ok(BV::Str(s@)),
            _ => Err(ActionErrorType::UnexpectedInputType),
        },
        FieldType::Date => match j {
            Json::Str(s) => match parsed_date(s@) {
                Some((y, m, d)) => Ok(BV::DateTime(day_start_millis(y, m, d) as i64)),
                None => Err(ActionErrorType::UnexpectedInputValue),
            },
            _ => Err(ActionErrorType::UnexpectedInputType),
        },
        FieldType::DateTime => match j {
            Json::Str(s) => match rfc3339_millis(s@) {
                Some(ms) => Ok(BV::DateTime(ms as i64)),
                None => Err(ActionErrorType::UnexpectedInputValue),
            },
            _ => Err(ActionErrorType::UnexpectedInputType),
        },
        FieldType::Enum(name) => match j {
            Json::Str(s) => if enum_has(enums, name@, s@) {
                Ok(BV::Str(s@))
            } else {
                Err(ActionErrorType::UnexpectedInputValue)
            },
            _ => Err(ActionErrorType::UnexpectedInputType),
        },
        _ => Err(ActionErrorType::InvalidQueryInput),
    }
}

/// Literals of a list, each compiled as `scalar_spec` does; the first error wins.
pub open spec fn list_spec(enums: Seq<(String, Vec<String>)>, ft: FieldType, items: Seq<Json>) -> Result<Seq<BV>, ActionErrorType>
    decreases items.len(),
{
    if items.len() == 0 {
        Ok(Seq::empty())
    } else {
        match list_spec(enums, ft, items.drop_last()) {
            Err(e) => Err(e),
            Ok(s) => match scalar_spec(enums, ft, items.last()) {
                Err(e) => Err(e),
                Ok(b) => Ok(s.push(b)),
            },
        }
    }
}

/// The operators of each field family.
pub open spec fn is_ordered(ft: FieldType) -> bool {
    ft.is_int() || ft.is_float() || ft is ObjectId || ft is Decimal || ft is String || ft is Date || ft is DateTime
}

/// The backend key of a comparison operator.
pub open spec fn comparison_key(op: Seq<char>) -> Option<Seq<char>> {
    if op == "equals"@ {
        Some("$eq"@)
    } else if op == "not"@ {
        Some("$ne"@)
    } else if op == "gt"@ {
        Some("$gt"@)
    } else if op == "gte"@ {
        Some("$gte"@)
    } else if op == "lt"@ {
        Some("$lt"@)
    } else if op == "lte"@ {
        Some("$lte"@)
    } else {
        None
    }
}

/// Whether a comparison operator applies to the family of `ft`.
pub open spec fn comparison_allowed(ft: FieldType, op: Seq<char>) -> bool {
    op == "equals"@ || op == "not"@ || is_ordered(ft)
}

/// Whether a string-pattern operator applies: `contains`, `startsWith`, `endsWith`, `matches`.
pub open spec fn pattern_of(op: Seq<char>, s: Seq<char>) -> Option<Seq<char>> {
    if op == "contains"@ {
        Some(regex_escaped(s))
    } else if op == "startsWith"@ {
        Some(seq!['^'] + regex_escaped(s))
    } else if op == "endsWith"@ {
        Some(regex_escaped(s) + seq!['$'])
    } else if op == "matches"@ {
        Some(s)
    } else {
        None
    }
}

pub open spec fn is_pattern_op(op: Seq<char>) -> bool {
    op == "contains"@ || op == "startsWith"@ || op == "endsWith"@ || op == "matches"@
}

/// One operator entry: the backend entry it adds, `None` for `mode`, or an error.
pub open spec fn op_step(
    enums: Seq<(String, Vec<String>)>,
    ft: FieldType,
    insensitive: bool,
    op: Seq<char>,
    v: Json,
) -> Result<Option<(Seq<char>, BV)>, ActionErrorType> {
    if comparison_key(op) is Some && comparison_allowed(ft, op) {
        match scalar_spec(enums, ft, v) {
            Ok(b) => Ok(Some((comparison_key(op)->0, b))),
            Err(e) => Err(e),
        }
    } else if (op == "in"@ || op == "notIn"@) && (is_ordered(ft) || ft is Enum) {
        match v {
            Json::Array(items) => match list_spec(enums, ft, items@) {
                Ok(s) => Ok(Some((if op == "in"@ { "$in"@ } else { "$nin"@ }, BV::Array(s)))),
                Err(e) => Err(e),
            },
            _ => Err(ActionErrorType::UnexpectedInputType),
        }
    } else if is_pattern_op(op) && ft is String {
        match v {
            Json::Str(s) => Ok(Some(("$regex"@, BV::Regex(pattern_of(op, s@)->0, if insensitive { "i"@ } else { ""@ })))),
            _ => Err(ActionErrorType::UnexpectedInputType),
        }
    } else if op == "mode"@ && ft is String {
        Ok(None)
    } else {
        Err(ActionErrorType::UnexpectedInputKey)
    }
}

/// An operator object, entry by entry; each entry is inserted into the document
/// that the entries before it gave.
pub open spec fn ops_spec(
    enums: Seq<(String, Vec<String>)>,
    ft: FieldType,
    insensitive: bool,
    entries: Seq<(String, Json)>,
) -> Result<Seq<(Seq<char>, BV)>, ActionErrorType>
    decreases entries.len(),
{
    if entries.len() == 0 {
        Ok(Seq::empty())
    } else {
        match ops_spec(enums, ft, insensitive, entries.drop_last()) {
            Err(e) => Err(e),
            Ok(d) => match op_step(enums, ft, insensitive, entries.last().0@, entries.last().1) {
                Err(e) => Err(e),
                Ok(None) => Ok(d),
                Ok(Some((k, b))) => Ok(vinsert(d, k, b)),
            },
        }
    }
}

/// Whether an operator object asks for case-insensitive patterns.
pub open spec fn is_insensitive(j: Json) -> bool {
    j.member("mode"@) matches Some(Json::Str(s)) && s@ == "caseInsensitive"@
}

/// The predicate for the value `j` given for a field of type `ft`: a bare literal
/// compares for equality, an object holds operators.
pub open spec fn entry_spec(enums: Seq<(String, Vec<String>)>, ft: FieldType, j: Json) -> Compiled
    decreases j, 1nat,
{
    match ft {
        FieldType::Vec(inner) => seq_spec(enums, *inner, j),
        _ => match j {
            Json::Object(entries) => match ops_spec(enums, ft, is_insensitive(j), entries@) {
                Ok(d) => Ok(BV::Doc(d)),
                Err(e) => Err(e),
            },
            _ => scalar_spec(enums, ft, j),
        },
    }
}

/// Values of a list, each compiled as `entry_spec` does; the first error wins.
pub open spec fn entry_list_spec(enums: Seq<(String, Vec<String>)>, ft: FieldType, items: Seq<Json>) -> Result<Seq<BV>, ActionErrorType>
    decreases items, 0nat,
{
    if items.len() == 0 {
        Ok(Seq::empty())
    } else {
        match entry_list_spec(enums, ft, items.drop_last()) {
            Err(e) => Err(e),
            Ok(s) => match entry_spec(enums, ft, items.last()) {
                Err(e) => Err(e),
                Ok(b) => Ok(s.push(b)),
            },
        }
    }
}

/// The predicate on a sequence field whose elements have type `inner`.
pub open spec fn seq_spec(enums: Seq<(String, Vec<String>)>, inner: FieldType, j: Json) -> Compiled
    decreases j, 0nat,
{
    match j {
        Json::Object(entries) => if entries@.len() != 1 {
            Err(ActionErrorType::UnexpectedObjectLength)
        } else {
            let cmd = entries@[0].0@;
            let m = entries@[0].1;
            if cmd == "has"@ {
                match entry_spec(enums, inner, m) {
                    Ok(BV::Doc(d)) => Ok(BV::Doc(seq![("$elemMatch"@, BV::Doc(d))])),
                    other => other,
                }
            } else if cmd == "hasEvery"@ || cmd == "hasSome"@ || cmd == "equals"@ {
                match m {
                    Json::Array(items) => match entry_list_spec(enums, inner, items@) {
                        Ok(s) => Ok(BV::Doc(seq![(
                            if cmd == "hasEvery"@ { "$all"@ } else if cmd == "hasSome"@ { "$in"@ } else { "$eq"@ },
                            BV::Array(s),
                        )])),
                        Err(e) => Err(e),
                    },
                    _ => Err(ActionErrorType::UnexpectedInputType),
                }
            } else if cmd == "isEmpty"@ {
                if m == Json::Bool(true) {
                    Ok(BV::Doc(seq![("$size"@, BV::Int32(0))]))
                } else {
                    Ok(BV::Doc(Seq::empty()))
                }
            } else if cmd == "length"@ {
                match scalar_spec(enums, FieldType::U64, m) {
                    Ok(b) => Ok(BV::Doc(seq![("$size"@, b)])),
                    Err(e) => Err(e),
                }
            } else {
                Err(ActionErrorType::UnexpectedInputKey)
            }
        },
        _ => Err(ActionErrorType::UnexpectedInputType),
    }
}

fn type_error(expected: &str) -> (r: ActionError)
    ensures
        r.kind == ActionErrorType::UnexpectedInputType,
{
    ActionError::unexpected_input_type(expected, "")
}

fn value_error(expected: &str) -> (r: ActionError)
    ensures
        r.kind == ActionErrorType::UnexpectedInputValue,
{
    ActionError::unexpected_input_value(expected, "")
}


/// Compiles a bare literal for a field of type `ft`.
pub fn parse_scalar(graph: &Graph, ft: &FieldType, j: &Json) -> (r: Result<Bson, ActionError>)
    ensures
        agrees(r, scalar_spec(graph.enums@, *ft, *j)),
{
    match ft {
        FieldType::ObjectId => match j {
            Json::Str(s) => match object_id_hex(s.as_str()) {
                Some(h) => Ok(Bson::ObjectId(h)),
                None => Err(value_error("object id")),
            },
            _ => Err(type_error("string")),
        },
        FieldType::Bool => match j {
            Json::Bool(b) => Ok(Bson::Bool(*b)),
            _ => Err(type_error("bool")),
        },
        FieldType::I8 | FieldType::I16 | FieldType::I32 | FieldType::I64 | FieldType::I128
        | FieldType::U8 | FieldType::U16 | FieldType::U32 | FieldType::U64 | FieldType::U128 => match j {
            Json::Number(Number::Int(n)) => Ok(Bson::Int64(*n)),
            Json::Number(Number::UInt(_)) => Err(value_error("an integer within 64 bits")),
            _ => Err(type_error("integer")),
        },
        FieldType::F32 | FieldType::F64 => match j {
            Json::Number(n) => Ok(Bson::Double(copy_number(n))),
            _ => Err(type_error("number")),
        },
        FieldType::Decimal => match j {
            Json::Str(s) => match parse_decimal(s.as_str()) {
                Some(t) => Ok(Bson::Decimal(t)),
                None => Err(value_error("decimal")),
            },
            _ => Err(type_error("string")),
        },
        FieldType::String => match j {
            Json::Str(s) => Ok(Bson::Str(s.clone())),
            _ => Err(type_error("string")),
        },
        FieldType::Date => match j {
            Json::Str(s) => match parse_date(s.as_str()) {
                Some((y, m, d)) => Ok(Bson::DateTime(day_start(y, m, d))),
                None => Err(value_error("date")),
            },
            _ => Err(type_error("string")),
        },
        FieldType::DateTime => match j {
            Json::Str(s) => match parse_datetime_millis(s.as_str()) {
                Some(ms) => Ok(Bson::DateTime(ms)),
                None => Err(value_error("datetime")),
            },
            _ => Err(type_error("string")),
        },
        FieldType::Enum(name) => match j {
            Json::Str(s) => if graph.enum_contains(name.as_str(), s.as_str()) {
                Ok(Bson::Str(s.clone()))
            } else {
                Err(value_error("enum member"))
            },
            _ => Err(type_error("string")),
        },
        _ => Err(ActionError::invalid_query_input("This field cannot be filtered by value.")),
    }
}

/// Compiles a list of literals for a field of type `ft`.
fn parse_list(graph: &Graph, ft: &FieldType, items: &Vec<Json>) -> (r: Result<Vec<Bson>, ActionError>)
    ensures
        r matches Ok(v) ==> list_spec(graph.enums@, *ft, items@) == Ok::<Seq<BV>, ActionErrorType>(bview_items(v@)),
        r matches Err(e) ==> list_spec(graph.enums@, *ft, items@) == Err::<Seq<BV>, ActionErrorType>(e.kind),
{
    let mut out: Vec<Bson> = Vec::new();
    let mut i: usize = 0;
    while i < items.len()
        invariant
            i <= items@.len(),
            list_spec(graph.enums@, *ft, items@.take(i as int)) == Ok::<Seq<BV>, ActionErrorType>(bview_items(out@)),
        decreases items.len() - i,
    {
        proof {
            assert(items@.take(i as int + 1).drop_last() =~= items@.take(i as int));
        }
        match parse_scalar(graph, ft, &items[i]) {
            Ok(b) => {
                proof {
                    lemma_items_push(out@, b);
                }
                out.push(b);
            },
            Err(e) => {
                proof {
                    assert(items@.take(i as int + 1).last() == items@[i as int]);
                    lemma_list_fails(graph.enums@, *ft, items@, i as int + 1);
                }
                return Err(e);
            },
        }
        i = i + 1;
    }
    assert(items@.take(i as int) =~= items@);
    Ok(out)
}

proof fn lemma_list_fails(enums: Seq<(String, Vec<String>)>, ft: FieldType, items: Seq<Json>, n: int)
    requires
        0 < n <= items.len(),
        list_spec(enums, ft, items.take(n)) is Err,
    ensures
        list_spec(enums, ft, items) == list_spec(enums, ft, items.take(n)),
    decreases items.len(),
{
    if n < items.len() {
        assert(items.drop_last().take(n) =~= items.take(n));
        lemma_list_fails(enums, ft, items.drop_last(), n);
    } else {
        assert(items.take(n) =~= items);
    }
}

fn is_ordered_type(ft: &FieldType) -> (r: bool)
    ensures
        r == is_ordered(*ft),
{
    match ft {
        FieldType::I8 | FieldType::I16 | FieldType::I32 | FieldType::I64 | FieldType::I128
        | FieldType::U8 | FieldType::U16 | FieldType::U32 | FieldType::U64 | FieldType::U128
        | FieldType::F32 | FieldType::F64 | FieldType::ObjectId | FieldType::Decimal | FieldType::String
        | FieldType::Date | FieldType::DateTime => true,
        _ => false,
    }
}

fn comparison_key_of(op: &str) -> (r: Option<&'static str>)
    ensures
        r matches Some(k) ==> comparison_key(op@) == Some(k@),
        r is None ==> comparison_key(op@) is None,
{
    if str_eq(op, "equals") {
        Some("$eq")
    } else if str_eq(op, "not") {
        Some("$ne")
    } else if str_eq(op, "gt") {
        Some("$gt")
    } else if str_eq(op, "gte") {
        Some("$gte")
    } else if str_eq(op, "lt") {
        Some("$lt")
    } else if str_eq(op, "lte") {
        Some("$lte")
    } else {
        None
    }
}

/// Whether the operator object `j` asks for case-insensitive patterns.
fn insensitive_mode(j: &Json) -> (r: bool)
    ensures
        r == is_insensitive(*j),
{
    match j.get("mode") {
        Some(Json::Str(s)) => str_eq(s.as_str(), "caseInsensitive"),
        _ => false,
    }
}

/// Compiles one operator entry.
pub(crate) fn compile_op(graph: &Graph, ft: &FieldType, insensitive: bool, op: &str, v: &Json) -> (r: Result<Option<(String, Bson)>, ActionError>)
    ensures
        r matches Ok(None) ==> op_step(graph.enums@, *ft, insensitive, op@, *v) == Ok::<Option<(Seq<char>, BV)>, ActionErrorType>(None),
        r matches Ok(Some(e)) ==> op_step(graph.enums@, *ft, insensitive, op@, *v) == Ok::<Option<(Seq<char>, BV)>, ActionErrorType>(Some((e.0@, bview(e.1)))),
        r matches Err(e) ==> op_step(graph.enums@, *ft, insensitive, op@, *v) == Err::<Option<(Seq<char>, BV)>, ActionErrorType>(e.kind),
{
    let ck = comparison_key_of(op);
    let eq_or_not = str_eq(op, "equals") || str_eq(op, "not");
    if ck.is_some() && (eq_or_not || is_ordered_type(ft)) {
        let key = ck.unwrap();
        return match parse_scalar(graph, ft, v) {
            Ok(b) => Ok(Some((owned(key), b))),
            Err(e) => Err(e),
        };
    }
    let is_in = str_eq(op, "in");
    let is_enum = match ft {
        FieldType::Enum(_) => true,
        _ => false,
    };
    if (is_in || str_eq(op, "notIn")) && (is_ordered_type(ft) || is_enum) {
        return match v {
            Json::Array(items) => match parse_list(graph, ft, items) {
                Ok(list) => Ok(Some((owned(if is_in { "$in" } else { "$nin" }), Bson::Array(list)))),
                Err(e) => Err(e),
            },
            _ => Err(type_error("array")),
        };
    }
    let is_string = match ft {
        FieldType::String => true,
        _ => false,
    };
    let contains = str_eq(op, "contains");
    let starts = str_eq(op, "startsWith");
    let ends = str_eq(op, "endsWith");
    let matches = str_eq(op, "matches");
    if (contains || starts || ends || matches) && is_string {
        return match v {
            Json::Str(s) => {
                let pattern = if contains {
                    escape_regex(s.as_str())
                } else if starts {
                    concat("^", escape_regex(s.as_str()).as_str())
                } else if ends {
                    concat(escape_regex(s.as_str()).as_str(), "$")
                } else {
                    s.clone()
                };
                proof {
                    reveal_strlit("^");
                    reveal_strlit("$");
                    assert(pattern_of(op@, s@)->0 == pattern@);
                }
                let options = owned(if insensitive { "i" } else { "" });
                Ok(Some((owned("$regex"), Bson::Regex(pattern, options))))
            },
            _ => Err(type_error("string")),
        };
    }
    if str_eq(op, "mode") && is_string {
        return Ok(None);
    }
    Err(ActionError::unexpected_input_key(op, ""))
}

/// Compiles an operator object for a field of scalar type `ft`.
fn compile_ops(graph: &Graph, ft: &FieldType, j: &Json) -> (r: Result<Bson, ActionError>)
    requires
        j is Object,
    ensures
        agrees(r, match ops_spec(graph.enums@, *ft, is_insensitive(*j), j.entries()) {
            Ok(d) => Ok(BV::Doc(d)),
            Err(e) => Err(e),
        }),
{
    let insensitive = insensitive_mode(j);
    let entries = match j {
        Json::Object(entries) => entries,
        _ => { return Err(type_error("object")); },
    };
    let mut out: Entries = Vec::new();
    let mut i: usize = 0;
    while i < entries.len()
        invariant
            j.entries() == entries@,
            insensitive == is_insensitive(*j),
            i <= entries@.len(),
            ops_spec(graph.enums@, *ft, insensitive, entries@.take(i as int)) == Ok::<Seq<(Seq<char>, BV)>, ActionErrorType>(crate::bson::bview_entries(out@)),
        decreases entries.len() - i,
    {
        proof {
            assert(entries@.take(i as int + 1).drop_last() =~= entries@.take(i as int));
        }
        match compile_op(graph, ft, insensitive, entries[i].0.as_str(), &entries[i].1) {
            Ok(Some(e)) => {
                insert(&mut out, e.0, e.1);
            },
            Ok(None) => {},
            Err(e) => {
                proof {
                    assert(entries@.take(i as int + 1).last() == entries@[i as int]);
                    assert(ops_spec(graph.enums@, *ft, insensitive, entries@.take(i as int + 1)) == Err::<Seq<(Seq<char>, BV)>, ActionErrorType>(e.kind));
                    lemma_ops_fails(graph.enums@, *ft, insensitive, entries@, i as int + 1);
                }
                return Err(e);
            },
        }
        i = i + 1;
    }
    assert(entries@.take(i as int) =~= entries@);
    Ok(Bson::Doc(out))
}

proof fn lemma_ops_fails(enums: Seq<(String, Vec<String>)>, ft: FieldType, insensitive: bool, entries: Seq<(String, Json)>, n: int)
    requires
        0 < n <= entries.len(),
        ops_spec(enums, ft, insensitive, entries.take(n)) is Err,
    ensures
        ops_spec(enums, ft, insensitive, entries) == ops_spec(enums, ft, insensitive, entries.take(n)),
    decreases entries.len(),
{
    if n < entries.len() {
        assert(entries.drop_last().take(n) =~= entries.take(n));
        lemma_ops_fails(enums, ft, insensitive, entries.drop_last(), n);
    } else {
        assert(entries.take(n) =~= entries);
    }
}

/// Compiles the value `j` given in a `where` for a field of type `ft`: a bare
/// literal means equality, an object holds operators, and a sequence field takes
/// one of `has`, `hasEvery`, `hasSome`, `isEmpty`, `length`, `equals`.
pub fn parse_bson_where_entry(graph: &Graph, ft: &FieldType, j: &Json) -> (r: Result<Bson, ActionError>)
    ensures
        agrees(r, entry_spec(graph.enums@, *ft, *j)),
    decreases size(*j), 2nat,
{
    match ft {
        FieldType::Vec(inner) => compile_seq(graph, inner, j),
        _ => match j {
            Json::Object(_) => compile_ops(graph, ft, j),
            _ => parse_scalar(graph, ft, j),
        },
    }
}

/// Compiles the predicate on a sequence field whose elements have type `inner`.
fn compile_seq(graph: &Graph, inner: &FieldType, j: &Json) -> (r: Result<Bson, ActionError>)
    ensures
        agrees(r, seq_spec(graph.enums@, *inner, *j)),
    decreases size(*j), 1nat,
{
    let entries = match j {
        Json::Object(entries) => entries,
        _ => { return Err(type_error("object")); },
    };
    if entries.len() != 1 {
        return Err(ActionError::unexpected_object_length("1", ""));
    }
    let cmd = entries[0].0.as_str();
    let m = &entries[0].1;
    proof {
        lemma_entry_smaller(entries@, 0);
    }
    if str_eq(cmd, "has") {
        let r = parse_bson_where_entry(graph, inner, m);
        return match r {
            Ok(Bson::Doc(d)) => Ok(single("$elemMatch", Bson::Doc(d))),
            other => other,
        };
    }
    let every = str_eq(cmd, "hasEvery");
    let some = str_eq(cmd, "hasSome");
    if every || some || str_eq(cmd, "equals") {
        return match m {
            Json::Array(_) => match compile_list(graph, inner, m) {
                Ok(list) => Ok(single(if every { "$all" } else if some { "$in" } else { "$eq" }, Bson::Array(list))),
                Err(e) => Err(e),
            },
            _ => Err(type_error("array")),
        };
    }
    if str_eq(cmd, "isEmpty") {
        let empty = match m {
            Json::Bool(b) => *b,
            _ => false,
        };
        if empty {
            return Ok(single("$size", Bson::Int32(0)));
        } else {
            return Ok(Bson::Doc(Vec::new()));
        }
    }
    if str_eq(cmd, "length") {
        return match parse_scalar(graph, &FieldType::U64, m) {
            Ok(b) => Ok(single("$size", b)),
            Err(e) => Err(e),
        };
    }
    Err(ActionError::unexpected_input_key(cmd, ""))
}

/// Compiles each element of the array `m` as a value for a field of type `ft`.
fn compile_list(graph: &Graph, ft: &FieldType, m: &Json) -> (r: Result<Vec<Bson>, ActionError>)
    requires
        m is Array,
    ensures
        r matches Ok(v) ==> entry_list_spec(graph.enums@, *ft, m->Array_0@) == Ok::<Seq<BV>, ActionErrorType>(bview_items(v@)),
        r matches Err(e) ==> entry_list_spec(graph.enums@, *ft, m->Array_0@) == Err::<Seq<BV>, ActionErrorType>(e.kind),
    decreases size(*m), 0nat,
{
    let items = match m {
        Json::Array(items) => items,
        _ => { return Err(type_error("array")); },
    };
    let mut out: Vec<Bson> = Vec::new();
    let mut i: usize = 0;
    while i < items.len()
        invariant
            *m == Json::Array(*items),
            i <= items@.len(),
            entry_list_spec(graph.enums@, *ft, items@.take(i as int)) == Ok::<Seq<BV>, ActionErrorType>(bview_items(out@)),
        decreases items.len() - i,
    {
        proof {
            assert(items@.take(i as int + 1).drop_last() =~= items@.take(i as int));
            lemma_item_smaller(items@, i as int);
        }
        match parse_bson_where_entry(graph, ft, &items[i]) {
            Ok(b) => {
                proof {
                    lemma_items_push(out@, b);
                }
                out.push(b);
            },
            Err(e) => {
                proof {
                    assert(items@.take(i as int + 1).last() == items@[i as int]);
                    lemma_entry_list_fails(graph.enums@, *ft, items@, i as int + 1);
                }
                return Err(e);
            },
        }
        i = i + 1;
    }
    assert(items@.take(i as int) =~= items@);
    Ok(out)
}

proof fn lemma_entry_list_fails(enums: Seq<(String, Vec<String>)>, ft: FieldType, items: Seq<Json>, n: int)
    requires
        0 < n <= items.len(),
        entry_list_spec(enums, ft, items.take(n)) is Err,
    ensures
        entry_list_spec(enums, ft, items) == entry_list_spec(enums, ft, items.take(n)),
    decreases items.len(),
{
    if n < items.len() {
        assert(items.drop_last().take(n) =~= items.take(n));
        lemma_entry_list_fails(enums, ft, items.drop_last(), n);
    } else {
        assert(items.take(n) =~= items);
    }
}

} // verus!

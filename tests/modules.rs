use query_planner::action_error::{ActionError, ActionErrorType};
use query_planner::bson::Bson;
use query_planner::error;
use query_planner::input_decoder::{decode_field_input, AtomicUpdateType, Input};
use query_planner::json::{Json, Number};
use query_planner::model_builder::ModelBuilder;
use query_planner::predicate::parse_bson_where_entry;
use query_planner::schema::{
    Field, FieldIndex, FieldType, Graph, IndexSettings, ModelIndexType, Optionality, Relation, Sort, Store,
};
use query_planner::value::{Date, Value};

fn s(x: &str) -> Json {
    Json::Str(x.to_string())
}

fn num(n: i64) -> Json {
    Json::Number(Number::Int(n))
}

fn obj(entries: Vec<(&str, Json)>) -> Json {
    Json::Object(entries.into_iter().map(|(k, v)| (k.to_string(), v)).collect())
}

fn field(name: &str, ft: FieldType) -> Field {
    Field {
        name: name.to_string(),
        column_name: name.to_string(),
        field_type: ft,
        optionality: Optionality::Required,
        readable: true,
        writable: true,
        store: Store::Stored,
        queryable: true,
        primary: false,
        index: FieldIndex::NoIndex,
        auth_identity: false,
        auth_by: false,
    }
}

fn graph() -> Graph {
    Graph { models: vec![], enums: vec![("Role".to_string(), vec!["admin".to_string(), "user".to_string()])] }
}

fn doc(entries: Vec<(&str, Bson)>) -> Bson {
    Bson::Doc(entries.into_iter().map(|(k, v)| (k.to_string(), v)).collect())
}

#[test]
fn contains_escapes_meta_characters() {
    let r = parse_bson_where_entry(&graph(), &FieldType::String, &obj(vec![("contains", s("a.b"))])).unwrap();
    assert_eq!(r, doc(vec![("$regex", Bson::Regex("a\\.b".to_string(), String::new()))]));
}

#[test]
fn starts_and_ends_with_anchor_the_pattern() {
    let g = graph();
    let r = parse_bson_where_entry(&g, &FieldType::String, &obj(vec![("startsWith", s("x+"))])).unwrap();
    assert_eq!(r, doc(vec![("$regex", Bson::Regex("^x\\+".to_string(), String::new()))]));
    let r = parse_bson_where_entry(&g, &FieldType::String, &obj(vec![("endsWith", s("y"))])).unwrap();
    assert_eq!(r, doc(vec![("$regex", Bson::Regex("y$".to_string(), String::new()))]));
    let r = parse_bson_where_entry(&g, &FieldType::String, &obj(vec![("matches", s("^a.*"))])).unwrap();
    assert_eq!(r, doc(vec![("$regex", Bson::Regex("^a.*".to_string(), String::new()))]));
}

#[test]
fn object_id_is_lower_cased() {
    let r = parse_bson_where_entry(&graph(), &FieldType::ObjectId, &s("65A1B2C3D4E5F60718293A4B")).unwrap();
    assert_eq!(r, Bson::ObjectId("65a1b2c3d4e5f60718293a4b".to_string()));
}

#[test]
fn bad_object_id_is_a_value_error() {
    let e = parse_bson_where_entry(&graph(), &FieldType::ObjectId, &s("xyz")).unwrap_err();
    assert_eq!(e.kind, ActionErrorType::UnexpectedInputValue);
}

#[test]
fn date_is_midnight_utc() {
    let r = parse_bson_where_entry(&graph(), &FieldType::Date, &s("2000-03-01")).unwrap();
    assert_eq!(r, Bson::DateTime(951868800000));
    let r = parse_bson_where_entry(&graph(), &FieldType::Date, &s("1969-12-31")).unwrap();
    assert_eq!(r, Bson::DateTime(-86400000));
}

#[test]
fn bad_date_is_a_value_error() {
    let e = parse_bson_where_entry(&graph(), &FieldType::Date, &s("2000-02-30")).unwrap_err();
    assert_eq!(e.kind, ActionErrorType::UnexpectedInputValue);
}

#[test]
fn datetime_is_converted_to_utc() {
    let r = parse_bson_where_entry(&graph(), &FieldType::DateTime, &s("1970-01-01T01:00:00+01:00")).unwrap();
    assert_eq!(r, Bson::DateTime(0));
    let lt = parse_bson_where_entry(&graph(), &FieldType::DateTime, &obj(vec![("lt", s("1970-01-01T00:00:01Z"))])).unwrap();
    assert_eq!(lt, doc(vec![("$lt", Bson::DateTime(1000))]));
}

#[test]
fn decimal_is_canonical_text() {
    let r = parse_bson_where_entry(&graph(), &FieldType::Decimal, &s("1.50")).unwrap();
    assert_eq!(r, Bson::Decimal("1.50".to_string()));
    let e = parse_bson_where_entry(&graph(), &FieldType::Decimal, &s("abc")).unwrap_err();
    assert_eq!(e.kind, ActionErrorType::UnexpectedInputValue);
}

#[test]
fn enum_members_are_checked_one_by_one() {
    let g = graph();
    let ft = FieldType::Enum("Role".to_string());
    let r = parse_bson_where_entry(&g, &ft, &obj(vec![("in", Json::Array(vec![s("admin"), s("user")]))])).unwrap();
    assert_eq!(r, doc(vec![("$in", Bson::Array(vec![Bson::Str("admin".to_string()), Bson::Str("user".to_string())]))]));
    let e = parse_bson_where_entry(&g, &ft, &obj(vec![("notIn", Json::Array(vec![s("admin"), s("root")]))])).unwrap_err();
    assert_eq!(e.kind, ActionErrorType::UnexpectedInputValue);
}

#[test]
fn enum_takes_no_ordering() {
    let e = parse_bson_where_entry(&graph(), &FieldType::Enum("Role".to_string()), &obj(vec![("gt", s("admin"))])).unwrap_err();
    assert_eq!(e.kind, ActionErrorType::UnexpectedInputKey);
}

#[test]
fn bool_takes_equals_and_not() {
    let r = parse_bson_where_entry(&graph(), &FieldType::Bool, &obj(vec![("not", Json::Bool(true))])).unwrap();
    assert_eq!(r, doc(vec![("$ne", Bson::Bool(true))]));
}

#[test]
fn float_field_keeps_the_number() {
    let r = parse_bson_where_entry(&graph(), &FieldType::F64, &num(3)).unwrap();
    assert_eq!(r, Bson::Double(Number::Int(3)));
}

#[test]
fn sequence_operators() {
    let g = graph();
    let ft = FieldType::Vec(Box::new(FieldType::I32));
    let has = parse_bson_where_entry(&g, &ft, &obj(vec![("has", num(2))])).unwrap();
    assert_eq!(has, Bson::Int64(2));
    let has_op = parse_bson_where_entry(&g, &ft, &obj(vec![("has", obj(vec![("gt", num(2))]))])).unwrap();
    assert_eq!(has_op, doc(vec![("$elemMatch", doc(vec![("$gt", Bson::Int64(2))]))]));
    let every = parse_bson_where_entry(&g, &ft, &obj(vec![("hasEvery", Json::Array(vec![num(1), num(2)]))])).unwrap();
    assert_eq!(every, doc(vec![("$all", Bson::Array(vec![Bson::Int64(1), Bson::Int64(2)]))]));
    let some = parse_bson_where_entry(&g, &ft, &obj(vec![("hasSome", Json::Array(vec![num(1)]))])).unwrap();
    assert_eq!(some, doc(vec![("$in", Bson::Array(vec![Bson::Int64(1)]))]));
    let empty = parse_bson_where_entry(&g, &ft, &obj(vec![("isEmpty", Json::Bool(true))])).unwrap();
    assert_eq!(empty, doc(vec![("$size", Bson::Int32(0))]));
    let len = parse_bson_where_entry(&g, &ft, &obj(vec![("length", num(4))])).unwrap();
    assert_eq!(len, doc(vec![("$size", Bson::Int64(4))]));
    let eq = parse_bson_where_entry(&g, &ft, &obj(vec![("equals", Json::Array(vec![num(5)]))])).unwrap();
    assert_eq!(eq, doc(vec![("$eq", Bson::Array(vec![Bson::Int64(5)]))]));
}

#[test]
fn sequence_needs_one_operator() {
    let ft = FieldType::Vec(Box::new(FieldType::I32));
    let e = parse_bson_where_entry(&graph(), &ft, &obj(vec![("has", num(1)), ("isEmpty", Json::Bool(true))])).unwrap_err();
    assert_eq!(e.kind, ActionErrorType::UnexpectedObjectLength);
}

#[test]
fn decode_null_depends_on_optionality() {
    let g = graph();
    let mut f = field("n", FieldType::I32);
    assert_eq!(decode_field_input(&g, &f, &Json::Null, "n").unwrap_err().kind, ActionErrorType::UnexpectedNull);
    f.optionality = Optionality::Optional;
    assert_eq!(decode_field_input(&g, &f, &Json::Null, "n").unwrap(), Input::SetValue(Value::Null));
    assert_eq!(
        decode_field_input(&g, &f, &obj(vec![("set", Json::Null)]), "n").unwrap(),
        Input::SetValue(Value::Null)
    );
}

#[test]
fn decode_numbers_and_updates() {
    let g = graph();
    let f = field("n", FieldType::I8);
    assert_eq!(decode_field_input(&g, &f, &num(5), "n").unwrap(), Input::SetValue(Value::I8(5)));
    assert_eq!(decode_field_input(&g, &f, &num(300), "n").unwrap_err().kind, ActionErrorType::UnexpectedInputValue);
    assert_eq!(
        decode_field_input(&g, &f, &obj(vec![("increment", num(2))]), "n").unwrap(),
        Input::AtomicUpdate(AtomicUpdateType::Increment, Value::I8(2))
    );
    assert_eq!(
        decode_field_input(&g, &f, &obj(vec![("divide", num(2))]), "n").unwrap(),
        Input::AtomicUpdate(AtomicUpdateType::Divide, Value::I8(2))
    );
    assert_eq!(
        decode_field_input(&g, &f, &obj(vec![("power", num(2))]), "n").unwrap_err().kind,
        ActionErrorType::UnexpectedInputKey
    );
    assert_eq!(
        decode_field_input(&g, &f, &obj(vec![("set", num(1)), ("increment", num(1))]), "n").unwrap_err().kind,
        ActionErrorType::UnexpectedObjectLength
    );
}

#[test]
fn decode_strings_reject_updates() {
    let g = graph();
    let f = field("s", FieldType::String);
    assert_eq!(decode_field_input(&g, &f, &s("hi"), "s").unwrap(), Input::SetValue(Value::String("hi".to_string())));
    assert_eq!(
        decode_field_input(&g, &f, &obj(vec![("increment", s("x"))]), "s").unwrap_err().kind,
        ActionErrorType::UnexpectedInputKey
    );
    assert_eq!(decode_field_input(&g, &f, &num(1), "s").unwrap_err().kind, ActionErrorType::UnexpectedInputType);
}

#[test]
fn decode_enum_date_and_decimal() {
    let g = graph();
    let e = field("role", FieldType::Enum("Role".to_string()));
    assert_eq!(decode_field_input(&g, &e, &s("root"), "role").unwrap_err().kind, ActionErrorType::UnexpectedInputValue);
    let d = field("day", FieldType::Date);
    assert_eq!(
        decode_field_input(&g, &d, &s("2024-02-29"), "day").unwrap(),
        Input::SetValue(Value::Date(Date { year: 2024, month: 2, day: 29 }))
    );
    let dec = field("price", FieldType::Decimal);
    assert_eq!(decode_field_input(&g, &dec, &num(3), "price").unwrap_err().kind, ActionErrorType::UnexpectedInputType);
    assert_eq!(
        decode_field_input(&g, &dec, &s("3.10"), "price").unwrap(),
        Input::SetValue(Value::Decimal("3.10".to_string()))
    );
}

#[test]
fn decoded_literal_encodes_back() {
    let g = graph();
    let f = field("n", FieldType::I64);
    match decode_field_input(&g, &f, &num(-7), "n").unwrap() {
        Input::SetValue(v) => assert_eq!(v.to_bson_value().unwrap(), Bson::Int64(-7)),
        _ => panic!("set value"),
    }
    let t = field("t", FieldType::String);
    match decode_field_input(&g, &t, &s("abc"), "t").unwrap() {
        Input::SetValue(v) => assert_eq!(v.to_bson_value().unwrap(), Bson::Str("abc".to_string())),
        _ => panic!("set value"),
    }
}

#[test]
fn values_widen_for_the_backend() {
    assert_eq!(Value::I8(-3).to_bson_value().unwrap(), Bson::Int32(-3));
    assert_eq!(Value::U32(7).to_bson_value().unwrap(), Bson::Int64(7));
    assert_eq!(Value::I32(9).to_bson_value().unwrap(), Bson::Int32(9));
    assert_eq!(Value::Date(Date { year: 1970, month: 1, day: 2 }).to_bson_value().unwrap(), Bson::DateTime(86400000));
    assert_eq!(
        Value::Vec(vec![Value::Bool(true), Value::U8(1)]).to_bson_value().unwrap(),
        Bson::Array(vec![Bson::Bool(true), Bson::Int32(1)])
    );
    assert_eq!(
        Value::ObjectId("nope".to_string()).to_bson_value().unwrap_err().kind,
        ActionErrorType::UnexpectedInputValue
    );
}

#[test]
fn builder_derives_key_sets_and_names() {
    let mut b = ModelBuilder::new("BlogPost");
    let mut id = field("id", FieldType::I32);
    id.primary = true;
    let mut secret = field("secret", FieldType::String);
    secret.readable = false;
    secret.queryable = false;
    let mut slug = field("slug", FieldType::String);
    slug.index = FieldIndex::Unique(IndexSettings { name: None, sort: Sort::Asc, length: None });
    b.field(id).field(secret).field(slug).relation(Relation {
        name: "author".to_string(),
        model: "User".to_string(),
        fields: vec!["id".to_string()],
        references: vec!["postId".to_string()],
        through: None,
    });
    b.index(&vec!["slug".to_string(), "id".to_string()]);
    let m = b.build();
    assert_eq!(m.table_name, "blogposts");
    assert_eq!(m.url_segment_name, "blog-posts");
    assert_eq!(m.all_keys, vec!["id", "secret", "slug", "author"]);
    assert_eq!(m.output_keys, vec!["id", "slug", "author"]);
    assert_eq!(m.query_keys, vec!["id", "slug", "author"]);
    assert_eq!(m.indices.len(), 2);
    assert_eq!(m.indices[0].name, "slug_id");
    assert_eq!(m.indices[1].index_type, ModelIndexType::Unique);
    assert_eq!(m.unique_query_keys, vec![vec!["slug".to_string()], vec!["id".to_string()]]);
}

#[test]
fn builder_keeps_given_table_name() {
    let mut b = ModelBuilder::new("Person");
    b.table_name("people").description("d").localized_name("P").url_segment_name("ppl").identity().internal();
    b.primary(&vec!["id".to_string()]);
    let m = b.build();
    assert_eq!(m.table_name, "people");
    assert_eq!(m.url_segment_name, "ppl");
    assert!(m.identity);
    assert_eq!(m.unique_query_keys, vec![vec!["id".to_string()], vec!["id".to_string()]]);
}

#[test]
fn error_codes() {
    assert_eq!(ActionErrorType::FieldIsNotUnique.code(), 400);
    assert_eq!(ActionErrorType::ModelNotFound.code(), 500);
    assert_eq!(ActionErrorType::PermissionDenied.code(), 401);
    assert_eq!(ActionErrorType::NotFound.code(), 404);
    assert_eq!(error::ActionErrorType::KeysUnallowed.code(), 400);
    assert_eq!(error::ActionErrorType::InternalServerError.code(), 500);
}

#[test]
fn error_messages() {
    let e = ActionError::unexpected_input_key("x", "where.x");
    assert_eq!(e.kind, ActionErrorType::UnexpectedInputKey);
    assert_eq!(e.errors, Some(vec![("where.x".to_string(), "Unexpected key 'x'.".to_string())]));
    assert_eq!(ActionError::model_not_found("User").message, "Model named `User' is not found.");
    assert_eq!(ActionError::field_is_not_unique().message, "Unique where input is not unique.");
    assert_eq!(ActionError::invalid_key("k", "M").message, "Invalid key 'k' accessed on model `M'");
    let v = error::ActionError::invalid_input("age", "too small".to_string());
    assert_eq!(v.errors, Some(vec![("age".to_string(), "too small".to_string())]));
    assert_eq!(error::ActionError::wrong_date_format().message, "Date format is unexpected.");
}

#[test]
fn drop_table_statement() {
    let mut stmt = query_planner::sql::SQLDropTableStatement::new("users");
    assert_eq!(stmt.to_string(), "DROP TABLE `users`;");
    stmt.if_exists();
    assert_eq!(stmt.to_string(), "DROP TABLE IF EXISTS `users`;");
}

#[test]
fn decimal_text_is_normalised() {
    let r = parse_bson_where_entry(&graph(), &FieldType::Decimal, &s("007.50")).unwrap();
    assert_eq!(r, Bson::Decimal("7.50".to_string()));
}

#[test]
fn integers_outside_64_bits_are_rejected() {
    let e = parse_bson_where_entry(&graph(), &FieldType::U64, &Json::Number(Number::UInt(u64::MAX))).unwrap_err();
    assert_eq!(e.kind, ActionErrorType::UnexpectedInputValue);
    assert_eq!(Value::U64(u64::MAX).to_bson_value().unwrap_err().kind, ActionErrorType::UnexpectedInputValue);
    assert_eq!(Value::I128(i128::MAX).to_bson_value().unwrap_err().kind, ActionErrorType::UnexpectedInputValue);
}

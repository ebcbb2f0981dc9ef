use query_planner::action_error::ActionErrorType;
use query_planner::bson::Bson;
use query_planner::json::{Json, Number};
use query_planner::model_builder::ModelBuilder;
use query_planner::pipeline::{build_query_pipeline_from_json, QueryPipelineType};
use query_planner::schema::{Field, FieldIndex, FieldType, Graph, Model, Optionality, Relation, Store};

fn conv(v: &serde_json::Value) -> Json {
    match v {
        serde_json::Value::Null => Json::Null,
        serde_json::Value::Bool(b) => Json::Bool(*b),
        serde_json::Value::Number(n) => {
            if let Some(i) = n.as_i64() {
                Json::Number(Number::Int(i))
            } else if let Some(u) = n.as_u64() {
                Json::Number(Number::UInt(u))
            } else {
                Json::Number(Number::Float(n.as_f64().unwrap().to_bits()))
            }
        }
        serde_json::Value::String(s) => Json::Str(s.clone()),
        serde_json::Value::Array(a) => Json::Array(a.iter().map(conv).collect()),
        serde_json::Value::Object(o) => Json::Object(o.iter().map(|(k, v)| (k.clone(), conv(v))).collect()),
    }
}

fn j(text: &str) -> Json {
    conv(&serde_json::from_str(text).unwrap())
}

fn one(k: &str, v: serde_json::Value) -> serde_json::Value {
    let mut m = serde_json::Map::new();
    m.insert(k.to_string(), v);
    serde_json::Value::Object(m)
}

fn show(b: &Bson) -> serde_json::Value {
    match b {
        Bson::Null => serde_json::Value::Null,
        Bson::Bool(x) => serde_json::Value::Bool(*x),
        Bson::Int32(n) => serde_json::Value::from(*n),
        Bson::Int64(n) => serde_json::Value::from(*n),
        Bson::Double(Number::Int(n)) => serde_json::Value::from(*n as f64),
        Bson::Double(Number::UInt(n)) => serde_json::Value::from(*n as f64),
        Bson::Double(Number::Float(bits)) => serde_json::Value::from(f64::from_bits(*bits)),
        Bson::Str(s) => serde_json::Value::String(s.clone()),
        Bson::ObjectId(h) => one("$oid", serde_json::Value::String(h.clone())),
        Bson::DateTime(ms) => one("$date", serde_json::Value::from(*ms)),
        Bson::Regex(p, o) => {
            let mut m = serde_json::Map::new();
            m.insert("pattern".to_string(), serde_json::Value::String(p.clone()));
            m.insert("options".to_string(), serde_json::Value::String(o.clone()));
            serde_json::Value::Object(m)
        }
        Bson::Decimal(t) => one("$numberDecimal", serde_json::Value::String(t.clone())),
        Bson::Array(v) => serde_json::Value::Array(v.iter().map(show).collect()),
        Bson::Doc(d) => {
            let mut m = serde_json::Map::new();
            for (k, v) in d {
                m.insert(k.clone(), show(v));
            }
            serde_json::Value::Object(m)
        }
    }
}

fn expect(text: &str) -> serde_json::Value {
    serde_json::from_str(text).unwrap()
}

fn field(name: &str, ft: FieldType) -> Field {
    Field {
        name: name.to_string(),
        column_name: name.to_string(),
        field_type: ft,
        optionality: Optionality::Required,
        readable: true,
        writable: true,
        store: Store::Stored,
        queryable: true,
        primary: false,
        index: FieldIndex::NoIndex,
        auth_identity: false,
        auth_by: false,
    }
}

fn primary_field(name: &str, ft: FieldType) -> Field {
    let mut f = field(name, ft);
    f.primary = true;
    f
}

fn relation(name: &str, model: &str, fields: &[&str], references: &[&str], through: Option<&str>) -> Relation {
    Relation {
        name: name.to_string(),
        model: model.to_string(),
        fields: fields.iter().map(|s| s.to_string()).collect(),
        references: references.iter().map(|s| s.to_string()).collect(),
        through: through.map(|s| s.to_string()),
    }
}

fn user_model() -> Model {
    let mut b = ModelBuilder::new("User");
    b.field(primary_field("id", FieldType::I32))
        .field(field("name", FieldType::String))
        .field(field("age", FieldType::U32))
        .relation(relation("posts", "Post", &["id"], &["userId"], None));
    b.build()
}

fn post_model() -> Model {
    let mut b = ModelBuilder::new("Post");
    b.field(primary_field("id", FieldType::I32))
        .field(field("title", FieldType::String))
        .field(field("published", FieldType::Bool))
        .field(field("userId", FieldType::I32));
    b.build()
}

fn graph() -> Graph {
    Graph {
        models: vec![user_model(), post_model()],
        enums: vec![("Role".to_string(), vec!["admin".to_string(), "user".to_string()])],
    }
}

fn plan(q: &str) -> Vec<serde_json::Value> {
    let g = graph();
    let m = &g.models[0];
    build_query_pipeline_from_json(m, &g, QueryPipelineType::Many, false, &j(q)).unwrap().iter().map(show).collect()
}

fn plan_err(kind: QueryPipelineType, q: &str) -> ActionErrorType {
    let g = graph();
    let m = &g.models[0];
    build_query_pipeline_from_json(m, &g, kind, false, &j(q)).unwrap_err().kind
}

fn stage_names(stages: &[serde_json::Value]) -> Vec<String> {
    stages.iter().map(|s| s.as_object().unwrap().keys().next().unwrap().clone()).collect()
}

#[test]
fn scenario_where_gte() {
    assert_eq!(plan(r#"{"where": {"age": {"gte": 18}}}"#), vec![expect(r#"{"$match": {"age": {"$gte": 18}}}"#)]);
}

#[test]
fn scenario_contains_case_insensitive() {
    assert_eq!(
        plan(r#"{"where": {"name": {"contains": "an", "mode": "caseInsensitive"}}}"#),
        vec![expect(r#"{"$match": {"name": {"$regex": {"pattern": "an", "options": "i"}}}}"#)]
    );
}

#[test]
fn scenario_negative_take_reverses_sort() {
    assert_eq!(
        plan(r#"{"orderBy": {"age": "desc"}, "take": -5}"#),
        vec![expect(r#"{"$sort": {"age": 1}}"#), expect(r#"{"$limit": 5}"#)]
    );
}

#[test]
fn scenario_cursor() {
    assert_eq!(
        plan(r#"{"orderBy": {"id": "asc"}, "cursor": {"id": 100}, "take": 10}"#),
        vec![
            expect(r#"{"$match": {"id": {"$gte": 100}}}"#),
            expect(r#"{"$sort": {"id": 1}}"#),
            expect(r#"{"$limit": 10}"#)
        ]
    );
}

#[test]
fn cursor_with_negative_take_uses_lte() {
    assert_eq!(
        plan(r#"{"orderBy": {"id": "asc"}, "cursor": {"id": 100}, "take": -10}"#),
        vec![
            expect(r#"{"$match": {"id": {"$lte": 100}}}"#),
            expect(r#"{"$sort": {"id": -1}}"#),
            expect(r#"{"$limit": 10}"#)
        ]
    );
}

#[test]
fn cursor_joins_where_under_and() {
    assert_eq!(
        plan(r#"{"where": {"age": 3}, "orderBy": {"id": "desc"}, "cursor": {"id": 7}}"#),
        vec![
            expect(r#"{"$match": {"$and": [{"age": 3}, {"id": {"$lte": 7}}]}}"#),
            expect(r#"{"$sort": {"id": -1}}"#)
        ]
    );
}

#[test]
fn scenario_relation_some() {
    let stages = plan(r#"{"where": {"posts": {"some": {"where": {"published": true}}}}}"#);
    assert_eq!(stage_names(&stages), vec!["$lookup", "$match", "$unset"]);
    assert_eq!(stages[1], expect(r#"{"$match": {"posts": {"$size": 1}}}"#));
    assert_eq!(stages[2], expect(r#"{"$unset": "posts"}"#));
    let lookup = &stages[0]["$lookup"];
    assert_eq!(lookup["from"], expect(r#""posts""#));
    assert_eq!(lookup["as"], expect(r#""posts""#));
    let inner = lookup["pipeline"].as_array().unwrap();
    assert!(inner.contains(&expect(r#"{"$limit": 1}"#)));
}

#[test]
fn relation_none_and_all_test_size_zero() {
    let none = plan(r#"{"where": {"posts": {"none": {"title": "x"}}}}"#);
    assert_eq!(none[1], expect(r#"{"$match": {"posts": {"$size": 0}}}"#));
    let all = plan(r#"{"where": {"posts": {"all": {"title": "x"}}}}"#);
    assert_eq!(all[1], expect(r#"{"$match": {"posts": {"$size": 0}}}"#));
    let inner = all[0]["$lookup"]["pipeline"].as_array().unwrap();
    assert!(inner[0]["$match"]["$nor"].is_array());
}

#[test]
fn scenario_select_and_include() {
    let stages = plan(r#"{"include": {"posts": true}, "select": {"name": true}}"#);
    assert_eq!(stage_names(&stages), vec!["$project", "$lookup"]);
    assert_eq!(stages[0], expect(r#"{"$project": {"id": 1, "name": 1}}"#));
    let lookup = &stages[1]["$lookup"];
    assert_eq!(lookup["let"], expect(r#"{"userId": "$id"}"#));
    assert_eq!(
        lookup["pipeline"],
        expect(r#"[{"$match": {"$expr": {"$and": [{"$eq": ["$userId", "$$userId"]}]}}}]"#)
    );
}

#[test]
fn select_false_list_keeps_primary_and_others() {
    assert_eq!(
        plan(r#"{"select": {"id": false, "name": false}}"#),
        vec![expect(r#"{"$project": {"id": 1, "age": 1}}"#)]
    );
}

#[test]
fn select_mixed_is_a_blacklist() {
    assert_eq!(
        plan(r#"{"select": {"age": true, "name": false}}"#),
        vec![expect(r#"{"$project": {"id": 1, "age": 1}}"#)]
    );
}

#[test]
fn empty_select_gives_no_projection() {
    assert!(plan(r#"{"select": {}}"#).is_empty());
}

#[test]
fn empty_query_gives_no_stages() {
    assert!(plan("{}").is_empty());
}

#[test]
fn planning_twice_gives_equal_pipelines() {
    let q = r#"{"where": {"posts": {"some": {"title": "a"}}, "age": {"in": [1, 2]}}, "orderBy": {"age": "asc"}, "include": {"posts": {"take": -1}}, "select": {"name": true}}"#;
    assert_eq!(plan(q), plan(q));
}

#[test]
fn take_zero_gives_limit_zero() {
    assert_eq!(plan(r#"{"take": 0}"#), vec![expect(r#"{"$limit": 0}"#)]);
}

#[test]
fn negative_take_without_order_by() {
    assert_eq!(plan(r#"{"take": -3}"#), vec![expect(r#"{"$limit": 3}"#)]);
}

#[test]
fn page_overrides_skip_and_take() {
    assert_eq!(
        plan(r#"{"skip": 1, "take": 2, "pageSize": 10, "pageNumber": 3}"#),
        vec![expect(r#"{"$skip": 20}"#), expect(r#"{"$limit": 10}"#)]
    );
}

#[test]
fn skip_and_take_without_page() {
    assert_eq!(plan(r#"{"skip": 4, "take": 2}"#), vec![expect(r#"{"$skip": 4}"#), expect(r#"{"$limit": 2}"#)]);
}

#[test]
fn negative_skip_is_rejected() {
    assert_eq!(plan_err(QueryPipelineType::Many, r#"{"skip": -1}"#), ActionErrorType::UnexpectedInputValue);
}

#[test]
fn empty_and_or_add_nothing() {
    assert!(plan(r#"{"where": {"AND": [], "OR": []}}"#).is_empty());
}

#[test]
fn logical_operators_nest() {
    assert_eq!(
        plan(r#"{"where": {"AND": [{"age": 3}], "NOT": {"name": "x"}}}"#),
        vec![expect(r#"{"$match": {"$and": [{"age": 3}], "$nor": [{"name": "x"}]}}"#)]
    );
}

#[test]
fn unique_query_needs_unique_where() {
    assert_eq!(plan_err(QueryPipelineType::Unique, r#"{"where": {"name": "x"}}"#), ActionErrorType::FieldIsNotUnique);
    let g = graph();
    let r = build_query_pipeline_from_json(&g.models[0], &g, QueryPipelineType::Unique, false, &j(r#"{"where": {"id": 1}}"#));
    assert!(r.is_ok());
}

#[test]
fn unique_query_without_where_is_rejected() {
    assert_eq!(plan_err(QueryPipelineType::Unique, "{}"), ActionErrorType::FieldIsNotUnique);
}

#[test]
fn unknown_where_key_is_rejected() {
    assert_eq!(plan_err(QueryPipelineType::Many, r#"{"where": {"nope": 1}}"#), ActionErrorType::UnexpectedInputKey);
}

#[test]
fn unknown_operator_is_rejected() {
    assert_eq!(
        plan_err(QueryPipelineType::Many, r#"{"where": {"age": {"near": 1}}}"#),
        ActionErrorType::UnexpectedInputKey
    );
}

#[test]
fn wrong_literal_type_is_rejected() {
    assert_eq!(plan_err(QueryPipelineType::Many, r#"{"where": {"age": "old"}}"#), ActionErrorType::UnexpectedInputType);
}

#[test]
fn relation_predicate_with_two_keys_is_rejected() {
    assert_eq!(
        plan_err(QueryPipelineType::Many, r#"{"where": {"posts": {"some": {}, "none": {}}}}"#),
        ActionErrorType::UnexpectedObjectLength
    );
}

#[test]
fn cursor_without_order_by_is_rejected() {
    assert_eq!(plan_err(QueryPipelineType::Many, r#"{"cursor": {"id": 1}}"#), ActionErrorType::InvalidQueryInput);
}

#[test]
fn cursor_on_non_unique_key_is_rejected() {
    assert_eq!(
        plan_err(QueryPipelineType::Many, r#"{"orderBy": {"age": "asc"}, "cursor": {"age": 1}}"#),
        ActionErrorType::InvalidQueryInput
    );
}

#[test]
fn bad_order_direction_is_rejected() {
    assert_eq!(plan_err(QueryPipelineType::Many, r#"{"orderBy": {"age": "up"}}"#), ActionErrorType::UnexpectedInputValue);
}

#[test]
fn query_that_is_no_object_is_rejected() {
    assert_eq!(plan_err(QueryPipelineType::Many, "[]"), ActionErrorType::InvalidQueryInput);
}

#[test]
fn order_by_array_keeps_order() {
    let g = graph();
    let q = j(r#"{"orderBy": [{"name": "asc"}, {"age": "desc"}]}"#);
    let st = build_query_pipeline_from_json(&g.models[0], &g, QueryPipelineType::Many, false, &q).unwrap();
    match &st[0] {
        Bson::Doc(d) => match &d[0].1 {
            Bson::Doc(sort) => {
                assert_eq!(sort[0], ("name".to_string(), Bson::Int32(1)));
                assert_eq!(sort[1], ("age".to_string(), Bson::Int32(-1)));
            }
            _ => panic!("sort body"),
        },
        _ => panic!("stage"),
    }
}

#[test]
fn mutation_mode_drops_select_and_include() {
    let g = graph();
    let q = j(r#"{"include": {"posts": true}, "select": {"name": true}}"#);
    let st = build_query_pipeline_from_json(&g.models[0], &g, QueryPipelineType::Many, true, &q).unwrap();
    assert!(st.is_empty());
}

#[test]
fn include_with_negative_take_reverses() {
    let stages = plan(r#"{"include": {"posts": {"take": -2}}}"#);
    assert_eq!(stage_names(&stages), vec!["$lookup", "$set"]);
    assert_eq!(stages[1], expect(r#"{"$set": {"posts": {"$reverseArray": "$posts"}}}"#));
}

#[test]
fn column_names_are_used_in_match() {
    let mut f = field("fullName", FieldType::String);
    f.column_name = "full_name".to_string();
    let mut b = ModelBuilder::new("Person");
    b.field(primary_field("id", FieldType::I32)).field(f);
    let m = b.build();
    let g = Graph { models: vec![], enums: vec![] };
    let q = j(r#"{"where": {"fullName": "a"}}"#);
    let st = build_query_pipeline_from_json(&m, &g, QueryPipelineType::Many, false, &q).unwrap();
    assert_eq!(show(&st[0]), expect(r#"{"$match": {"full_name": "a"}}"#));
}

fn tag_models() -> Graph {
    let mut article = ModelBuilder::new("Article");
    article
        .field(primary_field("id", FieldType::I32))
        .relation(relation("tags", "Tag", &["articleLink"], &["tagLink"], Some("ArticleTag")));
    let mut tag = ModelBuilder::new("Tag");
    tag.field(primary_field("id", FieldType::I32)).field(field("label", FieldType::String));
    let mut join = ModelBuilder::new("ArticleTag");
    join.field(primary_field("id", FieldType::I32))
        .field(field("articleId", FieldType::I32))
        .field(field("tagId", FieldType::I32))
        .relation(relation("articleLink", "Article", &["articleId"], &["id"], None))
        .relation(relation("tagLink", "Tag", &["tagId"], &["id"], None));
    Graph { models: vec![article.build(), tag.build(), join.build()], enums: vec![] }
}

#[test]
fn through_relation_pulls_paging_after_unwind() {
    let g = tag_models();
    let q = j(r#"{"include": {"tags": {"orderBy": {"label": "asc"}, "skip": 1, "take": 2, "where": {"label": "x"}}}}"#);
    let st = build_query_pipeline_from_json(&g.models[0], &g, QueryPipelineType::Many, false, &q).unwrap();
    let stages: Vec<serde_json::Value> = st.iter().map(show).collect();
    assert_eq!(stage_names(&stages), vec!["$lookup"]);
    let outer = &stages[0]["$lookup"];
    assert_eq!(outer["from"], expect(r#""articletags""#));
    let pipeline = outer["pipeline"].as_array().unwrap();
    assert_eq!(
        stage_names(pipeline),
        vec!["$match", "$lookup", "$unwind", "$replaceRoot", "$sort", "$skip", "$limit"]
    );
    assert_eq!(pipeline[0], expect(r#"{"$match": {"$expr": {"$and": [{"$eq": ["$articleId", "$$articleId"]}]}}}"#));
    let inner = pipeline[1]["$lookup"]["pipeline"].as_array().unwrap();
    assert_eq!(stage_names(inner), vec!["$match"]);
    assert_eq!(
        inner[0],
        expect(r#"{"$match": {"$expr": {"$and": [{"$eq": ["$id", "$$tagId"]}]}, "label": "x"}}"#)
    );
    assert_eq!(pipeline[2], expect(r#"{"$unwind": {"path": "$tags"}}"#));
    assert_eq!(pipeline[3], expect(r#"{"$replaceRoot": {"newRoot": "$tags"}}"#));
}

#[test]
fn through_relation_keys_use_column_names() {
    let mut article = ModelBuilder::new("Article");
    article
        .field(primary_field("id", FieldType::I32))
        .relation(relation("tags", "Tag", &["articleLink"], &["tagLink"], Some("ArticleTag")));
    let mut tag = ModelBuilder::new("Tag");
    tag.field(primary_field("id", FieldType::I32));
    let mut article_id = field("articleId", FieldType::I32);
    article_id.column_name = "article_id".to_string();
    let mut tag_id = field("tagId", FieldType::I32);
    tag_id.column_name = "tag_id".to_string();
    let mut join = ModelBuilder::new("ArticleTag");
    join.field(primary_field("id", FieldType::I32))
        .field(article_id)
        .field(tag_id)
        .relation(relation("articleLink", "Article", &["articleId"], &["id"], None))
        .relation(relation("tagLink", "Tag", &["tagId"], &["id"], None));
    let g = Graph { models: vec![article.build(), tag.build(), join.build()], enums: vec![] };
    let st = build_query_pipeline_from_json(&g.models[0], &g, QueryPipelineType::Many, false, &j(r#"{"include": {"tags": true}}"#)).unwrap();
    let outer = show(&st[0]);
    let pipeline = outer["$lookup"]["pipeline"].as_array().unwrap();
    assert_eq!(pipeline[0], expect(r#"{"$match": {"$expr": {"$and": [{"$eq": ["$article_id", "$$articleId"]}]}}}"#));
    assert_eq!(pipeline[1]["$lookup"]["let"], expect(r#"{"tagId": "$tag_id"}"#));
}

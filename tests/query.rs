use toshi::codec::{BAD_MUTATION, BAD_QUERY, BAD_REQUEST};
use toshi::handle::{AddDocument, DeleteDoc};
use toshi::compile::{Bound, Compiled, NumericKind, Occur, EMPTY_BOOL, NO_BOUNDS, NO_TERMS};
use toshi::error::Error;
use toshi::json::JsonValue;
use toshi::query::{BoolQuery, ExactTerm, FuzzyQuery, Number, PhraseQuery, Query, RangeQuery, RegexQuery, TermQueries};
use toshi::request::{Metrics, Request, DEFAULT_RESULT_LIMIT};
use toshi::schema::{FieldEntry, FieldType, Schema};

fn to_value(v: &serde_json::Value) -> JsonValue {
    match v {
        serde_json::Value::Null => JsonValue::Null,
        serde_json::Value::Bool(b) => JsonValue::Bool(*b),
        serde_json::Value::Number(n) => match (n.as_i64(), n.as_u64()) {
            (Some(i), _) => JsonValue::Number(i as i128),
            (None, Some(u)) => JsonValue::Number(u as i128),
            _ => JsonValue::Decimal(n.to_string()),
        },
        serde_json::Value::String(s) => JsonValue::Str(s.clone()),
        serde_json::Value::Array(a) => JsonValue::Array(a.iter().map(to_value).collect()),
        serde_json::Value::Object(o) => {
            JsonValue::Object(o.iter().map(|(k, v)| (k.clone(), to_value(v))).collect())
        }
    }
}

fn json(text: &str) -> JsonValue {
    to_value(&serde_json::from_str::<serde_json::Value>(text).unwrap())
}

fn field(name: &str, field_type: FieldType) -> FieldEntry {
    FieldEntry { name: name.to_string(), field_type, stored: true }
}

fn test_schema() -> Schema {
    Schema {
        fields: vec![
            field("test_text", FieldType::Text { indexed: true, positions: true }),
            field("test_unindex", FieldType::Text { indexed: false, positions: false }),
            field("test_i64", FieldType::I64 { indexed: true }),
            field("test_u64", FieldType::U64 { indexed: true }),
            field("test_facet", FieldType::Facet),
        ],
    }
}

fn search(text: &str) -> Request {
    match Request::from_json(&json(text)) {
        Ok(r) => r,
        Err(e) => panic!("{}", e.message()),
    }
}

fn compile(text: &str) -> Result<Compiled, Error> {
    let req = search(text);
    req.query.unwrap().create_query(&test_schema())
}

#[test]
fn test_serializing() {
    let term_query = r#"{ "query" : { "term" : { "user" : "Kimchy" } } }"#;
    let terms_query = r#"{ "query": { "terms" : { "user" : ["kimchy", "elasticsearch"] } } }"#;
    let range_query = r#"{ "query": { "range" : { "age" : { "gte" : 10, "lte" : 20 } } } }"#;
    let raw_query = r#"{ "query" : { "raw" : "year:[1 TO 10]" } }"#;

    match search(term_query).query {
        Some(Query::Exact(ExactTerm { field, value })) => {
            assert_eq!(field, "user");
            assert_eq!(value, "Kimchy");
        }
        _ => panic!("not a term query"),
    }
    // `terms` is no form of the query language.
    match Request::from_json(&json(terms_query)) {
        Err(e) => assert_eq!(e.message(), BAD_REQUEST),
        Ok(_) => panic!("a terms query was accepted"),
    }
    match search(range_query).query {
        Some(Query::Range(r)) => {
            assert_eq!(r.field, "age");
            assert!(matches!(r.gte, Some(Number::Int(10))));
            assert!(matches!(r.lte, Some(Number::Int(20))));
            assert!(r.gt.is_none() && r.lt.is_none());
        }
        _ => panic!("not a range query"),
    }
    match search(raw_query).query {
        Some(Query::Raw { raw }) => assert_eq!(raw, "year:[1 TO 10]"),
        _ => panic!("not a raw query"),
    }
}

#[test]
fn search_test_bad_term_field_syntax() {
    let err = compile(r#"{ "query" : { "term": { "asdf": "Document" } } }"#).err().unwrap();
    assert!(matches!(err, Error::UnknownField(ref f) if f == "asdf"));
    assert_eq!(err.status(), 400);
    assert_eq!(err.message(), "Unknown field: asdf");
}

#[test]
fn test_bad_number_field_syntax() {
    let err = compile(r#"{ "query" : { "term": { "123asdf": "Document" } } }"#).err().unwrap();
    assert_eq!(err.status(), 400);
    assert_eq!(err.message(), "Unknown field: 123asdf");
}

#[test]
fn term_query_compiles_to_term() {
    match compile(r#"{"query":{"term":{"test_text":"document"}}}"#).ok().unwrap() {
        Compiled::Term { field, text } => {
            assert_eq!(field, 0);
            assert_eq!(text, "document");
        }
        _ => panic!("not a term"),
    }
}

#[test]
fn inclusive_range_compiles_to_included_bounds() {
    match compile(r#"{"query":{"range":{"test_i64":{"gte":2012,"lte":2015}}}}"#).ok().unwrap() {
        Compiled::Range { field, kind, lower, upper } => {
            assert_eq!(field, 2);
            assert!(kind == NumericKind::I64);
            assert!(matches!(lower, Bound::Included(Number::Int(2012))));
            assert!(matches!(upper, Bound::Included(Number::Int(2015))));
        }
        _ => panic!("not a range"),
    }
}

#[test]
fn exclusive_range_compiles_to_excluded_bounds() {
    match compile(r#"{"query":{"range":{"test_i64":{"gt":2012,"lt":2015}}}}"#).ok().unwrap() {
        Compiled::Range { lower, upper, .. } => {
            assert!(matches!(lower, Bound::Excluded(Number::Int(2012))));
            assert!(matches!(upper, Bound::Excluded(Number::Int(2015))));
        }
        _ => panic!("not a range"),
    }
}

#[test]
fn one_sided_range_is_unbounded_on_the_other_side() {
    match compile(r#"{"query":{"range":{"test_u64":{"gt":7}}}}"#).ok().unwrap() {
        Compiled::Range { kind, lower, upper, .. } => {
            assert!(kind == NumericKind::U64);
            assert!(matches!(lower, Bound::Excluded(Number::Int(7))));
            assert!(matches!(upper, Bound::Unbounded));
        }
        _ => panic!("not a range"),
    }
}

#[test]
fn range_without_bounds_is_query_error() {
    let err = compile(r#"{"query":{"range":{"test_i64":{}}}}"#).err().unwrap();
    assert!(matches!(err, Error::QueryError(ref m) if m == NO_BOUNDS));
    assert_eq!(err.status(), 400);
}

#[test]
fn range_with_both_lower_bounds_is_query_error() {
    let err = compile(r#"{"query":{"range":{"test_i64":{"gt":1,"gte":2}}}}"#).err().unwrap();
    assert!(matches!(err, Error::QueryError(_)));
}

#[test]
fn range_bound_out_of_type_is_query_error() {
    let err = compile(r#"{"query":{"range":{"test_u64":{"gte":-1}}}}"#).err().unwrap();
    assert!(matches!(err, Error::QueryError(_)));
    let err = compile(r#"{"query":{"range":{"test_i64":{"lte":9223372036854775808}}}}"#).err().unwrap();
    assert!(matches!(err, Error::QueryError(_)));
}

#[test]
fn range_on_text_field_is_query_error() {
    let err = compile(r#"{"query":{"range":{"test_text":{"gte":1}}}}"#).err().unwrap();
    assert!(matches!(err, Error::QueryError(_)));
}

#[test]
fn regex_query_keeps_pattern() {
    match compile(r#"{"query":{"regex":{"test_text":"d[ou]{1}c[k]?ument"}}}"#).ok().unwrap() {
        Compiled::Regex { field, pattern } => {
            assert_eq!(field, 0);
            assert_eq!(pattern, "d[ou]{1}c[k]?ument");
        }
        _ => panic!("not a regex"),
    }
}

#[test]
fn regex_on_unindexed_field_is_not_indexed() {
    let err = compile(r#"{"query":{"regex":{"test_unindex":"a.*"}}}"#).err().unwrap();
    assert!(matches!(err, Error::FieldNotIndexed(ref f) if f == "test_unindex"));
    assert!(err.message().contains("not declared as indexed"));
}

#[test]
fn bool_query_tags_clauses() {
    let text = r#"{"query":{"bool":{"must":[{"term":{"test_text":"document"}}],"must_not":[{"range":{"test_i64":{"gt":2017}}}]}}}"#;
    match compile(text).ok().unwrap() {
        Compiled::Boolean { clauses, minimum_should_match } => {
            assert_eq!(clauses.len(), 2);
            assert!(clauses[0].0 == Occur::Must);
            assert!(matches!(clauses[0].1, Compiled::Term { field: 0, .. }));
            assert!(clauses[1].0 == Occur::MustNot);
            assert!(matches!(clauses[1].1, Compiled::Range { field: 2, .. }));
            assert_eq!(minimum_should_match, 0);
        }
        _ => panic!("not a boolean"),
    }
}

#[test]
fn bool_query_without_must_needs_one_should() {
    let text = r#"{"query":{"bool":{"should":[{"term":{"test_text":"a"}},{"term":{"test_text":"b"}}]}}}"#;
    match compile(text).ok().unwrap() {
        Compiled::Boolean { clauses, minimum_should_match } => {
            assert_eq!(clauses.len(), 2);
            assert!(clauses.iter().all(|c| c.0 == Occur::Should));
            assert_eq!(minimum_should_match, 1);
        }
        _ => panic!("not a boolean"),
    }
}

#[test]
fn empty_bool_is_query_error() {
    let err = compile(r#"{"query":{"bool":{}}}"#).err().unwrap();
    assert!(matches!(err, Error::QueryError(ref m) if m == EMPTY_BOOL));
}

#[test]
fn bool_reports_first_failing_clause() {
    let text = r#"{"query":{"bool":{"must":[{"term":{"nope":"x"}}],"should":[{"term":{"other":"y"}}]}}}"#;
    let err = compile(text).err().unwrap();
    assert!(matches!(err, Error::UnknownField(ref f) if f == "nope"));
}

#[test]
fn fuzzy_distance_is_capped() {
    match compile(r#"{"query":{"fuzzy":{"test_text":{"value":"document","distance":5,"transposition":true}}}}"#).ok().unwrap() {
        Compiled::Fuzzy { field, text, distance, transposition } => {
            assert_eq!(field, 0);
            assert_eq!(text, "document");
            assert_eq!(distance, 2);
            assert!(transposition);
        }
        _ => panic!("not fuzzy"),
    }
}

#[test]
fn fuzzy_without_value_text_is_query_error() {
    let err = compile(r#"{"query":{"fuzzy":{"test_text":{"value":""}}}}"#).err().unwrap();
    assert!(matches!(err, Error::QueryError(_)));
}

#[test]
fn phrase_defaults_slop_to_zero() {
    match compile(r#"{"query":{"phrase":{"test_text":{"terms":["test","document"]}}}}"#).ok().unwrap() {
        Compiled::Phrase { field, terms, slop } => {
            assert_eq!(field, 0);
            assert_eq!(terms, vec!["test".to_string(), "document".to_string()]);
            assert_eq!(slop, 0);
        }
        _ => panic!("not a phrase"),
    }
}

#[test]
fn phrase_needs_positions_and_terms() {
    let err = compile(r#"{"query":{"phrase":{"test_unindex":{"terms":["a"]}}}}"#).err().unwrap();
    assert!(matches!(err, Error::FieldNotIndexed(_)));
    let err = compile(r#"{"query":{"phrase":{"test_text":{"terms":[]}}}}"#).err().unwrap();
    assert!(matches!(err, Error::QueryError(ref m) if m == NO_TERMS));
}

#[test]
fn raw_query_runs_over_every_field() {
    match compile(r#"{"query":{"raw":"test_text:5"}}"#).ok().unwrap() {
        Compiled::Raw { text, fields } => {
            assert_eq!(text, "test_text:5");
            assert_eq!(fields, vec![0, 1, 2, 3, 4]);
        }
        _ => panic!("not raw"),
    }
}

#[test]
fn all_compiles_to_all() {
    assert!(matches!(compile(r#"{"query":"all"}"#).ok().unwrap(), Compiled::All));
}

#[test]
fn unknown_query_form_is_rejected() {
    match Query::from_json(&json(r#"{"prefix":{"test_text":"doc"}}"#)) {
        Err(e) => assert_eq!(e.message(), BAD_QUERY),
        Ok(_) => panic!("accepted"),
    }
    assert!(Query::from_json(&json(r#"{"term":{"a":"b"},"raw":"x"}"#)).is_err());
}

#[test]
fn compiling_twice_gives_the_same_query() {
    let q = search(r#"{"query":{"bool":{"must":[{"term":{"test_text":"a"}}],"should":[{"range":{"test_u64":{"lte":3}}}]}}}"#)
        .query
        .unwrap();
    let a = q.create_query(&test_schema()).ok().unwrap();
    let b = q.create_query(&test_schema()).ok().unwrap();
    match (a, b) {
        (Compiled::Boolean { clauses: x, minimum_should_match: m }, Compiled::Boolean { clauses: y, minimum_should_match: n }) => {
            assert_eq!(x.len(), y.len());
            assert_eq!(m, n);
            for (c, d) in x.iter().zip(y.iter()) {
                assert!(c.0 == d.0);
            }
        }
        _ => panic!("not boolean"),
    }
}

#[test]
fn request_round_trips_through_json() {
    let bool_query = Query::Boolean(BoolQuery {
        must: vec![Query::Exact(ExactTerm::new("test_text".into(), "document".into()))],
        must_not: vec![Query::Range(RangeQuery {
            field: "test_i64".into(),
            gt: Some(Number::Int(2017)),
            gte: None,
            lt: None,
            lte: Some(Number::Decimal("2020.5".into())),
        })],
        should: vec![
            Query::Fuzzy(FuzzyQuery { field: "test_text".into(), value: "dokument".into(), distance: 1, transposition: true }),
            Query::Phrase(PhraseQuery { field: "test_text".into(), terms: vec!["a".into(), "b".into()], slop: Some(3) }),
            Query::Regex(RegexQuery { field: "test_text".into(), pattern: "d.*".into() }),
            Query::Raw { raw: "test_text:5".into() },
            Query::All,
        ],
    });
    let req = Request::new(Some(bool_query), Some(Metrics::SumAgg { field: "test_u64".into() }), 7);
    let text = req.to_json();
    let back = Request::from_json(&text).ok().unwrap();
    assert_eq!(back.limit, 7);
    assert!(matches!(back.aggs, Some(Metrics::SumAgg { ref field }) if field == "test_u64"));
    let again = back.to_json();
    assert!(json_eq(&text, &again));
    match back.query {
        Some(Query::Boolean(b)) => {
            assert_eq!(b.must.len(), 1);
            assert_eq!(b.must_not.len(), 1);
            assert_eq!(b.should.len(), 5);
            assert!(matches!(b.should[4], Query::All));
        }
        _ => panic!("not boolean"),
    }
}

fn json_eq(a: &JsonValue, b: &JsonValue) -> bool {
    match (a, b) {
        (JsonValue::Null, JsonValue::Null) => true,
        (JsonValue::Bool(x), JsonValue::Bool(y)) => x == y,
        (JsonValue::Number(x), JsonValue::Number(y)) => x == y,
        (JsonValue::Decimal(x), JsonValue::Decimal(y)) => x == y,
        (JsonValue::Str(x), JsonValue::Str(y)) => x == y,
        (JsonValue::Array(x), JsonValue::Array(y)) => x.len() == y.len() && x.iter().zip(y).all(|(p, q)| json_eq(p, q)),
        (JsonValue::Object(x), JsonValue::Object(y)) => {
            x.len() == y.len() && x.iter().zip(y).all(|(p, q)| p.0 == q.0 && json_eq(&p.1, &q.1))
        }
        _ => false,
    }
}

#[test]
fn request_defaults() {
    let req = search(r#"{}"#);
    assert!(req.query.is_none());
    assert!(req.aggs.is_none());
    assert_eq!(req.limit, DEFAULT_RESULT_LIMIT);
    let all = Request::all_docs();
    assert!(matches!(all.query, Some(Query::All)));
    assert_eq!(all.limit, 100);
    let bad = Request::from_json(&json(r#"{"limit":-1}"#));
    assert!(bad.is_err());
}

#[test]
fn term_queries_widen_to_queries() {
    let t = TermQueries::Exact(ExactTerm::new("f".into(), "v".into()));
    assert!(matches!(t.into_query(), Query::Exact(ExactTerm { ref field, .. }) if field == "f"));
}

#[test]
fn test_doc_delete_body() {
    let body = json(r#"{ "options": {"commit": true}, "terms": {"test_text": "document"} }"#);
    let d = DeleteDoc::from_json(&body).ok().unwrap();
    assert!(d.options.unwrap().commit);
    assert_eq!(d.terms, vec![("test_text".to_string(), "document".to_string())]);
}

#[test]
fn test_bad_json() {
    let body = json(r#"{ "test_text": "document" }"#);
    match DeleteDoc::from_json(&body) {
        Err(e) => {
            assert_eq!(e.status(), 400);
            assert_eq!(e.message(), BAD_MUTATION);
        }
        Ok(_) => panic!("accepted"),
    }
}

#[test]
fn test_doc_create_body() {
    let body = json(r#"{ "document": { "test_text": "Babbaboo!", "test_u64": 10, "test_i64": -10 } }"#);
    let a = AddDocument::from_json(body).ok().unwrap();
    assert!(a.options.is_none());
    match a.document {
        JsonValue::Object(e) => {
            assert_eq!(e.len(), 3);
            assert!(e.iter().any(|(k, v)| k == "test_i64" && matches!(v, JsonValue::Number(-10))));
        }
        _ => panic!("not an object"),
    }
    assert!(AddDocument::from_json(json(r#"{ "document": 5 }"#)).is_err());
    let no_commit = AddDocument::from_json(json(r#"{ "options": {}, "document": {} }"#)).ok().unwrap();
    assert!(!no_commit.options.unwrap().commit);
}

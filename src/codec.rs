use vstd::prelude::*;

use crate::error::{query_error, Error, ErrorView};
use crate::json::{entries_view, items_view, json_of, Json, JsonValue};
use crate::handle::{AddDocument, DeleteDoc, IndexOptions};
use crate::request::{FacetRequest, Metrics, Request, DEFAULT_RESULT_LIMIT};
use crate::schema::str_eq;
use crate::query::{
    queries_view, query_view, strings_view, BoolQuery, ExactTerm, FuzzyQuery, Number, NumberView,
    PhraseQuery, Query, QueryView, RangeQuery, RegexQuery,
};

verus! {

pub const BAD_QUERY: &'static str = "Query parse error: the query matches no form of the query language";

pub const BAD_REQUEST: &'static str = "Query parse error: the search request is malformed";

/// The position of the first entry of `e` under `k`.
#[verifier::opaque]
pub open spec fn find_key(e: Seq<(Seq<char>, Json)>, k: Seq<char>) -> Option<int> {
    if exists|i: int| 0 <= i < e.len() && (#[trigger] e[i]).0 == k {
        Some(
            choose|i: int|
                0 <= i < e.len() && (#[trigger] e[i]).0 == k && forall|j: int|
                    0 <= j < i ==> (#[trigger] e[j]).0 != k,
        )
    } else {
        None
    }
}

pub open spec fn get(e: Seq<(Seq<char>, Json)>, k: Seq<char>) -> Option<Json> {
    match find_key(e, k) {
        Some(i) => Some(e[i].1),
        None => None,
    }
}

/// An object of one entry.
pub open spec fn single(k: Seq<char>, v: Json) -> Json {
    Json::Object(seq![(k, v)])
}

/// The strings of an array of strings.
pub open spec fn strs_of(items: Seq<Json>) -> Option<Seq<Seq<char>>> {
    if forall|i: int| 0 <= i < items.len() ==> (#[trigger] items[i]) is Str {
        Some(Seq::new(items.len(), |i: int| items[i]->Str_0))
    } else {
        None
    }
}

pub open spec fn number_of(j: Json) -> Option<NumberView> {
    match j {
        Json::Number(n) => Some(NumberView::Int(n)),
        Json::Decimal(s) => Some(NumberView::Decimal(s)),
        _ => None,
    }
}

/// An optional bound: absent or null is `Some(None)`, a number is
/// `Some(Some(n))`, anything else fails.
pub open spec fn bound_of(e: Seq<(Seq<char>, Json)>, k: Seq<char>) -> Option<Option<NumberView>> {
    match get(e, k) {
        None => Some(None),
        Some(Json::Null) => Some(None),
        Some(j) => match number_of(j) {
            Some(n) => Some(Some(n)),
            None => None,
        },
    }
}

/// The field and the body of a `{ field: body }` object.
pub open spec fn field_body(j: Json) -> Option<(Seq<char>, Json)> {
    match j {
        Json::Object(e) => if e.len() == 1 {
            Some(e[0])
        } else {
            None
        },
        _ => None,
    }
}

pub open spec fn parse_exact(j: Json) -> Option<QueryView> {
    match field_body(j) {
        Some((f, Json::Str(v))) => Some(QueryView::Exact { field: f, value: v }),
        _ => None,
    }
}

pub open spec fn parse_regex(j: Json) -> Option<QueryView> {
    match field_body(j) {
        Some((f, Json::Str(p))) => Some(QueryView::Regex { field: f, pattern: p }),
        _ => None,
    }
}

pub open spec fn parse_phrase(j: Json) -> Option<QueryView> {
    match field_body(j) {
        Some((f, Json::Object(p))) => match get(p, "terms"@) {
            Some(Json::Array(items)) => match strs_of(items) {
                None => None,
                Some(terms) => match get(p, "slop"@) {
                    None => Some(QueryView::Phrase { field: f, terms, slop: None }),
                    Some(Json::Null) => Some(QueryView::Phrase { field: f, terms, slop: None }),
                    Some(Json::Number(n)) => if 0 <= n <= u32::MAX {
                        Some(QueryView::Phrase { field: f, terms, slop: Some(n) })
                    } else {
                        None
                    },
                    _ => None,
                },
            },
            _ => None,
        },
        _ => None,
    }
}

pub open spec fn parse_fuzzy(j: Json) -> Option<QueryView> {
    match field_body(j) {
        Some((f, Json::Object(p))) => match get(p, "value"@) {
            Some(Json::Str(v)) => {
                let distance = match get(p, "distance"@) {
                    None => Some(0int),
                    Some(Json::Number(n)) => if 0 <= n <= u8::MAX {
                        Some(n)
                    } else {
                        None
                    },
                    _ => None,
                };
                let transposition = match get(p, "transposition"@) {
                    None => Some(false),
                    Some(Json::Bool(b)) => Some(b),
                    _ => None,
                };
                match (distance, transposition) {
                    (Some(d), Some(t)) => Some(
                        QueryView::Fuzzy { field: f, value: v, distance: d, transposition: t },
                    ),
                    _ => None,
                }
            },
            _ => None,
        },
        _ => None,
    }
}

pub open spec fn parse_range(j: Json) -> Option<QueryView> {
    match field_body(j) {
        Some((f, Json::Object(p))) => match (
            bound_of(p, "gt"@),
            bound_of(p, "gte"@),
            bound_of(p, "lt"@),
            bound_of(p, "lte"@),
        ) {
            (Some(gt), Some(gte), Some(lt), Some(lte)) => Some(
                QueryView::Range { field: f, gt, gte, lt, lte },
            ),
            _ => None,
        },
        _ => None,
    }
}

/// The query a JSON value writes, if it writes one: `"all"`, or an object of
/// one entry whose key names the form.
pub open spec fn parse_query(j: Json) -> Option<QueryView>
    decreases j,
{
    match j {
        Json::Str(s) => if s == "all"@ {
            Some(QueryView::All)
        } else {
            None
        },
        Json::Object(e) => if e.len() != 1 {
            None
        } else {
            let key = e[0].0;
            let body = e[0].1;
            if key == "term"@ {
                parse_exact(body)
            } else if key == "phrase"@ {
                parse_phrase(body)
            } else if key == "fuzzy"@ {
                parse_fuzzy(body)
            } else if key == "regex"@ {
                parse_regex(body)
            } else if key == "range"@ {
                parse_range(body)
            } else if key == "raw"@ {
                match body {
                    Json::Str(s) => Some(QueryView::Raw { raw: s }),
                    _ => None,
                }
            } else if key == "bool"@ {
                match body {
                    Json::Object(b) => match (
                        parse_clauses(b, "must"@),
                        parse_clauses(b, "must_not"@),
                        parse_clauses(b, "should"@),
                    ) {
                        (Some(must), Some(must_not), Some(should)) => Some(
                            QueryView::Boolean { must, must_not, should },
                        ),
                        _ => None,
                    },
                    _ => None,
                }
            } else {
                None
            }
        },
        _ => None,
    }
}

/// The clauses under `k` of a boolean body: absent is none.
pub open spec fn parse_clauses(b: Seq<(Seq<char>, Json)>, k: Seq<char>) -> Option<Seq<QueryView>>
    decreases b,
{
    match find_key(b, k) {
        None => Some(Seq::empty()),
        Some(i) => if 0 <= i < b.len() {
            match b[i].1 {
                Json::Array(items) => parse_list(items),
                _ => None,
            }
        } else {
            None
        },
    }
}

pub open spec fn parse_list(items: Seq<Json>) -> Option<Seq<QueryView>>
    decreases items,
{
    if items.len() == 0 {
        Some(Seq::empty())
    } else {
        match parse_list(items.drop_last()) {
            None => None,
            Some(qs) => match parse_query(items[items.len() - 1]) {
                None => None,
                Some(q) => Some(qs.push(q)),
            },
        }
    }
}

pub open spec fn number_json(n: NumberView) -> Json {
    match n {
        NumberView::Int(i) => Json::Number(i),
        NumberView::Decimal(s) => Json::Decimal(s),
    }
}

pub open spec fn opt_number_json(n: Option<NumberView>) -> Json {
    match n {
        Some(n) => number_json(n),
        None => Json::Null,
    }
}

pub open spec fn opt_int_json(n: Option<int>) -> Json {
    match n {
        Some(n) => Json::Number(n),
        None => Json::Null,
    }
}

pub open spec fn strs_json(s: Seq<Seq<char>>) -> Json {
    Json::Array(Seq::new(s.len(), |i: int| Json::Str(s[i])))
}

pub open spec fn render_list(qs: Seq<QueryView>) -> Seq<Json>
    decreases qs,
{
    Seq::new(qs.len(), |i: int| if 0 <= i < qs.len() { render_query(qs[i]) } else { Json::Null })
}

/// The JSON form of a query.
pub open spec fn render_query(q: QueryView) -> Json
    decreases q,
{
    match q {
        QueryView::Exact { field, value } => single("term"@, single(field, Json::Str(value))),
        QueryView::Phrase { field, terms, slop } => single(
            "phrase"@,
            single(
                field,
                Json::Object(
                    seq![
                        ("terms"@, strs_json(terms)),
                        ("slop"@, opt_int_json(slop)),
                    ],
                ),
            ),
        ),
        QueryView::Fuzzy { field, value, distance, transposition } => single(
            "fuzzy"@,
            single(
                field,
                Json::Object(
                    seq![
                        ("value"@, Json::Str(value)),
                        ("distance"@, Json::Number(distance)),
                        ("transposition"@, Json::Bool(transposition)),
                    ],
                ),
            ),
        ),
        QueryView::Regex { field, pattern } => single("regex"@, single(field, Json::Str(pattern))),
        QueryView::Range { field, gt, gte, lt, lte } => single(
            "range"@,
            single(
                field,
                Json::Object(
                    seq![
                        ("gt"@, opt_number_json(gt)),
                        ("gte"@, opt_number_json(gte)),
                        ("lt"@, opt_number_json(lt)),
                        ("lte"@, opt_number_json(lte)),
                    ],
                ),
            ),
        ),
        QueryView::Boolean { must, must_not, should } => single(
            "bool"@,
            Json::Object(
                seq![
                    ("must"@, Json::Array(render_list(must))),
                    ("must_not"@, Json::Array(render_list(must_not))),
                    ("should"@, Json::Array(render_list(should))),
                ],
            ),
        ),
        QueryView::Raw { raw } => single("raw"@, Json::Str(raw)),
        QueryView::All => Json::Str("all"@),
    }
}

/// The queries whose JSON form reads back as themselves: their numbers fit
/// the types that hold them.
pub open spec fn wf_query(q: QueryView) -> bool
    decreases q,
{
    match q {
        QueryView::Fuzzy { distance, .. } => 0 <= distance <= u8::MAX,
        QueryView::Phrase { slop, .. } => slop matches Some(n) ==> 0 <= n <= u32::MAX,
        QueryView::Boolean { must, must_not, should } => wf_list(must) && wf_list(must_not)
            && wf_list(should),
        _ => true,
    }
}

pub open spec fn wf_list(qs: Seq<QueryView>) -> bool
    decreases qs,
{
    qs.len() > 0 ==> wf_list(qs.drop_last()) && wf_query(qs[qs.len() - 1])
}

pub proof fn lemma_find_first(e: Seq<(Seq<char>, Json)>, k: Seq<char>, i: int)
    requires
        0 <= i < e.len(),
        e[i].0 == k,
        forall|j: int| 0 <= j < i ==> (#[trigger] e[j]).0 != k,
    ensures
        find_key(e, k) == Some(i),
{
    reveal(find_key);
    let c = choose|c: int|
        0 <= c < e.len() && (#[trigger] e[c]).0 == k && forall|j: int|
            0 <= j < c ==> (#[trigger] e[j]).0 != k;
    assert(e[i].0 == k);
    if c < i {
        assert(e[c].0 != k);
    } else if c > i {
        assert(e[i].0 != k);
    }
}

proof fn lemma_form_keys_differ()
    ensures
        "term"@ != "phrase"@,
        "term"@ != "fuzzy"@,
        "term"@ != "regex"@,
        "term"@ != "range"@,
        "term"@ != "raw"@,
        "term"@ != "bool"@,
        "phrase"@ != "fuzzy"@,
        "phrase"@ != "regex"@,
        "phrase"@ != "range"@,
        "phrase"@ != "raw"@,
        "phrase"@ != "bool"@,
        "fuzzy"@ != "regex"@,
        "fuzzy"@ != "range"@,
        "fuzzy"@ != "raw"@,
        "fuzzy"@ != "bool"@,
        "regex"@ != "range"@,
        "regex"@ != "raw"@,
        "regex"@ != "bool"@,
        "range"@ != "raw"@,
        "range"@ != "bool"@,
        "raw"@ != "bool"@,
        "all"@ != "term"@,
{
    reveal_strlit("term");
    reveal_strlit("phrase");
    reveal_strlit("fuzzy");
    reveal_strlit("regex");
    reveal_strlit("range");
    reveal_strlit("raw");
    reveal_strlit("bool");
    reveal_strlit("all");
    assert("term"@.len() == 4 && "bool"@.len() == 4 && "phrase"@.len() == 6);
    assert("fuzzy"@.len() == 5 && "regex"@.len() == 5 && "range"@.len() == 5);
    assert("raw"@.len() == 3 && "all"@.len() == 3);
    assert("term"@[0] != "bool"@[0]);
    assert("fuzzy"@[0] != "regex"@[0]);
    assert("fuzzy"@[0] != "range"@[0]);
    assert("regex"@[1] != "range"@[1]);
}

proof fn lemma_body_keys_differ()
    ensures
        "terms"@ != "slop"@,
        "value"@ != "distance"@,
        "value"@ != "transposition"@,
        "distance"@ != "transposition"@,
{
    reveal_strlit("terms");
    reveal_strlit("slop");
    reveal_strlit("value");
    reveal_strlit("distance");
    reveal_strlit("transposition");
    assert("terms"@.len() == 5 && "slop"@.len() == 4);
    assert("value"@.len() == 5 && "distance"@.len() == 8 && "transposition"@.len() == 13);
}

proof fn lemma_bound_keys_differ()
    ensures
        "gt"@ != "gte"@,
        "gt"@ != "lt"@,
        "gt"@ != "lte"@,
        "gte"@ != "lt"@,
        "gte"@ != "lte"@,
        "lt"@ != "lte"@,
{
    reveal_strlit("gt");
    reveal_strlit("gte");
    reveal_strlit("lt");
    reveal_strlit("lte");
    assert("gt"@.len() == 2 && "lt"@.len() == 2 && "gte"@.len() == 3 && "lte"@.len() == 3);
    assert("gt"@[0] != "lt"@[0]);
    assert("gte"@[0] != "lte"@[0]);
}

proof fn lemma_clause_keys_differ()
    ensures
        "must"@ != "must_not"@,
        "must"@ != "should"@,
        "must_not"@ != "should"@,
{
    reveal_strlit("must");
    reveal_strlit("must_not");
    reveal_strlit("should");
    assert("must"@.len() == 4 && "must_not"@.len() == 8 && "should"@.len() == 6);
}

pub proof fn lemma_round_trip_list(qs: Seq<QueryView>)
    requires
        wf_list(qs),
    ensures
        parse_list(render_list(qs)) == Some(qs),
    decreases qs,
{
    if qs.len() > 0 {
        lemma_round_trip_list(qs.drop_last());
        lemma_round_trip(qs[qs.len() - 1]);
        assert(render_list(qs).drop_last() =~= render_list(qs.drop_last()));
        assert(qs.drop_last().push(qs[qs.len() - 1]) =~= qs);
    } else {
        assert(qs =~= Seq::<QueryView>::empty());
    }
}

proof fn lemma_round_trip_phrase(field: Seq<char>, terms: Seq<Seq<char>>, slop: Option<int>)
    requires
        slop matches Some(n) ==> 0 <= n <= u32::MAX,
    ensures
        parse_query(render_query(QueryView::Phrase { field, terms, slop })) == Some(
            QueryView::Phrase { field, terms, slop },
        ),
{
    lemma_form_keys_differ();
    lemma_body_keys_differ();
    let p = seq![("terms"@, strs_json(terms)), ("slop"@, opt_int_json(slop))];
    lemma_find_first(p, "terms"@, 0);
    lemma_find_first(p, "slop"@, 1);
    let items = Seq::new(terms.len(), |i: int| Json::Str(terms[i]));
    assert(strs_of(items) == Some(terms)) by {
        assert(Seq::new(items.len(), |i: int| items[i]->Str_0) =~= terms);
    }
}

proof fn lemma_round_trip_fuzzy(field: Seq<char>, value: Seq<char>, distance: int, transposition: bool)
    requires
        0 <= distance <= u8::MAX,
    ensures
        parse_query(render_query(QueryView::Fuzzy { field, value, distance, transposition }))
            == Some(QueryView::Fuzzy { field, value, distance, transposition }),
{
    lemma_form_keys_differ();
    lemma_body_keys_differ();
    let p = seq![
        ("value"@, Json::Str(value)),
        ("distance"@, Json::Number(distance)),
        ("transposition"@, Json::Bool(transposition)),
    ];
    lemma_find_first(p, "value"@, 0);
    lemma_find_first(p, "distance"@, 1);
    lemma_find_first(p, "transposition"@, 2);
}

proof fn lemma_round_trip_range(
    field: Seq<char>,
    gt: Option<NumberView>,
    gte: Option<NumberView>,
    lt: Option<NumberView>,
    lte: Option<NumberView>,
)
    ensures
        parse_query(render_query(QueryView::Range { field, gt, gte, lt, lte })) == Some(
            QueryView::Range { field, gt, gte, lt, lte },
        ),
{
    lemma_form_keys_differ();
    lemma_bound_keys_differ();
    let p = seq![
        ("gt"@, opt_number_json(gt)),
        ("gte"@, opt_number_json(gte)),
        ("lt"@, opt_number_json(lt)),
        ("lte"@, opt_number_json(lte)),
    ];
    lemma_find_first(p, "gt"@, 0);
    lemma_find_first(p, "gte"@, 1);
    lemma_find_first(p, "lt"@, 2);
    lemma_find_first(p, "lte"@, 3);
}

proof fn lemma_round_trip_flat(q: QueryView)
    requires
        q is Exact || q is Regex || q is Raw || q is All,
    ensures
        parse_query(render_query(q)) == Some(q),
{
    lemma_form_keys_differ();
}

/// A query written out as JSON reads back as the same query.
#[verifier::rlimit(50)]
pub proof fn lemma_round_trip(q: QueryView)
    requires
        wf_query(q),
    ensures
        parse_query(render_query(q)) == Some(q),
    decreases q,
{
    match q {
        QueryView::Phrase { field, terms, slop } => lemma_round_trip_phrase(field, terms, slop),
        QueryView::Fuzzy { field, value, distance, transposition } => lemma_round_trip_fuzzy(
            field,
            value,
            distance,
            transposition,
        ),
        QueryView::Range { field, gt, gte, lt, lte } => lemma_round_trip_range(
            field,
            gt,
            gte,
            lt,
            lte,
        ),
        QueryView::Boolean { must, must_not, should } => {
            lemma_round_trip_list(must);
            lemma_round_trip_list(must_not);
            lemma_round_trip_list(should);
            let b = seq![
                ("must"@, Json::Array(render_list(must))),
                ("must_not"@, Json::Array(render_list(must_not))),
                ("should"@, Json::Array(render_list(should))),
            ];
            assert(parse_clauses(b, "must"@) == Some(must) && parse_clauses(b, "must_not"@) == Some(
                must_not,
            ) && parse_clauses(b, "should"@) == Some(should)) by {
                lemma_clause_keys_differ();
                lemma_find_first(b, "must"@, 0);
                lemma_find_first(b, "must_not"@, 1);
                lemma_find_first(b, "should"@, 2);
            }
            assert(render_query(q) == single("bool"@, Json::Object(b)));
            lemma_form_keys_differ();
        },
        _ => lemma_round_trip_flat(q),
    }
}

fn object(entries: Vec<(String, JsonValue)>) -> (r: JsonValue)
    ensures
        r@ == Json::Object(entries_view(entries)),
{
    JsonValue::Object(entries)
}

fn single_exec(k: &str, v: JsonValue) -> (r: JsonValue)
    ensures
        r@ == single(k@, v@),
{
    let mut e: Vec<(String, JsonValue)> = Vec::new();
    e.push((String::from_str(k), v));
    let r = object(e);
    assert(entries_view(e) =~= seq![(k@, v@)]);
    r
}

fn number_exec(n: &Number) -> (r: JsonValue)
    ensures
        r@ == number_json(crate::query::number_view(*n)),
{
    match n {
        Number::Int(i) => JsonValue::Number(*i),
        Number::Decimal(s) => JsonValue::Decimal(s.clone()),
    }
}

fn opt_number_exec(n: &Option<Number>) -> (r: JsonValue)
    ensures
        r@ == opt_number_json(crate::query::opt_number_view(*n)),
{
    match n {
        Some(n) => number_exec(n),
        None => JsonValue::Null,
    }
}

fn strs_exec(v: &Vec<String>) -> (r: JsonValue)
    ensures
        r@ == strs_json(strings_view(*v)),
{
    let mut out: Vec<JsonValue> = Vec::new();
    let mut i: usize = 0;
    while i < v.len()
        invariant
            i <= v@.len(),
            out@.len() == i,
            forall|k: int| 0 <= k < i ==> json_of(#[trigger] out@[k]) == Json::Str(v@[k]@),
        decreases v@.len() - i,
    {
        out.push(JsonValue::Str(v[i].clone()));
        i = i + 1;
    }
    let r = JsonValue::Array(out);
    assert(items_view(out) =~= Seq::new(v@.len(), |k: int| Json::Str(strings_view(*v)[k])));
    r
}

fn entries4(
    k0: &str,
    v0: JsonValue,
    k1: &str,
    v1: JsonValue,
    k2: &str,
    v2: JsonValue,
    k3: &str,
    v3: JsonValue,
) -> (r: Vec<(String, JsonValue)>)
    ensures
        entries_view(r) == seq![(k0@, v0@), (k1@, v1@), (k2@, v2@), (k3@, v3@)],
{
    let mut e: Vec<(String, JsonValue)> = Vec::new();
    e.push((String::from_str(k0), v0));
    e.push((String::from_str(k1), v1));
    e.push((String::from_str(k2), v2));
    e.push((String::from_str(k3), v3));
    assert(entries_view(e) =~= seq![(k0@, v0@), (k1@, v1@), (k2@, v2@), (k3@, v3@)]);
    e
}

fn entries3(k0: &str, v0: JsonValue, k1: &str, v1: JsonValue, k2: &str, v2: JsonValue) -> (r: Vec<
    (String, JsonValue),
>)
    ensures
        entries_view(r) == seq![(k0@, v0@), (k1@, v1@), (k2@, v2@)],
{
    let mut e: Vec<(String, JsonValue)> = Vec::new();
    e.push((String::from_str(k0), v0));
    e.push((String::from_str(k1), v1));
    e.push((String::from_str(k2), v2));
    assert(entries_view(e) =~= seq![(k0@, v0@), (k1@, v1@), (k2@, v2@)]);
    e
}

fn entries2(k0: &str, v0: JsonValue, k1: &str, v1: JsonValue) -> (r: Vec<(String, JsonValue)>)
    ensures
        entries_view(r) == seq![(k0@, v0@), (k1@, v1@)],
{
    let mut e: Vec<(String, JsonValue)> = Vec::new();
    e.push((String::from_str(k0), v0));
    e.push((String::from_str(k1), v1));
    assert(entries_view(e) =~= seq![(k0@, v0@), (k1@, v1@)]);
    e
}

fn render_vec(v: &Vec<Query>) -> (r: JsonValue)
    ensures
        r@ == Json::Array(render_list(queries_view(*v))),
    decreases v,
{
    let mut out: Vec<JsonValue> = Vec::new();
    let mut i: usize = 0;
    while i < v.len()
        invariant
            i <= v@.len(),
            out@.len() == i,
            forall|k: int| 0 <= k < i ==> json_of(#[trigger] out@[k]) == render_query(query_view(v@[k])),
        decreases v@.len() - i,
    {
        out.push(v[i].to_json());
        i = i + 1;
    }
    let r = JsonValue::Array(out);
    assert(items_view(out) =~= render_list(queries_view(*v)));
    r
}

fn slop_exec(o: Option<u32>) -> (r: JsonValue)
    ensures
        r@ == opt_int_json(crate::query::opt_u32_view(o)),
{
    match o {
        Some(n) => JsonValue::Number(n as i128),
        None => JsonValue::Null,
    }
}

fn phrase_json(p: &PhraseQuery) -> (res: JsonValue)
    ensures
        res@ == render_query(query_view(Query::Phrase(*p))),
{
    let body = object(entries2("terms", strs_exec(&p.terms), "slop", slop_exec(p.slop)));
    single_exec("phrase", single_exec(p.field.as_str(), body))
}

fn fuzzy_json(f: &FuzzyQuery) -> (res: JsonValue)
    ensures
        res@ == render_query(query_view(Query::Fuzzy(*f))),
{
    let body = object(
        entries3(
            "value",
            JsonValue::Str(f.value.clone()),
            "distance",
            JsonValue::Number(f.distance as i128),
            "transposition",
            JsonValue::Bool(f.transposition),
        ),
    );
    single_exec("fuzzy", single_exec(f.field.as_str(), body))
}

fn range_json(q: &RangeQuery) -> (res: JsonValue)
    ensures
        res@ == render_query(query_view(Query::Range(*q))),
{
    let body = object(
        entries4(
            "gt",
            opt_number_exec(&q.gt),
            "gte",
            opt_number_exec(&q.gte),
            "lt",
            opt_number_exec(&q.lt),
            "lte",
            opt_number_exec(&q.lte),
        ),
    );
    single_exec("range", single_exec(q.field.as_str(), body))
}

fn exact_json(t: &ExactTerm) -> (res: JsonValue)
    ensures
        res@ == render_query(query_view(Query::Exact(*t))),
{
    let v = JsonValue::Str(t.value.clone());
    single_exec("term", single_exec(t.field.as_str(), v))
}

fn regex_json(t: &RegexQuery) -> (res: JsonValue)
    ensures
        res@ == render_query(query_view(Query::Regex(*t))),
{
    let v = JsonValue::Str(t.pattern.clone());
    single_exec("regex", single_exec(t.field.as_str(), v))
}

impl Query {
    /// The JSON form of the query.
    pub fn to_json(&self) -> (res: JsonValue)
        ensures
            res@ == render_query(self@),
        decreases self,
    {
        match self {
            Query::Exact(t) => exact_json(t),
            Query::Regex(t) => regex_json(t),
            Query::Raw { raw } => single_exec("raw", JsonValue::Str(raw.clone())),
            Query::All => JsonValue::Str(String::from_str("all")),
            Query::Phrase(p) => phrase_json(p),
            Query::Fuzzy(f) => fuzzy_json(f),
            Query::Range(q) => range_json(q),
            Query::Boolean(b) => {
                let body = object(
                    entries3(
                        "must",
                        render_vec(&b.must),
                        "must_not",
                        render_vec(&b.must_not),
                        "should",
                        render_vec(&b.should),
                    ),
                );
                single_exec("bool", body)
            },
        }
    }
}

/// Whether an executable parse result is the one the grammar gives.
pub open spec fn parsed_as(r: Option<Query>, v: Option<QueryView>) -> bool {
    match v {
        Some(q) => r matches Some(x) && x@ == q,
        None => r is None,
    }
}

fn find_key_exec(e: &Vec<(String, JsonValue)>, k: &str) -> (r: Option<usize>)
    ensures
        match find_key(entries_view(*e), k@) {
            Some(i) => r matches Some(x) && x as int == i && x < e@.len(),
            None => r is None,
        },
{
    let ghost ev = entries_view(*e);
    let mut i: usize = 0;
    while i < e.len()
        invariant
            ev == entries_view(*e),
            i <= e@.len(),
            forall|j: int| 0 <= j < i ==> (#[trigger] ev[j]).0 != k@,
        decreases e@.len() - i,
    {
        if str_eq(e[i].0.as_str(), k) {
            proof {
                lemma_find_first(ev, k@, i as int);
            }
            return Some(i);
        }
        i = i + 1;
    }
    proof {
        reveal(find_key);
    }
    None
}

fn get_exec<'a>(e: &'a Vec<(String, JsonValue)>, k: &str) -> (r: Option<&'a JsonValue>)
    ensures
        match get(entries_view(*e), k@) {
            Some(v) => r matches Some(x) && x@ == v,
            None => r is None,
        },
{
    match find_key_exec(e, k) {
        Some(i) => {
            assert(entries_view(*e)[i as int].1 == json_of(e@[i as int].1));
            Some(&e[i].1)
        },
        None => None,
    }
}

fn field_body_exec(j: &JsonValue) -> (r: Option<(&String, &JsonValue)>)
    ensures
        match field_body(j@) {
            Some((f, b)) => r matches Some((x, y)) && x@ == f && y@ == b,
            None => r is None,
        },
{
    match j {
        JsonValue::Object(e) => if e.len() == 1 {
            Some((&e[0].0, &e[0].1))
        } else {
            None
        },
        _ => None,
    }
}

fn strs_parse(items: &Vec<JsonValue>) -> (r: Option<Vec<String>>)
    ensures
        match strs_of(items_view(*items)) {
            Some(ss) => r matches Some(v) && strings_view(v) == ss,
            None => r is None,
        },
{
    let ghost iv = items_view(*items);
    let mut out: Vec<String> = Vec::new();
    let mut i: usize = 0;
    while i < items.len()
        invariant
            iv == items_view(*items),
            i <= items@.len(),
            out@.len() == i,
            forall|k: int| 0 <= k < i ==> (#[trigger] iv[k]) == Json::Str(out@[k]@),
        decreases items@.len() - i,
    {
        match &items[i] {
            JsonValue::Str(s) => {
                out.push(s.clone());
            },
            _ => {
                assert(!(iv[i as int] is Str));
                return None;
            },
        }
        i = i + 1;
    }
    assert(strings_view(out) =~= Seq::new(iv.len(), |k: int| iv[k]->Str_0));
    Some(out)
}

fn number_parse(j: &JsonValue) -> (r: Option<Number>)
    ensures
        match number_of(j@) {
            Some(n) => r matches Some(x) && crate::query::number_view(x) == n,
            None => r is None,
        },
{
    match j {
        JsonValue::Number(n) => Some(Number::Int(*n)),
        JsonValue::Decimal(s) => Some(Number::Decimal(s.clone())),
        _ => None,
    }
}

fn bound_parse(p: &Vec<(String, JsonValue)>, k: &str) -> (r: Option<Option<Number>>)
    ensures
        match bound_of(entries_view(*p), k@) {
            Some(b) => r matches Some(x) && crate::query::opt_number_view(x) == b,
            None => r is None,
        },
{
    match get_exec(p, k) {
        None => Some(None),
        Some(JsonValue::Null) => Some(None),
        Some(j) => match number_parse(j) {
            Some(n) => Some(Some(n)),
            None => None,
        },
    }
}

fn parse_exact_exec(j: &JsonValue) -> (r: Option<Query>)
    ensures
        parsed_as(r, parse_exact(j@)),
{
    match field_body_exec(j) {
        Some((f, JsonValue::Str(v))) => Some(Query::Exact(ExactTerm { field: f.clone(), value: v.clone() })),
        _ => None,
    }
}

fn parse_regex_exec(j: &JsonValue) -> (r: Option<Query>)
    ensures
        parsed_as(r, parse_regex(j@)),
{
    match field_body_exec(j) {
        Some((f, JsonValue::Str(v))) => Some(
            Query::Regex(RegexQuery { field: f.clone(), pattern: v.clone() }),
        ),
        _ => None,
    }
}

fn parse_phrase_exec(j: &JsonValue) -> (r: Option<Query>)
    ensures
        parsed_as(r, parse_phrase(j@)),
{
    let (f, body) = match field_body_exec(j) {
        Some(x) => x,
        None => {
            return None;
        },
    };
    let p = match body {
        JsonValue::Object(p) => p,
        _ => {
            return None;
        },
    };
    let items = match get_exec(p, "terms") {
        Some(JsonValue::Array(items)) => items,
        _ => {
            return None;
        },
    };
    let terms = match strs_parse(items) {
        Some(t) => t,
        None => {
            return None;
        },
    };
    let slop = match get_exec(p, "slop") {
        None => None,
        Some(JsonValue::Null) => None,
        Some(JsonValue::Number(n)) => if 0 <= *n && *n <= u32::MAX as i128 {
            Some(*n as u32)
        } else {
            return None;
        },
        _ => {
            return None;
        },
    };
    Some(Query::Phrase(PhraseQuery { field: f.clone(), terms, slop }))
}

fn parse_fuzzy_exec(j: &JsonValue) -> (r: Option<Query>)
    ensures
        parsed_as(r, parse_fuzzy(j@)),
{
    let (f, body) = match field_body_exec(j) {
        Some(x) => x,
        None => {
            return None;
        },
    };
    let p = match body {
        JsonValue::Object(p) => p,
        _ => {
            return None;
        },
    };
    let value = match get_exec(p, "value") {
        Some(JsonValue::Str(v)) => v,
        _ => {
            return None;
        },
    };
    let distance: u8 = match get_exec(p, "distance") {
        None => 0,
        Some(JsonValue::Number(n)) => if 0 <= *n && *n <= u8::MAX as i128 {
            *n as u8
        } else {
            return None;
        },
        _ => {
            return None;
        },
    };
    let transposition = match get_exec(p, "transposition") {
        None => false,
        Some(JsonValue::Bool(b)) => *b,
        _ => {
            return None;
        },
    };
    Some(
        Query::Fuzzy(
            FuzzyQuery { field: f.clone(), value: value.clone(), distance, transposition },
        ),
    )
}

fn parse_range_exec(j: &JsonValue) -> (r: Option<Query>)
    ensures
        parsed_as(r, parse_range(j@)),
{
    let (f, body) = match field_body_exec(j) {
        Some(x) => x,
        None => {
            return None;
        },
    };
    let p = match body {
        JsonValue::Object(p) => p,
        _ => {
            return None;
        },
    };
    let gt = bound_parse(p, "gt");
    let gte = bound_parse(p, "gte");
    let lt = bound_parse(p, "lt");
    let lte = bound_parse(p, "lte");
    match (gt, gte, lt, lte) {
        (Some(gt), Some(gte), Some(lt), Some(lte)) => Some(
            Query::Range(RangeQuery { field: f.clone(), gt, gte, lt, lte }),
        ),
        _ => None,
    }
}

pub proof fn lemma_parse_list_prefix(items: Seq<Json>, k: int)
    requires
        0 <= k <= items.len(),
        parse_list(items.take(k)) is None,
    ensures
        parse_list(items) is None,
    decreases items.len() - k,
{
    if k < items.len() {
        assert(items.drop_last().take(k) == items.take(k));
        lemma_parse_list_prefix(items.drop_last(), k);
    } else {
        assert(items.take(k) == items);
    }
}

fn parse_list_exec(items: &Vec<JsonValue>) -> (r: Option<Vec<Query>>)
    ensures
        match parse_list(items_view(*items)) {
            Some(qs) => r matches Some(v) && queries_view(v) == qs,
            None => r is None,
        },
    decreases items,
{
    let ghost iv = items_view(*items);
    let mut out: Vec<Query> = Vec::new();
    let mut i: usize = 0;
    assert(iv.take(0) =~= Seq::<Json>::empty());
    assert(queries_view(out) =~= Seq::<QueryView>::empty());
    while i < items.len()
        invariant
            iv == items_view(*items),
            i <= items@.len(),
            parse_list(iv.take(i as int)) matches Some(qs) && qs == queries_view(out),
        decreases items@.len() - i,
    {
        assert(iv.take(i as int + 1).drop_last() == iv.take(i as int));
        assert(iv[i as int] == json_of(items@[i as int]));
        match parse_query_exec(&items[i]) {
            None => {
                proof {
                    lemma_parse_list_prefix(iv, i + 1);
                }
                return None;
            },
            Some(q) => {
                let ghost before = out;
                out.push(q);
                assert(queries_view(out) =~= queries_view(before).push(q@));
            },
        }
        i = i + 1;
    }
    assert(iv.take(i as int) == iv);
    Some(out)
}

fn parse_clauses_exec(b: &Vec<(String, JsonValue)>, k: &str) -> (r: Option<Vec<Query>>)
    ensures
        match parse_clauses(entries_view(*b), k@) {
            Some(qs) => r matches Some(v) && queries_view(v) == qs,
            None => r is None,
        },
    decreases b,
{
    match find_key_exec(b, k) {
        None => {
            let v: Vec<Query> = Vec::new();
            assert(queries_view(v) =~= Seq::<QueryView>::empty());
            Some(v)
        },
        Some(i) => {
            assert(entries_view(*b)[i as int].1 == json_of(b@[i as int].1));
            match &b[i].1 {
                JsonValue::Array(items) => parse_list_exec(items),
                _ => None,
            }
        },
    }
}

fn parse_bool_exec(body: &JsonValue) -> (r: Option<Query>)
    ensures
        parsed_as(
            r,
            match body@ {
                Json::Object(b) => match (
                    parse_clauses(b, "must"@),
                    parse_clauses(b, "must_not"@),
                    parse_clauses(b, "should"@),
                ) {
                    (Some(must), Some(must_not), Some(should)) => Some(
                        QueryView::Boolean { must, must_not, should },
                    ),
                    _ => None,
                },
                _ => None,
            },
        ),
    decreases body,
{
    match body {
        JsonValue::Object(b) => {
            let must = parse_clauses_exec(b, "must");
            let must_not = parse_clauses_exec(b, "must_not");
            let should = parse_clauses_exec(b, "should");
            match (must, must_not, should) {
                (Some(must), Some(must_not), Some(should)) => Some(
                    Query::Boolean(BoolQuery { must, must_not, should }),
                ),
                _ => None,
            }
        },
        _ => None,
    }
}

fn parse_query_exec(j: &JsonValue) -> (r: Option<Query>)
    ensures
        parsed_as(r, parse_query(j@)),
    decreases j,
{
    match j {
        JsonValue::Str(s) => if str_eq(s.as_str(), "all") {
            Some(Query::All)
        } else {
            None
        },
        JsonValue::Object(e) => {
            if e.len() != 1 {
                return None;
            }
            let key = e[0].0.as_str();
            let body = &e[0].1;
            assert(entries_view(*e)[0] == (e@[0].0@, json_of(e@[0].1)));
            if str_eq(key, "term") {
                parse_exact_exec(body)
            } else if str_eq(key, "phrase") {
                parse_phrase_exec(body)
            } else if str_eq(key, "fuzzy") {
                parse_fuzzy_exec(body)
            } else if str_eq(key, "regex") {
                parse_regex_exec(body)
            } else if str_eq(key, "range") {
                parse_range_exec(body)
            } else if str_eq(key, "raw") {
                match body {
                    JsonValue::Str(s) => Some(Query::Raw { raw: s.clone() }),
                    _ => None,
                }
            } else if str_eq(key, "bool") {
                parse_bool_exec(body)
            } else {
                None
            }
        },
        _ => None,
    }
}

impl Query {
    /// Reads a query from its JSON form; anything that matches no form of
    /// the language is a query error.
    pub fn from_json(j: &JsonValue) -> (r: Result<Query, Error>)
        ensures
            parse_query(j@) matches Some(v) ==> (r matches Ok(q) && q@ == v),
            parse_query(j@) is None ==> (r matches Err(e) && e@ == ErrorView::QueryError(
                BAD_QUERY@,
            )),
    {
        match parse_query_exec(j) {
            Some(q) => Ok(q),
            None => Err(query_error(BAD_QUERY)),
        }
    }
}

/// The mathematical form of a [`Request`].
pub struct RequestView {
    pub aggs: Option<Seq<char>>,
    pub query: Option<QueryView>,
    pub facets: Seq<(Seq<char>, Seq<Seq<char>>)>,
    pub limit: int,
}

pub open spec fn facets_view(v: Vec<FacetRequest>) -> Seq<(Seq<char>, Seq<Seq<char>>)> {
    Seq::new(v@.len(), |i: int| (v@[i].field@, strings_view(v@[i].paths)))
}

pub open spec fn request_view(r: Request) -> RequestView {
    RequestView {
        aggs: match r.aggs {
            Some(Metrics::SumAgg { field }) => Some(field@),
            None => None,
        },
        query: match r.query {
            Some(q) => Some(q@),
            None => None,
        },
        facets: facets_view(r.facets),
        limit: r.limit as int,
    }
}

/// The facet requests of a `{ field: [path, ...], ... }` object.
pub open spec fn parse_facets(fe: Seq<(Seq<char>, Json)>) -> Option<Seq<(Seq<char>, Seq<Seq<char>>)>> {
    if forall|i: int|
        0 <= i < fe.len() ==> ((#[trigger] fe[i]).1 matches Json::Array(items) && strs_of(items) is Some) {
        Some(Seq::new(fe.len(), |i: int| (fe[i].0, strs_of(fe[i].1->Array_0)->Some_0)))
    } else {
        None
    }
}

/// The search request a JSON object writes, if it writes one. Every key may
/// be left out or be null: the query then matches every document, no sum or
/// facet count is made, and the limit is the default one.
pub open spec fn parse_request(j: Json) -> Option<RequestView> {
    match j {
        Json::Object(e) => {
            let query = match get(e, "query"@) {
                None => Some(None),
                Some(Json::Null) => Some(None),
                Some(q) => match parse_query(q) {
                    Some(v) => Some(Some(v)),
                    None => None,
                },
            };
            let aggs = match get(e, "aggs"@) {
                None => Some(None),
                Some(Json::Null) => Some(None),
                Some(Json::Object(a)) => match get(a, "field"@) {
                    Some(Json::Str(f)) => Some(Some(f)),
                    _ => None,
                },
                _ => None,
            };
            let facets = match get(e, "facets"@) {
                None => Some(Seq::empty()),
                Some(Json::Null) => Some(Seq::empty()),
                Some(Json::Object(fe)) => parse_facets(fe),
                _ => None,
            };
            let limit = match get(e, "limit"@) {
                None => Some(DEFAULT_RESULT_LIMIT as int),
                Some(Json::Null) => Some(DEFAULT_RESULT_LIMIT as int),
                Some(Json::Number(n)) => if 0 <= n <= usize::MAX {
                    Some(n)
                } else {
                    None
                },
                _ => None,
            };
            match (query, aggs, facets, limit) {
                (Some(query), Some(aggs), Some(facets), Some(limit)) => Some(
                    RequestView { aggs, query, facets, limit },
                ),
                _ => None,
            }
        },
        _ => None,
    }
}

pub open spec fn render_facets(fs: Seq<(Seq<char>, Seq<Seq<char>>)>) -> Json {
    Json::Object(Seq::new(fs.len(), |i: int| (fs[i].0, strs_json(fs[i].1))))
}

pub open spec fn opt_query_json(q: Option<QueryView>) -> Json {
    match q {
        Some(q) => render_query(q),
        None => Json::Null,
    }
}

pub open spec fn aggs_json(a: Option<Seq<char>>) -> Json {
    match a {
        Some(f) => single("field"@, Json::Str(f)),
        None => Json::Null,
    }
}

/// The JSON form of a search request.
pub open spec fn render_request(r: RequestView) -> Json {
    Json::Object(
        seq![
            ("query"@, opt_query_json(r.query)),
            ("aggs"@, aggs_json(r.aggs)),
            ("facets"@, render_facets(r.facets)),
            ("limit"@, Json::Number(r.limit)),
        ],
    )
}

proof fn lemma_request_keys_differ()
    ensures
        "query"@ != "aggs"@,
        "query"@ != "facets"@,
        "query"@ != "limit"@,
        "aggs"@ != "facets"@,
        "aggs"@ != "limit"@,
        "facets"@ != "limit"@,
{
    reveal_strlit("query");
    reveal_strlit("aggs");
    reveal_strlit("facets");
    reveal_strlit("limit");
    assert("query"@.len() == 5 && "aggs"@.len() == 4 && "facets"@.len() == 6 && "limit"@.len() == 5);
    assert("query"@[0] != "limit"@[0]);
}

/// A search request written out as JSON reads back as the same request.
pub proof fn lemma_request_round_trip(r: RequestView)
    requires
        r.query matches Some(q) ==> wf_query(q),
        0 <= r.limit <= usize::MAX,
    ensures
        parse_request(render_request(r)) == Some(r),
{
    let qj = opt_query_json(r.query);
    let aj = aggs_json(r.aggs);
    let e = seq![
        ("query"@, qj),
        ("aggs"@, aj),
        ("facets"@, render_facets(r.facets)),
        ("limit"@, Json::Number(r.limit)),
    ];
    lemma_request_keys_differ();
    lemma_find_first(e, "query"@, 0);
    lemma_find_first(e, "aggs"@, 1);
    lemma_find_first(e, "facets"@, 2);
    lemma_find_first(e, "limit"@, 3);
    if let Some(q) = r.query {
        lemma_round_trip(q);
        assert(qj != Json::Null) by {
            reveal_strlit("all");
        }
    }
    if let Some(f) = r.aggs {
        lemma_find_first(seq![("field"@, Json::Str(f))], "field"@, 0);
    }
    let fe = Seq::new(r.facets.len(), |i: int| (r.facets[i].0, strs_json(r.facets[i].1)));
    assert forall|i: int| 0 <= i < fe.len() implies strs_of(#[trigger] fe[i].1->Array_0) == Some(
        r.facets[i].1,
    ) by {
        let items = fe[i].1->Array_0;
        assert(Seq::new(items.len(), |k: int| items[k]->Str_0) =~= r.facets[i].1);
    }
    assert(parse_facets(fe) == Some(r.facets)) by {
        assert(Seq::new(fe.len(), |i: int| (fe[i].0, strs_of(fe[i].1->Array_0)->Some_0)) =~= r.facets);
    }
    assert(render_request(r) == Json::Object(e));
    assert(get(e, "query"@) == Some(qj));
    assert(get(e, "aggs"@) == Some(aj));
    assert(get(e, "facets"@) == Some(render_facets(r.facets)));
    assert(get(e, "limit"@) == Some(Json::Number(r.limit)));
    assert(render_facets(r.facets) == Json::Object(fe));
}

/// Every query the library can hold has numbers that fit their types.
pub proof fn lemma_query_view_wf(q: Query)
    ensures
        wf_query(q@),
    decreases q,
{
    if let Query::Boolean(b) = q {
        lemma_queries_view_wf(b.must);
        lemma_queries_view_wf(b.must_not);
        lemma_queries_view_wf(b.should);
    }
}

pub proof fn lemma_queries_view_wf(v: Vec<Query>)
    ensures
        wf_list(queries_view(v)),
    decreases v,
{
    assert forall|i: int| 0 <= i < v.len() implies wf_query(#[trigger] queries_view(v)[i]) by {
        lemma_query_view_wf(v[i]);
    }
    lemma_wf_list_all(queries_view(v));
}

proof fn lemma_wf_list_all(s: Seq<QueryView>)
    requires
        forall|i: int| 0 <= i < s.len() ==> wf_query(#[trigger] s[i]),
    ensures
        wf_list(s),
    decreases s.len(),
{
    if s.len() > 0 {
        assert forall|i: int| 0 <= i < s.drop_last().len() implies wf_query(
            #[trigger] s.drop_last()[i],
        ) by {
            assert(s.drop_last()[i] == s[i]);
        }
        lemma_wf_list_all(s.drop_last());
    }
}

/// A search request written out as JSON by [`Request::to_json`] reads back,
/// by [`Request::from_json`], as the same request.
pub proof fn lemma_search_round_trip(r: Request)
    ensures
        parse_request(render_request(request_view(r))) == Some(request_view(r)),
{
    if let Some(q) = r.query {
        lemma_query_view_wf(q);
    }
    lemma_request_round_trip(request_view(r));
}

fn facets_exec(fs: &Vec<FacetRequest>) -> (r: JsonValue)
    ensures
        r@ == render_facets(facets_view(*fs)),
{
    let ghost want = facets_view(*fs);
    let mut e: Vec<(String, JsonValue)> = Vec::new();
    let mut i: usize = 0;
    while i < fs.len()
        invariant
            i <= fs@.len(),
            want.len() == fs@.len(),
            want == Seq::new(fs@.len(), |k: int| (fs@[k].field@, strings_view(fs@[k].paths))),
            e@.len() == i,
            forall|k: int|
                0 <= k < i ==> (#[trigger] e@[k]).0@ == want[k].0 && json_of(e@[k].1) == strs_json(
                    want[k].1,
                ),
        decreases fs@.len() - i,
    {
        e.push((fs[i].field.clone(), strs_exec(&fs[i].paths)));
        i = i + 1;
    }
    let r = object(e);
    assert(entries_view(e) =~= Seq::new(want.len(), |k: int| (want[k].0, strs_json(want[k].1))));
    r
}

impl Request {
    /// The JSON form of the request; every key is written, null where the
    /// request has nothing.
    pub fn to_json(&self) -> (r: JsonValue)
        ensures
            r@ == render_request(request_view(*self)),
    {
        let query = match &self.query {
            Some(q) => q.to_json(),
            None => JsonValue::Null,
        };
        let aggs = match &self.aggs {
            Some(Metrics::SumAgg { field }) => single_exec("field", JsonValue::Str(field.clone())),
            None => JsonValue::Null,
        };
        let facets = facets_exec(&self.facets);
        let e = entries4(
            "query",
            query,
            "aggs",
            aggs,
            "facets",
            facets,
            "limit",
            JsonValue::Number(self.limit as i128),
        );
        proof {
            let v = request_view(*self);
            assert(query@ == opt_query_json(v.query));
            assert(aggs@ == aggs_json(v.aggs));
        }
        object(e)
    }
}

fn parse_facets_exec(fe: &Vec<(String, JsonValue)>) -> (r: Option<Vec<FacetRequest>>)
    ensures
        match parse_facets(entries_view(*fe)) {
            Some(fs) => r matches Some(v) && facets_view(v) == fs,
            None => r is None,
        },
{
    let ghost ev = entries_view(*fe);
    let mut out: Vec<FacetRequest> = Vec::new();
    let mut i: usize = 0;
    while i < fe.len()
        invariant
            ev == entries_view(*fe),
            i <= fe@.len(),
            out@.len() == i,
            forall|k: int|
                0 <= k < i ==> ((#[trigger] ev[k]).1 matches Json::Array(items) && strs_of(items)
                    == Some(strings_view(out@[k].paths))) && ev[k].0 == out@[k].field@,
        decreases fe@.len() - i,
    {
        assert(ev[i as int] == (fe@[i as int].0@, json_of(fe@[i as int].1)));
        match &fe[i].1 {
            JsonValue::Array(items) => match strs_parse(items) {
                Some(paths) => {
                    out.push(FacetRequest { field: fe[i].0.clone(), paths });
                },
                None => {
                    return None;
                },
            },
            _ => {
                return None;
            },
        }
        i = i + 1;
    }
    assert(facets_view(out) =~= Seq::new(
        ev.len(),
        |k: int| (ev[k].0, strs_of(ev[k].1->Array_0)->Some_0),
    ));
    Some(out)
}

impl Request {
    /// Reads a search request from its JSON form; a malformed one is a query
    /// error.
    pub fn from_json(j: &JsonValue) -> (r: Result<Request, Error>)
        ensures
            parse_request(j@) matches Some(v) ==> (r matches Ok(x) && request_view(x) == v),
            parse_request(j@) is None ==> (r matches Err(e) && e@ == ErrorView::QueryError(
                BAD_REQUEST@,
            )),
    {
        let e = match j {
            JsonValue::Object(e) => e,
            _ => {
                return Err(query_error(BAD_REQUEST));
            },
        };
        let query = match get_exec(e, "query") {
            None => None,
            Some(JsonValue::Null) => None,
            Some(q) => match parse_query_exec(q) {
                Some(v) => Some(v),
                None => {
                    return Err(query_error(BAD_REQUEST));
                },
            },
        };
        let aggs = match get_exec(e, "aggs") {
            None => None,
            Some(JsonValue::Null) => None,
            Some(JsonValue::Object(a)) => match get_exec(a, "field") {
                Some(JsonValue::Str(f)) => Some(Metrics::SumAgg { field: f.clone() }),
                _ => {
                    return Err(query_error(BAD_REQUEST));
                },
            },
            _ => {
                return Err(query_error(BAD_REQUEST));
            },
        };
        let facets = match get_exec(e, "facets") {
            None => Vec::new(),
            Some(JsonValue::Null) => Vec::new(),
            Some(JsonValue::Object(fe)) => match parse_facets_exec(fe) {
                Some(v) => v,
                None => {
                    return Err(query_error(BAD_REQUEST));
                },
            },
            _ => {
                return Err(query_error(BAD_REQUEST));
            },
        };
        let limit: usize = match get_exec(e, "limit") {
            None => DEFAULT_RESULT_LIMIT,
            Some(JsonValue::Null) => DEFAULT_RESULT_LIMIT,
            Some(JsonValue::Number(n)) => if 0 <= *n && *n <= usize::MAX as i128 {
                *n as usize
            } else {
                return Err(query_error(BAD_REQUEST));
            },
            _ => {
                return Err(query_error(BAD_REQUEST));
            },
        };
        let r = Request { aggs, query, facets, limit };
        proof {
            if facets@.len() == 0 {
                assert(facets_view(facets) =~= Seq::<(Seq<char>, Seq<Seq<char>>)>::empty());
            }
        }
        Ok(r)
    }
}

pub const BAD_MUTATION: &'static str = "Bad JSON body: the mutation is malformed";

/// The commit flag of an `options` entry: absent or null is no options, an
/// object without `commit` does not commit.
pub open spec fn parse_options(v: Option<Json>) -> Option<Option<bool>> {
    match v {
        None => Some(None),
        Some(Json::Null) => Some(None),
        Some(Json::Object(o)) => match get(o, "commit"@) {
            None => Some(Some(false)),
            Some(Json::Bool(b)) => Some(Some(b)),
            _ => None,
        },
        _ => None,
    }
}

pub open spec fn options_view(o: Option<IndexOptions>) -> Option<bool> {
    match o {
        Some(x) => Some(x.commit),
        None => None,
    }
}

pub open spec fn pairs_view(v: Vec<(String, String)>) -> Seq<(Seq<char>, Seq<char>)> {
    Seq::new(v@.len(), |i: int| (v@[i].0@, v@[i].1@))
}

/// A delete request: `{ "options"?: { "commit": bool }, "terms": { field: text, ... } }`.
pub open spec fn parse_delete(j: Json) -> Option<(Option<bool>, Seq<(Seq<char>, Seq<char>)>)> {
    match j {
        Json::Object(e) => match (parse_options(get(e, "options"@)), get(e, "terms"@)) {
            (Some(o), Some(Json::Object(t))) => if forall|i: int|
                0 <= i < t.len() ==> (#[trigger] t[i]).1 is Str {
                Some((o, Seq::new(t.len(), |i: int| (t[i].0, t[i].1->Str_0))))
            } else {
                None
            },
            _ => None,
        },
        _ => None,
    }
}

/// An add request: `{ "options"?: { "commit": bool }, "document": { ... } }`.
pub open spec fn parse_add(j: Json) -> Option<(Option<bool>, Json)> {
    match j {
        Json::Object(e) => match (parse_options(get(e, "options"@)), get(e, "document"@)) {
            (Some(o), Some(d)) => if d is Object {
                Some((o, d))
            } else {
                None
            },
            _ => None,
        },
        _ => None,
    }
}

fn options_exec(e: &Vec<(String, JsonValue)>) -> (r: Option<Option<IndexOptions>>)
    ensures
        match parse_options(get(entries_view(*e), "options"@)) {
            Some(o) => r matches Some(x) && options_view(x) == o,
            None => r is None,
        },
{
    match get_exec(e, "options") {
        None => Some(None),
        Some(JsonValue::Null) => Some(None),
        Some(JsonValue::Object(o)) => match get_exec(o, "commit") {
            None => Some(Some(IndexOptions { commit: false })),
            Some(JsonValue::Bool(b)) => Some(Some(IndexOptions { commit: *b })),
            _ => None,
        },
        _ => None,
    }
}

impl DeleteDoc {
    /// Reads a delete-by-term request from its JSON form.
    pub fn from_json(j: &JsonValue) -> (r: Result<DeleteDoc, Error>)
        ensures
            parse_delete(j@) matches Some((o, ts)) ==> (r matches Ok(d) && options_view(d.options)
                == o && pairs_view(d.terms) == ts),
            parse_delete(j@) is None ==> (r matches Err(e) && e@ == ErrorView::QueryError(
                BAD_MUTATION@,
            )),
    {
        let e = match j {
            JsonValue::Object(e) => e,
            _ => {
                return Err(query_error(BAD_MUTATION));
            },
        };
        let options = match options_exec(e) {
            Some(o) => o,
            None => {
                return Err(query_error(BAD_MUTATION));
            },
        };
        let t = match get_exec(e, "terms") {
            Some(JsonValue::Object(t)) => t,
            _ => {
                return Err(query_error(BAD_MUTATION));
            },
        };
        let ghost tv = entries_view(*t);
        assert(j@ == Json::Object(entries_view(*e)));
        assert(get(entries_view(*e), "terms"@) == Some(Json::Object(tv)));
        let mut terms: Vec<(String, String)> = Vec::new();
        let mut i: usize = 0;
        while i < t.len()
            invariant
                tv == entries_view(*t),
                i <= t@.len(),
                terms@.len() == i,
                forall|k: int|
                    0 <= k < i ==> (#[trigger] tv[k]).1 == Json::Str(terms@[k].1@) && tv[k].0
                        == terms@[k].0@,
                j@ == Json::Object(entries_view(*e)),
                get(entries_view(*e), "terms"@) == Some(Json::Object(tv)),
                parse_options(get(entries_view(*e), "options"@)) == Some(options_view(options)),
            decreases t@.len() - i,
        {
            assert(tv[i as int] == (t@[i as int].0@, json_of(t@[i as int].1)));
            match &t[i].1 {
                JsonValue::Str(v) => {
                    terms.push((t[i].0.clone(), v.clone()));
                },
                _ => {
                    assert(!(tv[i as int].1 is Str));
                    return Err(query_error(BAD_MUTATION));
                },
            }
            i = i + 1;
        }
        assert(pairs_view(terms) =~= Seq::new(tv.len(), |k: int| (tv[k].0, tv[k].1->Str_0)));
        Ok(DeleteDoc { options, terms })
    }
}

impl AddDocument {
    /// Reads an add request from its JSON form; the document is taken as it
    /// stands.
    pub fn from_json(j: JsonValue) -> (r: Result<AddDocument, Error>)
        ensures
            parse_add(j@) matches Some((o, d)) ==> (r matches Ok(a) && options_view(a.options) == o
                && a.document@ == d),
            parse_add(j@) is None ==> (r matches Err(e) && e@ == ErrorView::QueryError(
                BAD_MUTATION@,
            )),
    {
        let ghost jv = j@;
        let mut e = match j {
            JsonValue::Object(e) => e,
            _ => {
                return Err(query_error(BAD_MUTATION));
            },
        };
        assert(jv == Json::Object(entries_view(e)));
        let options = match options_exec(&e) {
            Some(o) => o,
            None => {
                return Err(query_error(BAD_MUTATION));
            },
        };
        match find_key_exec(&e, "document") {
            None => Err(query_error(BAD_MUTATION)),
            Some(i) => {
                assert(entries_view(e)[i as int].1 == json_of(e@[i as int].1));
                let document = e.remove(i).1;
                match document {
                    JsonValue::Object(_) => Ok(AddDocument { options, document }),
                    _ => Err(query_error(BAD_MUTATION)),
                }
            },
        }
    }
}

} // verus!

use vstd::prelude::*;

use crate::compile::{compile_spec, numeric_kind, Compiled, NumericKind, Plan};
use crate::error::{query_error, Error, ErrorView};
use crate::query::{strings_view, Query, QueryView};
use crate::schema::{lemma_lookup_bounds, FieldType, Schema};

verus! {

/// The result limit of a request that names none.
pub const DEFAULT_RESULT_LIMIT: usize = 100;

pub const NOT_SUMMABLE: &'static str = "A sum needs a numeric field";

pub const NOT_FACET: &'static str = "Facet counts need a facet field";

/// An aggregation over the matched documents.
pub enum Metrics {
    SumAgg { field: String },
}

/// The facet paths to count under one facet field.
pub struct FacetRequest {
    pub field: String,
    pub paths: Vec<String>,
}

/// A search request: absent `query` means every document.
pub struct Request {
    pub aggs: Option<Metrics>,
    pub query: Option<Query>,
    pub facets: Vec<FacetRequest>,
    pub limit: usize,
}

impl Request {
    pub fn new(query: Option<Query>, aggs: Option<Metrics>, limit: usize) -> (r: Request)
        ensures
            r.query == query,
            r.aggs == aggs,
            r.limit == limit,
            r.facets@.len() == 0,
    {
        Request { query, aggs, facets: Vec::new(), limit }
    }

    /// A request for every document, up to the default limit.
    pub fn all_docs() -> (r: Request)
        ensures
            r.query == Some(Query::All),
            r.aggs is None,
            r.facets@.len() == 0,
            r.limit == DEFAULT_RESULT_LIMIT,
    {
        Request { aggs: None, query: Some(Query::All), facets: Vec::new(), limit: DEFAULT_RESULT_LIMIT }
    }

    /// The same request, counting facets as `facets` asks.
    pub fn with_facets(self, facets: Vec<FacetRequest>) -> (r: Request)
        ensures
            r.query == self.query,
            r.aggs == self.aggs,
            r.limit == self.limit,
            r.facets == facets,
    {
        Request { facets, ..self }
    }
}

/// What the engine runs for a request: the query, how many top documents to
/// return, the numeric field to sum if any, and the facet field and paths to
/// count if any.
pub struct SearchPlan {
    pub query: Compiled,
    pub limit: usize,
    pub sum_field: Option<(u32, NumericKind)>,
    pub facets: Vec<(u32, Vec<String>)>,
}

/// The mathematical form of a [`SearchPlan`].
pub struct SearchPlanView {
    pub query: Plan,
    pub limit: nat,
    pub sum_field: Option<(int, NumericKind)>,
    pub facets: Seq<(int, Seq<Seq<char>>)>,
}

pub open spec fn query_or_all(q: Option<Query>) -> QueryView {
    match q {
        Some(q) => q@,
        None => QueryView::All,
    }
}

/// The field a sum runs over: it must exist and be numeric.
pub open spec fn sum_field_spec(m: Option<Metrics>, s: Schema) -> Result<
    Option<(int, NumericKind)>,
    ErrorView,
> {
    match m {
        None => Ok(None),
        Some(Metrics::SumAgg { field }) => match s.field_id(field@) {
            None => Err(ErrorView::UnknownField(field@)),
            Some(id) => match numeric_kind(s.fields@[id].field_type) {
                None => Err(ErrorView::QueryError(NOT_SUMMABLE@)),
                Some(k) => Ok(Some((id, k))),
            },
        },
    }
}

/// The facet field of one facet request: it must exist and be a facet field.
pub open spec fn facet_field_spec(f: FacetRequest, s: Schema) -> Result<int, ErrorView> {
    match s.field_id(f.field@) {
        None => Err(ErrorView::UnknownField(f.field@)),
        Some(id) => if s.fields@[id].field_type is Facet {
            Ok(id)
        } else {
            Err(ErrorView::QueryError(NOT_FACET@))
        },
    }
}

pub open spec fn paths_view(v: Vec<String>) -> Seq<Seq<char>> {
    strings_view(v)
}

/// The facet fields of `fs` in order; the first failure is the result.
pub open spec fn facets_spec(fs: Seq<FacetRequest>, s: Schema) -> Result<
    Seq<(int, Seq<Seq<char>>)>,
    ErrorView,
>
    decreases fs.len(),
{
    if fs.len() == 0 {
        Ok(Seq::empty())
    } else {
        match facets_spec(fs.drop_last(), s) {
            Err(e) => Err(e),
            Ok(acc) => match facet_field_spec(fs.last(), s) {
                Err(e) => Err(e),
                Ok(id) => Ok(acc.push((id, paths_view(fs.last().paths)))),
            },
        }
    }
}

/// The plan for `r` against `s`: the query is compiled first, then the sum
/// field, then the facet fields in order; the first failure is the result.
pub open spec fn plan_spec(r: Request, s: Schema) -> Result<SearchPlanView, ErrorView> {
    match compile_spec(query_or_all(r.query), s) {
        Err(e) => Err(e),
        Ok(q) => match sum_field_spec(r.aggs, s) {
            Err(e) => Err(e),
            Ok(sum) => match facets_spec(r.facets@, s) {
                Err(e) => Err(e),
                Ok(facets) => Ok(SearchPlanView { query: q, limit: r.limit as nat, sum_field: sum, facets }),
            },
        },
    }
}

pub proof fn lemma_facets_prefix(fs: Seq<FacetRequest>, s: Schema, k: int)
    requires
        0 <= k <= fs.len(),
        facets_spec(fs.take(k), s) is Err,
    ensures
        facets_spec(fs, s) == facets_spec(fs.take(k), s),
    decreases fs.len() - k,
{
    if k < fs.len() {
        assert(fs.drop_last().take(k) == fs.take(k));
        lemma_facets_prefix(fs.drop_last(), s, k);
    } else {
        assert(fs.take(k) == fs);
    }
}

pub open spec fn sum_view(f: Option<(u32, NumericKind)>) -> Option<(int, NumericKind)> {
    match f {
        Some((id, k)) => Some((id as int, k)),
        None => None,
    }
}

impl SearchPlan {
    pub open spec fn view_of(&self) -> SearchPlanView {
        SearchPlanView {
            query: self.query@,
            limit: self.limit as nat,
            sum_field: sum_view(self.sum_field),
            facets: Seq::new(
                self.facets@.len(),
                |i: int| (self.facets@[i].0 as int, paths_view(self.facets@[i].1)),
            ),
        }
    }
}

fn clone_paths(v: &Vec<String>) -> (r: Vec<String>)
    ensures
        paths_view(r) == paths_view(*v),
{
    let mut r: Vec<String> = Vec::new();
    let mut i: usize = 0;
    while i < v.len()
        invariant
            i <= v@.len(),
            r@ == v@.take(i as int),
        decreases v@.len() - i,
    {
        r.push(v[i].clone());
        assert(v@.take(i as int + 1) == v@.take(i as int).push(v@[i as int]));
        i = i + 1;
    }
    assert(v@.take(i as int) == v@);
    assert(paths_view(r) =~= paths_view(*v));
    r
}

impl Request {
    /// Compiles the request against `schema` into what the engine runs.
    pub fn plan(&self, schema: &Schema) -> (r: Result<SearchPlan, Error>)
        requires
            schema.wf(),
        ensures
            match plan_spec(*self, *schema) {
                Ok(p) => r matches Ok(x) && x.view_of() == p,
                Err(e) => r matches Err(x) && x@ == e,
            },
    {
        let query = match &self.query {
            Some(q) => q.create_query(schema),
            None => Query::All.create_query(schema),
        };
        let query = match query {
            Ok(c) => c,
            Err(e) => {
                return Err(e);
            },
        };
        let sum_field = match &self.aggs {
            None => None,
            Some(Metrics::SumAgg { field }) => {
                proof {
                    lemma_lookup_bounds(schema.fields@, field@);
                }
                match schema.get_field(field.as_str()) {
                    None => {
                        return Err(Error::UnknownField(field.clone()));
                    },
                    Some(id) => match &schema.fields[id as usize].field_type {
                        FieldType::I64 { .. } => Some((id, NumericKind::I64)),
                        FieldType::U64 { .. } => Some((id, NumericKind::U64)),
                        FieldType::F64 { .. } => Some((id, NumericKind::F64)),
                        _ => {
                            return Err(query_error(NOT_SUMMABLE));
                        },
                    },
                }
            },
        };
        let mut facets: Vec<(u32, Vec<String>)> = Vec::new();
        let mut i: usize = 0;
        let ghost fs = self.facets@;
        assert(fs.take(0) == Seq::<FacetRequest>::empty());
        while i < self.facets.len()
            invariant
                fs == self.facets@,
                schema.wf(),
                compile_spec(query_or_all(self.query), *schema) == Ok::<Plan, ErrorView>(query@),
                sum_field_spec(self.aggs, *schema) == Ok::<Option<(int, NumericKind)>, ErrorView>(
                    sum_view(sum_field),
                ),
                i <= fs.len(),
                facets_spec(fs.take(i as int), *schema) matches Ok(acc) && acc == Seq::new(
                    facets@.len(),
                    |k: int| (facets@[k].0 as int, paths_view(facets@[k].1)),
                ),
            decreases fs.len() - i,
        {
            let ghost acc = facets_spec(fs.take(i as int), *schema)->Ok_0;
            assert(fs.take(i as int + 1).drop_last() == fs.take(i as int));
            assert(fs.take(i as int + 1).last() == fs[i as int]);
            let f = &self.facets[i];
            proof {
                lemma_lookup_bounds(schema.fields@, f.field@);
            }
            let id = match schema.get_field(f.field.as_str()) {
                None => {
                    proof {
                        lemma_facets_prefix(fs, *schema, i + 1);
                    }
                    return Err(Error::UnknownField(f.field.clone()));
                },
                Some(id) => id,
            };
            match &schema.fields[id as usize].field_type {
                FieldType::Facet => {},
                _ => {
                    proof {
                        lemma_facets_prefix(fs, *schema, i + 1);
                    }
                    return Err(query_error(NOT_FACET));
                },
            }
            let paths = clone_paths(&f.paths);
            let ghost before = facets@;
            facets.push((id, paths));
            proof {
                let nacc = facets_spec(fs.take(i as int + 1), *schema)->Ok_0;
                assert(nacc =~= Seq::new(
                    facets@.len(),
                    |k: int| (facets@[k].0 as int, paths_view(facets@[k].1)),
                ));
            }
            i = i + 1;
        }
        assert(fs.take(i as int) == fs);
        Ok(SearchPlan { query, limit: self.limit, sum_field, facets })
    }
}

} // verus!

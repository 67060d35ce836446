use vstd::prelude::*;

verus! {

/// A numeric bound as written in a query: an integer, or the decimal text of
/// any other number.
pub enum Number {
    Int(i128),
    Decimal(String),
}

/// Matches documents whose `field` holds exactly the term `value`.
pub struct ExactTerm {
    pub field: String,
    pub value: String,
}

/// Matches documents whose `field` holds `terms` in order, with at most `slop`
/// other positions between them.
pub struct PhraseQuery {
    pub field: String,
    pub terms: Vec<String>,
    pub slop: Option<u32>,
}

/// Matches terms of `field` within `distance` edits of `value`.
pub struct FuzzyQuery {
    pub field: String,
    pub value: String,
    pub distance: u8,
    pub transposition: bool,
}

/// Matches terms of `field` that the regular expression `pattern` matches.
pub struct RegexQuery {
    pub field: String,
    pub pattern: String,
}

/// Matches documents whose numeric `field` lies between the given bounds.
pub struct RangeQuery {
    pub field: String,
    pub gt: Option<Number>,
    pub gte: Option<Number>,
    pub lt: Option<Number>,
    pub lte: Option<Number>,
}

/// A combination of sub-queries: all of `must`, none of `must_not`, and
/// optionally some of `should`.
pub struct BoolQuery {
    pub must: Vec<Query>,
    pub must_not: Vec<Query>,
    pub should: Vec<Query>,
}

/// The query language.
pub enum Query {
    Boolean(BoolQuery),
    Fuzzy(FuzzyQuery),
    Exact(ExactTerm),
    Phrase(PhraseQuery),
    Regex(RegexQuery),
    Range(RangeQuery),
    Raw { raw: String },
    All,
}

/// The single-field queries, which may stand as the clauses of other queries.
pub enum TermQueries {
    Fuzzy(FuzzyQuery),
    Exact(ExactTerm),
    Phrase(PhraseQuery),
    Range(RangeQuery),
    Regex(RegexQuery),
}

/// The mathematical form of a [`Number`].
pub enum NumberView {
    Int(int),
    Decimal(Seq<char>),
}

/// The mathematical form of a [`Query`].
pub enum QueryView {
    Boolean { must: Seq<QueryView>, must_not: Seq<QueryView>, should: Seq<QueryView> },
    Fuzzy { field: Seq<char>, value: Seq<char>, distance: int, transposition: bool },
    Exact { field: Seq<char>, value: Seq<char> },
    Phrase { field: Seq<char>, terms: Seq<Seq<char>>, slop: Option<int> },
    Regex { field: Seq<char>, pattern: Seq<char> },
    Range {
        field: Seq<char>,
        gt: Option<NumberView>,
        gte: Option<NumberView>,
        lt: Option<NumberView>,
        lte: Option<NumberView>,
    },
    Raw { raw: Seq<char> },
    All,
}

pub open spec fn number_view(n: Number) -> NumberView {
    match n {
        Number::Int(i) => NumberView::Int(i as int),
        Number::Decimal(s) => NumberView::Decimal(s@),
    }
}

pub open spec fn opt_number_view(n: Option<Number>) -> Option<NumberView> {
    match n {
        Some(v) => Some(number_view(v)),
        None => None,
    }
}

pub open spec fn opt_u32_view(o: Option<u32>) -> Option<int> {
    match o {
        Some(n) => Some(n as int),
        None => None,
    }
}

pub open spec fn strings_view(v: Vec<String>) -> Seq<Seq<char>> {
    Seq::new(v.len() as nat, |i: int| v[i]@)
}

/// The views of a list of queries.
pub open spec fn queries_view(v: Vec<Query>) -> Seq<QueryView>
    decreases v,
{
    Seq::new(v.len() as nat, |i: int| if 0 <= i < v.len() { query_view(v[i]) } else { QueryView::All })
}

pub open spec fn query_view(q: Query) -> QueryView
    decreases q,
{
    match q {
        Query::Boolean(b) => QueryView::Boolean {
            must: queries_view(b.must),
            must_not: queries_view(b.must_not),
            should: queries_view(b.should),
        },
        Query::Fuzzy(f) => QueryView::Fuzzy {
            field: f.field@,
            value: f.value@,
            distance: f.distance as int,
            transposition: f.transposition,
        },
        Query::Exact(t) => QueryView::Exact { field: t.field@, value: t.value@ },
        Query::Phrase(p) => QueryView::Phrase {
            field: p.field@,
            terms: strings_view(p.terms),
            slop: opt_u32_view(p.slop),
        },
        Query::Regex(r) => QueryView::Regex { field: r.field@, pattern: r.pattern@ },
        Query::Range(r) => QueryView::Range {
            field: r.field@,
            gt: opt_number_view(r.gt),
            gte: opt_number_view(r.gte),
            lt: opt_number_view(r.lt),
            lte: opt_number_view(r.lte),
        },
        Query::Raw { raw } => QueryView::Raw { raw: raw@ },
        Query::All => QueryView::All,
    }
}

impl View for Query {
    type V = QueryView;

    open spec fn view(&self) -> QueryView {
        query_view(*self)
    }
}

impl View for TermQueries {
    type V = QueryView;

    open spec fn view(&self) -> QueryView {
        query_view(term_query_spec(*self))
    }
}

pub open spec fn term_query_spec(t: TermQueries) -> Query {
    match t {
        TermQueries::Fuzzy(f) => Query::Fuzzy(f),
        TermQueries::Exact(e) => Query::Exact(e),
        TermQueries::Phrase(p) => Query::Phrase(p),
        TermQueries::Range(r) => Query::Range(r),
        TermQueries::Regex(r) => Query::Regex(r),
    }
}

impl TermQueries {
    /// The same query in the general form.
    pub fn into_query(self) -> (r: Query)
        ensures
            r == term_query_spec(self),
    {
        match self {
            TermQueries::Fuzzy(f) => Query::Fuzzy(f),
            TermQueries::Exact(e) => Query::Exact(e),
            TermQueries::Phrase(p) => Query::Phrase(p),
            TermQueries::Range(r) => Query::Range(r),
            TermQueries::Regex(r) => Query::Regex(r),
        }
    }
}

impl ExactTerm {
    pub fn new(field: String, value: String) -> (r: ExactTerm)
        ensures
            r.field == field,
            r.value == value,
    {
        ExactTerm { field, value }
    }
}

} // verus!

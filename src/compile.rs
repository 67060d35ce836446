use vstd::prelude::*;

use crate::error::{query_error, Error, ErrorView};
use crate::query::{
    number_view, opt_number_view, queries_view, query_view, strings_view, BoolQuery, ExactTerm,
    FuzzyQuery, Number, NumberView, PhraseQuery, Query, QueryView, RangeQuery, RegexQuery,
};
use crate::schema::{lemma_lookup_bounds, type_is_indexed, FieldType, Schema};

verus! {

/// The numeric types a range query can run over.
#[derive(PartialEq, Eq, Structural, Clone, Copy)]
pub enum NumericKind {
    I64,
    U64,
    F64,
}

/// How a clause takes part in a boolean query.
#[derive(PartialEq, Eq, Structural, Clone, Copy)]
pub enum Occur {
    Must,
    MustNot,
    Should,
}

/// One end of a range.
pub enum Bound {
    Unbounded,
    Included(Number),
    Excluded(Number),
}

/// An executable query: field names are resolved to field ids and every rule
/// of the query language has been checked. The engine runs it as it stands.
pub enum Compiled {
    Term { field: u32, text: String },
    Phrase { field: u32, terms: Vec<String>, slop: u32 },
    Fuzzy { field: u32, text: String, distance: u8, transposition: bool },
    Regex { field: u32, pattern: String },
    Range { field: u32, kind: NumericKind, lower: Bound, upper: Bound },
    Boolean { clauses: Vec<(Occur, Compiled)>, minimum_should_match: u32 },
    Raw { text: String, fields: Vec<u32> },
    All,
}

pub enum BoundView {
    Unbounded,
    Included(NumberView),
    Excluded(NumberView),
}

/// The mathematical form of a [`Compiled`] query.
pub enum Plan {
    Term { field: int, text: Seq<char> },
    Phrase { field: int, terms: Seq<Seq<char>>, slop: int },
    Fuzzy { field: int, text: Seq<char>, distance: int, transposition: bool },
    Regex { field: int, pattern: Seq<char> },
    Range { field: int, kind: NumericKind, lower: BoundView, upper: BoundView },
    Boolean { clauses: Seq<(Occur, Plan)>, minimum_should_match: int },
    Raw { text: Seq<char>, fields: Seq<int> },
    All,
}

pub open spec fn bound_view(b: Bound) -> BoundView {
    match b {
        Bound::Unbounded => BoundView::Unbounded,
        Bound::Included(n) => BoundView::Included(number_view(n)),
        Bound::Excluded(n) => BoundView::Excluded(number_view(n)),
    }
}

pub open spec fn clauses_view(v: Vec<(Occur, Compiled)>) -> Seq<(Occur, Plan)>
    decreases v,
{
    Seq::new(
        v.len() as nat,
        |i: int| if 0 <= i < v.len() { (v[i].0, plan_of(v[i].1)) } else { (Occur::Must, Plan::All) },
    )
}

pub open spec fn plan_of(c: Compiled) -> Plan
    decreases c,
{
    match c {
        Compiled::Term { field, text } => Plan::Term { field: field as int, text: text@ },
        Compiled::Phrase { field, terms, slop } => Plan::Phrase {
            field: field as int,
            terms: strings_view(terms),
            slop: slop as int,
        },
        Compiled::Fuzzy { field, text, distance, transposition } => Plan::Fuzzy {
            field: field as int,
            text: text@,
            distance: distance as int,
            transposition,
        },
        Compiled::Regex { field, pattern } => Plan::Regex { field: field as int, pattern: pattern@ },
        Compiled::Range { field, kind, lower, upper } => Plan::Range {
            field: field as int,
            kind,
            lower: bound_view(lower),
            upper: bound_view(upper),
        },
        Compiled::Boolean { clauses, minimum_should_match } => Plan::Boolean {
            clauses: clauses_view(clauses),
            minimum_should_match: minimum_should_match as int,
        },
        Compiled::Raw { text, fields } => Plan::Raw {
            text: text@,
            fields: Seq::new(fields.len() as nat, |i: int| fields[i] as int),
        },
        Compiled::All => Plan::All,
    }
}

impl View for Compiled {
    type V = Plan;

    open spec fn view(&self) -> Plan {
        plan_of(*self)
    }
}

pub open spec fn numeric_kind(t: FieldType) -> Option<NumericKind> {
    match t {
        FieldType::I64 { .. } => Some(NumericKind::I64),
        FieldType::U64 { .. } => Some(NumericKind::U64),
        FieldType::F64 { .. } => Some(NumericKind::F64),
        _ => None,
    }
}

/// Whether a bound can be taken as a value of the field's numeric type.
pub open spec fn fits(kind: NumericKind, n: NumberView) -> bool {
    match n {
        NumberView::Int(i) => match kind {
            NumericKind::I64 => i64::MIN <= i <= i64::MAX,
            NumericKind::U64 => 0 <= i <= u64::MAX,
            NumericKind::F64 => true,
        },
        NumberView::Decimal(_) => kind == NumericKind::F64,
    }
}

/// One side of a range, from its inclusive and its exclusive bound.
pub open spec fn side_spec(
    kind: NumericKind,
    inclusive: Option<NumberView>,
    exclusive: Option<NumberView>,
) -> Result<BoundView, ErrorView> {
    match (inclusive, exclusive) {
        (Some(_), Some(_)) => Err(ErrorView::QueryError(BOTH_BOUNDS@)),
        (Some(n), None) => if fits(kind, n) {
            Ok(BoundView::Included(n))
        } else {
            Err(ErrorView::QueryError(OUT_OF_RANGE@))
        },
        (None, Some(n)) => if fits(kind, n) {
            Ok(BoundView::Excluded(n))
        } else {
            Err(ErrorView::QueryError(OUT_OF_RANGE@))
        },
        (None, None) => Ok(BoundView::Unbounded),
    }
}

pub const BOTH_BOUNDS: &'static str = "A range side takes an inclusive or an exclusive bound, not both";

pub const OUT_OF_RANGE: &'static str = "A range bound does not fit the field's type";

pub const NO_BOUNDS: &'static str = "A range query needs at least one bound";

pub const NOT_NUMERIC: &'static str = "A range query needs a numeric field";

pub const NO_TERMS: &'static str = "A phrase query needs at least one term";

pub const EMPTY_FUZZY: &'static str = "A fuzzy query needs a value";

pub const EMPTY_BOOL: &'static str = "A boolean query needs at least one clause";

/// The greatest edit distance a fuzzy query runs with.
pub const MAX_DISTANCE: u8 = 2;

pub open spec fn tag(o: Occur, ps: Seq<Plan>) -> Seq<(Occur, Plan)> {
    ps.map_values(|p: Plan| (o, p))
}

pub open spec fn compile_spec(q: QueryView, s: Schema) -> Result<Plan, ErrorView>
    decreases q,
{
    match q {
        QueryView::Exact { field, value } => match s.field_id(field) {
            None => Err(ErrorView::UnknownField(field)),
            Some(id) => Ok(Plan::Term { field: id, text: value }),
        },
        QueryView::Phrase { field, terms, slop } => match s.field_id(field) {
            None => Err(ErrorView::UnknownField(field)),
            Some(id) => if !(s.fields@[id].field_type matches FieldType::Text {
                indexed: true,
                positions: true,
            }) {
                Err(ErrorView::FieldNotIndexed(field))
            } else if terms.len() == 0 {
                Err(ErrorView::QueryError(NO_TERMS@))
            } else {
                Ok(
                    Plan::Phrase {
                        field: id,
                        terms,
                        slop: match slop {
                            Some(n) => n,
                            None => 0,
                        },
                    },
                )
            },
        },
        QueryView::Fuzzy { field, value, distance, transposition } => match s.field_id(field) {
            None => Err(ErrorView::UnknownField(field)),
            Some(id) => if value.len() == 0 {
                Err(ErrorView::QueryError(EMPTY_FUZZY@))
            } else {
                Ok(
                    Plan::Fuzzy {
                        field: id,
                        text: value,
                        distance: if distance > MAX_DISTANCE {
                            MAX_DISTANCE as int
                        } else {
                            distance
                        },
                        transposition,
                    },
                )
            },
        },
        QueryView::Regex { field, pattern } => match s.field_id(field) {
            None => Err(ErrorView::UnknownField(field)),
            Some(id) => if !type_is_indexed(s.fields@[id].field_type) {
                Err(ErrorView::FieldNotIndexed(field))
            } else {
                Ok(Plan::Regex { field: id, pattern })
            },
        },
        QueryView::Range { field, gt, gte, lt, lte } => match s.field_id(field) {
            None => Err(ErrorView::UnknownField(field)),
            Some(id) => match numeric_kind(s.fields@[id].field_type) {
                None => Err(ErrorView::QueryError(NOT_NUMERIC@)),
                Some(kind) => if gt is None && gte is None && lt is None && lte is None {
                    Err(ErrorView::QueryError(NO_BOUNDS@))
                } else {
                    match side_spec(kind, gte, gt) {
                        Err(e) => Err(e),
                        Ok(lower) => match side_spec(kind, lte, lt) {
                            Err(e) => Err(e),
                            Ok(upper) => Ok(Plan::Range { field: id, kind, lower, upper }),
                        },
                    }
                },
            },
        },
        QueryView::Boolean { must, must_not, should } => if must.len() == 0 && must_not.len() == 0
            && should.len() == 0 {
            Err(ErrorView::QueryError(EMPTY_BOOL@))
        } else {
            match compile_all(must, s) {
                Err(e) => Err(e),
                Ok(a) => match compile_all(must_not, s) {
                    Err(e) => Err(e),
                    Ok(b) => match compile_all(should, s) {
                        Err(e) => Err(e),
                        Ok(c) => Ok(
                            Plan::Boolean {
                                clauses: tag(Occur::Must, a) + tag(Occur::MustNot, b) + tag(
                                    Occur::Should,
                                    c,
                                ),
                                minimum_should_match: if must.len() == 0 {
                                    1
                                } else {
                                    0
                                },
                            },
                        ),
                    },
                },
            }
        },
        QueryView::Raw { raw } => Ok(
            Plan::Raw { text: raw, fields: Seq::new(s.fields@.len(), |i: int| i) },
        ),
        QueryView::All => Ok(Plan::All),
    }
}

/// Compiles each query in turn; the first failure is the result.
pub open spec fn compile_all(qs: Seq<QueryView>, s: Schema) -> Result<Seq<Plan>, ErrorView>
    decreases qs,
{
    if qs.len() == 0 {
        Ok(Seq::empty())
    } else {
        match compile_all(qs.drop_last(), s) {
            Err(e) => Err(e),
            Ok(ps) => match compile_spec(qs[qs.len() - 1], s) {
                Err(e) => Err(e),
                Ok(p) => Ok(ps.push(p)),
            },
        }
    }
}

} // verus!

verus! {

/// Whether an executable result is the one the rules give.
pub open spec fn compiled_as(r: Result<Compiled, Error>, s: Result<Plan, ErrorView>) -> bool {
    match (r, s) {
        (Ok(c), Ok(p)) => c@ == p,
        (Err(e), Err(v)) => e@ == v,
        _ => false,
    }
}

/// Resolves `field`, or reports it unknown.
fn resolve(schema: &Schema, field: &String) -> (r: Result<u32, Error>)
    requires
        schema.wf(),
    ensures
        match schema.field_id(field@) {
            None => r matches Err(e) && e@ == ErrorView::UnknownField(field@),
            Some(i) => r == Ok::<u32, Error>(i as u32) && 0 <= i < schema.fields@.len(),
        },
{
    proof {
        lemma_lookup_bounds(schema.fields@, field@);
    }
    match schema.get_field(field.as_str()) {
        Some(i) => Ok(i),
        None => Err(Error::UnknownField(field.clone())),
    }
}

fn clone_strings(v: &Vec<String>) -> (r: Vec<String>)
    ensures
        strings_view(*v) == strings_view(r),
        r@ == v@,
{
    let mut r: Vec<String> = Vec::new();
    let mut i: usize = 0;
    while i < v.len()
        invariant
            i <= v@.len(),
            r@ == v@.take(i as int),
        decreases v@.len() - i,
    {
        r.push(v[i].clone());
        assert(v@.take(i as int + 1) == v@.take(i as int).push(v@[i as int]));
        i = i + 1;
    }
    assert(v@.take(i as int) == v@);
    r
}

fn clone_number(n: &Number) -> (r: Number)
    ensures
        r == *n,
{
    match n {
        Number::Int(i) => Number::Int(*i),
        Number::Decimal(s) => Number::Decimal(s.clone()),
    }
}

fn fits_exec(kind: NumericKind, n: &Number) -> (r: bool)
    ensures
        r == fits(kind, number_view(*n)),
{
    match n {
        Number::Int(i) => match kind {
            NumericKind::I64 => i64::MIN as i128 <= *i && *i <= i64::MAX as i128,
            NumericKind::U64 => 0 <= *i && *i <= u64::MAX as i128,
            NumericKind::F64 => true,
        },
        Number::Decimal(_) => kind == NumericKind::F64,
    }
}

fn side(kind: NumericKind, inclusive: &Option<Number>, exclusive: &Option<Number>) -> (r: Result<
    Bound,
    Error,
>)
    ensures
        match side_spec(kind, opt_number_view(*inclusive), opt_number_view(*exclusive)) {
            Ok(b) => r matches Ok(x) && bound_view(x) == b,
            Err(e) => r matches Err(x) && x@ == e,
        },
{
    match (inclusive, exclusive) {
        (Some(_), Some(_)) => Err(query_error(BOTH_BOUNDS)),
        (Some(n), None) => if fits_exec(kind, n) {
            Ok(Bound::Included(clone_number(n)))
        } else {
            Err(query_error(OUT_OF_RANGE))
        },
        (None, Some(n)) => if fits_exec(kind, n) {
            Ok(Bound::Excluded(clone_number(n)))
        } else {
            Err(query_error(OUT_OF_RANGE))
        },
        (None, None) => Ok(Bound::Unbounded),
    }
}

impl ExactTerm {
    pub fn create_query(&self, schema: &Schema) -> (r: Result<Compiled, Error>)
        requires
            schema.wf(),
        ensures
            compiled_as(r, compile_spec(query_view(Query::Exact(*self)), *schema)),
    {
        let id = resolve(schema, &self.field)?;
        Ok(Compiled::Term { field: id, text: self.value.clone() })
    }
}

impl PhraseQuery {
    pub fn create_query(&self, schema: &Schema) -> (r: Result<Compiled, Error>)
        requires
            schema.wf(),
        ensures
            compiled_as(r, compile_spec(query_view(Query::Phrase(*self)), *schema)),
    {
        let id = resolve(schema, &self.field)?;
        match &schema.fields[id as usize].field_type {
            FieldType::Text { indexed: true, positions: true } => {},
            _ => {
                return Err(Error::FieldNotIndexed(self.field.clone()));
            },
        }
        if self.terms.len() == 0 {
            return Err(query_error(NO_TERMS));
        }
        let slop = match self.slop {
            Some(n) => n,
            None => 0,
        };
        Ok(Compiled::Phrase { field: id, terms: clone_strings(&self.terms), slop })
    }
}

impl FuzzyQuery {
    pub fn create_query(&self, schema: &Schema) -> (r: Result<Compiled, Error>)
        requires
            schema.wf(),
        ensures
            compiled_as(r, compile_spec(query_view(Query::Fuzzy(*self)), *schema)),
    {
        let id = resolve(schema, &self.field)?;
        if self.value.as_str().is_empty() {
            return Err(query_error(EMPTY_FUZZY));
        }
        assert(self.value@.len() != 0);
        let distance = if self.distance > MAX_DISTANCE {
            MAX_DISTANCE
        } else {
            self.distance
        };
        Ok(
            Compiled::Fuzzy {
                field: id,
                text: self.value.clone(),
                distance,
                transposition: self.transposition,
            },
        )
    }
}

impl RegexQuery {
    pub fn create_query(&self, schema: &Schema) -> (r: Result<Compiled, Error>)
        requires
            schema.wf(),
        ensures
            compiled_as(r, compile_spec(query_view(Query::Regex(*self)), *schema)),
    {
        let id = resolve(schema, &self.field)?;
        if !schema.fields[id as usize].field_type.is_indexed() {
            return Err(Error::FieldNotIndexed(self.field.clone()));
        }
        Ok(Compiled::Regex { field: id, pattern: self.pattern.clone() })
    }
}

impl RangeQuery {
    pub fn create_query(&self, schema: &Schema) -> (r: Result<Compiled, Error>)
        requires
            schema.wf(),
        ensures
            compiled_as(r, compile_spec(query_view(Query::Range(*self)), *schema)),
    {
        let id = resolve(schema, &self.field)?;
        let kind = match &schema.fields[id as usize].field_type {
            FieldType::I64 { .. } => NumericKind::I64,
            FieldType::U64 { .. } => NumericKind::U64,
            FieldType::F64 { .. } => NumericKind::F64,
            _ => {
                return Err(query_error(NOT_NUMERIC));
            },
        };
        if self.gt.is_none() && self.gte.is_none() && self.lt.is_none() && self.lte.is_none() {
            return Err(query_error(NO_BOUNDS));
        }
        let lower = side(kind, &self.gte, &self.gt)?;
        let upper = side(kind, &self.lte, &self.lt)?;
        Ok(Compiled::Range { field: id, kind, lower, upper })
    }
}

} // verus!

verus! {

/// A failure in a prefix is the failure of the whole list.
pub proof fn lemma_compile_all_prefix(qs: Seq<QueryView>, s: Schema, k: int)
    requires
        0 <= k <= qs.len(),
        compile_all(qs.take(k), s) is Err,
    ensures
        compile_all(qs, s) == compile_all(qs.take(k), s),
    decreases qs.len() - k,
{
    if k < qs.len() {
        assert(qs.drop_last().take(k) == qs.take(k));
        lemma_compile_all_prefix(qs.drop_last(), s, k);
    } else {
        assert(qs.take(k) == qs);
    }
}

/// Compiles `qs` in order, appending each result to `out` tagged with `occur`;
/// stops at the first failure.
fn compile_into(
    qs: &Vec<Query>,
    occur: Occur,
    schema: &Schema,
    out: &mut Vec<(Occur, Compiled)>,
) -> (r: Result<(), Error>)
    requires
        schema.wf(),
    ensures
        match compile_all(queries_view(*qs), *schema) {
            Ok(ps) => r is Ok && clauses_view(*final(out)) == clauses_view(*old(out)) + tag(
                occur,
                ps,
            ),
            Err(e) => r matches Err(x) && x@ == e,
        },
    decreases qs,
{
    let ghost start = clauses_view(*out);
    let ghost views = queries_view(*qs);
    let mut i: usize = 0;
    assert(views.take(0) == Seq::<QueryView>::empty());
    assert(start + tag(occur, Seq::empty()) == start);
    while i < qs.len()
        invariant
            i <= qs@.len(),
            schema.wf(),
            views == queries_view(*qs),
            views.len() == qs@.len(),
            compile_all(views.take(i as int), *schema) matches Ok(ps) && clauses_view(*out) == start
                + tag(occur, ps),
        decreases qs@.len() - i,
    {
        let ghost ps = compile_all(views.take(i as int), *schema)->Ok_0;
        assert(views.take(i as int + 1).drop_last() == views.take(i as int));
        assert(views[i as int] == query_view(qs@[i as int]));
        match qs[i].create_query(schema) {
            Err(e) => {
                proof {
                    lemma_compile_all_prefix(views, *schema, i + 1);
                }
                return Err(e);
            },
            Ok(c) => {
                let ghost before = *out;
                out.push((occur, c));
                proof {
                    let p = plan_of(c);
                    assert(clauses_view(*out) =~= clauses_view(before).push((occur, p)));
                    assert(tag(occur, ps.push(p)) =~= tag(occur, ps).push((occur, p)));
                }
            },
        }
        i = i + 1;
    }
    assert(views.take(i as int) == views);
    Ok(())
}

impl BoolQuery {
    pub fn create_query(&self, schema: &Schema) -> (r: Result<Compiled, Error>)
        requires
            schema.wf(),
        ensures
            compiled_as(r, compile_spec(query_view(Query::Boolean(*self)), *schema)),
        decreases self,
    {
        if self.must.len() == 0 && self.must_not.len() == 0 && self.should.len() == 0 {
            return Err(query_error(EMPTY_BOOL));
        }
        let mut clauses: Vec<(Occur, Compiled)> = Vec::new();
        assert(clauses_view(clauses) =~= Seq::empty());
        compile_into(&self.must, Occur::Must, schema, &mut clauses)?;
        compile_into(&self.must_not, Occur::MustNot, schema, &mut clauses)?;
        compile_into(&self.should, Occur::Should, schema, &mut clauses)?;
        let minimum_should_match: u32 = if self.must.len() == 0 {
            1
        } else {
            0
        };
        Ok(Compiled::Boolean { clauses, minimum_should_match })
    }
}

impl Query {
    /// Compiles the query against `schema` into the query the engine runs.
    pub fn create_query(&self, schema: &Schema) -> (r: Result<Compiled, Error>)
        requires
            schema.wf(),
        ensures
            compiled_as(r, compile_spec(self@, *schema)),
        decreases self,
    {
        match self {
            Query::Boolean(b) => b.create_query(schema),
            Query::Fuzzy(f) => f.create_query(schema),
            Query::Exact(t) => t.create_query(schema),
            Query::Phrase(p) => p.create_query(schema),
            Query::Regex(r) => r.create_query(schema),
            Query::Range(r) => r.create_query(schema),
            Query::Raw { raw } => {
                let n = schema.fields.len();
                let mut fields: Vec<u32> = Vec::new();
                let mut i: usize = 0;
                while i < n
                    invariant
                        n == schema.fields@.len() <= u32::MAX,
                        i <= n,
                        fields@.len() == i,
                        forall|j: int| 0 <= j < i ==> fields@[j] == j,
                    decreases n - i,
                {
                    fields.push(i as u32);
                    i = i + 1;
                }
                let r = Compiled::Raw { text: raw.clone(), fields };
                assert(Ok::<Plan, ErrorView>(plan_of(r)) == compile_spec(self@, *schema)) by {
                    if let Plan::Raw { text, fields: fs } = plan_of(r) {
                        assert(fs =~= Seq::new(schema.fields@.len(), |k: int| k));
                    }
                }
                Ok(r)
            },
            Query::All => Ok(Compiled::All),
        }
    }
}

/// Compiling one query twice against one schema gives equal executable
/// queries, or equal errors.
pub proof fn lemma_compile_deterministic(
    q: Query,
    s: Schema,
    first: Result<Compiled, Error>,
    second: Result<Compiled, Error>,
)
    requires
        compiled_as(first, compile_spec(q@, s)),
        compiled_as(second, compile_spec(q@, s)),
    ensures
        match (first, second) {
            (Ok(a), Ok(b)) => a@ == b@,
            (Err(a), Err(b)) => a@ == b@,
            _ => false,
        },
{
}

/// A range query without bounds on a known field is a query error.
pub proof fn lemma_range_needs_bound(r: RangeQuery, s: Schema)
    requires
        r.gt is None,
        r.gte is None,
        r.lt is None,
        r.lte is None,
        s.field_id(r.field@) is Some,
    ensures
        compile_spec(query_view(Query::Range(r)), s) matches Err(ErrorView::QueryError(_)),
{
}

/// A regex query on a field that is not indexed fails with
/// `FieldNotIndexed`, whose message says that the field is not declared as
/// indexed.
pub proof fn lemma_unindexed_field(q: QueryView, s: Schema)
    requires
        q matches QueryView::Regex { field, .. } && s.field_id(field) matches Some(id)
            && !type_is_indexed(s.fields@[id].field_type),
    ensures
        compile_spec(q, s) == Err::<Plan, ErrorView>(ErrorView::FieldNotIndexed(q->Regex_field)),
        crate::error::message_of(ErrorView::FieldNotIndexed(q->Regex_field)) == "The field '"@
            + q->Regex_field + "' is not declared as indexed"@,
{
}

} // verus!

use vstd::prelude::*;
use vstd::string::StringSliceAdditionalSpecFns;
use vstd::utf8::encode_utf8;

verus! {

/// How many matched documents carry a facet under `path`.
pub struct FacetCount {
    pub field: String,
    pub value: u64,
}

/// The sum of a numeric field over the matched documents, held at the type's
/// bound when the true sum passes it; `overflow` says that it did.
#[derive(PartialEq, Eq, Structural, Clone, Copy)]
pub struct SumResult {
    pub value: u64,
    pub overflow: bool,
}

/// The sum of a signed field, held at the type's bounds when the true sum
/// passes them; `overflow` says that it did.
#[derive(PartialEq, Eq, Structural, Clone, Copy)]
pub struct SignedSum {
    pub value: i64,
    pub overflow: bool,
}

/// A sum over the matched documents, by the type of the field summed.
#[derive(PartialEq, Eq, Structural, Clone, Copy)]
pub enum Aggregate {
    Unsigned(SumResult),
    Signed(SignedSum),
}

/// What a search returns: the number of matches, the top documents, the facet
/// counts and the sum if one was asked for.
pub struct SearchResults<D> {
    pub hits: u32,
    pub docs: Vec<D>,
    pub facets: Vec<FacetCount>,
    pub aggregate: Option<Aggregate>,
}

impl<D> SearchResults<D> {
    /// The results of a search that matched `total_matches` documents, of which
    /// `top` are the best in order: at most `limit` of them are returned.
    pub fn from_matches(
        total_matches: u32,
        top: Vec<D>,
        limit: usize,
        facets: Vec<FacetCount>,
        aggregate: Option<Aggregate>,
    ) -> (r: SearchResults<D>)
        ensures
            r.hits == total_matches,
            limit == 0 ==> r.docs@.len() == 0,
            r.docs@ == top@.take(if limit < top@.len() { limit as int } else { top@.len() as int }),
            r.facets == facets,
            r.aggregate == aggregate,
    {
        let mut docs = top;
        docs.truncate(limit);
        SearchResults { hits: total_matches, docs, facets, aggregate }
    }

    pub fn get_docs(&self) -> (r: &Vec<D>)
        ensures
            r == &self.docs,
    {
        &self.docs
    }

    pub fn get_facets(&self) -> (r: &Vec<FacetCount>)
        ensures
            r == &self.facets,
    {
        &self.facets
    }
}

/// The sum of the values that are present; a missing value counts as zero.
pub open spec fn present_sum(vals: Seq<Option<u64>>) -> int
    decreases vals.len(),
{
    if vals.len() == 0 {
        0
    } else {
        present_sum(vals.drop_last()) + match vals.last() {
            Some(v) => v as int,
            None => 0,
        }
    }
}

pub proof fn lemma_present_sum_nonneg(vals: Seq<Option<u64>>)
    ensures
        present_sum(vals) >= 0,
    decreases vals.len(),
{
    if vals.len() > 0 {
        lemma_present_sum_nonneg(vals.drop_last());
    }
}

/// Sums the values of a `u64` field over the matched documents.
pub fn sum_values(vals: &Vec<Option<u64>>) -> (r: SumResult)
    ensures
        r.overflow == (present_sum(vals@) > u64::MAX),
        r.value == if present_sum(vals@) > u64::MAX {
            u64::MAX as int
        } else {
            present_sum(vals@)
        },
{
    let mut acc: u64 = 0;
    let mut overflow = false;
    let mut i: usize = 0;
    while i < vals.len()
        invariant
            i <= vals@.len(),
            overflow == (present_sum(vals@.take(i as int)) > u64::MAX),
            acc == if overflow {
                u64::MAX as int
            } else {
                present_sum(vals@.take(i as int))
            },
        decreases vals@.len() - i,
    {
        assert(vals@.take(i as int + 1).drop_last() == vals@.take(i as int));
        proof {
            lemma_present_sum_nonneg(vals@.take(i as int));
        }
        if let Some(v) = vals[i] {
            if !overflow {
                if acc > u64::MAX - v {
                    overflow = true;
                    acc = u64::MAX;
                } else {
                    acc = acc + v;
                }
            }
        }
        i = i + 1;
    }
    assert(vals@.take(i as int) == vals@);
    SumResult { value: acc, overflow }
}

/// The sum of the signed values that are present; a missing value counts as
/// zero.
pub open spec fn present_signed_sum(vals: Seq<Option<i64>>) -> int
    decreases vals.len(),
{
    if vals.len() == 0 {
        0
    } else {
        present_signed_sum(vals.drop_last()) + match vals.last() {
            Some(v) => v as int,
            None => 0,
        }
    }
}

pub proof fn lemma_signed_sum_bound(vals: Seq<Option<i64>>)
    ensures
        -(vals.len() as int) * 0x8000_0000_0000_0000 <= present_signed_sum(vals) <= (vals.len() as int)
            * 0x8000_0000_0000_0000,
    decreases vals.len(),
{
    if vals.len() > 0 {
        lemma_signed_sum_bound(vals.drop_last());
        let n = vals.len() as int;
        assert((n - 1) * 0x8000_0000_0000_0000 + 0x8000_0000_0000_0000 == n * 0x8000_0000_0000_0000)
            by (nonlinear_arith);
    }
}

/// Sums the values of an `i64` field over the matched documents.
pub fn sum_signed(vals: &Vec<Option<i64>>) -> (r: SignedSum)
    ensures
        r.overflow == (present_signed_sum(vals@) > i64::MAX || present_signed_sum(vals@) < i64::MIN),
        r.value == if present_signed_sum(vals@) > i64::MAX {
            i64::MAX as int
        } else if present_signed_sum(vals@) < i64::MIN {
            i64::MIN as int
        } else {
            present_signed_sum(vals@)
        },
{
    let mut acc: i128 = 0;
    let mut i: usize = 0;
    while i < vals.len()
        invariant
            i <= vals@.len(),
            acc == present_signed_sum(vals@.take(i as int)),
        decreases vals@.len() - i,
    {
        assert(vals@.take(i as int + 1).drop_last() == vals@.take(i as int));
        proof {
            lemma_signed_sum_bound(vals@.take(i as int + 1));
            let n = i as int + 1;
            assert(n <= usize::MAX);
            assert(n * 0x8000_0000_0000_0000 <= 0xFFFF_FFFF_FFFF_FFFF * 0x8000_0000_0000_0000int)
                by (nonlinear_arith)
                requires
                    n <= 0xFFFF_FFFF_FFFF_FFFF,
            ;
        }
        if let Some(v) = vals[i] {
            acc = acc + v as i128;
        }
        i = i + 1;
    }
    assert(vals@.take(i as int) == vals@);
    if acc > i64::MAX as i128 {
        SignedSum { value: i64::MAX, overflow: true }
    } else if acc < i64::MIN as i128 {
        SignedSum { value: i64::MIN, overflow: true }
    } else {
        SignedSum { value: acc as i64, overflow: false }
    }
}

/// Whether the facet `f` lies under the facet path `p`: `f` is `p`, or goes on
/// from `p` with a new segment. Paths are compared as their UTF-8 bytes.
pub open spec fn under_path(p: Seq<u8>, f: Seq<u8>) -> bool {
    &&& p.len() <= f.len()
    &&& f.take(p.len() as int) == p
    &&& (f.len() == p.len() || (p.len() > 0 && p.last() == 47u8) || f[p.len() as int] == 47u8)
}

/// Whether one of `facets` lies under `p`.
pub open spec fn has_facet_under(p: Seq<u8>, facets: Seq<String>) -> bool {
    exists|j: int| 0 <= j < facets.len() && under_path(p, #[trigger] encode_utf8(facets[j]@))
}

/// How many of `docs` carry a facet under `p`.
pub open spec fn count_under(p: Seq<u8>, docs: Seq<Vec<String>>) -> int
    decreases docs.len(),
{
    if docs.len() == 0 {
        0
    } else {
        count_under(p, docs.drop_last()) + if has_facet_under(p, docs.last()@) {
            1int
        } else {
            0
        }
    }
}

pub proof fn lemma_count_under_bound(p: Seq<u8>, docs: Seq<Vec<String>>)
    ensures
        0 <= count_under(p, docs) <= docs.len(),
    decreases docs.len(),
{
    if docs.len() > 0 {
        lemma_count_under_bound(p, docs.drop_last());
    }
}

fn is_under(p: &str, f: &str) -> (r: bool)
    ensures
        r == under_path(p.spec_bytes(), f.spec_bytes()),
{
    let pb = p.as_bytes();
    let fb = f.as_bytes();
    if pb.len() > fb.len() {
        return false;
    }
    let mut i: usize = 0;
    while i < pb.len()
        invariant
            pb@ == p.spec_bytes(),
            fb@ == f.spec_bytes(),
            pb@.len() <= fb@.len(),
            i <= pb@.len(),
            fb@.take(i as int) == pb@.take(i as int),
        decreases pb@.len() - i,
    {
        if pb[i] != fb[i] {
            assert(fb@.take(pb@.len() as int)[i as int] == fb@[i as int]);
            return false;
        }
        assert(fb@.take(i as int + 1) == fb@.take(i as int).push(fb@[i as int]));
        assert(pb@.take(i as int + 1) == pb@.take(i as int).push(pb@[i as int]));
        i = i + 1;
    }
    assert(pb@.take(i as int) == pb@);
    fb.len() == pb.len() || (pb.len() > 0 && pb[pb.len() - 1] == 47u8) || fb[pb.len()] == 47u8
}

fn any_under(p: &str, facets: &Vec<String>) -> (r: bool)
    ensures
        r == has_facet_under(p.spec_bytes(), facets@),
{
    let mut j: usize = 0;
    while j < facets.len()
        invariant
            j <= facets@.len(),
            forall|k: int|
                0 <= k < j ==> !under_path(p.spec_bytes(), #[trigger] encode_utf8(facets@[k]@)),
        decreases facets@.len() - j,
    {
        if is_under(p, facets[j].as_str()) {
            return true;
        }
        j = j + 1;
    }
    false
}

/// Counts, for each path in `paths`, the documents among `docs` (each given by
/// the facets it carries) that carry a facet under that path.
pub fn count_facets(paths: &Vec<String>, docs: &Vec<Vec<String>>) -> (r: Vec<FacetCount>)
    ensures
        r@.len() == paths@.len(),
        forall|i: int|
            0 <= i < paths@.len() ==> {
                &&& (#[trigger] r@[i]).field == paths@[i]
                &&& r@[i].value == count_under(encode_utf8(paths@[i]@), docs@)
            },
{
    let mut out: Vec<FacetCount> = Vec::new();
    let mut i: usize = 0;
    while i < paths.len()
        invariant
            i <= paths@.len(),
            out@.len() == i,
            forall|k: int|
                0 <= k < i ==> {
                    &&& (#[trigger] out@[k]).field == paths@[k]
                    &&& out@[k].value == count_under(encode_utf8(paths@[k]@), docs@)
                },
        decreases paths@.len() - i,
    {
        let p = paths[i].as_str();
        let mut n: u64 = 0;
        let mut d: usize = 0;
        while d < docs.len()
            invariant
                d <= docs@.len(),
                n == count_under(p.spec_bytes(), docs@.take(d as int)),
            decreases docs@.len() - d,
        {
            assert(docs@.take(d as int + 1).drop_last() == docs@.take(d as int));
            proof {
                lemma_count_under_bound(p.spec_bytes(), docs@.take(d as int));
            }
            if any_under(p, &docs[d]) {
                n = n + 1;
            }
            d = d + 1;
        }
        assert(docs@.take(d as int) == docs@);
        out.push(FacetCount { field: paths[i].clone(), value: n });
        i = i + 1;
    }
    out
}

} // verus!

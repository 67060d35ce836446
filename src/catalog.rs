use vstd::prelude::*;
use vstd::string::StringSliceAdditionalSpecFns;
use vstd::utf8::encode_utf8;

use dashmap::DashMap;

use crate::error::{Error, ErrorView};
use crate::schema::str_eq;

verus! {

#[verifier::external_type_specification]
#[verifier::external_body]
#[verifier::reject_recursive_types(K)]
#[verifier::reject_recursive_types(V)]
#[verifier::reject_recursive_types(S)]
pub struct ExDashMap<K, V, S>(DashMap<K, V, S>);

/// What a map from index name to slot holds.
pub uninterp spec fn slots_of(m: DashMap<String, usize>) -> Map<Seq<char>, usize>;

/// Relies on `DashMap::new`: the map starts empty.
#[verifier::external_body]
fn slots_new() -> (r: DashMap<String, usize>)
    ensures
        slots_of(r).dom() == Set::<Seq<char>>::empty(),
{
    DashMap::new()
}

/// Relies on `DashMap::insert`: the key is bound to the value, replacing any
/// earlier binding.
#[verifier::external_body]
fn slots_insert(m: &mut DashMap<String, usize>, key: String, value: usize)
    ensures
        slots_of(*final(m)) == slots_of(*old(m)).insert(key@, value),
{
    m.insert(key, value);
}

/// Relies on `DashMap::get`: the value bound to the key, if any.
#[verifier::external_body]
fn slots_get(m: &DashMap<String, usize>, key: &str) -> (r: Option<usize>)
    ensures
        r == if slots_of(*m).contains_key(key@) {
            Some(slots_of(*m)[key@])
        } else {
            None::<usize>
        },
{
    m.get(key).map(|e| *e.value())
}

/// Relies on `DashMap::contains_key`: whether the key is bound.
#[verifier::external_body]
fn slots_contains(m: &DashMap<String, usize>, key: &str) -> (r: bool)
    ensures
        r == slots_of(*m).contains_key(key@),
{
    m.contains_key(key)
}

/// Relies on `DashMap::iter`: each entry is visited once, in no set order.
#[verifier::external_body]
fn slots_keys(m: &DashMap<String, usize>) -> (r: Vec<String>)
    ensures
        forall|i: int| 0 <= i < r@.len() ==> slots_of(*m).contains_key(#[trigger] r@[i]@),
        forall|k: Seq<char>|
            slots_of(*m).contains_key(k) ==> exists|i: int| 0 <= i < r@.len() && #[trigger] r@[i]@ == k,
{
    m.iter().map(|e| e.key().clone()).collect()
}

/// Relies on `DashMap::clear`: no binding is left.
#[verifier::external_body]
fn slots_clear(m: &mut DashMap<String, usize>)
    ensures
        slots_of(*final(m)).dom() == Set::<Seq<char>>::empty(),
{
    m.clear();
}

/// Byte-wise lexicographic order, the order of Rust's `str`.
pub open spec fn bytes_lt(a: Seq<u8>, b: Seq<u8>) -> bool
    decreases a.len(),
{
    if a.len() == 0 {
        b.len() > 0
    } else if b.len() == 0 {
        false
    } else if a[0] != b[0] {
        a[0] < b[0]
    } else {
        bytes_lt(a.drop_first(), b.drop_first())
    }
}

pub open spec fn name_lt(a: Seq<char>, b: Seq<char>) -> bool {
    bytes_lt(encode_utf8(a), encode_utf8(b))
}

/// Names in increasing order, so without repeats.
pub open spec fn sorted_names(s: Seq<String>) -> bool {
    forall|i: int, j: int| 0 <= i < j < s.len() ==> name_lt(#[trigger] s[i]@, #[trigger] s[j]@)
}

pub proof fn lemma_bytes_lt_trans(a: Seq<u8>, b: Seq<u8>, c: Seq<u8>)
    requires
        bytes_lt(a, b),
        bytes_lt(b, c),
    ensures
        bytes_lt(a, c),
    decreases a.len(),
{
    if a.len() > 0 && a[0] == b[0] && b[0] == c[0] {
        lemma_bytes_lt_trans(a.drop_first(), b.drop_first(), c.drop_first());
    }
}

/// Distinct names have distinct encodings.
pub proof fn lemma_names_differ(a: Seq<char>, b: Seq<char>)
    requires
        a != b,
    ensures
        encode_utf8(a) != encode_utf8(b),
{
    vstd::utf8::encode_utf8_decode_utf8(a);
    vstd::utf8::encode_utf8_decode_utf8(b);
}

pub proof fn lemma_bytes_lt_common(a: Seq<u8>, b: Seq<u8>, i: int)
    requires
        0 <= i <= a.len(),
        i <= b.len(),
        a.take(i) == b.take(i),
    ensures
        bytes_lt(a, b) == bytes_lt(a.skip(i), b.skip(i)),
    decreases i,
{
    if i > 0 {
        assert(a[0] == a.take(i)[0]);
        assert(b[0] == b.take(i)[0]);
        assert(a.drop_first().take(i - 1) == a.take(i).drop_first());
        assert(b.drop_first().take(i - 1) == b.take(i).drop_first());
        lemma_bytes_lt_common(a.drop_first(), b.drop_first(), i - 1);
        assert(a.drop_first().skip(i - 1) == a.skip(i));
        assert(b.drop_first().skip(i - 1) == b.skip(i));
    } else {
        assert(a.skip(0) == a);
        assert(b.skip(0) == b);
    }
}

pub proof fn lemma_bytes_lt_total(a: Seq<u8>, b: Seq<u8>)
    ensures
        a == b || bytes_lt(a, b) || bytes_lt(b, a),
        !(bytes_lt(a, b) && bytes_lt(b, a)),
    decreases a.len(),
{
    if a.len() > 0 && b.len() > 0 {
        if a[0] == b[0] {
            lemma_bytes_lt_total(a.drop_first(), b.drop_first());
            if a.drop_first() == b.drop_first() {
                assert forall|i: int| 0 <= i < a.len() implies a[i] == b[i] by {
                    if i > 0 {
                        assert(a[i] == a.drop_first()[i - 1]);
                        assert(b[i] == b.drop_first()[i - 1]);
                    }
                }
                assert(a =~= b);
            }
        }
    } else if a.len() == 0 && b.len() == 0 {
        assert(a =~= b);
    }
}

/// Whether `a` comes before `b` in byte order.
pub fn str_lt(a: &str, b: &str) -> (r: bool)
    ensures
        r == name_lt(a@, b@),
{
    let ab = a.as_bytes();
    let bb = b.as_bytes();
    let mut i: usize = 0;
    while i < ab.len() && i < bb.len()
        invariant
            ab@ == a.spec_bytes(),
            bb@ == b.spec_bytes(),
            i <= ab@.len(),
            i <= bb@.len(),
            ab@.take(i as int) == bb@.take(i as int),
        decreases ab@.len() - i,
    {
        if ab[i] != bb[i] {
            proof {
                lemma_bytes_lt_common(ab@, bb@, i as int);
            }
            return ab[i] < bb[i];
        }
        assert(ab@.take(i as int + 1) == ab@.take(i as int).push(ab@[i as int]));
        assert(bb@.take(i as int + 1) == bb@.take(i as int).push(bb@[i as int]));
        i = i + 1;
    }
    proof {
        lemma_bytes_lt_common(ab@, bb@, i as int);
    }
    i < bb.len()
}

/// Puts `key` at `p`, where it keeps `out` in order.
fn insert_sorted(out: &mut Vec<String>, p: usize, key: String)
    requires
        sorted_names(old(out)@),
        p <= old(out)@.len(),
        forall|i: int| 0 <= i < p ==> name_lt(#[trigger] old(out)@[i]@, key@),
        p < old(out)@.len() ==> name_lt(key@, old(out)@[p as int]@),
    ensures
        final(out)@ == old(out)@.insert(p as int, key),
        sorted_names(final(out)@),
{
    let ghost before = out@;
    proof {
        assert forall|j: int| p <= j < before.len() implies name_lt(key@, #[trigger] before[j]@) by {
            if j > p {
                lemma_bytes_lt_trans(
                    encode_utf8(key@),
                    encode_utf8(before[p as int]@),
                    encode_utf8(before[j]@),
                );
            }
        }
    }
    out.insert(p, key);
    proof {
        let now = out@;
        assert forall|i: int, j: int| 0 <= i < j < now.len() implies name_lt(
            #[trigger] now[i]@,
            #[trigger] now[j]@,
        ) by {
            if i < p {
                assert(now[i] == before[i]);
                if j > p {
                    assert(now[j] == before[j - 1]);
                }
            } else if i == p {
                assert(now[j] == before[j - 1]);
            } else {
                assert(now[i] == before[i - 1]);
                assert(now[j] == before[j - 1]);
            }
        }
    }
}

/// The names that `s` holds.
pub open spec fn names_set(s: Seq<String>) -> Set<Seq<char>> {
    Set::new(|n: Seq<char>| exists|i: int| 0 <= i < s.len() && (#[trigger] s[i])@ == n)
}

pub proof fn lemma_names_set_push(s: Seq<String>, x: String)
    ensures
        names_set(s.push(x)) == names_set(s).insert(x@),
{
    let t = s.push(x);
    assert forall|n: Seq<char>| names_set(t).contains(n) implies names_set(s).insert(x@).contains(n) by {
        let i = choose|i: int| 0 <= i < t.len() && (#[trigger] t[i])@ == n;
        if i < s.len() {
            assert(s[i] == t[i]);
        }
    }
    assert forall|n: Seq<char>| names_set(s).insert(x@).contains(n) implies names_set(t).contains(n) by {
        if n == x@ {
            assert(t[s.len() as int] == x);
        } else {
            let i = choose|i: int| 0 <= i < s.len() && (#[trigger] s[i])@ == n;
            assert(t[i] == s[i]);
        }
    }
    assert(names_set(t) =~= names_set(s).insert(x@));
}

pub proof fn lemma_names_set_insert(s: Seq<String>, p: int, x: String)
    requires
        0 <= p <= s.len(),
    ensures
        names_set(s.insert(p, x)) == names_set(s).insert(x@),
{
    let t = s.insert(p, x);
    assert forall|n: Seq<char>| names_set(t).contains(n) implies names_set(s).insert(x@).contains(n) by {
        let i = choose|i: int| 0 <= i < t.len() && (#[trigger] t[i])@ == n;
        if i < p {
            assert(s[i] == t[i]);
        } else if i > p {
            assert(s[i - 1] == t[i]);
        }
    }
    assert forall|n: Seq<char>| names_set(s).insert(x@).contains(n) implies names_set(t).contains(n) by {
        if n == x@ {
            assert(t[p] == x);
        } else {
            let i = choose|i: int| 0 <= i < s.len() && (#[trigger] s[i])@ == n;
            if i < p {
                assert(t[i] == s[i]);
            } else {
                assert(t[i + 1] == s[i]);
            }
        }
    }
    assert(names_set(t) =~= names_set(s).insert(x@));
}

/// Sorts `names` in byte order and drops repeats.
pub fn sort_dedup(names: &Vec<String>) -> (r: Vec<String>)
    ensures
        sorted_names(r@),
        names_set(r@) == names_set(names@),
{
    let mut out: Vec<String> = Vec::new();
    let mut k: usize = 0;
    assert(names_set(out@) =~= names_set(names@.take(0)));
    while k < names.len()
        invariant
            k <= names@.len(),
            sorted_names(out@),
            names_set(out@) == names_set(names@.take(k as int)),
        decreases names@.len() - k,
    {
        let key = &names[k];
        proof {
            assert(names@.take(k as int + 1) == names@.take(k as int).push(*key));
            lemma_names_set_push(names@.take(k as int), *key);
        }
        let mut p: usize = 0;
        while p < out.len() && str_lt(out[p].as_str(), key.as_str())
            invariant
                p <= out@.len(),
                forall|i: int| 0 <= i < p ==> name_lt(#[trigger] out@[i]@, key@),
            decreases out@.len() - p,
        {
            p = p + 1;
        }
        if p < out.len() && str_eq(out[p].as_str(), key.as_str()) {
            assert(names_set(out@).contains(key@));
            assert(names_set(out@).insert(key@) =~= names_set(out@));
        } else {
            let ghost before = out@;
            proof {
                if p < before.len() {
                    lemma_bytes_lt_total(encode_utf8(before[p as int]@), encode_utf8(key@));
                    lemma_names_differ(before[p as int]@, key@);
                }
            }
            let c = key.clone();
            insert_sorted(&mut out, p, c);
            proof {
                lemma_names_set_insert(before, p as int, c);
            }
        }
        k = k + 1;
    }
    assert(names@.take(k as int) == names@);
    out
}

/// The name of the file in the base directory that holds this node's id; it
/// is no index.
pub const NODE_ID_FILE: &'static str = ".node_id";

/// The entries of `s` but the node id file, in order.
pub open spec fn index_entries_spec(s: Seq<String>) -> Seq<String>
    decreases s.len(),
{
    if s.len() == 0 {
        s
    } else if s.last()@ == NODE_ID_FILE@ {
        index_entries_spec(s.drop_last())
    } else {
        index_entries_spec(s.drop_last()).push(s.last())
    }
}

/// The entries of the base directory that hold indexes: all but the node id
/// file, in the order given.
pub fn index_entries(entries: &Vec<String>) -> (r: Vec<String>)
    ensures
        r@ == index_entries_spec(entries@),
{
    let mut out: Vec<String> = Vec::new();
    let mut i: usize = 0;
    while i < entries.len()
        invariant
            i <= entries@.len(),
            out@ == index_entries_spec(entries@.take(i as int)),
        decreases entries@.len() - i,
    {
        proof {
            assert(entries@.take(i as int + 1).drop_last() == entries@.take(i as int));
        }
        if !str_eq(entries[i].as_str(), NODE_ID_FILE) {
            out.push(entries[i].clone());
        }
        i = i + 1;
    }
    assert(entries@.take(i as int) == entries@);
    out
}

/// The indexes of a node, by name, each with its handle, under one base
/// directory. The name map is shared by concurrent readers; each name points
/// at the slot that holds its handle.
pub struct IndexCatalog<H> {
    base_path: String,
    slots: DashMap<String, usize>,
    handles: Vec<H>,
}

impl<H> IndexCatalog<H> {
    pub closed spec fn wf(&self) -> bool {
        forall|k: Seq<char>|
            #[trigger] slots_of(self.slots).contains_key(k) ==> slots_of(self.slots)[k]
                < self.handles@.len()
    }

    /// The handles by index name.
    pub closed spec fn indexes(&self) -> Map<Seq<char>, H> {
        Map::new(
            |k: Seq<char>| slots_of(self.slots).contains_key(k),
            |k: Seq<char>| self.handles@[slots_of(self.slots)[k] as int],
        )
    }

    pub closed spec fn base_path_view(&self) -> Seq<char> {
        self.base_path@
    }

    /// An empty catalog over `base_path`.
    pub fn new(base_path: String) -> (r: IndexCatalog<H>)
        ensures
            r.wf(),
            r.indexes() == Map::<Seq<char>, H>::empty(),
            r.base_path_view() == base_path@,
    {
        let r = IndexCatalog { base_path, slots: slots_new(), handles: Vec::new() };
        assert(r.indexes() =~= Map::<Seq<char>, H>::empty());
        r
    }

    pub fn base_path(&self) -> (r: String)
        ensures
            r@ == self.base_path_view(),
    {
        self.base_path.clone()
    }

    pub fn has_index(&self, name: &str) -> (r: bool)
        ensures
            r == self.indexes().contains_key(name@),
    {
        slots_contains(&self.slots, name)
    }

    /// Fails with `AlreadyExists` where `name` is taken, so that a caller can
    /// ask before it opens an index.
    pub fn check_available(&self, name: &str) -> (r: Result<(), Error>)
        ensures
            r is Ok <==> !self.indexes().contains_key(name@),
            r matches Err(e) ==> e@ == ErrorView::AlreadyExists(name@),
    {
        if slots_contains(&self.slots, name) {
            Err(Error::AlreadyExists(String::from_str(name)))
        } else {
            Ok(())
        }
    }

    /// Binds `name` to `handle`; a name that is taken stays as it is.
    pub fn add_index(&mut self, name: String, handle: H) -> (r: Result<(), Error>)
        requires
            old(self).wf(),
        ensures
            final(self).wf(),
            final(self).base_path_view() == old(self).base_path_view(),
            old(self).indexes().contains_key(name@) ==> {
                &&& r matches Err(e) && e@ == ErrorView::AlreadyExists(name@)
                &&& final(self).indexes() == old(self).indexes()
            },
            !old(self).indexes().contains_key(name@) ==> {
                &&& r is Ok
                &&& final(self).indexes() == old(self).indexes().insert(name@, handle)
            },
    {
        if slots_contains(&self.slots, name.as_str()) {
            return Err(Error::AlreadyExists(name));
        }
        let ghost before = *self;
        let slot = self.handles.len();
        self.handles.push(handle);
        slots_insert(&mut self.slots, name, slot);
        assert(self.indexes() =~= before.indexes().insert(name@, handle));
        Ok(())
    }

    /// The handle bound to `name`.
    pub fn get_index(&self, name: &str) -> (r: Result<&H, Error>)
        requires
            self.wf(),
        ensures
            self.indexes().contains_key(name@) ==> (r matches Ok(h) && *h == self.indexes()[name@]),
            !self.indexes().contains_key(name@) ==> (r matches Err(e) && e@
                == ErrorView::UnknownIndex(name@)),
    {
        match slots_get(&self.slots, name) {
            Some(slot) => Ok(&self.handles[slot]),
            None => Err(Error::UnknownIndex(String::from_str(name))),
        }
    }

    /// The names of the indexes, in byte order and each once.
    pub fn list_indexes(&self) -> (r: Vec<String>)
        ensures
            sorted_names(r@),
            names_set(r@) == self.indexes().dom(),
    {
        let keys = slots_keys(&self.slots);
        let r = sort_dedup(&keys);
        assert(names_set(keys@) =~= self.indexes().dom());
        r
    }

    /// Drops every index.
    pub fn clear(&mut self)
        ensures
            final(self).wf(),
            final(self).indexes() == Map::<Seq<char>, H>::empty(),
            final(self).base_path_view() == old(self).base_path_view(),
    {
        slots_clear(&mut self.slots);
        self.handles = Vec::new();
        assert(self.indexes() =~= Map::<Seq<char>, H>::empty());
    }
}

} // verus!

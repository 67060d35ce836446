use vstd::prelude::*;

use crate::error::{Error, ErrorView};
use crate::json::JsonValue;
use crate::schema::Schema;

verus! {

/// Where an index handle's index lives.
pub enum IndexLocation {
    LOCAL,
    REMOTE,
}

/// Options of a mutation.
pub struct IndexOptions {
    pub commit: bool,
}

/// A document to add, as the client sent it.
pub struct AddDocument {
    pub options: Option<IndexOptions>,
    pub document: JsonValue,
}

/// A delete-by-term request: every document holding one of `terms` goes.
pub struct DeleteDoc {
    pub options: Option<IndexOptions>,
    pub terms: Vec<(String, String)>,
}

pub struct DocsAffected {
    pub docs_affected: u32,
}

/// How the writer's part of a mutation ended.
#[derive(PartialEq, Eq, Structural, Clone, Copy)]
pub enum WriteOutcome {
    /// Handed to the writer; no commit was asked for.
    Queued,
    /// Handed to the writer and committed.
    Committed,
    /// Handed to the writer; the commit that was asked for failed.
    CommitFailed,
}

/// Whether a mutation with these options asks for a commit.
pub open spec fn wants_commit(options: Option<IndexOptions>) -> bool {
    options matches Some(o) && o.commit
}

pub fn commit_requested(options: &Option<IndexOptions>) -> (r: bool)
    ensures
        r == wants_commit(*options),
{
    match options {
        Some(o) => o.commit,
        None => false,
    }
}

/// The fields of `terms` resolved in order; the first unknown field is the
/// result.
pub open spec fn resolve_terms(terms: Seq<(String, String)>, s: Schema) -> Result<
    Seq<(int, Seq<char>)>,
    ErrorView,
>
    decreases terms.len(),
{
    if terms.len() == 0 {
        Ok(Seq::empty())
    } else {
        match resolve_terms(terms.drop_last(), s) {
            Err(e) => Err(e),
            Ok(acc) => match s.field_id(terms.last().0@) {
                None => Err(ErrorView::UnknownField(terms.last().0@)),
                Some(id) => Ok(acc.push((id, terms.last().1@))),
            },
        }
    }
}

pub proof fn lemma_resolve_prefix(terms: Seq<(String, String)>, s: Schema, k: int)
    requires
        0 <= k <= terms.len(),
        resolve_terms(terms.take(k), s) is Err,
    ensures
        resolve_terms(terms, s) == resolve_terms(terms.take(k), s),
    decreases terms.len() - k,
{
    if k < terms.len() {
        assert(terms.drop_last().take(k) == terms.take(k));
        lemma_resolve_prefix(terms.drop_last(), s, k);
    } else {
        assert(terms.take(k) == terms);
    }
}

pub open spec fn term_list_view(v: Vec<(u32, String)>) -> Seq<(int, Seq<char>)> {
    Seq::new(v.len() as nat, |i: int| (v[i].0 as int, v[i].1@))
}

/// The sum of `counts`, held at `u32::MAX` when it passes it.
pub open spec fn capped_sum(counts: Seq<u32>) -> int
    decreases counts.len(),
{
    if counts.len() == 0 {
        0
    } else {
        let s = capped_sum(counts.drop_last()) + counts.last();
        if s > u32::MAX {
            u32::MAX as int
        } else {
            s
        }
    }
}

/// The number of deleted documents, from the deletion count of each segment.
pub fn docs_affected(deleted_per_segment: &Vec<u32>) -> (r: DocsAffected)
    ensures
        r.docs_affected == capped_sum(deleted_per_segment@),
{
    let mut acc: u32 = 0;
    let mut i: usize = 0;
    while i < deleted_per_segment.len()
        invariant
            i <= deleted_per_segment@.len(),
            acc == capped_sum(deleted_per_segment@.take(i as int)),
        decreases deleted_per_segment@.len() - i,
    {
        assert(deleted_per_segment@.take(i as int + 1).drop_last() == deleted_per_segment@.take(
            i as int,
        ));
        acc = acc.saturating_add(deleted_per_segment[i]);
        i = i + 1;
    }
    assert(deleted_per_segment@.take(i as int) == deleted_per_segment@);
    DocsAffected { docs_affected: acc }
}

/// The node-local side of an index: its name, its schema and the count of
/// operations handed to its writer since the last commit. The engine's index
/// and writer are held beside it; every mutation of the writer is recorded
/// here while the writer is held.
pub struct LocalIndex {
    name: String,
    schema: Schema,
    current_opstamp: usize,
}

impl LocalIndex {
    pub closed spec fn name_view(&self) -> Seq<char> {
        self.name@
    }

    pub closed spec fn schema_view(&self) -> Schema {
        self.schema
    }

    pub closed spec fn opstamp(&self) -> nat {
        self.current_opstamp as nat
    }

    pub open spec fn wf(&self) -> bool {
        self.schema_view().wf()
    }

    /// A handle with no operation pending.
    pub fn new(name: String, schema: Schema) -> (r: LocalIndex)
        requires
            schema.wf(),
        ensures
            r.name_view() == name@,
            r.schema_view() == schema,
            r.opstamp() == 0,
            r.wf(),
    {
        LocalIndex { name, schema, current_opstamp: 0 }
    }

    pub fn get_name(&self) -> (r: String)
        ensures
            r@ == self.name_view(),
    {
        self.name.clone()
    }

    pub fn index_location(&self) -> (r: IndexLocation)
        ensures
            r is LOCAL,
    {
        IndexLocation::LOCAL
    }

    pub fn schema(&self) -> (r: &Schema)
        ensures
            *r == self.schema_view(),
    {
        &self.schema
    }

    pub fn get_opstamp(&self) -> (r: usize)
        ensures
            r == self.opstamp(),
    {
        self.current_opstamp
    }

    pub fn set_opstamp(&mut self, opstamp: usize)
        ensures
            final(self).opstamp() == opstamp,
            final(self).name_view() == old(self).name_view(),
            final(self).schema_view() == old(self).schema_view(),
    {
        self.current_opstamp = opstamp;
    }

    /// Records a document added to the writer: a commit that went through
    /// leaves nothing pending; otherwise one more operation is pending.
    pub fn record_add(&mut self, outcome: WriteOutcome)
        requires
            old(self).opstamp() < usize::MAX,
        ensures
            final(self).opstamp() == if outcome == WriteOutcome::Committed {
                0
            } else {
                old(self).opstamp() + 1
            },
            final(self).name_view() == old(self).name_view(),
            final(self).schema_view() == old(self).schema_view(),
    {
        if outcome == WriteOutcome::Committed {
            self.current_opstamp = 0;
        } else {
            self.current_opstamp = self.current_opstamp + 1;
        }
    }

    /// Records a delete handed to the writer: a commit that went through leaves
    /// nothing pending; otherwise the count stands.
    pub fn record_delete(&mut self, outcome: WriteOutcome)
        ensures
            final(self).opstamp() == if outcome == WriteOutcome::Committed {
                0
            } else {
                old(self).opstamp()
            },
            final(self).name_view() == old(self).name_view(),
            final(self).schema_view() == old(self).schema_view(),
    {
        if outcome == WriteOutcome::Committed {
            self.current_opstamp = 0;
        }
    }

    /// The terms to delete, with each field resolved to its id.
    pub fn delete_terms(&self, terms: &Vec<(String, String)>) -> (r: Result<
        Vec<(u32, String)>,
        Error,
    >)
        requires
            self.wf(),
        ensures
            match resolve_terms(terms@, self.schema_view()) {
                Ok(ts) => r matches Ok(v) && term_list_view(v) == ts,
                Err(e) => r matches Err(x) && x@ == e,
            },
    {
        let ghost ts = terms@;
        let ghost s = self.schema;
        let mut out: Vec<(u32, String)> = Vec::new();
        let mut i: usize = 0;
        assert(ts.take(0) == Seq::<(String, String)>::empty());
        assert(term_list_view(out) =~= Seq::empty());
        while i < terms.len()
            invariant
                ts == terms@,
                s == self.schema,
                s.wf(),
                i <= ts.len(),
                resolve_terms(ts.take(i as int), s) matches Ok(acc) && acc == term_list_view(out),
            decreases ts.len() - i,
        {
            assert(ts.take(i as int + 1).drop_last() == ts.take(i as int));
            assert(ts.take(i as int + 1).last() == ts[i as int]);
            let (field, value) = &terms[i];
            match self.schema.get_field(field.as_str()) {
                None => {
                    proof {
                        lemma_resolve_prefix(ts, s, i + 1);
                    }
                    return Err(Error::UnknownField(field.clone()));
                },
                Some(id) => {
                    let ghost before = out;
                    out.push((id, value.clone()));
                    assert(term_list_view(out) =~= term_list_view(before).push(
                        (id as int, value@),
                    ));
                },
            }
            i = i + 1;
        }
        assert(ts.take(i as int) == ts);
        Ok(out)
    }
}

} // verus!

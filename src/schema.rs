use vstd::prelude::*;
use vstd::string::StringSliceAdditionalSpecFns;

verus! {

/// How a field is typed and indexed.
pub enum FieldType {
    /// Text; `positions` says whether term positions are recorded, which phrase
    /// queries need.
    Text { indexed: bool, positions: bool },
    I64 { indexed: bool },
    U64 { indexed: bool },
    F64 { indexed: bool },
    Facet,
    Bytes { indexed: bool },
}

pub open spec fn type_is_indexed(t: FieldType) -> bool {
    match t {
        FieldType::Text { indexed, .. } => indexed,
        FieldType::I64 { indexed } => indexed,
        FieldType::U64 { indexed } => indexed,
        FieldType::F64 { indexed } => indexed,
        FieldType::Facet => true,
        FieldType::Bytes { indexed } => indexed,
    }
}

impl FieldType {
    pub fn is_indexed(&self) -> (r: bool)
        ensures
            r == type_is_indexed(*self),
    {
        match self {
            FieldType::Text { indexed, .. } => *indexed,
            FieldType::I64 { indexed } => *indexed,
            FieldType::U64 { indexed } => *indexed,
            FieldType::F64 { indexed } => *indexed,
            FieldType::Facet => true,
            FieldType::Bytes { indexed } => *indexed,
        }
    }
}

pub struct FieldEntry {
    pub name: String,
    pub field_type: FieldType,
    pub stored: bool,
}

/// The fields of an index, in order; a field's id is its position.
pub struct Schema {
    pub fields: Vec<FieldEntry>,
}

/// The position of the first field of `fields` called `name`.
pub open spec fn lookup(fields: Seq<FieldEntry>, name: Seq<char>) -> Option<int>
    decreases fields.len(),
{
    if fields.len() == 0 {
        None
    } else {
        match lookup(fields.drop_last(), name) {
            Some(i) => Some(i),
            None => if fields.last().name@ == name {
                Some(fields.len() - 1)
            } else {
                None
            },
        }
    }
}

pub proof fn lemma_lookup_bounds(fields: Seq<FieldEntry>, name: Seq<char>)
    ensures
        lookup(fields, name) matches Some(i) ==> 0 <= i < fields.len() && fields[i].name@ == name,
        lookup(fields, name) is None ==> forall|j: int|
            0 <= j < fields.len() ==> #[trigger] fields[j].name@ != name,
    decreases fields.len(),
{
    if fields.len() > 0 {
        lemma_lookup_bounds(fields.drop_last(), name);
        assert forall|j: int| 0 <= j < fields.len() - 1 implies #[trigger] fields[j] == fields.drop_last()[j] by {}
    }
}

/// A first match in a prefix stays the first match of the whole sequence.
pub proof fn lemma_lookup_prefix(fields: Seq<FieldEntry>, name: Seq<char>, k: int)
    requires
        0 <= k <= fields.len(),
        lookup(fields.take(k), name) is Some,
    ensures
        lookup(fields, name) == lookup(fields.take(k), name),
    decreases fields.len() - k,
{
    if k < fields.len() {
        assert(fields.drop_last().take(k) == fields.take(k));
        lemma_lookup_prefix(fields.drop_last(), name, k);
    } else {
        assert(fields.take(k) == fields);
    }
}

impl Schema {
    /// Every field id fits in a `u32`.
    pub open spec fn wf(&self) -> bool {
        self.fields@.len() <= u32::MAX
    }

    pub open spec fn field_id(&self, name: Seq<char>) -> Option<int> {
        lookup(self.fields@, name)
    }

    /// The id of the field called `name`, if the schema has one.
    pub fn get_field(&self, name: &str) -> (r: Option<u32>)
        requires
            self.fields@.len() <= u32::MAX,
        ensures
            r matches Some(i) ==> self.field_id(name@) == Some(i as int),
            r is None ==> self.field_id(name@) is None,
    {
        let mut i: usize = 0;
        while i < self.fields.len()
            invariant
                i <= self.fields@.len() <= u32::MAX,
                lookup(self.fields@.take(i as int), name@) is None,
            decreases self.fields@.len() - i,
        {
            let ghost before = self.fields@.take(i as int);
            assert(self.fields@.take(i as int + 1).drop_last() == before);
            if str_eq(self.fields[i].name.as_str(), name) {
                proof {
                    lemma_lookup_prefix(self.fields@, name@, i + 1);
                }
                return Some(i as u32);
            }
            i = i + 1;
        }
        assert(self.fields@.take(i as int) == self.fields@);
        None
    }
}

/// Whether two strings hold the same characters.
pub fn str_eq(a: &str, b: &str) -> (r: bool)
    ensures
        r == (a@ == b@),
{
    let ab = a.as_bytes();
    let bb = b.as_bytes();
    if ab.len() != bb.len() {
        proof {
            if a@ == b@ {
                assert(a.spec_bytes() == b.spec_bytes());
            }
        }
        return false;
    }
    let mut i: usize = 0;
    while i < ab.len()
        invariant
            ab@ == a.spec_bytes(),
            bb@ == b.spec_bytes(),
            ab@.len() == bb@.len(),
            i <= ab@.len(),
            ab@.take(i as int) == bb@.take(i as int),
        decreases ab@.len() - i,
    {
        if ab[i] != bb[i] {
            proof {
                if a@ == b@ {
                    assert(a.spec_bytes() == b.spec_bytes());
                }
            }
            return false;
        }
        assert(ab@.take(i as int + 1) == ab@.take(i as int).push(ab@[i as int]));
        assert(bb@.take(i as int + 1) == bb@.take(i as int).push(bb@[i as int]));
        i = i + 1;
    }
    assert(ab@ == ab@.take(i as int));
    assert(bb@ == bb@.take(i as int));
    proof {
        vstd::utf8::encode_utf8_decode_utf8(a@);
        vstd::utf8::encode_utf8_decode_utf8(b@);
    }
    true
}

} // verus!

use toshi::catalog::{index_entries, sort_dedup, IndexCatalog};
use toshi::error::Error;
use toshi::handle::{commit_requested, docs_affected, IndexLocation, IndexOptions, LocalIndex, WriteOutcome};
use toshi::placement::{Code, KvRead, NodeData, Place, PlacementRequest};
use toshi::results::{count_facets, sum_signed, sum_values, FacetCount, SearchResults, SignedSum, SumResult};
use toshi::schema::{FieldEntry, FieldType, Schema};

fn schema() -> Schema {
    Schema {
        fields: vec![
            FieldEntry { name: "test_text".into(), field_type: FieldType::Text { indexed: true, positions: true }, stored: true },
            FieldEntry { name: "test_u64".into(), field_type: FieldType::U64 { indexed: true }, stored: true },
        ],
    }
}

#[test]
fn list_indexes_is_sorted_and_unique() {
    let mut cat: IndexCatalog<u32> = IndexCatalog::new("/data".into());
    assert!(cat.add_index("zeta".into(), 1).is_ok());
    assert!(cat.add_index("alpha".into(), 2).is_ok());
    assert!(cat.add_index("mid".into(), 3).is_ok());
    assert_eq!(cat.list_indexes(), vec!["alpha".to_string(), "mid".to_string(), "zeta".to_string()]);
}

#[test]
fn add_index_twice_is_already_exists() {
    let mut cat: IndexCatalog<u32> = IndexCatalog::new("/data".into());
    assert!(cat.add_index("test_index".into(), 1).is_ok());
    let err = cat.add_index("test_index".into(), 2).err().unwrap();
    assert!(matches!(err, Error::AlreadyExists(ref n) if n == "test_index"));
    assert_eq!(*cat.get_index("test_index").ok().unwrap(), 1);
    assert!(cat.check_available("test_index").is_err());
    assert!(cat.check_available("other").is_ok());
}

#[test]
fn unknown_index_is_reported() {
    let cat: IndexCatalog<u32> = IndexCatalog::new("/data".into());
    let err = cat.get_index("bad_index").err().unwrap();
    assert!(matches!(err, Error::UnknownIndex(ref n) if n == "bad_index"));
    assert_eq!(err.status(), 404);
    assert!(!cat.has_index("bad_index"));
    assert_eq!(cat.base_path(), "/data");
}

#[test]
fn clear_drops_every_index() {
    let mut cat: IndexCatalog<u32> = IndexCatalog::new("/data".into());
    cat.add_index("a".into(), 1).ok().unwrap();
    cat.clear();
    assert!(cat.list_indexes().is_empty());
    assert!(cat.add_index("a".into(), 5).is_ok());
    assert_eq!(*cat.get_index("a").ok().unwrap(), 5);
}

#[test]
fn sort_dedup_orders_by_bytes() {
    let names = vec!["b".to_string(), "B".to_string(), "a".to_string(), "b".to_string(), "ab".to_string()];
    assert_eq!(sort_dedup(&names), vec!["B".to_string(), "a".to_string(), "ab".to_string(), "b".to_string()]);
    assert!(sort_dedup(&Vec::new()).is_empty());
}

#[test]
fn refresh_skips_node_id_file() {
    let entries = vec!["test_index".to_string(), ".node_id".to_string(), "other".to_string()];
    assert_eq!(index_entries(&entries), vec!["test_index".to_string(), "other".to_string()]);
}

#[test]
fn add_without_commit_counts_one_more() {
    let mut h = LocalIndex::new("test_index".into(), schema());
    assert_eq!(h.get_opstamp(), 0);
    h.record_add(WriteOutcome::Queued);
    h.record_add(WriteOutcome::Queued);
    assert_eq!(h.get_opstamp(), 2);
    h.record_add(WriteOutcome::CommitFailed);
    assert_eq!(h.get_opstamp(), 3);
}

#[test]
fn add_with_commit_resets_opstamp() {
    let mut h = LocalIndex::new("test_index".into(), schema());
    h.set_opstamp(41);
    h.record_add(WriteOutcome::Committed);
    assert_eq!(h.get_opstamp(), 0);
    assert_eq!(h.get_name(), "test_index");
    assert!(matches!(h.index_location(), IndexLocation::LOCAL));
}

#[test]
fn delete_with_commit_resets_and_without_keeps() {
    let mut h = LocalIndex::new("test_index".into(), schema());
    h.set_opstamp(4);
    h.record_delete(WriteOutcome::Queued);
    assert_eq!(h.get_opstamp(), 4);
    h.record_delete(WriteOutcome::Committed);
    assert_eq!(h.get_opstamp(), 0);
}

#[test]
fn commit_option_is_read() {
    assert!(commit_requested(&Some(IndexOptions { commit: true })));
    assert!(!commit_requested(&Some(IndexOptions { commit: false })));
    assert!(!commit_requested(&None));
}

#[test]
fn delete_terms_resolve_fields() {
    let h = LocalIndex::new("test_index".into(), schema());
    let terms = vec![("test_text".to_string(), "document".to_string())];
    let resolved = h.delete_terms(&terms).ok().unwrap();
    assert_eq!(resolved, vec![(0u32, "document".to_string())]);
    let bad = vec![("test_u64".to_string(), "1".to_string()), ("nope".to_string(), "x".to_string())];
    let err = h.delete_terms(&bad).err().unwrap();
    assert!(matches!(err, Error::UnknownField(ref f) if f == "nope"));
}

#[test]
fn docs_affected_sums_segments() {
    assert_eq!(docs_affected(&vec![3]).docs_affected, 3);
    assert_eq!(docs_affected(&vec![1, 0, 2]).docs_affected, 3);
    assert_eq!(docs_affected(&vec![u32::MAX, 5]).docs_affected, u32::MAX);
    assert_eq!(docs_affected(&vec![]).docs_affected, 0);
}

#[test]
fn zero_limit_keeps_hits_and_drops_docs() {
    let r = SearchResults::from_matches(5, vec!["a", "b", "c"], 0, Vec::new(), None);
    assert_eq!(r.hits, 5);
    assert!(r.get_docs().is_empty());
}

#[test]
fn limit_keeps_the_top_documents() {
    let r = SearchResults::from_matches(3, vec!["a", "b", "c"], 2, Vec::new(), None);
    assert_eq!(r.hits, 3);
    assert_eq!(r.docs, vec!["a", "b"]);
    let r = SearchResults::from_matches(3, vec!["a", "b", "c"], 10, Vec::new(), None);
    assert_eq!(r.docs.len(), 3);
}

#[test]
fn sum_counts_missing_as_zero() {
    let s = sum_values(&vec![Some(10), None, Some(20), Some(30)]);
    assert!(s == SumResult { value: 60, overflow: false });
}

#[test]
fn sum_saturates_on_overflow() {
    let s = sum_values(&vec![Some(u64::MAX), Some(1), Some(2)]);
    assert_eq!(s.value, u64::MAX);
    assert!(s.overflow);
    assert!(sum_values(&vec![]) == SumResult { value: 0, overflow: false });
}

#[test]
fn test_facets() {
    let docs = vec![
        vec!["/cat/cat2".to_string()],
        vec!["/cat/cat3".to_string(), "/dog".to_string()],
        vec!["/category".to_string()],
        vec![],
    ];
    let paths = vec!["/cat".to_string(), "/cat/cat2".to_string(), "/".to_string(), "/bird".to_string()];
    let counts: Vec<FacetCount> = count_facets(&paths, &docs);
    assert_eq!(counts.len(), 4);
    assert_eq!(counts[0].field, "/cat");
    assert_eq!(counts[0].value, 2);
    assert_eq!(counts[1].value, 1);
    assert_eq!(counts[2].value, 3);
    assert_eq!(counts[3].value, 0);
}

#[test]
fn placement_picks_last_primary() {
    let place = Place::new();
    let req = PlacementRequest { index: "test".into(), kind: 1 };
    let read = KvRead::Found(NodeData { primaries: vec!["n1".into(), "n2".into()] });
    let reply = place.determine_placement(&req, read).ok().unwrap();
    assert_eq!(reply.node, "n2");
    assert_eq!(reply.kind, 1);
}

#[test]
fn placement_failures_map_to_codes() {
    let place = Place::new();
    let req = PlacementRequest { index: "test".into(), kind: 1 };
    assert!(place.determine_placement(&req, KvRead::Unavailable).err().unwrap().code == Code::Internal);
    assert!(place.determine_placement(&req, KvRead::NoSuchIndex).err().unwrap().code == Code::NotFound);
    assert!(place.determine_placement(&req, KvRead::Malformed).err().unwrap().code == Code::Internal);
    let empty = KvRead::Found(NodeData { primaries: vec![] });
    assert!(place.determine_placement(&req, empty).err().unwrap().code == Code::Internal);
}

#[test]
fn error_messages_and_statuses() {
    assert_eq!(Error::UnknownField("asdf".into()).message(), "Unknown field: asdf");
    assert_eq!(
        Error::FieldNotIndexed("test_unindex".into()).message(),
        "The field 'test_unindex' is not declared as indexed"
    );
    assert_eq!(Error::QueryError("bad".into()).message(), "bad");
    assert_eq!(Error::IOError("disk".into()).status(), 500);
    assert_eq!(Error::Internal("x".into()).status(), 500);
    assert_eq!(Error::AlreadyExists("x".into()).status(), 400);
}

#[test]
fn signed_sum_clamps_both_ways() {
    let s = sum_signed(&vec![Some(-10), None, Some(70)]);
    assert!(s == SignedSum { value: 60, overflow: false });
    let s = sum_signed(&vec![Some(i64::MAX), Some(1)]);
    assert!(s == SignedSum { value: i64::MAX, overflow: true });
    let s = sum_signed(&vec![Some(i64::MIN), Some(-1), Some(0)]);
    assert!(s == SignedSum { value: i64::MIN, overflow: true });
    let s = sum_signed(&vec![Some(i64::MAX), Some(1), Some(-1)]);
    assert!(s == SignedSum { value: i64::MAX, overflow: false });
}

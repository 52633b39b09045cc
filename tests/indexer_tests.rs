use notes_index::coordinator::{Admission, BackgroundIndexer, Notification, MAX_CONCURRENT_INDEXING};

#[test]
fn requests_above_ceiling_are_dropped() {
    let mut ix = BackgroundIndexer::new();
    assert_eq!(MAX_CONCURRENT_INDEXING, 2);
    assert_eq!(ix.start_indexing("/a"), Admission::Started);
    assert_eq!(ix.start_indexing("/b"), Admission::Started);
    assert_eq!(ix.start_indexing("/c"), Admission::Deferred);
    assert_eq!(ix.start_indexing("/d"), Admission::Deferred);
    assert_eq!(ix.active_jobs(), 2);
    // a dropped request is not remembered: once a slot frees, it must be asked again
    ix.finish_indexing("/a", Ok(3));
    assert_eq!(ix.active_jobs(), 1);
    assert!(!ix.is_indexed("/c"));
    assert_eq!(ix.start_indexing("/c"), Admission::Started);
}

#[test]
fn completed_root_is_not_indexed_again() {
    let mut ix = BackgroundIndexer::new();
    assert_eq!(ix.start_indexing("/notes"), Admission::Started);
    let n = ix.finish_indexing("/notes", Ok(7));
    assert_eq!(n, Notification::IndexingComplete(7));
    assert!(ix.is_indexed("/notes"));
    assert_eq!(ix.start_indexing("/notes"), Admission::AlreadyIndexed);
    assert_eq!(ix.active_jobs(), 0);
}

#[test]
fn failed_root_stays_eligible() {
    let mut ix = BackgroundIndexer::with_ceiling(1);
    assert_eq!(ix.start_indexing("/r"), Admission::Started);
    assert_eq!(ix.start_indexing("/s"), Admission::Deferred);
    let n = ix.finish_indexing("/r", Err("cannot list".to_string()));
    assert_eq!(n, Notification::IndexingError("cannot list".to_string()));
    assert!(!ix.is_indexed("/r"));
    assert_eq!(ix.active_jobs(), 0);
    assert_eq!(ix.start_indexing("/r"), Admission::Started);
}

#[test]
fn zero_ceiling_admits_nothing() {
    let mut ix = BackgroundIndexer::with_ceiling(0);
    assert_eq!(ix.start_indexing("/r"), Admission::Deferred);
    assert_eq!(ix.active_jobs(), 0);
}

#[test]
fn burst_of_requests_admits_exactly_the_ceiling() {
    let mut ix = BackgroundIndexer::new();
    let roots: Vec<String> = (0..5).map(|i| format!("/root{}", i)).collect();
    let adm = ix.start_indexing_all(&roots);
    assert_eq!(
        adm,
        vec![
            Admission::Started,
            Admission::Started,
            Admission::Deferred,
            Admission::Deferred,
            Admission::Deferred
        ]
    );
    assert_eq!(ix.active_jobs(), 2);
}

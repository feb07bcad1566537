use toyfuzzer::corpus::Corpus;
use toyfuzzer::coverage::{signals_set, CoverageMap, Fingerprint};
use toyfuzzer::crashes::CrashStore;
use toyfuzzer::scheduler::Scheduler;

fn fingerprint_of(points: &[usize]) -> Fingerprint {
    let mut map = CoverageMap::new(16);
    for p in points {
        signals_set(&mut map, *p);
    }
    map.fingerprint()
}

fn corpus_of(n: usize) -> Corpus {
    let mut corpus = Corpus::new();
    for i in 0..n {
        corpus.add(vec![i as u8], fingerprint_of(&[i]), i as u64);
    }
    corpus
}

#[test]
fn corpus_ids_are_strictly_increasing_and_unique() {
    let mut corpus = Corpus::new();
    assert!(corpus.is_empty());
    assert_eq!(corpus.len(), 0);
    let mut last: Option<usize> = None;
    for i in 0..20u8 {
        let id = corpus.add(vec![i], fingerprint_of(&[0]), 7);
        if let Some(prev) = last {
            assert!(id > prev);
        }
        last = Some(id);
    }
    assert_eq!(corpus.len(), 20);
    assert!(!corpus.is_empty());
    for i in 0..20 {
        let entry = corpus.get(i).unwrap();
        assert_eq!(entry.id, i);
        assert_eq!(entry.input, vec![i as u8]);
        assert_eq!(entry.found_at, 7);
    }
}

#[test]
fn corpus_first_id_is_zero_and_lookup_misses_absent_ids() {
    let mut corpus = Corpus::new();
    assert!(corpus.get(0).is_none());
    let id = corpus.add(b"seed".to_vec(), fingerprint_of(&[0, 1]), 3);
    assert_eq!(id, 0);
    let entry = corpus.get(0).unwrap();
    assert_eq!(entry.input, b"seed".to_vec());
    assert_eq!(entry.fingerprint.indices(), vec![0, 1]);
    assert_eq!(entry.found_at, 3);
    assert!(corpus.get(1).is_none());
    assert!(corpus.get(usize::MAX).is_none());
}

#[test]
fn corpus_keeps_duplicates_as_separate_entries() {
    let mut corpus = Corpus::new();
    assert_eq!(corpus.add(b"x".to_vec(), fingerprint_of(&[0]), 0), 0);
    assert_eq!(corpus.add(b"x".to_vec(), fingerprint_of(&[0]), 0), 1);
    assert_eq!(corpus.len(), 2);
}

#[test]
fn scheduler_visits_each_entry_once_in_insertion_order() {
    let corpus = corpus_of(5);
    let mut scheduler = Scheduler::new();
    assert_eq!(scheduler.current(), None);
    let mut seen = Vec::new();
    for _ in 0..5 {
        seen.push(scheduler.next(&corpus).unwrap());
    }
    assert_eq!(seen, vec![0, 1, 2, 3, 4]);
    assert_eq!(scheduler.current(), Some(4));
    // then the cycle repeats
    let mut again = Vec::new();
    for _ in 0..5 {
        again.push(scheduler.next(&corpus).unwrap());
    }
    assert_eq!(again, vec![0, 1, 2, 3, 4]);
}

#[test]
fn scheduler_any_window_of_n_calls_is_a_permutation() {
    let corpus = corpus_of(4);
    let mut scheduler = Scheduler::new();
    scheduler.next(&corpus);
    scheduler.next(&corpus);
    let mut seen = Vec::new();
    for _ in 0..4 {
        seen.push(scheduler.next(&corpus).unwrap());
    }
    assert_eq!(seen, vec![2, 3, 0, 1]);
}

#[test]
fn scheduler_on_empty_corpus_returns_none() {
    let corpus = Corpus::new();
    let mut scheduler = Scheduler::new();
    assert_eq!(scheduler.next(&corpus), None);
    assert_eq!(scheduler.current(), None);
}

#[test]
fn scheduler_single_entry_repeats() {
    let corpus = corpus_of(1);
    let mut scheduler = Scheduler::new();
    assert_eq!(scheduler.next(&corpus), Some(0));
    assert_eq!(scheduler.next(&corpus), Some(0));
}

#[test]
fn scheduler_reaches_entries_appended_during_the_cycle() {
    let mut corpus = corpus_of(2);
    let mut scheduler = Scheduler::new();
    assert_eq!(scheduler.next(&corpus), Some(0));
    assert_eq!(scheduler.next(&corpus), Some(1));
    corpus.add(b"new".to_vec(), fingerprint_of(&[9]), 5);
    assert_eq!(scheduler.next(&corpus), Some(2));
    assert_eq!(scheduler.next(&corpus), Some(0));
}

#[test]
fn crash_store_keeps_one_record_per_fingerprint() {
    let mut store = CrashStore::new();
    assert_eq!(store.len(), 0);
    assert!(!store.contains(&fingerprint_of(&[0, 1, 2])));
    assert!(store.insert(b"abc".to_vec(), fingerprint_of(&[0, 1, 2]), 4));
    assert!(store.contains(&fingerprint_of(&[0, 1, 2])));
    assert!(!store.insert(b"abcxyz".to_vec(), fingerprint_of(&[0, 1, 2]), 9));
    assert_eq!(store.len(), 1);
    let record = store.get(0).unwrap();
    assert_eq!(record.input, b"abc".to_vec());
    assert_eq!(record.found_at, 4);
    assert_eq!(record.fingerprint.indices(), vec![0, 1, 2]);
    assert!(store.get(1).is_none());
}

#[test]
fn crash_store_keeps_distinct_fingerprints_in_order() {
    let mut store = CrashStore::new();
    assert!(store.insert(b"1".to_vec(), fingerprint_of(&[0]), 1));
    assert!(store.insert(b"2".to_vec(), fingerprint_of(&[0, 1]), 2));
    assert!(store.insert(b"3".to_vec(), fingerprint_of(&[]), 3));
    assert!(!store.insert(b"4".to_vec(), fingerprint_of(&[1, 0]), 4));
    assert!(!store.insert(b"5".to_vec(), Fingerprint::empty(), 5));
    assert_eq!(store.len(), 3);
    assert_eq!(store.get(0).unwrap().input, b"1".to_vec());
    assert_eq!(store.get(1).unwrap().input, b"2".to_vec());
    assert_eq!(store.get(2).unwrap().input, b"3".to_vec());
}

#[test]
fn crash_store_same_input_different_fingerprint_is_new() {
    let mut store = CrashStore::new();
    assert!(store.insert(b"abc".to_vec(), fingerprint_of(&[0]), 1));
    assert!(store.insert(b"abc".to_vec(), fingerprint_of(&[1]), 2));
    assert_eq!(store.len(), 2);
}

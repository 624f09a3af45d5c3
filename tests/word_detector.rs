use udger::WordDetector;

/// Word ids that a case-insensitive scan of `text` reports, in order of
/// match end.
fn report(words: &[(u16, &str)], text: &str) -> Vec<u16> {
    let mut hits: Vec<(usize, u16)> = Vec::new();
    for (id, pattern) in words {
        let re = regex::RegexBuilder::new(pattern).case_insensitive(true).build().unwrap();
        for m in re.find_iter(text) {
            hits.push((m.end(), *id));
        }
    }
    hits.sort_by_key(|h| h.0);
    hits.into_iter().map(|h| h.1).collect()
}

#[test]
fn test_get_word_ids() {
    let mut detector = WordDetector::new();
    let ids: Vec<u16> = vec![123, 321];
    let counts: Vec<u16> = vec![1, 100];
    detector.init(&ids, &counts);

    let reported = report(
        &[(123, "regex"), (321, "ex")],
        "This is a sentence contains the word regex",
    );
    let ids = detector.get_word_ids(&reported);

    assert!(matches!(ids.iter().find(|id| **id == 123), Some(_)));
    assert!(matches!(ids.iter().find(|id| **id == 321), Some(_)));
    assert_eq!(*ids.get(0).unwrap(), 321);
    assert_eq!(*ids.get(1).unwrap(), 123);
}

#[test]
fn unknown_word_ids_are_dropped() {
    let mut detector = WordDetector::new();
    detector.init(&vec![1, 2], &vec![10, 20]);
    let ids = detector.get_word_ids(&vec![7, 1, 9, 2, 7]);
    assert_eq!(ids, vec![2, 1]);
}

#[test]
fn equal_counts_keep_report_order() {
    let mut detector = WordDetector::new();
    detector.init(&vec![1, 2, 3, 4], &vec![5, 9, 5, 5]);
    let ids = detector.get_word_ids(&vec![4, 1, 2, 3]);
    assert_eq!(ids, vec![2, 4, 1, 3]);
}

#[test]
fn empty_report_gives_empty_keyword_set() {
    let mut detector = WordDetector::new();
    detector.init(&vec![1], &vec![1]);
    assert!(detector.get_word_ids(&Vec::new()).is_empty());
}

#[test]
fn later_count_for_same_word_wins_and_lists_pair_to_shorter() {
    let mut detector = WordDetector::new();
    detector.init(&vec![1, 2, 1, 3], &vec![5, 6, 50]);
    let ids = detector.get_word_ids(&vec![2, 1, 3]);
    assert_eq!(ids, vec![1, 2]);
}

use udger::{keep_rules, RegexSequence, RuleMatch, RuleRow};

/// Rules whose pattern matches `text`, case-insensitively, in order of match
/// end, each with the text of its first capture group.
fn report(rules: &[(u16, &str)], text: &str) -> Vec<RuleMatch> {
    let mut hits: Vec<(usize, RuleMatch)> = Vec::new();
    for (rowid, pattern) in rules {
        let re = regex::RegexBuilder::new(pattern).case_insensitive(true).build().unwrap();
        if let Some(caps) = re.captures(text) {
            let end = caps.get(0).unwrap().end();
            let capture = caps.get(1).map(|m| m.as_str().to_string());
            hits.push((end, RuleMatch { rowid: *rowid, capture }));
        }
    }
    hits.sort_by_key(|h| h.0);
    hits.into_iter().map(|h| h.1).collect()
}

fn rows(spec: &[(u16, u16, u16, u16, u16)]) -> Vec<RuleRow> {
    spec.iter()
        .map(|&(rowid, id, sequence, word1, word2)| RuleRow { rowid, id, sequence, word1, word2 })
        .collect()
}

const SUBJECT: &str = "This is a sentence contains the word regex";

#[test]
fn test_get_row_id() {
    let mut regex_seq = RegexSequence::new(false);
    regex_seq.init(&rows(&[(0, 1, 10, 1, 3)]));
    let found = report(&[(0, r"(regex)")], SUBJECT);
    let word_ids: Vec<u16> = vec![1, 2, 3];
    let id = regex_seq.get_row_id_and_capture(&found, &word_ids);
    assert!(matches!(id, Some(_)));
    assert_eq!(id.unwrap().0, 0);
}

#[test]
fn test_get_row_id_returns_none() {
    let mut regex_seq = RegexSequence::new(false);
    regex_seq.init(&rows(&[(0, 1, 10, 1, 3)]));
    let found = report(&[(0, r"(regexes)")], SUBJECT);
    let word_ids: Vec<u16> = vec![1, 2, 3];
    let id = regex_seq.get_row_id_and_capture(&found, &word_ids);
    assert!(matches!(id, None));
}

#[test]
fn test_get_row_id_multiple_word_id() {
    let mut regex_seq = RegexSequence::new(false);
    regex_seq.init(&rows(&[(0, 1, 10, 1, 3), (1, 2, 20, 1, 2)]));
    let found = report(&[(0, r"(regex)"), (1, r"\s(regex)")], SUBJECT);
    let word_ids: Vec<u16> = vec![1, 2, 3];
    let id = regex_seq.get_row_id_and_capture(&found, &word_ids);
    assert!(matches!(id, Some(_)));
}

#[test]
fn capture_of_winner_is_returned() {
    let mut regex_seq = RegexSequence::new(true);
    regex_seq.init(&rows(&[(0, 1, 10, 1, 0)]));
    let found = report(&[(0, r"word (\w+)")], SUBJECT);
    let r = regex_seq.get_row_id_and_capture(&found, &vec![1]);
    assert_eq!(r, Some((0, Some(String::from("regex")))));
}

#[test]
fn lower_sequence_wins() {
    let mut regex_seq = RegexSequence::new(false);
    regex_seq.init(&rows(&[(0, 1, 20, 0, 0), (1, 2, 10, 0, 0)]));
    let found = vec![
        RuleMatch { rowid: 0, capture: None },
        RuleMatch { rowid: 1, capture: None },
    ];
    let r = regex_seq.get_row_id_and_capture(&found, &vec![5]);
    assert_eq!(r, Some((1, None)));
}

#[test]
fn equal_sequence_keeps_report_order() {
    let mut regex_seq = RegexSequence::new(false);
    regex_seq.init(&rows(&[(0, 1, 10, 0, 0), (1, 2, 10, 0, 0)]));
    let found = vec![
        RuleMatch { rowid: 1, capture: Some(String::from("b")) },
        RuleMatch { rowid: 0, capture: Some(String::from("a")) },
    ];
    let r = regex_seq.get_row_id_and_capture(&found, &vec![5]);
    assert_eq!(r, Some((1, Some(String::from("b")))));
}

#[test]
fn empty_keyword_set_gives_none_even_without_required_words() {
    let mut regex_seq = RegexSequence::new(false);
    regex_seq.init(&rows(&[(0, 1, 10, 0, 0)]));
    let found = vec![RuleMatch { rowid: 0, capture: None }];
    assert_eq!(regex_seq.get_row_id_and_capture(&found, &Vec::new()), None);
}

#[test]
fn unknown_rowids_are_ignored() {
    let mut regex_seq = RegexSequence::new(false);
    regex_seq.init(&rows(&[(3, 1, 50, 0, 0)]));
    let found = vec![
        RuleMatch { rowid: 9, capture: None },
        RuleMatch { rowid: 3, capture: None },
    ];
    assert_eq!(regex_seq.get_row_id_and_capture(&found, &vec![1]), Some((3, None)));
}

#[test]
fn required_words_must_all_be_present() {
    let mut regex_seq = RegexSequence::new(false);
    regex_seq.init(&rows(&[(0, 1, 1, 4, 7), (1, 2, 2, 4, 0)]));
    let found = vec![
        RuleMatch { rowid: 0, capture: None },
        RuleMatch { rowid: 1, capture: None },
    ];
    assert_eq!(regex_seq.get_row_id_and_capture(&found, &vec![4, 4]), Some((1, None)));
    assert_eq!(regex_seq.get_row_id_and_capture(&found, &vec![7, 4]), Some((0, None)));
}

#[test]
fn get_id_gives_catalogue_id() {
    let mut regex_seq = RegexSequence::new(false);
    regex_seq.init(&rows(&[(0, 41, 10, 0, 0), (1, 42, 10, 0, 0), (0, 43, 10, 0, 0)]));
    assert_eq!(regex_seq.get_id(0), Some(43));
    assert_eq!(regex_seq.get_id(1), Some(42));
    assert_eq!(regex_seq.get_id(2), None);
}

#[test]
fn keep_rules_keeps_listed_rowids_in_order() {
    let all = rows(&[(0, 1, 10, 0, 0), (1, 2, 5, 0, 0), (2, 3, 7, 0, 0)]);
    let kept = keep_rules(&all, &vec![2, 0]);
    let ids: Vec<u16> = kept.iter().map(|r| r.rowid).collect();
    assert_eq!(ids, vec![0, 2]);
}

use dungeon_crawler::text::{chars_of, contains_text, same_text, split_by};

#[test]
fn split_like_str_split() {
    for (s, seps) in [("a_b.c", vec!['_', '.']), ("", vec!['_']), ("__", vec!['_']), ("äö-ü", vec!['-'])] {
        let expected: Vec<String> = s.split(|c| seps.contains(&c)).map(|p| p.to_string()).collect();
        assert_eq!(split_by(s, &seps), expected);
    }
}

#[test]
fn contains_like_str_contains() {
    for (s, p) in [("tile-empty", "empty"), ("empty", "empty"), ("emp", "empty"), ("abc", ""), ("", ""), ("aab", "ab")] {
        assert_eq!(contains_text(s, p), s.contains(p));
    }
}

#[test]
fn text_equality_and_chars() {
    assert!(same_text("--edit", "--edit"));
    assert!(!same_text("--edit", "--edi"));
    assert!(!same_text("ab", "ba"));
    assert_eq!(chars_of("hé"), vec!['h', 'é']);
}

#[test]
fn split_then_join_gives_back_the_text() {
    for s in ["tile-catacombs-1100", "-", "", "a--b-", "no separator"] {
        let pieces = split_by(s, &vec!['-']);
        assert_eq!(pieces.len(), s.matches('-').count() + 1);
        assert!(pieces.iter().all(|p| !p.contains('-')));
        assert_eq!(pieces.join("-"), s);
    }
}

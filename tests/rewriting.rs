use lexicon::{apply_rewrites, bytes_le, replace_bytes, Index};

fn rules(pairs: &[(&str, &str)]) -> Vec<(String, String)> {
    pairs.iter().map(|(a, b)| (a.to_string(), b.to_string())).collect()
}

#[test]
fn rewrite_rule_applied_before_lookup() {
    let index = Index::parse("b 2\nch 2 7\nch 3 9").unwrap();
    let r = rules(&[("chapter", "ch")]);
    assert_eq!(apply_rewrites(&r, "chapter 2"), b"ch 2".to_vec());
    assert_eq!(index.lookup(&r, "chapter 2"), 7);
    assert_eq!(index.lookup(&Vec::new(), "chapter 2"), 9);
    assert_eq!(index.lookup(&r, "chapter 3"), 9);
}

#[test]
fn replaces_every_occurrence() {
    assert_eq!(replace_bytes(b"a-b-c", b"-", b"+"), b"a+b+c".to_vec());
    assert_eq!(replace_bytes(b"aaaa", b"aa", b"b"), b"bb".to_vec());
    assert_eq!(replace_bytes(b"aaa", b"aa", b"b"), b"ba".to_vec());
    assert_eq!(replace_bytes(b"abc", b"x", b"y"), b"abc".to_vec());
    assert_eq!(replace_bytes(b"", b"x", b"y"), Vec::<u8>::new());
}

#[test]
fn empty_pattern_is_a_no_op() {
    assert_eq!(replace_bytes(b"abc", b"", b"zz"), b"abc".to_vec());
    assert_eq!(apply_rewrites(&rules(&[("", "x")]), "abc"), b"abc".to_vec());
}

#[test]
fn replacement_is_not_rescanned_by_the_same_rule() {
    assert_eq!(replace_bytes(b"ab", b"a", b"aa"), b"aab".to_vec());
    assert_eq!(apply_rewrites(&rules(&[("a", "aa")]), "aba"), b"aabaa".to_vec());
}

#[test]
fn rules_apply_in_sequence() {
    let r = rules(&[("a", "b"), ("b", "c")]);
    assert_eq!(apply_rewrites(&r, "ab"), b"cc".to_vec());
    let r = rules(&[("b", "c"), ("a", "b")]);
    assert_eq!(apply_rewrites(&r, "ab"), b"bc".to_vec());
}

#[test]
fn non_ascii_text_is_rewritten() {
    let r = rules(&[("é", "e")]);
    assert_eq!(apply_rewrites(&r, "café"), "cafe".as_bytes().to_vec());
}

#[test]
fn byte_order() {
    assert!(bytes_le(b"", b""));
    assert!(bytes_le(b"ab", b"abc"));
    assert!(!bytes_le(b"abc", b"ab"));
    assert!(bytes_le(b"abc", b"abd"));
    assert!(!bytes_le(b"b", b"abc"));
    assert!(bytes_le(b"mango", b"orange"));
    assert!(!bytes_le(b"zebra", b"orange"));
    assert!(bytes_le(b"Z", b"a"));
}

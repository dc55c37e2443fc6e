use spawn_harness::pathlist::{join_path_list, split_path_list, str_contains_char};

#[test]
fn test_join_with_colon() {
    let paths = vec!["/x/a".to_string(), "/x/b".to_string(), "/x/c".to_string()];
    assert_eq!(join_path_list(&paths, ':'), Some("/x/a:/x/b:/x/c".to_string()));
}

#[test]
fn test_join_single_and_empty_list() {
    assert_eq!(join_path_list(&vec!["/only".to_string()], ':'), Some("/only".to_string()));
    assert_eq!(join_path_list(&Vec::new(), ':'), Some(String::new()));
}

#[test]
fn test_join_rejects_path_holding_separator() {
    let paths = vec!["/x/a".to_string(), "/x:b".to_string()];
    assert_eq!(join_path_list(&paths, ':'), None);
    // The same paths are fine under the other platform's separator.
    assert_eq!(join_path_list(&paths, ';'), Some("/x/a;/x:b".to_string()));
}

#[test]
fn test_split_with_colon() {
    assert_eq!(
        split_path_list("one:two:three", ':'),
        vec!["one".to_string(), "two".to_string(), "three".to_string()]
    );
}

#[test]
fn test_split_keeps_empty_pieces() {
    assert_eq!(split_path_list("", ':'), vec!["".to_string()]);
    assert_eq!(
        split_path_list("a::b:", ':'),
        vec!["a".to_string(), "".to_string(), "b".to_string(), "".to_string()]
    );
}

#[test]
fn test_join_then_split_round_trip() {
    let paths = vec!["/t/a".to_string(), "/t/b".to_string(), "/t/c".to_string()];
    let joined = join_path_list(&paths, ':').expect("separator-free paths must join");
    assert_eq!(split_path_list(&joined, ':'), paths);
}

#[test]
fn test_str_contains_char() {
    assert!(str_contains_char("a:b", ':'));
    assert!(!str_contains_char("ab", ':'));
    assert!(!str_contains_char("", ':'));
}

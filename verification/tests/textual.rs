use cook_parser::text::{parse_u64, space_join, split_on_pipe};
use cook_parser::StrMap;

#[test]
fn numbers_parse_exactly() {
    assert_eq!(parse_u64("0"), Some(0));
    assert_eq!(parse_u64("42"), Some(42));
    assert_eq!(parse_u64("18446744073709551615"), Some(u64::MAX));
    assert_eq!(parse_u64("18446744073709551616"), None);
    assert_eq!(parse_u64(""), None);
    assert_eq!(parse_u64("1x"), None);
    assert_eq!(parse_u64("-1"), None);
    assert_eq!(parse_u64(" 1"), None);
}

#[test]
fn pipe_splitting_keeps_pieces() {
    assert_eq!(split_on_pipe("1|2|3"), vec!["1", "2", "3"]);
    assert_eq!(split_on_pipe(""), vec![""]);
    assert_eq!(split_on_pipe("a||b"), vec!["a", "", "b"]);
    assert_eq!(split_on_pipe("1|"), vec!["1", ""]);
    assert_eq!(split_on_pipe("solo"), vec!["solo"]);
}

#[test]
fn names_join_with_single_spaces() {
    assert_eq!(
        space_join(&vec![
            "big".to_string(),
            "potato".to_string(),
            "masher".to_string()
        ]),
        "big potato masher"
    );
    assert_eq!(space_join(&vec![]), "");
    assert_eq!(space_join(&vec!["bowl".to_string()]), "bowl");
    assert_eq!(space_join(&vec!["a".to_string(), "".to_string()]), "a ");
}

#[test]
fn free_form_table_keeps_last_write() {
    let mut m = StrMap::new();
    assert_eq!(m.len(), 0);
    m.set("a".to_string(), "1".to_string());
    m.set("b".to_string(), "2".to_string());
    m.set("a".to_string(), "3".to_string());
    assert_eq!(m.len(), 2);
    assert_eq!(m.get(&"a".to_string()), Some(&"3".to_string()));
    assert_eq!(m.get(&"b".to_string()), Some(&"2".to_string()));
    assert_eq!(m.get(&"c".to_string()), None);
    let pairs = m.pairs_list();
    assert_eq!(pairs.len(), 2);
    assert!(pairs.contains(&("a".to_string(), "3".to_string())));
    assert!(pairs.contains(&("b".to_string(), "2".to_string())));
}

use timetrackrs::tags::TagValue;
use timetrackrs::text::{append_text, position_of, same_text, split_chars, substring, to_chars};

#[test]
fn chars_and_back() {
    let chars = to_chars("a\u{1F6E4}b");
    assert_eq!(chars, vec!['a', '\u{1F6E4}', 'b']);
    assert_eq!(substring(&chars, 0, 3), "a\u{1F6E4}b");
    assert_eq!(substring(&chars, 1, 2), "\u{1F6E4}");
    assert_eq!(substring(&chars, 2, 2), "");
}

#[test]
fn position_is_the_first_at_or_after() {
    let chars = to_chars("a=b=c");
    assert_eq!(position_of(&chars, '=', 0), 1);
    assert_eq!(position_of(&chars, '=', 1), 1);
    assert_eq!(position_of(&chars, '=', 2), 3);
    assert_eq!(position_of(&chars, '=', 4), 5);
    assert_eq!(position_of(&chars, '=', 5), 5);
    assert_eq!(position_of(&chars, 'x', 0), 5);
}

#[test]
fn split_keeps_empty_pieces() {
    assert_eq!(split_chars(&to_chars(""), ','), vec![""]);
    assert_eq!(split_chars(&to_chars("a"), ','), vec!["a"]);
    assert_eq!(split_chars(&to_chars("a,b"), ','), vec!["a", "b"]);
    assert_eq!(split_chars(&to_chars(",a,,b,"), ','), vec!["", "a", "", "b", ""]);
    for s in ["", ",", "a,b,c", ",,", "abc"] {
        let expected: Vec<String> = s.split(',').map(String::from).collect();
        assert_eq!(split_chars(&to_chars(s), ','), expected);
    }
}

#[test]
fn same_text_and_concat() {
    assert!(same_text("a", "a"));
    assert!(!same_text("a", "b"));
    assert!(!same_text("a", ""));
    assert_eq!(append_text("ab", "cd"), "abcd");
    assert_eq!(append_text("", ""), "");
}

#[test]
fn tag_constructors() {
    assert_eq!(TagValue::new("k", "v"), TagValue { tag: "k".to_string(), value: "v".to_string() });
    assert_eq!(
        TagValue::title_match("sd", "proj", "/p"),
        TagValue { tag: "title-match-sd-proj".to_string(), value: "/p".to_string() }
    );
}

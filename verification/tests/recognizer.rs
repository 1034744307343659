use syt::comments::get_key_name;
use syt::comments::KeyData;

#[test]
fn test_get_key_name() {
    assert_eq!(get_key_name("foo"), None);
    assert_eq!(
        get_key_name("foo:"),
        Some(KeyData {
            str: "foo".to_string(),
            start: 0
        })
    );
    assert_eq!(
        get_key_name("  foo:"),
        Some(KeyData {
            str: "foo".to_string(),
            start: 2
        })
    );
    assert_eq!(
        get_key_name("  foo bar:"),
        Some(KeyData {
            str: "foo bar".to_string(),
            start: 2
        })
    );
    assert_eq!(
        get_key_name("- foo bar:"),
        Some(KeyData {
            str: "foo bar".to_string(),
            start: 2
        })
    );
    assert_eq!(
        get_key_name("? foo bar:"),
        Some(KeyData {
            str: "foo bar".to_string(),
            start: 2
        })
    );
}

#[test]
fn recognizer_rejects_comment_lines() {
    assert_eq!(get_key_name("# a comment"), None);
    assert_eq!(get_key_name("#key: value"), None);
    assert_eq!(get_key_name("  # indented: not a key"), None);
}

#[test]
fn recognizer_rejects_lines_without_colon() {
    assert_eq!(get_key_name(""), None);
    assert_eq!(get_key_name("   "), None);
    assert_eq!(get_key_name("- plain item"), None);
}

#[test]
fn recognizer_requires_key_text_before_colon() {
    assert_eq!(get_key_name(": value"), None);
    assert_eq!(get_key_name("::"), None);
    assert_eq!(get_key_name("-  : value"), None);
}

#[test]
fn recognizer_allows_comment_marker_after_key() {
    assert_eq!(
        get_key_name("foo: bar # trailing"),
        Some(KeyData {
            str: "foo".to_string(),
            start: 0
        })
    );
}

#[test]
fn recognizer_extends_key_to_last_colon() {
    assert_eq!(
        get_key_name("a:b: c"),
        Some(KeyData {
            str: "a:b".to_string(),
            start: 0
        })
    );
}

#[test]
fn recognizer_counts_columns_in_characters() {
    assert_eq!(
        get_key_name("\u{a0}key:"),
        Some(KeyData {
            str: "key".to_string(),
            start: 1
        })
    );
}

#[test]
fn recognizer_skips_control_characters() {
    assert_eq!(
        get_key_name("\u{1}foo:"),
        Some(KeyData {
            str: "foo".to_string(),
            start: 1
        })
    );
    assert_eq!(
        get_key_name("foo: 1\n"),
        Some(KeyData {
            str: "foo".to_string(),
            start: 0
        })
    );
}

use syt::comments::annotate;
use syt::comments::Commenter;
use syt::comments::KeyData;
use syt::SytError;

#[test]
fn annotate_with_silent_resolver_is_identity() {
    let text = "name: John Doe\nage: 30\n";
    let out = annotate(text, |_k: KeyData| None);
    assert_eq!(out, text);
}

#[test]
fn annotate_inserts_comments_above_keys() {
    let text = "name: John Doe\nage: 30\n";
    let cb = |key: KeyData| {
        if key.str == "name" {
            Some("The name of the person.".to_string())
        } else if key.str == "age" {
            Some("The age of the person.\nIn years.".to_string())
        } else {
            None
        }
    };
    let out = annotate(text, cb);
    let expected = "# The name of the person.\nname: John Doe\n# The age of the person.\n# In years.\nage: 30\n";
    assert_eq!(out, expected);
}

#[test]
fn annotate_indents_comments_to_nested_keys() {
    let text = "inner:\n  value: hello\n";
    let cb = |key: KeyData| {
        if key.str == "inner" {
            Some("inner struct".to_string())
        } else if key.str == "value" {
            Some("inner value".to_string())
        } else {
            None
        }
    };
    let out = annotate(text, cb);
    assert_eq!(out, "# inner struct\ninner:\n  # inner value\n  value: hello\n");
}

#[test]
fn annotate_renders_empty_comment_lines_blank() {
    let cb = |key: KeyData| {
        if key.str == "a" {
            Some("first\n\nlast".to_string())
        } else {
            None
        }
    };
    let out = annotate("a: 1\n", cb);
    assert_eq!(out, "# first\n\n# last\na: 1\n");
}

#[test]
fn annotate_splits_comment_on_carriage_return_newline() {
    let cb = |key: KeyData| {
        if key.str == "a" {
            Some("one\r\ntwo".to_string())
        } else {
            None
        }
    };
    let out = annotate("a: 1\n", cb);
    assert_eq!(out, "# one\n# two\na: 1\n");
}

#[test]
fn annotate_covers_trailing_line_without_newline() {
    let cb = |key: KeyData| {
        if key.str == "a" {
            Some("note".to_string())
        } else {
            None
        }
    };
    let out = annotate("a: 1", cb);
    assert_eq!(out, "# note\na: 1");
}

#[test]
fn commenter_reports_full_consumption() {
    let mut c = Commenter::new(|_k: KeyData| None);
    let n = c.write(b"a: 1\nb: 2").unwrap();
    assert_eq!(n, 9);
    c.flush();
    assert_eq!(c.into_output(), "a: 1\nb: 2");
}

#[test]
fn commenter_rejects_invalid_utf8() {
    let mut c = Commenter::new(|_k: KeyData| None);
    let e = c.write(&[0xff, 0xfe]).unwrap_err();
    assert!(matches!(e, SytError::FromUtf8Error(_)));
    let n = c.write(b"ok: 1\n").unwrap();
    assert_eq!(n, 6);
    c.flush();
    assert_eq!(c.into_output(), "ok: 1\n");
}

#[test]
fn commenter_buffers_partial_lines_across_writes() {
    let cb = |key: KeyData| {
        if key.str == "key" {
            Some("note".to_string())
        } else {
            None
        }
    };
    let mut c = Commenter::new(cb);
    c.write(b"ke").unwrap();
    c.write(b"y: va").unwrap();
    c.write(b"lue\n").unwrap();
    let out = c.take_output();
    assert_eq!(out, "# note\nkey: value\n");
    assert_eq!(c.take_output(), "");
}

#[test]
fn commenter_write_str_forwards_completed_lines_only() {
    let mut c = Commenter::new(|_k: KeyData| None);
    c.write_str("a: 1\npartial");
    assert_eq!(c.take_output(), "a: 1\n");
    c.flush();
    assert_eq!(c.take_output(), "partial");
}

#[test]
fn io_error_variant_wraps_the_cause() {
    let e = SytError::from(std::io::Error::new(std::io::ErrorKind::NotFound, "gone"));
    assert!(matches!(e, SytError::IoError(_)));
}

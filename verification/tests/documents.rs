use syt::append::append_payload;
use syt::lazy::doc_boundary;
use syt::lazy::join_lines;
use syt::lazy::split_documents;

#[test]
fn append_to_existing_content() {
    let existing = "a: 2\nb: world\n";
    let payload = append_payload(true, "a: 1\nb: hello\n");
    let whole = format!("{existing}{payload}");
    assert_eq!(whole, "a: 2\nb: world\n\n---\na: 1\nb: hello\n");
}

#[test]
fn append_to_empty_content() {
    assert_eq!(append_payload(false, "a: 1\nb: hello\n"), "a: 1\nb: hello\n");
}

#[test]
fn split_two_documents_with_leading_separator() {
    let text = "---\ntitle: Doc 1\ncontent: This is the first document.\n---\ntitle: Doc 2\ncontent: This is the second document.\n---\n";
    let docs = split_documents(text);
    assert_eq!(
        docs,
        vec![
            "---\ntitle: Doc 1\ncontent: This is the first document.".to_string(),
            "title: Doc 2\ncontent: This is the second document.".to_string(),
        ]
    );
}

#[test]
fn split_without_leading_separator() {
    let text = "title: Doc 1\ncontent: A.\n---\ntitle: Doc 2\ncontent: B.\n";
    let docs = split_documents(text);
    assert_eq!(
        docs,
        vec![
            "title: Doc 1\ncontent: A.".to_string(),
            "title: Doc 2\ncontent: B.".to_string(),
        ]
    );
}

#[test]
fn split_empty_text_has_no_documents() {
    assert_eq!(split_documents(""), Vec::<String>::new());
}

#[test]
fn split_without_separator_is_one_document() {
    let docs = split_documents("title: Doc 1\ncontent: A.\n");
    assert_eq!(docs, vec!["title: Doc 1\ncontent: A.".to_string()]);
}

#[test]
fn boundary_needs_dashes_and_gathered_content() {
    assert!(doc_boundary("---", false));
    assert!(doc_boundary("--- extra", false));
    assert!(!doc_boundary("---", true));
    assert!(!doc_boundary("--", false));
    assert!(!doc_boundary("a: 1", false));
}

#[test]
fn join_lines_restores_newlines() {
    let lines = vec!["a: 1".to_string(), "b: 2".to_string()];
    assert_eq!(join_lines(&lines), "a: 1\nb: 2");
    assert_eq!(join_lines(&Vec::new()), "");
}

#[test]
fn appended_documents_parse_back() {
    let mut m1 = serde_yml::Mapping::new();
    m1.insert("a", serde_yml::Value::from(2i64));
    m1.insert("b", serde_yml::Value::from("world"));
    let v1 = serde_yml::Value::from(m1);
    let mut m2 = serde_yml::Mapping::new();
    m2.insert("a", serde_yml::Value::from(1i64));
    m2.insert("b", serde_yml::Value::from("hello"));
    let v2 = serde_yml::Value::from(m2);

    let d1 = serde_yml::to_string(&v1).unwrap();
    let d2 = serde_yml::to_string(&v2).unwrap();
    let mut file = String::new();
    file.push_str(&append_payload(false, &d1));
    file.push_str(&append_payload(true, &d2));

    let docs = split_documents(&file);
    assert_eq!(docs.len(), 2);
    let r1: serde_yml::Value = serde_yml::from_str(&docs[0]).unwrap();
    let r2: serde_yml::Value = serde_yml::from_str(&docs[1]).unwrap();
    assert_eq!(r1, v1);
    assert_eq!(r2, v2);
}

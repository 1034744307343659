use syt::comments::to_string;
use syt::comments::KeyData;
use syt::SytError;

fn person_value() -> serde_yml::Value {
    let mut m = serde_yml::Mapping::new();
    m.insert("name", serde_yml::Value::from("John Doe"));
    m.insert("age", serde_yml::Value::from(30i64));
    serde_yml::Value::from(m)
}

fn person_resolver(key: KeyData) -> Option<String> {
    if key.str == "name" {
        Some("The name of the person.".to_string())
    } else if key.str == "age" {
        Some("The age of the person.\nIn years.".to_string())
    } else {
        None
    }
}

#[test]
fn test_to_string() {
    let config = person_value();

    let result = to_string(&config, person_resolver).unwrap();

    let expected = "# The name of the person.\nname: John Doe\n# The age of the person.\n# In years.\nage: 30";
    assert_eq!(result, expected);

    let no_comments = to_string(&config, |_: KeyData| None).unwrap();

    let expected_no_comments = "name: John Doe\nage: 30";
    assert_eq!(no_comments, expected_no_comments);
}

#[test]
fn test_to_string_empty_struct() {
    let empty = serde_yml::Value::from(serde_yml::Mapping::new());

    let result = to_string(&empty, |_: KeyData| None).unwrap();

    assert_eq!(result, "{}");
}

#[test]
fn test_to_string_nested() {
    let mut inner = serde_yml::Mapping::new();
    inner.insert("value", serde_yml::Value::from("hello"));
    let mut outer_map = serde_yml::Mapping::new();
    outer_map.insert("inner", serde_yml::Value::from(inner));
    let outer = serde_yml::Value::from(outer_map);

    let cb = |key: KeyData| {
        if key.str == "inner" {
            Some("inner struct".to_string())
        } else if key.str == "value" {
            Some("inner value".to_string())
        } else {
            None
        }
    };

    let result = to_string(&outer, cb).unwrap();

    let expected = "# inner struct\ninner:\n  # inner value\n  value: hello";
    assert_eq!(result, expected);
}

#[test]
fn test_to_string_round_trip() {
    let config = person_value();

    let result = to_string(&config, person_resolver).unwrap();

    let actual: serde_yml::Value = serde_yml::from_str(&result).unwrap();

    assert_eq!(actual, config);
}

#[test]
fn to_string_matches_plain_encoder_without_comments() {
    let config = person_value();
    let plain = serde_yml::to_string(&config).unwrap();
    let filtered = to_string(&config, |_: KeyData| None).unwrap();
    assert_eq!(filtered, plain);
}

#[test]
fn to_string_surfaces_encoder_failure() {
    let mut v = serde_yml::Value::from(0i64);
    let mut i = 0;
    while i < 300 {
        let mut m = serde_yml::Mapping::new();
        m.insert("k", v);
        v = serde_yml::Value::from(m);
        i += 1;
    }
    let e = to_string(&v, |_: KeyData| None).unwrap_err();
    assert!(matches!(e, SytError::YamlError(_)));
}

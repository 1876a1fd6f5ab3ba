use std::collections::HashMap;
use teraclio::{ErrorKind, FilterKind, FilterRegistry, RegistryError, Value};

fn run(name: &str, input: Value) -> Result<Value, teraclio::FilterError> {
    let reg = FilterRegistry::standard();
    let kind = reg.lookup(name).expect("registered filter");
    kind.apply(&input, &HashMap::new())
}

#[test]
fn standard_registry_has_every_filter_once() {
    let reg = FilterRegistry::standard();
    assert_eq!(reg.len(), 17);
    let mut names: Vec<String> = (0..reg.len()).map(|i| reg.entry(i).0.to_string()).collect();
    names.sort();
    names.dedup();
    assert_eq!(names.len(), 17);
    for i in 0..reg.len() {
        let (name, kind) = reg.entry(i);
        assert_eq!(kind.name(), name);
        assert_eq!(FilterKind::from_name(name), Some(kind));
    }
}

#[test]
fn unknown_name_is_not_found() {
    let reg = FilterRegistry::standard();
    assert_eq!(reg.lookup("no_such_filter"), None);
    assert_eq!(FilterKind::from_name("no_such_filter"), None);
}

#[test]
fn duplicate_registration_fails() {
    let mut reg = FilterRegistry::new();
    assert_eq!(reg.register("slug", FilterKind::Slug), Ok(()));
    assert_eq!(
        reg.register("slug", FilterKind::Md5),
        Err(RegistryError::DuplicateName("slug".to_string()))
    );
    assert_eq!(reg.len(), 1);
    assert_eq!(reg.lookup("slug"), Some(FilterKind::Slug));
}

#[test]
fn slug_through_registry() {
    let r = run("slug", Value::String("Jane Doe".to_string())).unwrap();
    assert_eq!(r, Value::String("jane-doe".to_string()));
}

#[test]
fn html_escape_through_registry() {
    let r = run("html_escape", Value::String("<b>hi</b>".to_string())).unwrap();
    assert_eq!(r, Value::String("&lt;b&gt;hi&lt;/b&gt;".to_string()));
}

#[test]
fn sha256_through_registry() {
    let r = run("sha256", Value::String("secret".to_string())).unwrap();
    assert_eq!(
        r,
        Value::String(
            "2bb80d537b1da3e38bd30361aa855686bde0eacd7162fef6a25fe97bf527a25b".to_string()
        )
    );
}

#[test]
fn errors_through_registry() {
    let e = run("bytes_to_str", Value::Number(teraclio::Number::UInt(42))).unwrap_err();
    assert_eq!(e.kind, ErrorKind::TypeError);
    let e = run("base64_decode", Value::String("not-valid-base64!!".to_string())).unwrap_err();
    assert_eq!(e.kind, ErrorKind::DecodeError);
}

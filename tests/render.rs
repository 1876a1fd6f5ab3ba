use std::collections::HashMap;
use tera::{Context, Tera};
use teraclio::{FilterKind, FilterRegistry, Number, Value};

fn to_library(value: &serde_json::Value) -> Value {
    match value {
        serde_json::Value::Null => Value::Null,
        serde_json::Value::Bool(b) => Value::Bool(*b),
        serde_json::Value::Number(n) => match (n.as_u64(), n.as_i64()) {
            (Some(u), _) => Value::Number(Number::UInt(u)),
            (None, Some(i)) => Value::Number(Number::Int(i)),
            (None, None) => Value::Number(Number::Float(n.to_string())),
        },
        serde_json::Value::String(s) => Value::String(s.clone()),
        serde_json::Value::Array(items) => Value::Array(items.iter().map(to_library).collect()),
        serde_json::Value::Object(map) => {
            Value::Object(map.iter().map(|(k, v)| (k.clone(), to_library(v))).collect())
        }
    }
}

fn from_library(value: Value) -> serde_json::Value {
    match value {
        Value::Null => serde_json::Value::Null,
        Value::Bool(b) => serde_json::Value::Bool(b),
        Value::Number(Number::UInt(u)) => serde_json::Value::from(u),
        Value::Number(Number::Int(i)) => serde_json::Value::from(i),
        Value::Number(Number::Float(_)) => serde_json::Value::Null,
        Value::String(s) => serde_json::Value::String(s),
        Value::Array(items) => serde_json::Value::Array(items.into_iter().map(from_library).collect()),
        Value::Object(entries) => serde_json::Value::Object(
            entries.into_iter().map(|(k, v)| (k, from_library(v))).collect(),
        ),
    }
}

fn call(kind: FilterKind, value: &serde_json::Value) -> tera::Result<serde_json::Value> {
    match kind.apply(&to_library(value), &HashMap::new()) {
        Ok(v) => Ok(from_library(v)),
        Err(e) => Err(tera::Error::msg(e.message)),
    }
}

fn engine() -> Tera {
    let registry = FilterRegistry::standard();
    let mut tera = Tera::default();
    for i in 0..registry.len() {
        let (name, kind) = registry.entry(i);
        tera.register_filter(
            name,
            move |value: &serde_json::Value, _args: &HashMap<String, serde_json::Value>| {
                call(kind, value)
            },
        );
    }
    tera
}

fn render(template: &str, data: &str) -> tera::Result<String> {
    let mut tera = engine();
    tera.add_raw_template("template", template)?;
    let data: serde_json::Value = serde_json::from_str(data).unwrap();
    let mut context = Context::new();
    context.insert("data", &data);
    tera.render("template", &context)
}

#[test]
fn render_slug_of_name() {
    let out = render("{{ data.name | slug }}", "{\"name\": \"Jane Doe\"}").unwrap();
    assert_eq!(out, "jane-doe");
}

#[test]
fn render_html_escape_of_message() {
    let out = render("{{ data.msg | html_escape }}", "{\"msg\": \"<b>hi</b>\"}").unwrap();
    assert_eq!(out, "&lt;b&gt;hi&lt;/b&gt;");
}

#[test]
fn render_sha256_of_literal() {
    let out = render("{{ \"secret\" | sha256 }}", "{}").unwrap();
    assert_eq!(out, "2bb80d537b1da3e38bd30361aa855686bde0eacd7162fef6a25fe97bf527a25b");
}

#[test]
fn render_chained_filters() {
    let out = render("{{ data.s | str_to_bytes | bytes_to_str | base64_encode }}", "{\"s\": \"hi\"}")
        .unwrap();
    assert_eq!(out, "aGk=");
}

#[test]
fn render_fails_on_filter_error() {
    assert!(render("{{ data.n | bytes_to_str }}", "{\"n\": 42}").is_err());
}

#[test]
fn render_fails_on_unknown_filter() {
    assert!(render("{{ data.n | no_such_filter }}", "{\"n\": 42}").is_err());
}

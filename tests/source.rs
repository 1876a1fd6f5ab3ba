use teraclio::{parse_data_source, resolve_format, InputFormat, TeraclioError};

#[test]
fn detect_format_from_extension() {
    assert_eq!(InputFormat::detect_from_extension("data.yaml"), InputFormat::Yaml);
    assert_eq!(InputFormat::detect_from_extension("dir/data.YML"), InputFormat::Yaml);
    assert_eq!(InputFormat::detect_from_extension("a/b.toml"), InputFormat::Toml);
    assert_eq!(InputFormat::detect_from_extension("a/b.json"), InputFormat::Json);
    assert_eq!(InputFormat::detect_from_extension("a.toml/"), InputFormat::Toml);
    assert_eq!(InputFormat::detect_from_extension("noext"), InputFormat::Json);
    assert_eq!(InputFormat::detect_from_extension(".toml"), InputFormat::Json);
    assert_eq!(InputFormat::detect_from_extension("x.toml.txt"), InputFormat::Json);
    assert_eq!(InputFormat::detect_from_extension("a.yaml/.."), InputFormat::Json);
    assert_eq!(InputFormat::detect_from_extension(""), InputFormat::Json);
    assert_eq!(InputFormat::detect_from_extension("foo.yaml/."), InputFormat::Yaml);
    assert_eq!(InputFormat::detect_from_extension("foo.toml/./"), InputFormat::Toml);
    assert_eq!(InputFormat::detect_from_extension("."), InputFormat::Json);
    assert_eq!(InputFormat::detect_from_extension("/."), InputFormat::Json);
}

#[test]
fn format_from_name() {
    assert_eq!(InputFormat::from_string("JSON"), Ok(InputFormat::Json));
    assert_eq!(InputFormat::from_string("yml"), Ok(InputFormat::Yaml));
    assert_eq!(InputFormat::from_string("Yaml"), Ok(InputFormat::Yaml));
    assert_eq!(InputFormat::from_string("toml"), Ok(InputFormat::Toml));
    assert_eq!(
        InputFormat::from_string("xml"),
        Err(TeraclioError::InvalidInput(
            "Unsupported input format: xml. Supported formats: json, yaml, toml".to_string()
        ))
    );
}

#[test]
fn named_format_wins_over_extension() {
    assert_eq!(resolve_format("d.json", Some("toml")), Ok(InputFormat::Toml));
    assert_eq!(resolve_format("d.yml", None), Ok(InputFormat::Yaml));
}

#[test]
fn parse_each_format() {
    let v = parse_data_source("d.json", "{\"name\": \"Jane Doe\"}", None).unwrap();
    assert_eq!(v["name"], "Jane Doe");
    let v = parse_data_source("d.yaml", "name: Jane\nage: 3\n", None).unwrap();
    assert_eq!(v["age"], 3);
    let v = parse_data_source("d.toml", "name = \"Jane\"\n", None).unwrap();
    assert_eq!(v["name"], "Jane");
}

#[test]
fn parse_rejects_blank_contents() {
    assert_eq!(
        parse_data_source("d.json", "  \n\t\u{3000}", None),
        Err(TeraclioError::InvalidInput("Data source file is empty".to_string()))
    );
}

#[test]
fn parse_errors_by_format() {
    assert!(matches!(parse_data_source("d.json", "{", None), Err(TeraclioError::JsonError(_))));
    match parse_data_source("d.yaml", "a: [", None) {
        Err(TeraclioError::InvalidInput(m)) => assert!(m.starts_with("YAML parsing error: ")),
        other => panic!("unexpected {:?}", other),
    }
    match parse_data_source("d.toml", "a = ", None) {
        Err(TeraclioError::InvalidInput(m)) => assert!(m.starts_with("TOML parsing error: ")),
        other => panic!("unexpected {:?}", other),
    }
    assert_eq!(
        parse_data_source("d.json", "{}", Some("xml")),
        Err(TeraclioError::InvalidInput(
            "Unsupported input format: xml. Supported formats: json, yaml, toml".to_string()
        ))
    );
}

#[test]
fn each_format_goes_to_its_own_parser() {
    assert!(parse_data_source("d.yaml", "a: 1", None).is_ok());
    assert!(matches!(parse_data_source("d.json", "a: 1", None), Err(TeraclioError::JsonError(_))));
    assert!(parse_data_source("d.json", "a = 1", Some("TOML")).is_ok());
    assert!(matches!(
        parse_data_source("d.toml", "a: 1", None),
        Err(TeraclioError::InvalidInput(_))
    ));
}

use espipe::{classify_input, classify_output, InputError, InputKind, OutputKind};

fn s(v: &str) -> Option<String> {
    Some(v.to_string())
}

#[test]
fn outputs_by_scheme() {
    assert_eq!(classify_output(s("http"), "/idx".to_string()), OutputKind::Elasticsearch);
    assert_eq!(classify_output(s("https"), "/idx".to_string()), OutputKind::Elasticsearch);
    assert_eq!(
        classify_output(s("file"), "/tmp/out.ndjson".to_string()),
        OutputKind::File { path: "/tmp/out.ndjson".to_string() }
    );
    assert_eq!(
        classify_output(s("prod"), "/idx".to_string()),
        OutputKind::KnownHost { alias: "prod".to_string() }
    );
    assert_eq!(classify_output(None, "-".to_string()), OutputKind::Stdout);
    assert_eq!(
        classify_output(None, "out.ndjson".to_string()),
        OutputKind::File { path: "out.ndjson".to_string() }
    );
}

#[test]
fn inputs_by_scheme() {
    assert_eq!(classify_input(s("https"), "/x".to_string()), Ok(InputKind::Url));
    assert_eq!(
        classify_input(s("file"), "in.ndjson".to_string()),
        Ok(InputKind::File { path: "in.ndjson".to_string() })
    );
    assert_eq!(
        classify_input(s("ftp"), "/x".to_string()),
        Err(InputError::UnsupportedScheme { scheme: "ftp".to_string() })
    );
    assert_eq!(classify_input(None, "-".to_string()), Ok(InputKind::Stdin));
    assert_eq!(
        classify_input(None, "docs.ndjson".to_string()),
        Ok(InputKind::File { path: "docs.ndjson".to_string() })
    );
}

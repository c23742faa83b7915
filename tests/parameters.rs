use chrobry::{parse_parameter, Error, ParameterSet, PROJECT_NAME};

fn owned(v: &[&str]) -> Vec<String> {
    v.iter().map(|s| s.to_string()).collect()
}

#[test]
fn parse_parameter_splits_at_first_colon() {
    let (k, v) = parse_parameter("AUTHOR:Jane:Doe").unwrap();
    assert_eq!(k, "AUTHOR");
    assert_eq!(v, "Jane:Doe");
}

#[test]
fn parse_parameter_allows_empty_key_and_value() {
    assert_eq!(parse_parameter(":").unwrap(), (String::new(), String::new()));
    assert_eq!(parse_parameter("K:").unwrap(), ("K".to_string(), String::new()));
}

#[test]
fn parse_parameter_without_colon_is_malformed() {
    assert_eq!(
        parse_parameter("NOSEPARATOR"),
        Err(Error::MalformedParameter { entry: "NOSEPARATOR".to_string() })
    );
}

#[test]
fn project_name_wins_over_user_entry() {
    let raw = owned(&["PROJECT_NAME:Other", "A:1"]);
    let p = ParameterSet::from_entries(&raw, "Demo").unwrap();
    assert_eq!(p.get(PROJECT_NAME), Some("Demo".to_string()));
    assert_eq!(p.get("A"), Some("1".to_string()));
}

#[test]
fn project_name_present_without_entries() {
    let p = ParameterSet::from_entries(&Vec::new(), "Demo").unwrap();
    assert_eq!(p.get("PROJECT_NAME"), Some("Demo".to_string()));
    assert_eq!(p.get("A"), None);
}

#[test]
fn later_entry_wins_on_duplicate_key() {
    let raw = owned(&["A:1", "B:2", "A:3"]);
    let p = ParameterSet::from_entries(&raw, "x").unwrap();
    assert_eq!(p.get("A"), Some("3".to_string()));
    assert_eq!(p.get("B"), Some("2".to_string()));
}

#[test]
fn first_malformed_entry_is_reported() {
    let raw = owned(&["A:1", "bad", "worse"]);
    let r = ParameterSet::from_entries(&raw, "x");
    assert!(matches!(r, Err(Error::MalformedParameter { ref entry }) if entry == "bad"));
}

#[test]
fn insert_replaces_binding() {
    let mut p = ParameterSet::new();
    p.insert("K".to_string(), "1".to_string());
    p.insert("K".to_string(), "2".to_string());
    assert_eq!(p.get("K"), Some("2".to_string()));
}

use chrobry::{chars_of, plan_run, string_of, Error, TemplateSource};

#[test]
fn missing_template_is_refused_first() {
    let r = plan_run("Demo", &vec!["bad".to_string()], "nowhere.zip", false);
    assert!(matches!(r, Err(Error::TemplateNotFound { ref path }) if path == "nowhere.zip"));
}

#[test]
fn malformed_parameter_stops_the_run() {
    let r = plan_run("Demo", &vec!["A:1".to_string(), "bad".to_string()], "tmpl", true);
    assert!(matches!(r, Err(Error::MalformedParameter { ref entry }) if entry == "bad"));
}

#[test]
fn plan_for_archive_and_directory() {
    let a = plan_run("Demo", &vec!["A:1".to_string()], "tmpl.zip", true).unwrap();
    assert_eq!(a.source, TemplateSource::Archive);
    assert_eq!(a.params.get("PROJECT_NAME"), Some("Demo".to_string()));
    let d = plan_run("Demo", &Vec::new(), "tmpl", true).unwrap();
    assert_eq!(d.source, TemplateSource::Directory);
}

#[test]
fn chars_and_back() {
    let cs = chars_of("héllo");
    assert_eq!(cs, vec!['h', 'é', 'l', 'l', 'o']);
    assert_eq!(string_of(&cs, 1, 4), "éll");
    assert_eq!(string_of(&cs, 2, 2), "");
}

use chrobry::{
    render_file, render_text, resolve_import, rewrite_of, template_destination, Entry, Error, ParameterSet,
    Rewrite, Step, Walk, IMPORTS_NOT_SUPPORTED, MARKED_DESTINATION, UNSUPPORTED_TEMPLATE,
};

fn demo_params() -> ParameterSet {
    ParameterSet::from_entries(&vec!["GREETING:Hello".to_string()], "Demo").unwrap()
}

#[test]
fn imports_are_refused() {
    assert_eq!(resolve_import("lib"), Err("Imports not supported!".to_string()));
    assert_eq!(IMPORTS_NOT_SUPPORTED, "Imports not supported!");
}

#[test]
fn rewrite_of_success() {
    let w = rewrite_of("dir/greeting.chrobry-marker", Ok("Hello Demo".to_string())).unwrap().unwrap();
    assert_eq!(
        w,
        Rewrite {
            original: "dir/greeting.chrobry-marker".to_string(),
            destination: "dir/greeting".to_string(),
            content: "Hello Demo".to_string(),
        }
    );
}

#[test]
fn rewrite_of_failure_writes_nothing() {
    let r = rewrite_of("x.chrobry-marker", Err(IMPORTS_NOT_SUPPORTED.to_string()));
    assert_eq!(
        r,
        Err(Error::RenderFailed {
            path: "x.chrobry-marker".to_string(),
            cause: "Imports not supported!".to_string(),
        })
    );
}

#[test]
fn unmarked_files_are_left_alone() {
    let p = demo_params();
    assert_eq!(rewrite_of("a.txt", Err("ignored".to_string())), Ok(None));
    assert_eq!(render_file("a.txt", "not a template", &p), Ok(None));
}

#[test]
fn render_substitutes_project_name() {
    let p = demo_params();
    let w = render_file("greeting.chrobry-marker", "inject ```Hello %{$PROJECT_NAME}%```", &p).unwrap().unwrap();
    assert_eq!(w.destination, "greeting");
    assert_eq!(w.content, "Hello Demo");
}

#[test]
fn render_uses_user_parameters() {
    let p = demo_params();
    let w = render_file("a.chrobry-marker", "inject ```%{$GREETING}%, %{$PROJECT_NAME}%!```", &p).unwrap().unwrap();
    assert_eq!(w.content, "Hello, Demo!");
}

#[test]
fn render_rejects_unknown_variable() {
    let p = demo_params();
    let r = render_file("a.chrobry-marker", "inject ```%{$MISSING}%```", &p);
    assert!(matches!(r, Err(Error::RenderFailed { ref path, .. }) if path == "a.chrobry-marker"));
}

#[test]
fn render_rejects_bad_syntax() {
    let p = demo_params();
    let r = render_file("a.chrobry-marker", "Hello {{PROJECT_NAME}}", &p);
    assert!(matches!(r, Err(Error::RenderFailed { .. })));
}

#[test]
fn rendered_content_replaces_whole_file() {
    let p = demo_params();
    let first = render_file("g.chrobry-marker", "inject ```v1```", &p).unwrap().unwrap();
    let second = render_file("g.chrobry-marker", "inject ```v2```", &p).unwrap().unwrap();
    assert_eq!(first.destination, second.destination);
    assert_eq!(second.content, "v2");
}

#[test]
fn rendering_twice_gives_same_rewrite() {
    let p = demo_params();
    let t = "inject ```Hello %{$PROJECT_NAME}%```";
    assert_eq!(render_file("g.chrobry-marker", t, &p), render_file("g.chrobry-marker", t, &p));
}

fn entry(path: &str, is_dir: bool) -> Entry {
    Entry { path: path.to_string(), is_dir }
}

#[test]
fn walk_visits_depth_first_in_listing_order() {
    let mut w = Walk::new("out".to_string());
    assert_eq!(w.next_step(), Step::List("out".to_string()));
    w.push_listing(vec![entry("out/a.txt", false), entry("out/sub", true), entry("out/z", false)]);
    assert_eq!(w.next_step(), Step::Visit("out/a.txt".to_string()));
    assert_eq!(w.next_step(), Step::List("out/sub".to_string()));
    w.push_listing(vec![entry("out/sub/b", false)]);
    assert_eq!(w.next_step(), Step::Visit("out/sub/b".to_string()));
    assert_eq!(w.next_step(), Step::Visit("out/z".to_string()));
    assert_eq!(w.next_step(), Step::Done);
    assert_eq!(w.next_step(), Step::Done);
}

#[test]
fn directory_template_scenario() {
    let p = ParameterSet::from_entries(&Vec::new(), "Demo").unwrap();
    let files = [
        ("out/a.txt", "plain"),
        ("out/greeting.chrobry-marker", "inject ```Hello %{$PROJECT_NAME}%```"),
    ];
    let mut w = Walk::new("out".to_string());
    let mut kept = Vec::new();
    let mut rewrites = Vec::new();
    loop {
        match w.next_step() {
            Step::List(_) => w.push_listing(files.iter().map(|(n, _)| entry(n, false)).collect()),
            Step::Visit(path) => match template_destination(&path) {
                Some(_) => {
                    let content = files.iter().find(|(n, _)| *n == path).unwrap().1;
                    rewrites.push(render_file(&path, content, &p).unwrap().unwrap());
                }
                None => kept.push(path),
            },
            Step::Done => break,
        }
    }
    assert_eq!(kept, vec!["out/a.txt".to_string()]);
    assert_eq!(rewrites.len(), 1);
    assert_eq!(rewrites[0].original, "out/greeting.chrobry-marker");
    assert_eq!(rewrites[0].destination, "out/greeting");
    assert_eq!(rewrites[0].content, "Hello Demo");
}

#[test]
fn import_directive_fails_render() {
    let p = demo_params();
    let r = render_file("a.chrobry-marker", "import 'lib' inject ```x```", &p);
    assert_eq!(
        r,
        Err(Error::RenderFailed {
            path: "a.chrobry-marker".to_string(),
            cause: "Imports not supported!".to_string(),
        })
    );
}

#[test]
fn replace_directive_is_refused() {
    let p = demo_params();
    assert_eq!(render_text("replace '(' ```x```", &p), Err(UNSUPPORTED_TEMPLATE.to_string()));
    assert_eq!(render_text("inject ```a``` replace 'a' ```b```", &p), Err(UNSUPPORTED_TEMPLATE.to_string()));
}

#[test]
fn tag_without_targeted_impl_is_refused() {
    let p = demo_params();
    assert_eq!(render_text("impl Foo ```x``` @Foo enum E { A }", &p), Err(UNSUPPORTED_TEMPLATE.to_string()));
    assert_eq!(render_text("impl struct Foo ```x``` @Foo enum E { A }", &p), Err(UNSUPPORTED_TEMPLATE.to_string()));
}

#[test]
fn tag_with_targeted_impl_renders() {
    let p = demo_params();
    assert_eq!(render_text("impl enum Foo ```%{$TYPENAME}%``` @Foo enum E { A }", &p), Ok("E".to_string()));
}

#[test]
fn unparsable_text_reports_engine_error() {
    let p = demo_params();
    assert!(render_text("Hello {{PROJECT_NAME}}", &p).is_err());
}

#[test]
fn failed_visit_ends_walk() {
    let mut w = Walk::new("out".to_string());
    assert_eq!(w.next_step(), Step::List("out".to_string()));
    w.push_listing(vec![entry("out/a", false), entry("out/b", false)]);
    assert_eq!(w.next_step(), Step::Visit("out/a".to_string()));
    w.visited(true);
    assert_eq!(w.next_step(), Step::Visit("out/b".to_string()));
    w.push_listing(vec![entry("out/c", false)]);
    w.visited(false);
    assert_eq!(w.next_step(), Step::Done);
}

#[test]
fn double_marked_file_is_refused() {
    let p = demo_params();
    let expected = Err(Error::RenderFailed {
        path: "x.chrobry-marker.chrobry-marker".to_string(),
        cause: MARKED_DESTINATION.to_string(),
    });
    assert_eq!(render_file("x.chrobry-marker.chrobry-marker", "inject ```a```", &p), expected);
    assert_eq!(rewrite_of("x.chrobry-marker.chrobry-marker", Ok("a".to_string())), expected);
    assert_eq!(MARKED_DESTINATION, "Rendered file name carries the marker extension!");
}

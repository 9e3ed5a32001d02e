use hagen::error::GeneratorError;
use hagen::processor::Having;
use hagen::rules::{Render, Rule, RuleProcessor};
use hagen::value::{value_eq, Json};

const CONFIG: &str = "\
site:
  basename: http://localhost:8080/
rules:
  - selectorType: jsonpath
    selector: \"$.content.hello\"
    template: page
    outputPattern: \"{{metadata.name}}.html\"
  - selectorType: layout
    selector: post
    outputPattern: \"{{metadata.name}}/index.html\"
assets:
  - dir: static
    glob: \"**/*.css\"
processors:
  sitemap:
    lastMod: \"{{context.published}}\"
";

#[test]
fn test_render_load() {
    let cfg = Render::load(CONFIG).expect("a valid configuration");
    assert_eq!(cfg.site.basename, "http://localhost:8080/");
    assert_eq!(cfg.rules.len(), 2);
    assert_eq!(cfg.rules[0].selector_type, "jsonpath");
    assert_eq!(cfg.rules[0].selector.as_deref(), Some("$.content.hello"));
    assert_eq!(cfg.rules[0].template.as_deref(), Some("page"));
    assert_eq!(cfg.rules[0].output_pattern, "{{metadata.name}}.html");
    assert_eq!(cfg.rules[1].selector_type, "layout");
    assert_eq!(cfg.assets.len(), 1);
    assert_eq!(cfg.assets[0].dir, "static");
    assert_eq!(cfg.assets[0].glob.as_deref(), Some("**/*.css"));
    assert_eq!(cfg.processors.len(), 1);
    assert_eq!(cfg.processors[0].0, "sitemap");
}

#[test]
fn test_render_load_rejects_missing_site() {
    let e = Render::load("rules: []\nassets: []\n");
    assert!(matches!(e, Err(GeneratorError::Config(_))));
}

#[test]
fn test_render_load_rejects_bad_yaml() {
    let e = Render::load(": :\n  - ::");
    assert!(matches!(e, Err(GeneratorError::Parse(_))));
}

fn rule(selector_type: &str, selector: Option<&str>) -> Rule {
    Rule {
        selector_type: selector_type.to_string(),
        selector: selector.map(|s| s.to_string()),
        template: None,
        output_pattern: "x".to_string(),
        context: vec![],
    }
}

#[test]
fn test_unknown_selector_type() {
    let e = rule("mystery", Some("$..*")).processor();
    assert!(matches!(e, Err(GeneratorError::Config(_))));
}

#[test]
fn test_jsonpath_needs_selector() {
    let e = rule("jsonpath", None).processor();
    assert!(matches!(e, Err(GeneratorError::Config(_))));
}

fn page(layout: Option<&str>, marker: &str) -> Json {
    let mut fm = Vec::new();
    if let Some(l) = layout {
        fm.push(("layout".to_string(), Json::Str(l.to_string())));
    }
    Json::Obj(vec![
        ("frontMatter".to_string(), Json::Obj(fm)),
        ("marker".to_string(), Json::Str(marker.to_string())),
    ])
}

#[test]
fn test_layout_query_preorder() {
    let tree = Json::Obj(vec![
        ("content".to_string(), Json::Obj(vec![
            ("a".to_string(), page(Some("post"), "a")),
            ("b".to_string(), page(Some("other"), "b")),
            ("c".to_string(), page(Some("post"), "c")),
        ])),
    ]);
    let p = rule("layout", Some("post")).processor().expect("");
    let found = p.query(&tree).expect("");
    let markers: Vec<String> = found
        .iter()
        .map(|v| match v.get("marker") {
            Some(Json::Str(s)) => s.clone(),
            _ => String::new(),
        })
        .collect();
    assert_eq!(markers, vec!["a", "c"]);

    // with no layout name set, any node carrying a layout matches
    let all = rule("layout", None).processor().expect("");
    assert_eq!(all.query(&tree).expect("").len(), 3);
}

#[test]
fn test_jsonpath_query_keeps_objects() {
    let tree = Json::Obj(vec![(
        "content".to_string(),
        Json::Obj(vec![
            ("one".to_string(), page(None, "one")),
            ("two".to_string(), Json::Str("just text".to_string())),
        ]),
    )]);
    let p = rule("jsonpath", Some("$.content.*")).processor().expect("");
    let found = p.query(&tree).expect("");
    assert_eq!(found.len(), 1);
    assert!(found[0].get("marker").is_some());

    match p {
        RuleProcessor::JsonPath(j) => {
            let e = j.query(&Json::Null);
            assert!(matches!(
                hagen::rules::JsonPathProcessor { path: "not a path (".to_string() }.query(&Json::Null),
                Err(GeneratorError::Query(_))
            ));
            let _ = e;
        }
        _ => panic!("expected a query selector"),
    }
}

#[test]
fn test_having_matches() {
    let data = Json::Obj(vec![("title".to_string(), Json::Str("T".to_string()))]);
    let present = Having { path: "$.title".to_string(), value: None };
    assert!(present.matches(&data).expect(""));
    let equal = Having {
        path: "$.title".to_string(),
        value: Some(Json::Str("T".to_string())),
    };
    assert!(equal.matches(&data).expect(""));
    let unequal = Having {
        path: "$.title".to_string(),
        value: Some(Json::Str("X".to_string())),
    };
    assert!(!unequal.matches(&data).expect(""));
    let absent = Having { path: "$.nope".to_string(), value: None };
    assert!(!absent.matches(&data).expect(""));
}

#[test]
fn test_first_value_is_the_first_match() {
    let data = Json::Obj(vec![(
        "list".to_string(),
        Json::Arr(vec![
            Json::Str("first".to_string()),
            Json::Str("second".to_string()),
        ]),
    )]);
    let found = hagen::path::first_value_for_path(&data, "$.list[*]")
        .expect("a valid expression")
        .expect("at least one match");
    assert!(value_eq(&found, &Json::Str("first".to_string())));
}

#[test]
fn test_query_screen_refuses_huge_literals() {
    let e = hagen::path::values_for_path(&Json::Null, "$.a[?(@.b == 1e400)]");
    assert!(matches!(e, Err(GeneratorError::Query(_))));
}

#[test]
fn test_query_screen_refuses_key_lists_in_filters() {
    let e = hagen::path::values_for_path(&Json::Null, "$[?(@.a == 'x','y')]");
    assert!(matches!(e, Err(GeneratorError::Query(_))));
    // a key list without a filter stays usable
    let data = Json::Obj(vec![
        ("a".to_string(), Json::Num("1".to_string())),
        ("b".to_string(), Json::Num("2".to_string())),
    ]);
    let found = hagen::path::values_for_path(&data, "$['a','b']").expect("");
    assert_eq!(found.len(), 2);
}

#[test]
fn test_value_eq_ignores_nothing() {
    let a = Json::Obj(vec![
        ("k".to_string(), Json::Arr(vec![Json::Bool(true), Json::Null])),
    ]);
    let b = Json::Obj(vec![
        ("k".to_string(), Json::Arr(vec![Json::Bool(true), Json::Null])),
    ]);
    let c = Json::Obj(vec![
        ("k".to_string(), Json::Arr(vec![Json::Bool(false), Json::Null])),
    ]);
    assert!(value_eq(&a, &b));
    assert!(!value_eq(&a, &c));
}

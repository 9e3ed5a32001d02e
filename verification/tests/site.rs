use hagen::copy::copy_decision;
use hagen::error::GeneratorError;
use hagen::generator::{
    compact_content, prepare_render, render_page, resolve_basename, GeneratorConfig,
    GeneratorContext, GeneratorContextProvider, Output,
};
use hagen::helper::basic::{ConcatHelper, TimesHelper};
use hagen::helper::markdown::MarkdownifyHelper;
use hagen::helper::time::TimeHelper;
use hagen::helper::url::parse_url;
use hagen::loader::directory::DirectoryLoader;
use hagen::loader::markdown::MarkdownLoader;
use hagen::rules::Rule;
use hagen::value::{Json, JsonTruthy};

#[test]
fn test_end_to_end_hello_page() {
    // one Markdown file under the content root
    let md = MarkdownLoader::new("/site/content", "/site/content/hello.md");
    let hello = md.load("---\ntitle: Hi\n---\nWorld").expect("");
    let dir = DirectoryLoader::new("/site/content", "/site/content");
    let root = dir.assemble(vec![hello]);
    let full = root.to_value();
    let compact = compact_content(&full).unwrap_or(Json::Null);

    // one rule selecting it, rendering through the `page` template
    let rule = Rule {
        selector_type: "jsonpath".to_string(),
        selector: Some("$.content.hello".to_string()),
        template: Some("page".to_string()),
        output_pattern: "{{metadata.name}}.html".to_string(),
        context: vec![],
    };
    let mut h = handlebars::Handlebars::new();
    h.register_template_string("page", "{{context.frontMatter.title}}")
        .expect("");

    let entries = rule.processor().expect("").query(&full).expect("");
    assert_eq!(entries.len(), 1);

    let config = GeneratorConfig {
        root: "/site".to_string(),
        output: "/site/output".to_string(),
        basename: parse_url("http://localhost:8080/").expect(""),
    };
    let page = prepare_render(&h, &rule, &entries[0], &config, &full, &compact).expect("");
    assert_eq!(page.path, "hello.html");
    assert_eq!(page.output.url, "http://localhost:8080/hello.html");

    let text = render_page(&h, &page).expect("");
    assert_eq!(text, "Hi");
}

#[test]
fn test_inline_content_render() {
    // a rule without a template renders the entry's own `content` string
    let rule = Rule {
        selector_type: "jsonpath".to_string(),
        selector: Some("$".to_string()),
        template: None,
        output_pattern: "x.html".to_string(),
        context: vec![],
    };
    let entry = Json::Obj(vec![(
        "content".to_string(),
        Json::Str("body text".to_string()),
    )]);
    let h = handlebars::Handlebars::new();
    let config = GeneratorConfig {
        root: "/s".to_string(),
        output: "/s/out".to_string(),
        basename: parse_url("http://h/").expect(""),
    };
    let page = prepare_render(&h, &rule, &entry, &config, &Json::Null, &Json::Null).expect("");
    assert_eq!(render_page(&h, &page).expect(""), "body text");

    // with neither a template nor a content string, the render fails
    let bare = Json::Obj(vec![]);
    let page2 = prepare_render(&h, &rule, &bare, &config, &Json::Null, &Json::Null).expect("");
    assert!(matches!(
        render_page(&h, &page2),
        Err(GeneratorError::Render(_))
    ));
}

#[test]
fn test_rule_context_mappings() {
    let rule = Rule {
        selector_type: "jsonpath".to_string(),
        selector: Some("$".to_string()),
        template: None,
        output_pattern: "x".to_string(),
        context: vec![
            ("missing".to_string(), Json::Str("$.nothing".to_string())),
            ("one".to_string(), Json::Str("$.a".to_string())),
            ("many".to_string(), Json::Str("$.list.*".to_string())),
        ],
    };
    let entry = Json::Obj(vec![
        ("a".to_string(), Json::Str("scalar".to_string())),
        (
            "list".to_string(),
            Json::Arr(vec![Json::Num("1".to_string()), Json::Num("2".to_string())]),
        ),
    ]);
    let ctx = hagen::generator::build_context(&rule, &entry).expect("");
    // no match: the key is omitted; one match: the scalar; several: a list
    assert!(ctx.get("missing").is_none());
    assert!(hagen::value::value_eq(
        ctx.get("one").expect(""),
        &Json::Str("scalar".to_string())
    ));
    match ctx.get("many").expect("") {
        Json::Arr(items) => assert_eq!(items.len(), 2),
        _ => panic!("expected a list"),
    }
}

#[test]
fn test_resolve_basename() {
    let u = resolve_basename(Some("http://a/"), "http://b/").expect("");
    assert_eq!(u.to_text(), "http://a/");
    let v = resolve_basename(None, "http://b").expect("");
    assert_eq!(v.to_text(), "http://b/");
    assert!(resolve_basename(None, "nope").is_err());
}

#[test]
fn test_context_provider() {
    let mut provider = GeneratorContextProvider::new();
    assert!(provider.current.is_none());
    let config = GeneratorConfig {
        root: "/s".to_string(),
        output: "/s/out".to_string(),
        basename: parse_url("http://h/").expect(""),
    };
    let output = Output::new("http://h/", "p.html", None).expect("");
    provider.set(GeneratorContext::new(&config, &output));
    let path = provider
        .with(|c| Ok(c.output.path.clone()))
        .expect("a context is set");
    assert_eq!(path, "p.html");
    provider.clear();
    assert!(provider.current.is_none());
}

#[test]
fn test_markdownify() {
    let v = Json::Str("# Hi".to_string());
    let html = MarkdownifyHelper::html_value(&v).expect("");
    assert!(html.contains("<h1>Hi</h1>"));
    assert!(matches!(
        MarkdownifyHelper::html_value(&Json::Null),
        Err(GeneratorError::Render(_))
    ));
}

#[test]
fn test_timestamp_helper() {
    let v = Json::Str("2020-05-01T10:20:30Z".to_string());
    let out = TimeHelper::format_value("%Y-%m-%d", Some(&v)).expect("");
    assert_eq!(out, "2020-05-01");
    assert!(matches!(
        TimeHelper::format_value("%Y", Some(&Json::Str("yesterday".to_string()))),
        Err(GeneratorError::Render(_))
    ));
}

#[test]
fn test_times_and_concat() {
    assert_eq!(TimesHelper::count(&Json::Num("3".to_string())).expect(""), 3);
    assert!(TimesHelper::count(&Json::Num("3.5".to_string())).is_err());
    assert!(TimesHelper::count(&Json::Str("3".to_string())).is_err());
    let joined = ConcatHelper::concat_values(&vec![
        Json::Str("a".to_string()),
        Json::Num("1".to_string()),
        Json::Str("b".to_string()),
    ]);
    assert_eq!(joined, "ab");
}

#[test]
fn test_truthiness() {
    assert!(!Json::Null.is_truthy(false));
    assert!(Json::Bool(true).is_truthy(false));
    assert!(!Json::Str(String::new()).is_truthy(false));
    assert!(Json::Str("x".to_string()).is_truthy(false));
    assert!(!Json::Num("0".to_string()).is_truthy(false));
    assert!(Json::Num("0".to_string()).is_truthy(true));
    assert!(Json::Num("0.5".to_string()).is_truthy(false));
    assert!(!Json::Arr(vec![]).is_truthy(false));
}

#[test]
fn test_template_name() {
    assert_eq!(
        hagen::generator::template_name("page.hbs").as_deref(),
        Some("page")
    );
    assert_eq!(
        hagen::generator::template_name("sub\\nav.hbs").as_deref(),
        Some("sub/nav")
    );
    assert!(hagen::generator::template_name("notes.txt").is_none());
    assert!(hagen::generator::template_name("hbs").is_none());
}

#[test]
fn test_copy_decision() {
    assert!(copy_decision("css/site.css", Some("**/*.css")).expect(""));
    assert!(!copy_decision("img/logo.png", Some("**/*.css")).expect(""));
    assert!(copy_decision("anything", None).expect(""));
    assert!(matches!(
        copy_decision("x", Some("a{b")),
        Err(GeneratorError::Config(_))
    ));
}

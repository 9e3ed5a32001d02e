use hagen::generator::{GeneratorConfig, GeneratorContext, GeneratorContextProvider, Output};
use hagen::helper::url::{
    absolute_url_value, active_value, full_url_from, parse_url, relative_url_value,
    AbsoluteUrlHelper, ActiveHelper, RelativeUrlHelper,
};

fn test_full_url(site_url: &str, path: &str, url: &str, expected: &str) {
    let o = Output {
        site_url: site_url.to_string(),
        url: url.to_string(),
        path: path.to_string(),
        template: None,
    };
    assert_eq!(full_url_from(url, &o).expect("").to_text(), expected);
}

#[test]
fn url_test_1() {
    test_full_url(
        "http://localhost:8080/",
        "index.html",
        "",
        "http://localhost:8080/index.html",
    );
}

#[test]
fn url_test_2() {
    test_full_url(
        "http://localhost:8080/site/",
        "index.html",
        "",
        "http://localhost:8080/site/index.html",
    );
}

#[test]
fn url_test_3() {
    test_full_url(
        "http://localhost:8080/site/",
        "index.html",
        "/",
        "http://localhost:8080/site/",
    );
}

fn setup_output(base: &str, path: &str) -> Output {
    Output::new(base, path, None).expect("a usable base URL")
}

#[test]
fn test_relative_url_1() {
    let o = setup_output("http://localhost/base/", "/foo/bar");
    assert_eq!(
        relative_url_value("https://foo.bar/baz", &o).expect(""),
        "https://foo.bar/baz"
    );
}

#[test]
fn test_relative_url_2() {
    let o = setup_output("http://localhost/base/", "/foo/bar");
    assert_eq!(
        relative_url_value("/baz/buz/boz", &o).expect(""),
        "/base/baz/buz/boz"
    );
}

#[test]
fn test_relative_url_3() {
    let o = setup_output("http://localhost/base/", "/foo/bar");
    assert_eq!(relative_url_value("boz", &o).expect(""), "/base/foo/boz");
}

#[test]
fn test_absolute_url_1() {
    let o = setup_output("http://localhost/base/", "/foo/bar");
    assert_eq!(
        absolute_url_value("https://foo.bar/baz", &o).expect(""),
        "https://foo.bar/baz"
    );
}

#[test]
fn test_absolute_url_2() {
    let o = setup_output("http://localhost/base/", "/foo/bar");
    assert_eq!(
        absolute_url_value("/baz/buz/boz", &o).expect(""),
        "http://localhost/base/baz/buz/boz"
    );
}

#[test]
fn test_absolute_url_3() {
    let o = setup_output("http://localhost/base/", "/foo/bar");
    assert_eq!(
        absolute_url_value("boz", &o).expect(""),
        "http://localhost/base/foo/boz"
    );
}

#[test]
fn test_active_1() {
    let o = setup_output("http://localhost/base", "/root");
    assert!(active_value("/root", &o).expect(""));
    assert!(!active_value("/root/", &o).expect(""));
    assert!(!active_value("/", &o).expect(""));
    assert!(!active_value("/root/bar", &o).expect(""));
}

#[test]
fn test_active_2() {
    let o = setup_output("http://localhost/base", "/root/index.html");
    assert!(!active_value("/root", &o).expect(""));
    assert!(active_value("/root/", &o).expect(""));
    assert!(!active_value("/", &o).expect(""));
    assert!(!active_value("/root/bar", &o).expect(""));
}

#[test]
fn test_active_3() {
    let o = setup_output("http://localhost/base", "/root/bar.html");
    assert!(!active_value("/root", &o).expect(""));
    assert!(!active_value("/root/", &o).expect(""));
    assert!(active_value("/root/bar.html", &o).expect(""));
    assert!(!active_value("/", &o).expect(""));
    assert!(!active_value("/root/bar", &o).expect(""));
}

#[test]
fn test_output_strips_index_html() {
    let o = Output::new("http://localhost:8080/", "blog/index.html", None).expect("");
    assert_eq!(o.path, "blog/index.html");
    assert_eq!(o.url, "http://localhost:8080/blog/");
    assert_eq!(o.site_url, "http://localhost:8080/");
}

#[test]
fn test_output_plain_page() {
    let o = Output::new("http://localhost:8080", "hello.html", Some("page")).expect("");
    assert_eq!(o.url, "http://localhost:8080/hello.html");
    assert_eq!(o.site_url, "http://localhost:8080/");
    assert_eq!(o.template.as_deref(), Some("page"));
}

#[test]
fn test_output_bad_base() {
    assert!(Output::new("not a url", "x.html", None).is_err());
}

#[test]
fn test_parse_url_round_trip() {
    let u = parse_url("http://localhost:8080/site/").expect("");
    assert_eq!(u.to_text(), "http://localhost:8080/site/");
    assert!(parse_url("::nonsense::").is_err());
}

#[test]
fn test_url_helpers_through_context_slot() {
    let config = GeneratorConfig {
        root: "/tmp".to_string(),
        output: "/tmp/output".to_string(),
        basename: parse_url("http://localhost/base/").expect(""),
    };
    let output = Output::new("http://localhost/base/", "/foo/bar", None).expect("");
    let mut provider = GeneratorContextProvider::new();
    provider.set(GeneratorContext::new(&config, &output));

    let absolute = AbsoluteUrlHelper { context: provider };
    assert_eq!(
        absolute.value("boz").expect(""),
        "http://localhost/base/foo/boz"
    );
    let relative = RelativeUrlHelper { context: absolute.context };
    assert_eq!(relative.value("/baz").expect(""), "/base/baz");
    let active = ActiveHelper { context: relative.context };
    assert!(active.check("/foo/bar").expect(""));
    assert!(!active.check("/foo").expect(""));
}

#[test]
fn test_join_dot_segments() {
    let base = parse_url("http://h/a/b/c.html").expect("");
    let up = hagen::helper::url::join(&base, "../x.html").expect("");
    assert_eq!(up.to_text(), "http://h/a/x.html");
    let dot = hagen::helper::url::join(&base, "./y.html").expect("");
    assert_eq!(dot.to_text(), "http://h/a/b/y.html");
}

use hagen::error::GeneratorError;
use hagen::generator::{GeneratorConfig, Output};
use hagen::helper::url::parse_url;
use hagen::processor::sitemap::SitemapProcessor;
use hagen::processor::rss::RssProcessor;
use hagen::processor::ProcessorSession;
use hagen::value::Json;

fn config() -> GeneratorConfig {
    GeneratorConfig {
        root: "/site".to_string(),
        output: "/site/output".to_string(),
        basename: parse_url("http://example.com/").expect(""),
    }
}

fn output(path: &str) -> Output {
    Output::new("http://example.com/", path, None).expect("")
}

fn obj(entries: Vec<(&str, Json)>) -> Json {
    Json::Obj(
        entries
            .into_iter()
            .map(|(k, v)| (k.to_string(), v))
            .collect(),
    )
}

fn s(text: &str) -> Json {
    Json::Str(text.to_string())
}

#[test]
fn test_sitemap_updated_wins_over_published() {
    let h = handlebars::Handlebars::new();
    let block = obj(vec![
        ("published", s("2020-01-01T00:00:00Z")),
        ("updated", s("2021-06-15T12:00:00Z")),
    ]);
    let mut ctx = SitemapProcessor::create(&config(), &block).expect("");
    ctx.file_created(&output("a.html"), &Json::Null, &h).expect("");
    ctx.complete();
    let text = String::from_utf8(ctx.out.clone()).expect("utf8");
    assert!(text.contains("<lastmod>2021-06-15T12:00:00Z</lastmod>"));
    assert!(!text.contains("2020-01-01"));
    assert!(text.contains("<loc>http://example.com/a.html</loc>"));
    assert!(text.contains("</urlset>"));
}

#[test]
fn test_sitemap_falls_back_to_published() {
    let h = handlebars::Handlebars::new();
    let block = obj(vec![("published", s("2020-01-01T00:00:00Z"))]);
    let mut ctx = SitemapProcessor::create(&config(), &block).expect("");
    ctx.file_created(&output("a.html"), &Json::Null, &h).expect("");
    let text = String::from_utf8(ctx.out.clone()).expect("utf8");
    assert!(text.contains("<lastmod>2020-01-01T00:00:00Z</lastmod>"));
}

#[test]
fn test_sitemap_invalid_change_frequency_is_fatal() {
    let h = handlebars::Handlebars::new();
    let block = obj(vec![("changeFrequency", s("sometimes"))]);
    let mut ctx = SitemapProcessor::create(&config(), &block).expect("");
    let e = ctx.file_created(&output("a.html"), &Json::Null, &h);
    assert!(matches!(e, Err(GeneratorError::Config(_))));
}

#[test]
fn test_sitemap_valid_change_frequency_and_priority() {
    let h = handlebars::Handlebars::new();
    let block = obj(vec![
        ("changeFrequency", s("weekly")),
        ("priority", s("0.5")),
    ]);
    let mut ctx = SitemapProcessor::create(&config(), &block).expect("");
    ctx.file_created(&output("a.html"), &Json::Null, &h).expect("");
    let text = String::from_utf8(ctx.out.clone()).expect("utf8");
    assert!(text.contains("<changefreq>weekly</changefreq>"));
    assert!(text.contains("<priority>0.5</priority>"));
}

#[test]
fn test_sitemap_bad_priority_is_fatal() {
    let h = handlebars::Handlebars::new();
    let block = obj(vec![("priority", s("very important"))]);
    let mut ctx = SitemapProcessor::create(&config(), &block).expect("");
    let e = ctx.file_created(&output("a.html"), &Json::Null, &h);
    assert!(matches!(e, Err(GeneratorError::Config(_))));
}

fn rss_block() -> Json {
    obj(vec![(
        "pages",
        Json::Arr(vec![obj(vec![
            (
                "data",
                obj(vec![("title", s("{{title}}")), ("published", s("{{published}}"))]),
            ),
            ("having", obj(vec![("path", s("$.title"))])),
        ])]),
    )])
}

#[test]
fn test_rss_no_matching_rule_no_item() {
    let h = handlebars::Handlebars::new();
    let mut ctx = RssProcessor::create(&h, &Json::Null, &config(), &rss_block()).expect("");
    let before = ctx.out.len();
    let data = obj(vec![("unrelated", s("x"))]);
    ctx.file_created(&output("a.html"), &data, &h).expect("");
    assert_eq!(ctx.out.len(), before);
    ctx.complete();
    let text = String::from_utf8(ctx.out.clone()).expect("utf8");
    assert!(!text.contains("<item>"));
    assert!(text.contains("</rss>"));
}

#[test]
fn test_rss_matching_rule_emits_item() {
    let h = handlebars::Handlebars::new();
    let mut ctx = RssProcessor::create(&h, &Json::Null, &config(), &rss_block()).expect("");
    let data = obj(vec![
        ("published", s("2020-03-04T05:06:07Z")),
        ("title", s("A Post")),
    ]);
    ctx.file_created(&output("post.html"), &data, &h).expect("");
    let text = String::from_utf8(ctx.out.clone()).expect("utf8");
    assert!(text.contains("<item>"));
    assert!(text.contains("<title>A Post</title>"));
    assert!(text.contains("<link>http://example.com/post.html</link>"));
    assert!(text.contains("<guid>http://example.com/post.html</guid>"));
    assert!(text.contains("<pubDate>Wed, 4 Mar 2020 05:06:07 +0000</pubDate>"));
}

#[test]
fn test_rss_empty_title_is_fatal() {
    let h = handlebars::Handlebars::new();
    let mut ctx = RssProcessor::create(&h, &Json::Null, &config(), &rss_block()).expect("");
    // the rule matches, but its title expression renders empty
    let data = obj(vec![("title", s(""))]);
    let e = ctx.file_created(&output("post.html"), &data, &h);
    assert!(matches!(e, Err(GeneratorError::Render(_))));
}

#[test]
fn test_session_activation() {
    let h = handlebars::Handlebars::new();
    let blocks = vec![("sitemap".to_string(), obj(vec![]))];
    let session = ProcessorSession::new(&h, &Json::Null, &config(), &blocks).expect("");
    assert!(session.sitemap.is_some());
    assert!(session.rss.is_none());
}

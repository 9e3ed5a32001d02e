use hagen::generator::compact_content;
use hagen::loader::directory::DirectoryLoader;
use hagen::loader::front_matter::split_front_matter;
use hagen::loader::markdown::MarkdownLoader;
use hagen::loader::yaml::YAMLLoader;
use hagen::loader::{detect, BodyProvider, LoaderKind};
use hagen::value::{obj_insert, value_eq, Json};

#[test]
fn test_front_matter_absent() {
    let (body, block) = split_front_matter("just text\nwith lines");
    assert_eq!(body, "just text\nwith lines");
    assert!(block.is_none());
}

#[test]
fn test_front_matter_present() {
    let (body, block) = split_front_matter("---\ntitle: Hi\n---\nWorld");
    assert_eq!(body, "World");
    assert_eq!(block.as_deref(), Some("title: Hi"));
}

#[test]
fn test_front_matter_unterminated() {
    let (body, block) = split_front_matter("---\ntitle: Hi");
    assert_eq!(body, "");
    assert_eq!(block.as_deref(), Some("title: Hi"));
}

#[test]
fn test_markdown_loader() {
    let loader = MarkdownLoader::new("/site/content", "/site/content/hello.md");
    let c = loader.load("---\ntitle: Hi\n---\nWorld").expect("");
    assert_eq!(c.metadata.name, "hello");
    assert_eq!(c.metadata.parent, "/");
    assert_eq!(c.metadata.node_type, "md");
    assert_eq!(c.front_matter.len(), 1);
    assert_eq!(c.front_matter[0].0, "title");
    assert!(value_eq(&c.front_matter[0].1, &Json::Str("Hi".to_string())));
    match &c.content {
        BodyProvider::Json(Json::Str(s)) => assert_eq!(s, "World"),
        _ => panic!("not a literal body"),
    }
}

#[test]
fn test_markdown_loader_bad_front_matter() {
    let loader = MarkdownLoader::new("/r", "/r/x.md");
    let e = loader.load("---\n- not\n- a\n- mapping\n---\nbody");
    assert!(e.is_err());
}

#[test]
fn test_yaml_loader() {
    let loader = YAMLLoader::new("/r", "/r/data.yaml");
    let c = loader.load("answer: 42\n").expect("");
    match &c.content {
        BodyProvider::Json(doc) => {
            let v = doc.get("answer").expect("answer key");
            assert!(value_eq(v, &Json::Num("42".to_string())));
        }
        _ => panic!("not a literal body"),
    }
}

#[test]
fn test_detect_kinds() {
    assert!(matches!(detect("/r/x", true), Some(LoaderKind::Directory)));
    assert!(matches!(detect("/r/x.md", false), Some(LoaderKind::Markdown)));
    assert!(matches!(detect("/r/x.yaml", false), Some(LoaderKind::Yaml)));
    assert!(matches!(detect("/r/x.yml", false), Some(LoaderKind::Yaml)));
    assert!(matches!(detect("/r/x.html", false), Some(LoaderKind::Html)));
    assert!(detect("/r/x.png", false).is_none());
    assert!(detect("/r/Makefile", false).is_none());
}

#[test]
fn test_to_value_round_trip() {
    let md = MarkdownLoader::new("/s/content", "/s/content/a.md");
    let a = md.load("---\nn: 1\n---\nbody a").expect("");
    let dir = DirectoryLoader::new("/s/content", "/s/content");
    let root = dir.assemble(vec![a]);
    let v = root.to_value();

    let child = v
        .get("content")
        .and_then(|c| c.get("a"))
        .expect("child under its name");
    let fm = child.get("frontMatter").expect("front matter kept");
    assert!(value_eq(
        fm,
        &Json::Obj(vec![("n".to_string(), Json::Num("1".to_string()))])
    ));
    let body = child.get("content").expect("body kept");
    assert!(value_eq(body, &Json::Str("body a".to_string())));
    let meta = child.get("metadata").expect("metadata kept");
    assert!(value_eq(
        meta.get("type").expect("type tag"),
        &Json::Str("md".to_string())
    ));
}

#[test]
fn test_directory_collision_overwrites() {
    let md = MarkdownLoader::new("/s", "/s/a.md");
    let first = md.load("first").expect("");
    let second = md.load("second").expect("");
    let dir = DirectoryLoader::new("/s", "/s");
    let root = dir.assemble(vec![first, second]);
    match &root.content {
        BodyProvider::Directory(children) => {
            assert_eq!(children.len(), 1);
            assert_eq!(children[0].0, "a");
            match &children[0].1.content {
                BodyProvider::Json(Json::Str(s)) => assert_eq!(s, "second"),
                _ => panic!("not a literal body"),
            }
        }
        _ => panic!("not a directory body"),
    }
}

#[test]
fn test_pointer_and_escapes() {
    let v = Json::Obj(vec![
        (
            "a/b".to_string(),
            Json::Obj(vec![("~x".to_string(), Json::Num("7".to_string()))]),
        ),
        (
            "list".to_string(),
            Json::Arr(vec![Json::Str("zero".to_string()), Json::Str("one".to_string())]),
        ),
    ]);
    assert!(value_eq(
        v.pointer("/a~1b/~0x").expect(""),
        &Json::Num("7".to_string())
    ));
    assert!(value_eq(
        v.pointer("/list/1").expect(""),
        &Json::Str("one".to_string())
    ));
    assert!(v.pointer("/list/01").is_none());
    assert!(v.pointer("/missing").is_none());
    assert!(value_eq(v.pointer("").expect(""), &v));
}

#[test]
fn test_obj_insert_sorted_and_overwrites() {
    let mut pairs: Vec<(String, Json)> = Vec::new();
    obj_insert(&mut pairs, "m".to_string(), Json::Num("1".to_string()));
    obj_insert(&mut pairs, "a".to_string(), Json::Num("2".to_string()));
    obj_insert(&mut pairs, "z".to_string(), Json::Num("3".to_string()));
    obj_insert(&mut pairs, "a".to_string(), Json::Num("4".to_string()));
    let keys: Vec<&str> = pairs.iter().map(|p| p.0.as_str()).collect();
    assert_eq!(keys, vec!["a", "m", "z"]);
    assert!(value_eq(&pairs[0].1, &Json::Num("4".to_string())));
}

#[test]
fn test_compact_content_view() {
    let md = MarkdownLoader::new("/s/content", "/s/content/hello.md");
    let hello = md.load("---\nt: 1\n---\nWorld").expect("");
    let dir = DirectoryLoader::new("/s/content", "/s/content");
    let root = dir.assemble(vec![hello]);
    let full = root.to_value();
    let compact = compact_content(&full).expect("the root has content");
    // the wrapper layers are gone: the child's body stands at its name
    let hello_body = compact.get("hello").expect("child kept under its name");
    assert!(value_eq(hello_body, &Json::Str("World".to_string())));
}

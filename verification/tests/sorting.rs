use hagen::helper::sort::{sorted_array, sorted_map};
use hagen::value::Json;

fn item(field1: &str, field2: &str) -> Json {
    Json::Obj(vec![
        ("field1".to_string(), Json::Str(field1.to_string())),
        ("field2".to_string(), Json::Str(field2.to_string())),
    ])
}

fn field2_of(v: &Json) -> String {
    match v.pointer("/field2") {
        Some(Json::Str(s)) => s.clone(),
        _ => panic!("missing field2"),
    }
}

#[test]
fn test_sort_array_1() {
    let items = vec![item("C", "C1"), item("A", "A1"), item("B", "B1")];

    let asc = sorted_array(&items, "/field1", false);
    let r0: String = asc.iter().map(|&i| field2_of(&items[i])).collect();
    assert_eq!(r0, "A1B1C1");

    let desc = sorted_array(&items, "/field1", true);
    let r1: String = desc.iter().map(|&i| field2_of(&items[i])).collect();
    assert_eq!(r1, "C1B1A1");
}

#[test]
fn test_sort_map_1() {
    let entries = vec![
        ("key1".to_string(), item("C", "C1")),
        ("key2".to_string(), item("A", "A1")),
        ("key3".to_string(), item("B", "B1")),
    ];

    let asc = sorted_map(&entries, "/field1", false);
    let r0: String = asc.iter().map(|&i| field2_of(&entries[i].1)).collect();
    assert_eq!(r0, "A1B1C1");

    let desc = sorted_map(&entries, "/field1", true);
    let r1: String = desc.iter().map(|&i| field2_of(&entries[i].1)).collect();
    assert_eq!(r1, "C1B1A1");
}

#[test]
fn test_sort_missing_field_last() {
    let items = vec![
        Json::Obj(vec![("other".to_string(), Json::Str("x".to_string()))]),
        item("B", "B1"),
        item("A", "A1"),
    ];
    let asc = sorted_array(&items, "/field1", false);
    assert_eq!(asc, vec![2, 1, 0]);
}

#[test]
fn test_sort_stable_on_equal_keys() {
    let items = vec![item("A", "first"), item("A", "second"), item("A", "third")];
    let asc = sorted_array(&items, "/field1", false);
    assert_eq!(asc, vec![0, 1, 2]);
    let desc = sorted_array(&items, "/field1", true);
    assert_eq!(desc, vec![0, 1, 2]);
}

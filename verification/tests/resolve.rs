use fastn::names::NameMap;
use fastn::resolve::{get_doc_name_and_thing_name_and_remaining, resolve_name, split_module, split_once};

#[test]
fn names_split_at_dots() {
    assert_eq!(split_once("a.b.c", '.'), Some(("a".to_string(), "b.c".to_string())));
    assert_eq!(split_once("abc", '.'), None);
    assert_eq!(
        split_module("m.v.c.d"),
        (Some("m".to_string()), "v".to_string(), Some("c.d".to_string()))
    );
    assert_eq!(split_module("m.v"), (Some("m".to_string()), "v".to_string(), None));
    assert_eq!(split_module("v"), (None, "v".to_string(), None));
}

#[test]
fn names_resolve_through_aliases() {
    let mut aliases = NameMap::new();
    aliases.insert("lib".to_string(), "fastn.com/lib".to_string());
    assert_eq!(resolve_name("x", "main", &aliases), "main#x");
    assert_eq!(resolve_name("$x", "main", &aliases), "main#x");
    assert_eq!(resolve_name("*$x", "main", &aliases), "main#x");
    assert_eq!(resolve_name("lib.x", "main", &aliases), "fastn.com/lib#x");
    assert_eq!(resolve_name("lib.x.y", "main", &aliases), "fastn.com/lib#x.y");
    assert_eq!(resolve_name("rec.x", "main", &aliases), "main#rec.x");
    assert_eq!(resolve_name("rec.x.y", "main", &aliases), "main#rec.x.y");
    assert_eq!(resolve_name("other#x", "main", &aliases), "other#x");
}

#[test]
fn full_names_split_into_parts() {
    assert_eq!(
        get_doc_name_and_thing_name_and_remaining("lib#x", "doc", 0),
        ("lib".to_string(), "x".to_string(), None)
    );
    assert_eq!(
        get_doc_name_and_thing_name_and_remaining("lib#x.y.z", "doc", 0),
        ("lib".to_string(), "x".to_string(), Some("y.z".to_string()))
    );
    assert_eq!(
        get_doc_name_and_thing_name_and_remaining("x.y", "doc", 0),
        ("doc".to_string(), "x".to_string(), Some("y".to_string()))
    );
    assert_eq!(
        get_doc_name_and_thing_name_and_remaining("x", "doc", 0),
        ("doc".to_string(), "x".to_string(), None)
    );
}

use fastn::p1::{Error, Header, Rendered, Section, SubSection, SubSections};

fn sub(name: &str, commented: bool) -> SubSection {
    SubSection {
        name: name.to_string(),
        caption: None,
        header: Header(vec![]),
        body: None,
        is_commented: commented,
    }
}

#[test]
fn with_name_is_bare() {
    let s = Section::with_name("foo");
    assert_eq!(s.name, "foo");
    assert_eq!(s.caption, None);
    assert!(s.header.0.is_empty());
    assert_eq!(s.body, None);
    assert!(s.sub_sections.0.is_empty());
    assert!(!s.is_commented);
}

#[test]
fn builders_set_caption_headers_and_body() {
    let s = Section::with_name("foo")
        .and_caption("cap")
        .add_header("a", "1")
        .add_optional_header_bool("b", Some(true))
        .add_optional_header_bool("c", None)
        .add_optional_header_i32("d", &Some(-42))
        .add_optional_header_i32("e", &None)
        .add_optional_header("f", &Some("x".to_string()))
        .add_optional_header("g", &None)
        .add_header_if_not_equal("h", 3, 4)
        .add_header_if_not_equal("i", 5, 5)
        .and_body("the body");
    assert_eq!(s.caption.as_deref(), Some("cap"));
    assert_eq!(
        s.header.0,
        vec![
            ("a".to_string(), "1".to_string()),
            ("b".to_string(), "true".to_string()),
            ("d".to_string(), "-42".to_string()),
            ("f".to_string(), "x".to_string()),
            ("h".to_string(), "3".to_string()),
        ]
    );
    assert_eq!(s.body.as_deref(), Some("the body"));
}

#[test]
fn optional_caption_and_body() {
    let r = Rendered { original: "orig".to_string(), rendered: "<p>orig</p>".to_string() };
    let s = Section::with_name("x").and_optional_caption(&Some(r));
    assert_eq!(s.caption.as_deref(), Some("orig"));
    let s = s.and_optional_caption(&None);
    assert_eq!(s.caption.as_deref(), Some("orig"));
    let s = s.and_optional_body(&Some("b".to_string()));
    assert_eq!(s.body.as_deref(), Some("b"));
    let s = s.and_optional_body(&None);
    assert_eq!(s.body, None);
}

#[test]
fn body_comments() {
    let s = Section::with_name("x").and_body("hello");
    assert_eq!(s.body_without_comment().as_deref(), Some("hello"));
    assert_eq!(s.body().unwrap(), "hello");
    let s = Section::with_name("x").and_body("/hello");
    assert_eq!(s.body_without_comment(), None);
    let s = Section::with_name("x").and_body("\\/hello");
    assert_eq!(s.body_without_comment().as_deref(), Some("/hello"));
    let s = Section::with_name("x");
    assert_eq!(
        s.body(),
        Err(Error::InvalidInput { message: "body is missing".to_string(), context: "".to_string() })
    );
}

#[test]
fn caption_missing_is_an_error() {
    let s = Section::with_name("x");
    assert_eq!(
        s.caption(),
        Err(Error::InvalidInput {
            message: "caption is missing".to_string(),
            context: "".to_string()
        })
    );
    assert_eq!(s.and_caption("c").caption(), Ok("c".to_string()));
}

#[test]
fn assert_missing_looks_at_live_headers() {
    let s = Section::with_name("x").add_header("/k", "v").add_header("j", "w");
    assert_eq!(s.assert_missing("k"), Ok(()));
    assert_eq!(
        s.assert_missing("j"),
        Err(Error::InvalidInput {
            message: "'j' is not expected".to_string(),
            context: "".to_string()
        })
    );
}

#[test]
fn remove_comments_drops_commented_parts() {
    let mut live = sub("s1", false);
    live.header = Header(vec![
        ("/c".to_string(), "1".to_string()),
        ("k".to_string(), "2".to_string()),
    ]);
    live.body = Some("\\/b".to_string());
    let s = Section {
        name: "n".to_string(),
        caption: Some("c".to_string()),
        header: Header(vec![
            ("/x".to_string(), "1".to_string()),
            ("y".to_string(), "2".to_string()),
        ]),
        body: Some("/gone".to_string()),
        sub_sections: SubSections(vec![live, sub("s2", true)]),
        is_commented: true,
    };
    let r = s.remove_comments();
    assert_eq!(r.name, "n");
    assert_eq!(r.caption.as_deref(), Some("c"));
    assert_eq!(r.header.0, vec![("y".to_string(), "2".to_string())]);
    assert_eq!(r.body, None);
    assert!(!r.is_commented);
    assert_eq!(r.sub_sections.0.len(), 1);
    let t = &r.sub_sections.0[0];
    assert_eq!(t.name, "s1");
    assert_eq!(t.header.0, vec![("k".to_string(), "2".to_string())]);
    assert_eq!(t.body.as_deref(), Some("/b"));
}

#[test]
fn sub_section_lookup() {
    let s = Section::with_name("x")
        .add_sub_section(sub("a", false))
        .add_sub_section(sub("b", false))
        .add_sub_section(sub("b", false))
        .add_sub_section(sub("c", true));
    assert_eq!(s.sub_section_by_name("a").unwrap().name, "a");
    assert_eq!(
        s.sub_section_by_name("b").err(),
        Some(Error::MoreThanOneSubSections { key: "b".to_string() })
    );
    assert_eq!(s.sub_section_by_name("c").err(), Some(Error::NotFound { key: "c".to_string() }));
    assert_eq!(s.sub_section_by_name("d").err(), Some(Error::NotFound { key: "d".to_string() }));
}

#[test]
fn list_is_one_section() {
    let s = Section::with_name("x");
    let l = s.clone().list();
    assert_eq!(l, vec![s]);
}

#[test]
fn header_lookup_skips_comments() {
    let h = Header(vec![
        ("/a".to_string(), "1".to_string()),
        ("a".to_string(), "2".to_string()),
        ("a".to_string(), "3".to_string()),
    ]);
    assert_eq!(h.str_optional("a"), Ok(Some("2".to_string())));
    assert_eq!(h.str_optional("/a"), Ok(None));
    assert_eq!(h.str_optional("b"), Ok(None));
}

#[test]
fn integer_headers_in_decimal() {
    let s = Section::with_name("n")
        .add_optional_header_i32("zero", &Some(0))
        .add_optional_header_i32("max", &Some(i32::MAX))
        .add_optional_header_i32("min", &Some(i32::MIN));
    assert_eq!(
        s.header.0,
        vec![
            ("zero".to_string(), "0".to_string()),
            ("max".to_string(), "2147483647".to_string()),
            ("min".to_string(), "-2147483648".to_string()),
        ]
    );
}

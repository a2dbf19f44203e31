use fastn::ast::{Definition, Export, Exposing, Import, AST};
use fastn::document::{default_aliases, ParsedDocument};

fn import(module: &str, alias: &str, exports: Option<Export>, exposing: Option<Exposing>) -> AST {
    AST::Import(Import {
        module: module.to_string(),
        alias: alias.to_string(),
        exports,
        exposing,
        line_number: 1,
    })
}

fn def(name: &str) -> Definition {
    Definition { name: name.to_string(), line_number: 2 }
}

#[test]
fn default_aliases_are_ftd_and_inherited() {
    let a = default_aliases();
    assert_eq!(a.len(), 2);
    assert_eq!(a.get("ftd"), Some(&"ftd".to_string()));
    assert_eq!(a.get("inherited"), Some(&"inherited".to_string()));
}

#[test]
fn parse_collects_aliases_exports_and_exposings() {
    let ast = vec![
        import("lib/one", "one", Some(Export::All), None),
        import(
            "lib/two",
            "two",
            Some(Export::Things(vec!["a".to_string(), "b".to_string()])),
            Some(Exposing::Things(vec!["c".to_string()])),
        ),
        AST::Record(def("person")),
        import("lib/three", "one", None, Some(Exposing::All)),
    ];
    let d = ParsedDocument::parse("main", ast);
    assert_eq!(d.name, "main");
    assert_eq!(d.ast.len(), 4);
    assert!(d.processing_imports);
    assert_eq!(d.doc_aliases.len(), 4);
    assert_eq!(d.doc_aliases.get("ftd"), Some(&"ftd".to_string()));
    assert_eq!(d.doc_aliases.get("one"), Some(&"lib/three".to_string()));
    assert_eq!(d.doc_aliases.get("two"), Some(&"lib/two".to_string()));
    assert_eq!(d.re_exports.all_things, vec!["lib/one".to_string()]);
    assert_eq!(d.re_exports.module_things.get("a"), Some(&"lib/two".to_string()));
    assert_eq!(d.re_exports.module_things.get("b"), Some(&"lib/two".to_string()));
    assert_eq!(d.re_exports.module_things.len(), 2);
    assert_eq!(d.exposings.get("c"), Some(&"lib/two".to_string()));
    assert_eq!(d.exposings.len(), 1);
    assert!(d.foreign_variable.is_empty());
    assert!(d.foreign_function.is_empty());
    assert_eq!(d.get_doc_aliases(), d.doc_aliases);
}

#[test]
fn parse_with_line_number_matches_parse() {
    let a = ParsedDocument::parse_with_line_number("x", vec![AST::Record(def("r"))], 7);
    let b = ParsedDocument::parse("x", vec![AST::Record(def("r"))]);
    assert_eq!(a, b);
}

#[test]
fn foreign_names_are_appended() {
    let mut d = ParsedDocument::parse("x", vec![]);
    d.add_foreign_variable(vec!["files".to_string()]);
    d.add_foreign_variable(vec!["time".to_string()]);
    d.add_foreign_function(vec!["http".to_string(), "toc".to_string()]);
    assert_eq!(d.foreign_variable, vec!["files".to_string(), "time".to_string()]);
    assert_eq!(d.foreign_function, vec!["http".to_string(), "toc".to_string()]);
}

#[test]
fn kinds_and_names_of_items() {
    let i = import("foo/bar", "bar", None, None);
    assert!(i.is_import());
    assert!(!i.is_component());
    assert_eq!(i.name(), "bar");
    let c = AST::ComponentInvocation(def("ftd.text"));
    assert!(c.is_component());
    assert!(!c.is_import());
    assert_eq!(c.name(), "ftd.text");
    assert_eq!(c.line_number(), 2);
}

#[test]
fn aliases_keep_the_order_they_are_first_declared_in() {
    let items = || {
        vec![
            import("lib/b", "b", Some(Export::Things(vec!["y".to_string(), "x".to_string()])), None),
            import("lib/a", "a", None, Some(Exposing::Things(vec!["q".to_string(), "p".to_string()]))),
            import("lib/c", "b", Some(Export::Things(vec!["x".to_string(), "z".to_string()])), None),
        ]
    };
    let d = ParsedDocument::parse("main", items());
    assert_eq!(d.doc_aliases.keys(), vec!["ftd", "inherited", "b", "a"]);
    assert_eq!(d.re_exports.module_things.keys(), vec!["y", "x", "z"]);
    assert_eq!(d.exposings.keys(), vec!["q", "p"]);
    assert_eq!(ParsedDocument::parse_with_line_number("main", items(), 12), d);
}

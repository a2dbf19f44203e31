use fastn::ast::{Definition, Export, Import, AST};
use fastn::document::ParsedDocument;
use fastn::interpreter::{
    Error, InterpreterState, InterpreterWithoutState, PendingImportItem, PendingImports,
    StateWithThing, Thing, ToProcess,
};
use fastn::names::{NameMap, PairSet};

fn def(name: &str) -> Definition {
    Definition { name: name.to_string(), line_number: 5 }
}

fn main_doc() -> ParsedDocument {
    ParsedDocument::parse(
        "main",
        vec![
            AST::Import(Import {
                module: "lib".to_string(),
                alias: "lib".to_string(),
                exports: None,
                exposing: None,
                line_number: 1,
            }),
            AST::VariableInvocation(def("lib.x")),
            AST::ComponentInvocation(def("lib.x")),
        ],
    )
}

fn lib_doc() -> ParsedDocument {
    let mut d = ParsedDocument::parse(
        "lib",
        vec![
            AST::Import(Import {
                module: "other".to_string(),
                alias: "other".to_string(),
                exports: Some(Export::Things(vec!["y".to_string()])),
                exposing: None,
                line_number: 1,
            }),
            AST::VariableDefinition(def("x")),
            AST::Record(def("x.field")),
            AST::Record(def("xx")),
        ],
    );
    d.add_foreign_variable(vec!["files".to_string()]);
    d.add_foreign_function(vec!["http".to_string()]);
    d
}

fn other_doc() -> ParsedDocument {
    ParsedDocument::parse("other", vec![AST::FunctionDefinition(def("y"))])
}

fn state(with_lib: bool, with_other: bool) -> InterpreterState {
    let mut parsed_libs = NameMap::new();
    parsed_libs.insert("main".to_string(), main_doc());
    if with_lib {
        parsed_libs.insert("lib".to_string(), lib_doc());
    }
    if with_other {
        parsed_libs.insert("other".to_string(), other_doc());
    }
    InterpreterState {
        id: "main".to_string(),
        bag: indexmap::IndexMap::new(),
        js: NameMap::new(),
        css: NameMap::new(),
        to_process: ToProcess::default(),
        pending_imports: PendingImports { stack: vec![], contains: PairSet::new() },
        parsed_libs,
        instructions: vec![],
    }
}

fn pending(module: &str, thing: &str) -> PendingImportItem {
    PendingImportItem {
        module: module.to_string(),
        thing_name: thing.to_string(),
        line_number: 9,
        caller: "main".to_string(),
        exports: vec![],
    }
}

#[test]
fn unparsed_module_stops_on_import() {
    let mut s = state(false, false);
    let r = s.resolve_import_things::<Thing>("lib", "lib#x", 9, "main", &vec![]);
    match r {
        Ok(StateWithThing::State(InterpreterWithoutState::StuckOnImport { module, caller_module })) => {
            assert_eq!(module, "lib");
            assert_eq!(caller_module, "main");
        }
        _ => panic!("expected a stop on the import"),
    }
    assert!(s.to_process.stack.is_empty());
}

#[test]
fn defining_items_are_queued() {
    let mut s = state(true, false);
    s.pending_imports.stack.push(pending("lib", "lib#x"));
    s.pending_imports.contains.insert("lib".to_string(), "lib#x".to_string());
    let r = s.resolve_import_things::<Thing>("lib", "lib#x", 9, "main", &vec!["e".to_string()]);
    assert!(matches!(r, Ok(StateWithThing::Continue)));
    // the invocation of lib.x in main comes first, then lib's definitions of x
    assert_eq!(s.to_process.stack.len(), 2);
    assert_eq!(s.to_process.stack[0].0, "main");
    assert_eq!(s.to_process.stack[0].1.len(), 1);
    assert_eq!(s.to_process.stack[0].1[0].ast.name(), "lib.x");
    assert_eq!(s.to_process.stack[1].0, "lib");
    let names: Vec<String> = s.to_process.stack[1].1.iter().map(|i| i.ast.name()).collect();
    assert_eq!(names, vec!["x".to_string(), "x.field".to_string()]);
    assert_eq!(s.to_process.stack[1].1[0].exports, vec!["e".to_string()]);
    assert_eq!(s.to_process.stack[1].1[0].number_of_scan, 0);
    assert!(s.to_process.contains.contains("main", "lib#x"));
    assert!(s.to_process.contains.contains("lib", "lib#x"));
    assert!(s.pending_imports.stack.is_empty());
    assert!(!s.pending_imports.contains.contains("lib", "lib#x"));
}

#[test]
fn foreign_variable_stops_for_the_caller() {
    let mut s = state(true, false);
    let r = s.resolve_import_things::<Thing>("lib", "lib#files.logo", 9, "main", &vec![]);
    match r {
        Ok(StateWithThing::State(InterpreterWithoutState::StuckOnForeignVariable {
            module,
            variable,
            caller_module,
        })) => {
            assert_eq!(module, "lib");
            assert_eq!(variable, "files.logo");
            assert_eq!(caller_module, "main");
        }
        _ => panic!("expected a stop on the foreign variable"),
    }
}

#[test]
fn foreign_function_is_done() {
    let mut s = state(true, false);
    s.pending_imports.stack.push(pending("lib", "lib#http"));
    let r = s.resolve_import_things::<Thing>("lib", "lib#http", 9, "main", &vec![]);
    assert!(matches!(r, Ok(StateWithThing::Continue)));
    assert!(s.pending_imports.stack.is_empty());
    assert!(s.to_process.stack.is_empty());
}

#[test]
fn re_export_is_followed() {
    let mut s = state(true, true);
    s.pending_imports.stack.push(pending("lib", "lib#y"));
    let r = s.resolve_import_things::<Thing>("lib", "lib#y", 9, "main", &vec![]);
    assert!(matches!(r, Ok(StateWithThing::Continue)));
    let last = s.to_process.stack.last().unwrap();
    assert_eq!(last.0, "other");
    assert_eq!(last.1[0].ast.name(), "y");
    assert_eq!(last.1[0].exports, vec!["lib#y".to_string()]);
    assert!(s.to_process.contains.contains("other", "other#y"));
}

#[test]
fn missing_thing_is_an_error() {
    let mut s = state(true, false);
    let r = s.resolve_import_things::<Thing>("lib", "lib#z", 9, "main", &vec![]);
    match r {
        Err(Error::ParseError { message, doc_id, line_number }) => {
            assert_eq!(message, "`lib#z` not found");
            assert_eq!(doc_id, "lib#z");
            assert_eq!(line_number, 9);
        }
        _ => panic!("expected not found"),
    }
}

#[test]
fn pending_imports_resolve_in_turn() {
    let mut s = state(true, false);
    let none: Option<StateWithThing<Thing>> = s.resolve_pending_imports::<Thing>().ok().unwrap();
    assert!(none.is_none());
    s.pending_imports.stack.push(pending("lib", "lib#xx"));
    s.pending_imports.stack.push(pending("lib", "lib#x"));
    let r = s.resolve_pending_imports::<Thing>();
    assert!(matches!(r, Ok(Some(StateWithThing::Continue))));
    assert!(s.pending_imports.stack.is_empty());
    s.pending_imports.stack.push(pending("unknown", "unknown#a"));
    match s.resolve_pending_imports::<Thing>() {
        Ok(Some(StateWithThing::State(InterpreterWithoutState::StuckOnImport {
            module,
            caller_module,
        }))) => {
            assert_eq!(module, "unknown");
            assert_eq!(caller_module, "main");
        }
        _ => panic!("expected a stop on the import"),
    }
    assert_eq!(s.pending_imports.stack.len(), 1);
}

fn cyclic_state() -> InterpreterState {
    let mut s = state(false, false);
    let re_export = |module: &str| {
        AST::Import(Import {
            module: module.to_string(),
            alias: module.to_string(),
            exports: Some(Export::Things(vec!["t".to_string()])),
            exposing: None,
            line_number: 1,
        })
    };
    s.parsed_libs.insert("a".to_string(), ParsedDocument::parse("a", vec![re_export("b")]));
    s.parsed_libs.insert("b".to_string(), ParsedDocument::parse("b", vec![re_export("a")]));
    s
}

#[test]
fn checked_resolution_stops_on_a_cycle() {
    let mut s = cyclic_state();
    let r = s.resolve_import_things_checked::<Thing>("a", "a#t", 9, "main", &vec![], 50);
    assert!(r.is_none());
}

#[test]
fn checked_resolution_agrees_when_it_ends() {
    let mut s = state(true, true);
    s.pending_imports.stack.push(pending("lib", "lib#y"));
    let r = s.resolve_import_things_checked::<Thing>("lib", "lib#y", 9, "main", &vec![], 5);
    assert!(matches!(r, Some(Ok(StateWithThing::Continue))));
    assert_eq!(s.to_process.stack.last().unwrap().0, "other");
    let mut t = state(true, true);
    assert!(t.resolve_import_things_checked::<Thing>("lib", "lib#y", 9, "main", &vec![], 1).is_none());
}

#[test]
fn checked_pending_resolution() {
    let mut s = state(true, false);
    s.pending_imports.stack.push(pending("lib", "lib#xx"));
    s.pending_imports.stack.push(pending("lib", "lib#x"));
    let r = s.resolve_pending_imports_checked::<Thing>(10);
    assert!(matches!(r, Some(Ok(Some(StateWithThing::Continue)))));
    assert!(s.pending_imports.stack.is_empty());

    let mut c = cyclic_state();
    c.pending_imports.stack.push(pending("a", "a#t"));
    assert!(c.resolve_pending_imports_checked::<Thing>(20).is_none());
}

#[test]
fn foreign_variable_already_known_is_done() {
    let mut s = state(true, false);
    s.bag.insert(
        "lib#files.logo".to_string(),
        Thing::Variable { name: "lib#files.logo".to_string(), line_number: 3 },
    );
    s.pending_imports.stack.push(pending("lib", "lib#files.logo"));
    let r = s.resolve_import_things::<Thing>("lib", "lib#files.logo", 9, "main", &vec![]);
    assert!(matches!(r, Ok(StateWithThing::Continue)));
    assert!(s.pending_imports.stack.is_empty());
}

use fastn::ast::{Definition, AST};
use fastn::document::ParsedDocument;
use fastn::interpreter::{
    Component, Document, Error, Interpreter, InterpreterState, InterpreterWithoutState,
    PendingImports, StateWithThing, Thing, ToProcess, ToProcessItem,
};
use fastn::names::{NameMap, PairSet};

fn item(name: &str, scans: usize) -> ToProcessItem {
    ToProcessItem {
        number_of_scan: scans,
        ast: AST::ComponentInvocation(Definition { name: name.to_string(), line_number: 3 }),
        exports: vec!["e".to_string()],
    }
}

fn state(stack: Vec<(String, Vec<ToProcessItem>)>) -> InterpreterState {
    let mut parsed_libs = NameMap::new();
    parsed_libs.insert("main".to_string(), ParsedDocument::parse("main", vec![]));
    InterpreterState {
        id: "main".to_string(),
        bag: indexmap::IndexMap::new(),
        js: NameMap::new(),
        css: NameMap::new(),
        to_process: ToProcess { stack, contains: PairSet::new() },
        pending_imports: PendingImports::default(),
        parsed_libs,
        instructions: vec![],
    }
}

#[test]
fn current_module_is_top_of_stack() {
    let s = state(vec![]);
    assert_eq!(s.get_current_processing_module(), None);
    let s = state(vec![("a".to_string(), vec![]), ("b".to_string(), vec![])]);
    assert_eq!(s.get_current_processing_module().as_deref(), Some("b"));
}

#[test]
fn scan_count_of_front_item_rises() {
    let mut s = state(vec![("main".to_string(), vec![item("x", 1), item("y", 5)])]);
    s.increase_scan_count();
    assert_eq!(s.to_process.stack[0].1[0].number_of_scan, 2);
    assert_eq!(s.to_process.stack[0].1[1].number_of_scan, 5);
    let (d, n, a) = s.peek_stack().unwrap();
    assert_eq!(d, "main");
    assert_eq!(n, 2);
    assert_eq!(a.name(), "x");
    let mut e = state(vec![("main".to_string(), vec![])]);
    e.increase_scan_count();
    assert!(e.to_process.stack[0].1.is_empty());
    assert!(e.peek_stack().is_none());
}

#[test]
fn next_item_drops_empty_entries() {
    let mut s = state(vec![
        ("main".to_string(), vec![item("x", 0)]),
        ("a".to_string(), vec![]),
        ("b".to_string(), vec![]),
    ]);
    let (d, n, a, ex) = s.get_next_ast().unwrap();
    assert_eq!(d, "main");
    assert_eq!(n, 0);
    assert_eq!(a.name(), "x");
    assert_eq!(ex, vec!["e".to_string()]);
    assert_eq!(s.to_process.stack.len(), 1);
    let mut t = state(vec![("a".to_string(), vec![])]);
    assert!(t.get_next_ast().is_none());
    assert!(t.to_process.stack.is_empty());
}

#[test]
fn remove_last_takes_front_item_and_pair() {
    let mut s = state(vec![("main".to_string(), vec![item("x", 0), item("y", 0)])]);
    s.to_process.contains.insert("main".to_string(), "main#x".to_string());
    s.remove_last();
    assert!(!s.to_process.contains.contains("main", "main#x"));
    assert_eq!(s.to_process.stack.len(), 1);
    assert_eq!(s.to_process.stack[0].1.len(), 1);
    assert_eq!(s.to_process.stack[0].1[0].ast.name(), "y");
    s.remove_last();
    assert!(s.to_process.stack.is_empty());
}

#[test]
fn tdoc_finds_parsed_documents() {
    let s = state(vec![]);
    let t = s.tdoc("main", 4).ok().unwrap();
    assert_eq!(t.name, "main");
    let e = s.tdoc("missing", 4).err().unwrap();
    assert_eq!(
        e,
        Error::ParseError {
            message: "Cannot find this document: `missing`".to_string(),
            doc_id: "missing".to_string(),
            line_number: 4,
        }
    );
}

#[test]
fn stops_carry_the_state() {
    let s = state(vec![]);
    let i = InterpreterWithoutState::StuckOnImport {
        module: "m".to_string(),
        caller_module: "c".to_string(),
    }
    .into_interpreter(s);
    match i {
        Interpreter::StuckOnImport { module, state, caller_module } => {
            assert_eq!(module, "m");
            assert_eq!(caller_module, "c");
            assert_eq!(state.id, "main");
        }
        _ => panic!("wrong stop"),
    }
    let v = InterpreterWithoutState::StuckOnForeignVariable {
        module: "m".to_string(),
        variable: "v".to_string(),
        caller_module: "c".to_string(),
    }
    .into_interpreter(state(vec![]));
    assert!(matches!(v, Interpreter::StuckOnForeignVariable { .. }));
}

#[test]
fn state_with_thing_helpers() {
    let t: StateWithThing<i32> = StateWithThing::new_thing(3);
    assert!(t.is_thing());
    assert!(!t.is_continue());
    let m = t.map(|x| x + 1);
    assert_eq!(m.into_optional(), Some(4));
    let c: StateWithThing<i32> = StateWithThing::new_continue();
    assert!(c.is_continue());
    assert_eq!(c.map(|x| x * 2).into_optional(), None);
    let s: StateWithThing<i32> = StateWithThing::new_state(InterpreterWithoutState::StuckOnImport {
        module: "m".to_string(),
        caller_module: "c".to_string(),
    });
    assert!(!s.is_thing());
    assert_eq!(s.into_optional(), None);
}

#[test]
fn instructions_by_name() {
    let d = Document {
        data: indexmap::IndexMap::new(),
        name: "main".to_string(),
        tree: vec![
            Component { name: "ftd#text".to_string(), line_number: 1 },
            Component { name: "ftd#redirect".to_string(), line_number: 2 },
            Component { name: "ftd#text".to_string(), line_number: 3 },
        ],
        aliases: NameMap::new(),
        js: NameMap::new(),
        css: NameMap::new(),
    };
    let v = d.get_instructions("ftd#text");
    assert_eq!(v.len(), 2);
    assert_eq!(v[1].line_number, 3);
    assert!(d.get_instructions("nope").is_empty());
    assert_eq!(d.tdoc().name, "main");
    let mut bag: NameMap<Thing> = NameMap::new();
    bag.insert("a#b".to_string(), Thing::Variable { name: "a#b".to_string(), line_number: 9 });
    assert_eq!(bag.get("a#b").unwrap().line_number(), 9);
}

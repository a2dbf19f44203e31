//! The interpreter's state: the things it has defined, the items still to process
//! per document, the imports it waits for, and the states it stops in to let its
//! caller resolve an import, a processor or a foreign variable.
use vstd::prelude::*;
use crate::ast::{copy_strings, strings_view, AstView, AST};
use crate::document::ParsedDocument;
use crate::names::{NameMap, PairSet};
use crate::text::{concat3, owned};
use crate::resolve::{
    doc_thing_remaining_spec, get_doc_name_and_thing_name_and_remaining, resolve_name,
    resolve_name_spec,
};
use crate::names::text_map;

verus! {

broadcast use vstd::seq_lib::group_seq_properties, Seq::lemma_filter_push;

// ---------------------------------------------------------------- errors

/// Errors of the interpreter.
#[derive(Debug, Clone, PartialEq, Eq)]
pub enum Error {
    ParseError { message: String, doc_id: String, line_number: usize },
    ValueNotFound { doc_id: String, line_number: usize, message: String },
}

// ---------------------------------------------------------------- things

/// A thing the interpreter has defined, with its name and line.
#[derive(Debug, Clone, PartialEq, Eq)]
pub enum Thing {
    Record { name: String, line_number: usize },
    OrType { name: String, line_number: usize },
    Variable { name: String, line_number: usize },
    Function { name: String, line_number: usize },
    Component { name: String, line_number: usize },
    WebComponent { name: String, line_number: usize },
}

impl Thing {
    /// The line the thing was defined on.
    pub open spec fn spec_line_number(&self) -> usize {
        match self {
            Thing::Record { line_number, .. } => *line_number,
            Thing::OrType { line_number, .. } => *line_number,
            Thing::Variable { line_number, .. } => *line_number,
            Thing::Function { line_number, .. } => *line_number,
            Thing::Component { line_number, .. } => *line_number,
            Thing::WebComponent { line_number, .. } => *line_number,
        }
    }

    /// The line the thing was defined on.
    pub fn line_number(&self) -> (r: usize)
        ensures
            r == self.spec_line_number(),
    {
        match self {
            Thing::Record { line_number, .. } => *line_number,
            Thing::OrType { line_number, .. } => *line_number,
            Thing::Variable { line_number, .. } => *line_number,
            Thing::Function { line_number, .. } => *line_number,
            Thing::Component { line_number, .. } => *line_number,
            Thing::WebComponent { line_number, .. } => *line_number,
        }
    }
}

/// `indexmap::IndexMap`, the map of things by name that the interpreter keeps.
#[verifier::external_type_specification]
#[verifier::external_body]
#[verifier::reject_recursive_types(K)]
#[verifier::reject_recursive_types(V)]
#[verifier::reject_recursive_types(S)]
pub struct ExIndexMap<K, V, S>(indexmap::IndexMap<K, V, S>);

/// What a map of things holds: the text of each name, with its thing.
pub uninterp spec fn bag_contents(m: indexmap::IndexMap<String, Thing>) -> Map<Seq<char>, Thing>;

/// `indexmap::IndexMap::contains_key`: whether a name equal to `key` is in the map
/// (its keys are compared with `key` by `str`'s equality).
#[verifier::external_body]
pub(crate) fn bag_contains_key(m: &indexmap::IndexMap<String, Thing>, key: &str) -> (r: bool)
    ensures
        r == bag_contents(*m).contains_key(key@),
{
    m.contains_key(key)
}

/// An invocation of a component in the document's tree.
#[derive(Debug, Clone, PartialEq, Eq)]
pub struct Component {
    pub name: String,
    pub line_number: usize,
}

// ---------------------------------------------------------------- queues

/// An import the interpreter waits for.
#[derive(Debug, Clone, PartialEq, Eq)]
pub struct PendingImportItem {
    pub module: String,
    pub thing_name: String,
    pub line_number: usize,
    pub caller: String,
    pub exports: Vec<String>,
}

/// The imports the interpreter waits for: a stack, and the (document, thing) pairs on it.
#[derive(Debug, Clone, PartialEq, Eq, Default)]
pub struct PendingImports {
    pub stack: Vec<PendingImportItem>,
    pub contains: PairSet,
}

/// An item to process, with how many times it has been scanned and the names it
/// is exported under.
#[derive(Debug, Clone, PartialEq, Eq)]
pub struct ToProcessItem {
    pub number_of_scan: usize,
    pub ast: AST,
    pub exports: Vec<String>,
}

/// The items to process: a stack of (document, items), and the (document, thing)
/// pairs on it.
#[derive(Debug, Clone, PartialEq, Eq, Default)]
pub struct ToProcess {
    pub stack: Vec<(String, Vec<ToProcessItem>)>,
    pub contains: PairSet,
}

/// An item to process as pure values.
pub struct ToProcessItemView {
    pub number_of_scan: usize,
    pub ast: AstView,
    pub exports: Seq<Seq<char>>,
}

impl View for ToProcessItem {
    type V = ToProcessItemView;

    open spec fn view(&self) -> ToProcessItemView {
        ToProcessItemView {
            number_of_scan: self.number_of_scan,
            ast: self.ast@,
            exports: strings_view(self.exports@),
        }
    }
}

/// The items of one document as pure values.
pub open spec fn items_view(v: Seq<ToProcessItem>) -> Seq<ToProcessItemView> {
    v.map_values(|x: ToProcessItem| x@)
}

/// A stack entry as pure values: the document and its items.
pub open spec fn entry_view(e: (String, Vec<ToProcessItem>)) -> (Seq<char>, Seq<ToProcessItemView>) {
    (e.0@, items_view(e.1@))
}

/// The stack of items to process as pure values.
pub open spec fn stack_view(s: Seq<(String, Vec<ToProcessItem>)>) -> Seq<(Seq<char>, Seq<ToProcessItemView>)> {
    s.map_values(|e: (String, Vec<ToProcessItem>)| entry_view(e))
}

/// The stack without the entries at its top that hold no item.
pub open spec fn drop_empty_tail(s: Seq<(Seq<char>, Seq<ToProcessItemView>)>) -> Seq<(Seq<char>, Seq<ToProcessItemView>)>
    decreases s.len(),
{
    if s.len() == 0 {
        s
    } else if s.last().1.len() == 0 {
        drop_empty_tail(s.drop_last())
    } else {
        s
    }
}

/// The items with the scan count of the first one raised by one.
pub open spec fn bump_first(items: Seq<ToProcessItemView>) -> Seq<ToProcessItemView> {
    if items.len() == 0 {
        items
    } else {
        items.update(
            0,
            ToProcessItemView {
                number_of_scan: (items[0].number_of_scan + 1) as usize,
                ..items[0]
            },
        )
    }
}

/// The stack with the first item of its top entry scanned once more.
pub open spec fn bump_stack(s: Seq<(Seq<char>, Seq<ToProcessItemView>)>) -> Seq<(Seq<char>, Seq<ToProcessItemView>)> {
    if s.len() == 0 {
        s
    } else {
        s.update(s.len() - 1, (s.last().0, bump_first(s.last().1)))
    }
}

/// The first item of the top entry can be scanned once more without overflow.
pub open spec fn scan_count_fits(s: Seq<(Seq<char>, Seq<ToProcessItemView>)>) -> bool {
    s.len() > 0 && s.last().1.len() > 0 ==> s.last().1[0].number_of_scan < usize::MAX
}

// ---------------------------------------------------------------- states

/// The document that interpreting produced.
#[derive(Debug, PartialEq, Eq)]
pub struct Document {
    pub data: indexmap::IndexMap<String, Thing>,
    pub name: String,
    pub tree: Vec<Component>,
    pub aliases: NameMap<String>,
    pub js: NameMap<()>,
    pub css: NameMap<()>,
}

/// The state of an interpreter.
#[derive(Debug, PartialEq, Eq)]
pub struct InterpreterState {
    pub id: String,
    pub bag: indexmap::IndexMap<String, Thing>,
    pub js: NameMap<()>,
    pub css: NameMap<()>,
    pub to_process: ToProcess,
    pub pending_imports: PendingImports,
    pub parsed_libs: NameMap<ParsedDocument>,
    pub instructions: Vec<Component>,
}

/// A view of one document of an interpreter: its name, aliases and the things known.
pub struct TDoc<'a> {
    pub name: &'a str,
    pub aliases: &'a NameMap<String>,
    pub bag: &'a indexmap::IndexMap<String, Thing>,
}

/// Where an interpreter stopped, or the document it finished with.
#[derive(Debug)]
pub enum Interpreter {
    StuckOnImport { module: String, state: InterpreterState, caller_module: String },
    Done { document: Document },
    StuckOnProcessor {
        state: InterpreterState,
        ast: AST,
        module: String,
        processor: String,
        caller_module: String,
    },
    StuckOnForeignVariable {
        state: InterpreterState,
        module: String,
        variable: String,
        caller_module: String,
    },
}

/// Where an interpreter stopped, without its state.
#[derive(Debug)]
pub enum InterpreterWithoutState {
    StuckOnImport { module: String, caller_module: String },
    Done { document: Document },
    StuckOnProcessor { ast: AST, module: String, processor: String, caller_module: String },
    StuckOnForeignVariable { module: String, variable: String, caller_module: String },
}

/// A thing, a stop, or the word to go on.
#[derive(Debug)]
pub enum StateWithThing<T> {
    Thing(T),
    State(InterpreterWithoutState),
    Continue,
}

impl InterpreterWithoutState {
    /// The same stop, holding `state`.
    pub fn into_interpreter(self, state: InterpreterState) -> (r: Interpreter)
        ensures
            self matches InterpreterWithoutState::StuckOnImport { module, caller_module }
                ==> r == (Interpreter::StuckOnImport { module, state, caller_module }),
            self matches InterpreterWithoutState::Done { document } ==> r == (
            Interpreter::Done { document }),
            self matches InterpreterWithoutState::StuckOnProcessor {
                ast,
                module,
                processor,
                caller_module,
            } ==> r == (Interpreter::StuckOnProcessor {
                state,
                ast,
                module,
                processor,
                caller_module,
            }),
            self matches InterpreterWithoutState::StuckOnForeignVariable {
                module,
                variable,
                caller_module,
            } ==> r == (Interpreter::StuckOnForeignVariable {
                state,
                module,
                variable,
                caller_module,
            }),
    {
        match self {
            InterpreterWithoutState::StuckOnImport { module, caller_module } => {
                Interpreter::StuckOnImport { module, state, caller_module }
            },
            InterpreterWithoutState::Done { document } => Interpreter::Done { document },
            InterpreterWithoutState::StuckOnProcessor { ast, module, processor, caller_module } => {
                Interpreter::StuckOnProcessor { ast, module, state, processor, caller_module }
            },
            InterpreterWithoutState::StuckOnForeignVariable { module, variable, caller_module } => {
                Interpreter::StuckOnForeignVariable { variable, module, state, caller_module }
            },
        }
    }
}

impl<T> StateWithThing<T> {
    /// A thing.
    pub fn new_thing(thing: T) -> (r: StateWithThing<T>)
        ensures
            r == StateWithThing::Thing(thing),
    {
        StateWithThing::Thing(thing)
    }

    /// A stop.
    pub fn new_state(state: InterpreterWithoutState) -> (r: StateWithThing<T>)
        ensures
            r == StateWithThing::<T>::State(state),
    {
        StateWithThing::State(state)
    }

    /// Whether this is the word to go on.
    pub fn is_continue(&self) -> (r: bool)
        ensures
            r == (self is Continue),
    {
        matches!(self, StateWithThing::Continue)
    }

    /// Whether this is a thing.
    pub fn is_thing(&self) -> (r: bool)
        ensures
            r == (self is Thing),
    {
        matches!(self, StateWithThing::Thing(_))
    }

    /// The word to go on.
    pub fn new_continue() -> (r: StateWithThing<T>)
        ensures
            r == StateWithThing::<T>::Continue,
    {
        StateWithThing::Continue
    }

    /// `f` applied to the thing; a stop or the word to go on stays as it is.
    pub fn map<U, F: FnOnce(T) -> U>(self, f: F) -> (r: StateWithThing<U>)
        requires
            self matches StateWithThing::Thing(t) ==> f.requires((t,)),
        ensures
            self matches StateWithThing::Thing(t) ==> (r matches StateWithThing::Thing(u)
                && f.ensures((t,), u)),
            self matches StateWithThing::State(s) ==> r == StateWithThing::<U>::State(s),
            self is Continue ==> r is Continue,
    {
        match self {
            StateWithThing::Thing(t) => StateWithThing::new_thing(f(t)),
            StateWithThing::State(s) => StateWithThing::State(s),
            StateWithThing::Continue => StateWithThing::Continue,
        }
    }

    /// The thing, if this is one.
    pub fn into_optional(self) -> (r: Option<T>)
        ensures
            self matches StateWithThing::Thing(t) ==> r == Some(t),
            !(self is Thing) ==> r is None,
    {
        match self {
            StateWithThing::State(_) | StateWithThing::Continue => None,
            StateWithThing::Thing(t) => Some(t),
        }
    }
}

/// The message of a missing document.
pub open spec fn cannot_find_msg(doc_name: Seq<char>) -> Seq<char> {
    "Cannot find this document: `"@ + doc_name + "`"@
}

impl InterpreterState {
    /// The view of the document `doc_name`; a `ParseError` at `line_number` when the
    /// interpreter has not parsed it.
    pub fn tdoc<'a>(&'a self, doc_name: &'a str, line_number: usize) -> (r: Result<TDoc<'a>, Error>)
        ensures
            self.parsed_libs@.contains_key(doc_name@) <==> r is Ok,
            r matches Ok(d) ==> d.name@ == self.parsed_libs@[doc_name@].name@ && *d.aliases
                == self.parsed_libs@[doc_name@].doc_aliases && *d.bag == self.bag,
            r matches Err(e) ==> e == (Error::ParseError {
                message: e->ParseError_message,
                doc_id: e->ParseError_doc_id,
                line_number,
            }) && e->ParseError_message@ == cannot_find_msg(doc_name@) && e->ParseError_doc_id@
                == doc_name@,
    {
        match self.parsed_libs.get(doc_name) {
            Some(parsed_document) => Ok(
                TDoc {
                    name: parsed_document.name.as_str(),
                    aliases: &parsed_document.doc_aliases,
                    bag: &self.bag,
                },
            ),
            None => Err(
                Error::ParseError {
                    message: concat3("Cannot find this document: `", doc_name, "`"),
                    doc_id: owned(doc_name),
                    line_number,
                },
            ),
        }
    }

    /// The document of the top entry of the stack of items to process.
    pub fn get_current_processing_module(&self) -> (r: Option<String>)
        ensures
            self.to_process.stack@.len() == 0 <==> r is None,
            r matches Some(m) ==> m@ == self.to_process.stack@.last().0@,
    {
        let n = self.to_process.stack.len();
        if n == 0 {
            None
        } else {
            Some(self.to_process.stack[n - 1].0.clone())
        }
    }

    /// Scans the first item of the top entry once more.
    pub fn increase_scan_count(&mut self)
        requires
            scan_count_fits(stack_view(old(self).to_process.stack@)),
        ensures
            stack_view(final(self).to_process.stack@) == bump_stack(
                stack_view(old(self).to_process.stack@),
            ),
            final(self).to_process.contains == old(self).to_process.contains,
            final(self).id == old(self).id,
            final(self).bag == old(self).bag,
            final(self).js == old(self).js,
            final(self).css == old(self).css,
            final(self).pending_imports == old(self).pending_imports,
            final(self).parsed_libs == old(self).parsed_libs,
            final(self).instructions == old(self).instructions,
    {
        let ghost s0 = stack_view(self.to_process.stack@);
        match self.to_process.stack.pop() {
            Some(entry) => {
                let (doc_name, mut items) = entry;
                if items.len() > 0 {
                    let ghost items0 = items@;
                    let mut first = items.remove(0);
                    first.number_of_scan = first.number_of_scan + 1;
                    items.insert(0, first);
                    assert(items_view(items@) =~= bump_first(items_view(items0)));
                } else {
                    assert(items_view(items@) =~= bump_first(items_view(items@)));
                }
                self.to_process.stack.push((doc_name, items));
                assert(stack_view(self.to_process.stack@) =~= bump_stack(s0));
            },
            None => {
                assert(stack_view(self.to_process.stack@) =~= bump_stack(s0));
            },
        }
    }

    /// The document, scan count and item at the front of the top entry, if it has one.
    pub fn peek_stack(&self) -> (r: Option<(String, usize, &AST)>)
        ensures
            r is Some <==> self.to_process.stack@.len() > 0
                && self.to_process.stack@.last().1@.len() > 0,
            r matches Some(t) ==> t.0@ == self.to_process.stack@.last().0@ && t.1
                == self.to_process.stack@.last().1@[0].number_of_scan && *t.2
                == self.to_process.stack@.last().1@[0].ast,
    {
        let n = self.to_process.stack.len();
        if n > 0 {
            let entry = &self.to_process.stack[n - 1];
            if entry.1.len() > 0 {
                let item = &entry.1[0];
                return Some((entry.0.clone(), item.number_of_scan, &item.ast));
            }
        }
        None
    }

    /// Drops the entries at the top of the stack that hold no item, then gives the
    /// document, scan count, item and exports at the front of the top entry; `None`
    /// when the stack is then empty.
    pub fn get_next_ast(&mut self) -> (r: Option<(String, usize, AST, Vec<String>)>)
        ensures
            stack_view(final(self).to_process.stack@) == drop_empty_tail(
                stack_view(old(self).to_process.stack@),
            ),
            final(self).to_process.stack@.len() == 0 <==> r is None,
            r matches Some(t) ==> ({
                let top = stack_view(final(self).to_process.stack@).last();
                &&& t.0@ == top.0
                &&& t.1 == top.1[0].number_of_scan
                &&& t.2@ == top.1[0].ast
                &&& strings_view(t.3@) == top.1[0].exports
            }),
            final(self).to_process.contains == old(self).to_process.contains,
            final(self).id == old(self).id,
            final(self).bag == old(self).bag,
            final(self).js == old(self).js,
            final(self).css == old(self).css,
            final(self).pending_imports == old(self).pending_imports,
            final(self).parsed_libs == old(self).parsed_libs,
            final(self).instructions == old(self).instructions,
    {
        loop
            invariant
                drop_empty_tail(stack_view(self.to_process.stack@)) == drop_empty_tail(
                    stack_view(old(self).to_process.stack@),
                ),
                self.to_process.contains == old(self).to_process.contains,
                self.id == old(self).id,
                self.bag == old(self).bag,
                self.js == old(self).js,
                self.css == old(self).css,
                self.pending_imports == old(self).pending_imports,
                self.parsed_libs == old(self).parsed_libs,
                self.instructions == old(self).instructions,
            decreases self.to_process.stack@.len(),
        {
            let ghost s0 = stack_view(self.to_process.stack@);
            let n = self.to_process.stack.len();
            if n > 0 {
                let entry = &self.to_process.stack[n - 1];
                if entry.1.len() > 0 {
                    let item = &entry.1[0];
                    assert(s0.last() == entry_view(*entry));
                    let r = (entry.0.clone(), item.number_of_scan, item.ast.copy(), copy_strings(&item.exports));
                    return Some(r);
                }
            }
            if n > 0 && self.to_process.stack[n - 1].1.len() == 0 {
                self.to_process.stack.pop();
                assert(stack_view(self.to_process.stack@) =~= s0.drop_last());
            }
            if self.to_process.stack.len() == 0 {
                assert(stack_view(self.to_process.stack@) =~= drop_empty_tail(
                    stack_view(self.to_process.stack@),
                ));
                return None;
            }
        }
    }
}

/// The (document, `doc#thing`) pair that processing the item `ast` of the stack entry
/// of `entry_doc` stands for, given that document's parsed form `doc`.
pub open spec fn processed_pair(ast: AstView, entry_doc: Seq<char>, doc: ParsedDocument) -> (Seq<char>, Seq<char>) {
    let full = resolve_name_spec(ast_name(ast), doc.name@, text_map(doc.doc_aliases@));
    let (d, t, _) = doc_thing_remaining_spec(full, entry_doc);
    (doc.name@, d + "#"@ + t)
}

/// The name in an item's view.
pub open spec fn ast_name(a: AstView) -> Seq<char> {
    match a {
        AstView::Import(i) => i.alias,
        AstView::Item { name, .. } => name,
    }
}

/// The stack once the front item of its top entry is done with: the item leaves, and
/// the entry leaves when it holds no more items.
pub open spec fn stack_after_remove(s: Seq<(Seq<char>, Seq<ToProcessItemView>)>) -> Seq<(Seq<char>, Seq<ToProcessItemView>)> {
    if s.len() == 0 {
        s
    } else if s.last().1.len() <= 1 {
        s.drop_last()
    } else {
        s.update(s.len() - 1, (s.last().0, s.last().1.drop_first()))
    }
}

impl InterpreterState {
    /// Done with the front item of the top entry: it leaves the stack, its (document,
    /// thing) pair leaves the set of pairs on the stack, and the entry leaves the stack
    /// when it holds no more items.
    pub fn remove_last(&mut self)
        requires
            old(self).to_process.stack@.len() > 0 && old(self).to_process.stack@.last().1@.len()
                > 0 ==> old(self).parsed_libs@.contains_key(old(self).to_process.stack@.last().0@),
        ensures
            stack_view(final(self).to_process.stack@) == stack_after_remove(
                stack_view(old(self).to_process.stack@),
            ),
            old(self).to_process.stack@.len() > 0 && old(self).to_process.stack@.last().1@.len()
                > 0 ==> final(self).to_process.contains@ == old(self).to_process.contains@.remove(
                processed_pair(
                    old(self).to_process.stack@.last().1@[0].ast@,
                    old(self).to_process.stack@.last().0@,
                    old(self).parsed_libs@[old(self).to_process.stack@.last().0@],
                ),
            ),
            !(old(self).to_process.stack@.len() > 0 && old(self).to_process.stack@.last().1@.len()
                > 0) ==> final(self).to_process.contains == old(self).to_process.contains,
            final(self).id == old(self).id,
            final(self).bag == old(self).bag,
            final(self).js == old(self).js,
            final(self).css == old(self).css,
            final(self).pending_imports == old(self).pending_imports,
            final(self).parsed_libs == old(self).parsed_libs,
            final(self).instructions == old(self).instructions,
    {
        let ghost s0 = stack_view(self.to_process.stack@);
        match self.to_process.stack.pop() {
            Some(entry) => {
                let (doc_name, mut asts) = entry;
                let ghost items0 = asts@;
                if asts.len() > 0 {
                    let item = asts.remove(0);
                    let ast = item.ast;
                    match self.parsed_libs.get(doc_name.as_str()) {
                        Some(document) => {
                            let n = ast.name();
                            let full = resolve_name(n.as_str(), document.name.as_str(), &document.doc_aliases);
                            let (d, t, _remaining) = get_doc_name_and_thing_name_and_remaining(
                                full.as_str(),
                                doc_name.as_str(),
                                ast.line_number(),
                            );
                            let key = concat3(d.as_str(), "#", t.as_str());
                            self.to_process.contains.remove(document.name.as_str(), key.as_str());
                        },
                        None => {},
                    }
                }
                if asts.len() > 0 {
                    self.to_process.stack.push((doc_name, asts));
                    assert(stack_view(self.to_process.stack@) =~= stack_after_remove(s0)) by {
                        assert(items_view(asts@) =~= items_view(items0).drop_first());
                    }
                } else {
                    assert(stack_view(self.to_process.stack@) =~= stack_after_remove(s0));
                }
            },
            None => {
                assert(stack_view(self.to_process.stack@) =~= stack_after_remove(s0));
            },
        }
    }
}

/// The components of `tree` named `component_name`, in order.
pub open spec fn instructions_named(tree: Seq<Component>, component_name: Seq<char>) -> Seq<Component> {
    tree.filter(|c: Component| c.name@ == component_name)
}

impl Document {
    /// The view of the document, for looking things up.
    pub fn tdoc(&self) -> (r: TDoc)
        ensures
            r.name@ == self.name@,
            *r.aliases == self.aliases,
            *r.bag == self.data,
    {
        TDoc { name: self.name.as_str(), aliases: &self.aliases, bag: &self.data }
    }

    /// The components of the tree named `component_name`, in order.
    pub fn get_instructions(&self, component_name: &str) -> (r: Vec<Component>)
        ensures
            r@ == instructions_named(self.tree@, component_name@),
    {
        let mut out: Vec<Component> = Vec::new();
        let n = self.tree.len();
        for i in 0..n
            invariant
                n == self.tree@.len(),
                out@ == instructions_named(self.tree@.take(i as int), component_name@),
        {
            assert(self.tree@.take(i + 1) =~= self.tree@.take(i as int).push(self.tree@[i as int]));
            if crate::text::str_eq(self.tree[i].name.as_str(), component_name) {
                out.push(Component { name: self.tree[i].name.clone(), line_number: self.tree[i].line_number });
            }
        }
        assert(self.tree@.take(n as int) =~= self.tree@);
        out
    }
}

} // verus!

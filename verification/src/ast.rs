//! The abstract syntax of an FTD document: imports and definitions, each with the
//! name it defines and the line it stands on.
use vstd::prelude::*;

verus! {

broadcast use vstd::seq_lib::group_seq_properties;

/// The text of a list of strings.
pub open spec fn strings_view(v: Seq<String>) -> Seq<Seq<char>> {
    v.map_values(|s: String| s@)
}

/// A copy of a list of strings.
pub fn copy_strings(v: &Vec<String>) -> (r: Vec<String>)
    ensures
        r@ == v@,
{
    let mut r: Vec<String> = Vec::new();
    let n = v.len();
    for i in 0..n
        invariant
            n == v@.len(),
            r@ == v@.take(i as int),
    {
        r.push(v[i].clone());
        assert(r@ =~= v@.take(i + 1));
    }
    assert(v@.take(n as int) =~= v@);
    r
}

/// What an import makes available to other documents.
#[derive(Debug, Clone, PartialEq, Eq)]
pub enum Export {
    All,
    Things(Vec<String>),
}

/// What an import makes available unqualified.
#[derive(Debug, Clone, PartialEq, Eq)]
pub enum Exposing {
    All,
    Things(Vec<String>),
}

/// `-- import: module as alias`, with what it exports and exposes.
#[derive(Debug, Clone, PartialEq, Eq)]
pub struct Import {
    pub module: String,
    pub alias: String,
    pub exports: Option<Export>,
    pub exposing: Option<Exposing>,
    pub line_number: usize,
}

/// A named definition or invocation and the line it stands on.
#[derive(Debug, Clone, PartialEq, Eq)]
pub struct Definition {
    pub name: String,
    pub line_number: usize,
}

/// One top-level item of an FTD document.
#[derive(Debug, Clone, PartialEq, Eq)]
pub enum AST {
    Import(Import),
    Record(Definition),
    OrType(Definition),
    VariableDefinition(Definition),
    VariableInvocation(Definition),
    ComponentDefinition(Definition),
    WebComponentDefinition(Definition),
    FunctionDefinition(Definition),
    ComponentInvocation(Definition),
}

/// What an export or exposing lists, as text.
pub enum ListView {
    All,
    Things(Seq<Seq<char>>),
}

/// An import as pure values.
pub struct ImportView {
    pub module: Seq<char>,
    pub alias: Seq<char>,
    pub exports: Option<ListView>,
    pub exposing: Option<ListView>,
    pub line_number: usize,
}

/// The kinds of item other than imports.
#[derive(Clone, Copy, Debug, PartialEq, Eq)]
pub enum ItemKind {
    Record,
    OrType,
    VariableDefinition,
    VariableInvocation,
    ComponentDefinition,
    WebComponentDefinition,
    FunctionDefinition,
    ComponentInvocation,
}

/// An item as pure values.
pub enum AstView {
    Import(ImportView),
    Item { kind: ItemKind, name: Seq<char>, line_number: usize },
}

impl View for Export {
    type V = ListView;

    open spec fn view(&self) -> ListView {
        match self {
            Export::All => ListView::All,
            Export::Things(v) => ListView::Things(strings_view(v@)),
        }
    }
}

impl View for Exposing {
    type V = ListView;

    open spec fn view(&self) -> ListView {
        match self {
            Exposing::All => ListView::All,
            Exposing::Things(v) => ListView::Things(strings_view(v@)),
        }
    }
}

/// The view of an optional export or exposing list.
pub open spec fn opt_list_view<T: View<V = ListView>>(o: Option<T>) -> Option<ListView> {
    match o {
        Some(x) => Some(x@),
        None => None,
    }
}

impl View for Import {
    type V = ImportView;

    open spec fn view(&self) -> ImportView {
        ImportView {
            module: self.module@,
            alias: self.alias@,
            exports: opt_list_view(self.exports),
            exposing: opt_list_view(self.exposing),
            line_number: self.line_number,
        }
    }
}

/// An item other than an import, as pure values.
pub open spec fn item_view(kind: ItemKind, d: Definition) -> AstView {
    AstView::Item { kind, name: d.name@, line_number: d.line_number }
}

impl View for AST {
    type V = AstView;

    open spec fn view(&self) -> AstView {
        match self {
            AST::Import(i) => AstView::Import(i@),
            AST::Record(d) => item_view(ItemKind::Record, *d),
            AST::OrType(d) => item_view(ItemKind::OrType, *d),
            AST::VariableDefinition(d) => item_view(ItemKind::VariableDefinition, *d),
            AST::VariableInvocation(d) => item_view(ItemKind::VariableInvocation, *d),
            AST::ComponentDefinition(d) => item_view(ItemKind::ComponentDefinition, *d),
            AST::WebComponentDefinition(d) => item_view(ItemKind::WebComponentDefinition, *d),
            AST::FunctionDefinition(d) => item_view(ItemKind::FunctionDefinition, *d),
            AST::ComponentInvocation(d) => item_view(ItemKind::ComponentInvocation, *d),
        }
    }
}

impl Export {
    /// A copy of the list.
    pub fn copy(&self) -> (r: Export)
        ensures
            r@ == self@,
    {
        match self {
            Export::All => Export::All,
            Export::Things(v) => Export::Things(copy_strings(v)),
        }
    }
}

impl Exposing {
    /// A copy of the list.
    pub fn copy(&self) -> (r: Exposing)
        ensures
            r@ == self@,
    {
        match self {
            Exposing::All => Exposing::All,
            Exposing::Things(v) => Exposing::Things(copy_strings(v)),
        }
    }
}

impl Import {
    /// A copy of the import.
    pub fn copy(&self) -> (r: Import)
        ensures
            r@ == self@,
    {
        Import {
            module: self.module.clone(),
            alias: self.alias.clone(),
            exports: match &self.exports {
                Some(e) => Some(e.copy()),
                None => None,
            },
            exposing: match &self.exposing {
                Some(e) => Some(e.copy()),
                None => None,
            },
            line_number: self.line_number,
        }
    }
}

impl AST {
    /// The name an item defines or uses: an import's alias, else the definition's name.
    pub open spec fn spec_name(&self) -> String {
        match self {
            AST::Import(i) => i.alias,
            AST::Record(d) => d.name,
            AST::OrType(d) => d.name,
            AST::VariableDefinition(d) => d.name,
            AST::VariableInvocation(d) => d.name,
            AST::ComponentDefinition(d) => d.name,
            AST::WebComponentDefinition(d) => d.name,
            AST::FunctionDefinition(d) => d.name,
            AST::ComponentInvocation(d) => d.name,
        }
    }

    /// The line the item stands on.
    pub open spec fn spec_line_number(&self) -> usize {
        match self {
            AST::Import(i) => i.line_number,
            AST::Record(d) => d.line_number,
            AST::OrType(d) => d.line_number,
            AST::VariableDefinition(d) => d.line_number,
            AST::VariableInvocation(d) => d.line_number,
            AST::ComponentDefinition(d) => d.line_number,
            AST::WebComponentDefinition(d) => d.line_number,
            AST::FunctionDefinition(d) => d.line_number,
            AST::ComponentInvocation(d) => d.line_number,
        }
    }

    /// The name an item defines or uses.
    pub fn name(&self) -> (r: String)
        ensures
            r == self.spec_name(),
    {
        match self {
            AST::Import(i) => i.alias.clone(),
            AST::Record(d) => d.name.clone(),
            AST::OrType(d) => d.name.clone(),
            AST::VariableDefinition(d) => d.name.clone(),
            AST::VariableInvocation(d) => d.name.clone(),
            AST::ComponentDefinition(d) => d.name.clone(),
            AST::WebComponentDefinition(d) => d.name.clone(),
            AST::FunctionDefinition(d) => d.name.clone(),
            AST::ComponentInvocation(d) => d.name.clone(),
        }
    }

    /// The line the item stands on.
    pub fn line_number(&self) -> (r: usize)
        ensures
            r == self.spec_line_number(),
    {
        match self {
            AST::Import(i) => i.line_number,
            AST::Record(d) => d.line_number,
            AST::OrType(d) => d.line_number,
            AST::VariableDefinition(d) => d.line_number,
            AST::VariableInvocation(d) => d.line_number,
            AST::ComponentDefinition(d) => d.line_number,
            AST::WebComponentDefinition(d) => d.line_number,
            AST::FunctionDefinition(d) => d.line_number,
            AST::ComponentInvocation(d) => d.line_number,
        }
    }

    /// Whether the item is an import.
    pub fn is_import(&self) -> (r: bool)
        ensures
            r == (self is Import),
    {
        matches!(self, AST::Import(_))
    }

    /// Whether the item invokes a component.
    pub fn is_component(&self) -> (r: bool)
        ensures
            r == (self is ComponentInvocation),
    {
        matches!(self, AST::ComponentInvocation(_))
    }

    /// A copy of the item.
    pub fn copy(&self) -> (r: AST)
        ensures
            r@ == self@,
            r.spec_name()@ == self.spec_name()@,
            r.spec_line_number() == self.spec_line_number(),
    {
        match self {
            AST::Import(i) => AST::Import(i.copy()),
            AST::Record(d) => AST::Record(d.copy()),
            AST::OrType(d) => AST::OrType(d.copy()),
            AST::VariableDefinition(d) => AST::VariableDefinition(d.copy()),
            AST::VariableInvocation(d) => AST::VariableInvocation(d.copy()),
            AST::ComponentDefinition(d) => AST::ComponentDefinition(d.copy()),
            AST::WebComponentDefinition(d) => AST::WebComponentDefinition(d.copy()),
            AST::FunctionDefinition(d) => AST::FunctionDefinition(d.copy()),
            AST::ComponentInvocation(d) => AST::ComponentInvocation(d.copy()),
        }
    }
}

impl Definition {
    /// A copy of the definition.
    pub fn copy(&self) -> (r: Definition)
        ensures
            r == *self,
    {
        Definition { name: self.name.clone(), line_number: self.line_number }
    }
}

} // verus!

//! A parsed FTD document: its items, and the aliases, re-exports and exposings that
//! its imports declare.
use vstd::prelude::*;
use crate::ast::{strings_view, AstView, Export, Exposing, ListView, AST};
use crate::names::{lemma_text_map_insert, text_map, with_key, NameMap};

verus! {

broadcast use vstd::seq_lib::group_seq_properties;

/// The text of a list of items.
pub open spec fn asts_view(v: Seq<AST>) -> Seq<AstView> {
    v.map_values(|a: AST| a@)
}

/// `m` with each of `things` mapped to `module`, in order.
pub open spec fn insert_things(
    m: Map<Seq<char>, Seq<char>>,
    things: Seq<Seq<char>>,
    module: Seq<char>,
) -> Map<Seq<char>, Seq<char>>
    decreases things.len(),
{
    if things.len() == 0 {
        m
    } else {
        insert_things(m, things.drop_last(), module).insert(things.last(), module)
    }
}

/// `order` with each of `things` added, in order, where not already there.
pub open spec fn with_keys(order: Seq<Seq<char>>, things: Seq<Seq<char>>) -> Seq<Seq<char>>
    decreases things.len(),
{
    if things.len() == 0 {
        order
    } else {
        with_key(with_keys(order, things.drop_last()), things.last())
    }
}

/// The order of a document's aliases: `ftd`, `inherited`, then each new alias of an
/// import in turn.
pub open spec fn doc_alias_order(asts: Seq<AstView>) -> Seq<Seq<char>>
    decreases asts.len(),
{
    if asts.len() == 0 {
        seq!["ftd"@, "inherited"@]
    } else {
        let o = doc_alias_order(asts.drop_last());
        match asts.last() {
            AstView::Import(i) => with_key(o, i.alias),
            _ => o,
        }
    }
}

/// The order of the things that imports re-export by name.
pub open spec fn module_things_order(asts: Seq<AstView>) -> Seq<Seq<char>>
    decreases asts.len(),
{
    if asts.len() == 0 {
        Seq::empty()
    } else {
        let o = module_things_order(asts.drop_last());
        match asts.last() {
            AstView::Import(i) => match i.exports {
                Some(ListView::Things(t)) => with_keys(o, t),
                _ => o,
            },
            _ => o,
        }
    }
}

/// The order of the things that imports expose by name.
pub open spec fn exposings_order(asts: Seq<AstView>) -> Seq<Seq<char>>
    decreases asts.len(),
{
    if asts.len() == 0 {
        Seq::empty()
    } else {
        let o = exposings_order(asts.drop_last());
        match asts.last() {
            AstView::Import(i) => match i.exposing {
                Some(ListView::Things(t)) => with_keys(o, t),
                _ => o,
            },
            _ => o,
        }
    }
}

/// The aliases every document starts with: `ftd` and `inherited`, each its own module.
pub open spec fn default_aliases_spec() -> Map<Seq<char>, Seq<char>> {
    map!["ftd"@ => "ftd"@, "inherited"@ => "inherited"@]
}

/// The aliases of a document: the default ones, then each import's alias for its module.
pub open spec fn doc_aliases_of(asts: Seq<AstView>) -> Map<Seq<char>, Seq<char>>
    decreases asts.len(),
{
    if asts.len() == 0 {
        default_aliases_spec()
    } else {
        let m = doc_aliases_of(asts.drop_last());
        match asts.last() {
            AstView::Import(i) => m.insert(i.alias, i.module),
            _ => m,
        }
    }
}

/// The things that imports re-export by name, each mapped to its module.
pub open spec fn module_things_of(asts: Seq<AstView>) -> Map<Seq<char>, Seq<char>>
    decreases asts.len(),
{
    if asts.len() == 0 {
        Map::empty()
    } else {
        let m = module_things_of(asts.drop_last());
        match asts.last() {
            AstView::Import(i) => match i.exports {
                Some(ListView::Things(t)) => insert_things(m, t, i.module),
                _ => m,
            },
            _ => m,
        }
    }
}

/// The modules that imports re-export whole, in order.
pub open spec fn all_things_of(asts: Seq<AstView>) -> Seq<Seq<char>>
    decreases asts.len(),
{
    if asts.len() == 0 {
        Seq::empty()
    } else {
        let s = all_things_of(asts.drop_last());
        match asts.last() {
            AstView::Import(i) => match i.exports {
                Some(ListView::All) => s.push(i.module),
                _ => s,
            },
            _ => s,
        }
    }
}

/// The things that imports expose by name, each mapped to its module.
pub open spec fn exposings_of(asts: Seq<AstView>) -> Map<Seq<char>, Seq<char>>
    decreases asts.len(),
{
    if asts.len() == 0 {
        Map::empty()
    } else {
        let m = exposings_of(asts.drop_last());
        match asts.last() {
            AstView::Import(i) => match i.exposing {
                Some(ListView::Things(t)) => insert_things(m, t, i.module),
                _ => m,
            },
            _ => m,
        }
    }
}

/// What a document's imports re-export: things by name, and whole modules.
#[derive(Debug, PartialEq, Eq)]
pub struct ReExport {
    pub module_things: NameMap<String>,
    pub all_things: Vec<String>,
}

/// A parsed FTD document.
#[derive(Debug, PartialEq, Eq)]
pub struct ParsedDocument {
    pub name: String,
    pub ast: Vec<AST>,
    pub processing_imports: bool,
    pub doc_aliases: NameMap<String>,
    pub re_exports: ReExport,
    pub exposings: NameMap<String>,
    pub foreign_variable: Vec<String>,
    pub foreign_function: Vec<String>,
}

/// The aliases every document starts with.
pub fn default_aliases() -> (r: NameMap<String>)
    ensures
        text_map(r@) == default_aliases_spec(),
        r.key_order() == seq!["ftd"@, "inherited"@],
{
    let mut m: NameMap<String> = NameMap::new();
    let ghost m0 = m@;
    m.insert("ftd".to_owned(), "ftd".to_owned());
    proof {
        lemma_text_map_insert(m0, "ftd"@, m@["ftd"@]);
    }
    let ghost m1 = m@;
    m.insert("inherited".to_owned(), "inherited".to_owned());
    proof {
        lemma_text_map_insert(m1, "inherited"@, m@["inherited"@]);
        assert(text_map(m0) =~= Map::<Seq<char>, Seq<char>>::empty());
        assert(text_map(m@) =~= default_aliases_spec());
        reveal_strlit("ftd");
        reveal_strlit("inherited");
        assert(!seq!["ftd"@].contains("inherited"@)) by {
            assert("ftd"@[0] != "inherited"@[0]);
        }
        assert(m.key_order() =~= seq!["ftd"@, "inherited"@]);
    }
    m
}

/// Maps each of `things` to `module` in `m`, in order.
fn insert_things_exec(m: &mut NameMap<String>, things: &Vec<String>, module: &String)
    ensures
        text_map(final(m)@) == insert_things(text_map(old(m)@), strings_view(things@), module@),
        final(m).key_order() == with_keys(old(m).key_order(), strings_view(things@)),
{
    let n = things.len();
    let ghost start = text_map(m@);
    let ghost start_order = m.key_order();
    for i in 0..n
        invariant
            n == things@.len(),
            text_map(m@) == insert_things(start, strings_view(things@.take(i as int)), module@),
            m.key_order() == with_keys(start_order, strings_view(things@.take(i as int))),
    {
        let ghost before = m@;
        m.insert(things[i].clone(), module.clone());
        proof {
            lemma_text_map_insert(before, things@[i as int]@, m@[things@[i as int]@]);
            assert(strings_view(things@.take(i + 1)).drop_last() =~= strings_view(
                things@.take(i as int),
            ));
        }
    }
    assert(things@.take(n as int) =~= things@);
}

/// `r` is the document `id` made of the items `ast`: its aliases, re-exports and
/// exposings are those its imports declare, in the order they are first declared.
pub open spec fn parsed_ok(r: ParsedDocument, id: Seq<char>, ast: Seq<AST>) -> bool {
    &&& r.name@ == id
    &&& r.ast@ == ast
    &&& r.processing_imports
    &&& text_map(r.doc_aliases@) == doc_aliases_of(asts_view(ast))
    &&& r.doc_aliases.key_order() == doc_alias_order(asts_view(ast))
    &&& text_map(r.re_exports.module_things@) == module_things_of(asts_view(ast))
    &&& r.re_exports.module_things.key_order() == module_things_order(asts_view(ast))
    &&& strings_view(r.re_exports.all_things@) == all_things_of(asts_view(ast))
    &&& text_map(r.exposings@) == exposings_of(asts_view(ast))
    &&& r.exposings.key_order() == exposings_order(asts_view(ast))
    &&& r.foreign_variable@.len() == 0
    &&& r.foreign_function@.len() == 0
}

/// The two documents agree in every part that can be read: name, items, aliases,
/// re-exports, exposings (their entries, values and order) and foreign names.
pub open spec fn same_parsed(a: ParsedDocument, b: ParsedDocument) -> bool {
    &&& a.name@ == b.name@
    &&& a.ast@ == b.ast@
    &&& a.processing_imports == b.processing_imports
    &&& text_map(a.doc_aliases@) == text_map(b.doc_aliases@)
    &&& a.doc_aliases.key_order() == b.doc_aliases.key_order()
    &&& text_map(a.re_exports.module_things@) == text_map(b.re_exports.module_things@)
    &&& a.re_exports.module_things.key_order() == b.re_exports.module_things.key_order()
    &&& strings_view(a.re_exports.all_things@) == strings_view(b.re_exports.all_things@)
    &&& text_map(a.exposings@) == text_map(b.exposings@)
    &&& a.exposings.key_order() == b.exposings.key_order()
    &&& strings_view(a.foreign_variable@) == strings_view(b.foreign_variable@)
    &&& strings_view(a.foreign_function@) == strings_view(b.foreign_function@)
}

impl ParsedDocument {
    /// The document `id` made of the items `ast`, with the aliases, re-exports and
    /// exposings that its imports declare. Parsing of the source text into items is
    /// done before; `line_number` is the line that source started at.
    pub fn parse_with_line_number(id: &str, ast: Vec<AST>, line_number: usize) -> (r:
        ParsedDocument)
        ensures
            parsed_ok(r, id@, ast@),
    {
        let mut doc_aliases = default_aliases();
        let mut module_things: NameMap<String> = NameMap::new();
        let mut all_things: Vec<String> = Vec::new();
        let mut exposings: NameMap<String> = NameMap::new();
        let n = ast.len();
        assert(text_map(module_things@) =~= Map::<Seq<char>, Seq<char>>::empty());
        assert(text_map(exposings@) =~= Map::<Seq<char>, Seq<char>>::empty());
        for i in 0..n
            invariant
                n == ast@.len(),
                text_map(doc_aliases@) == doc_aliases_of(asts_view(ast@.take(i as int))),
                text_map(module_things@) == module_things_of(asts_view(ast@.take(i as int))),
                strings_view(all_things@) == all_things_of(asts_view(ast@.take(i as int))),
                text_map(exposings@) == exposings_of(asts_view(ast@.take(i as int))),
                doc_aliases.key_order() == doc_alias_order(asts_view(ast@.take(i as int))),
                module_things.key_order() == module_things_order(asts_view(ast@.take(i as int))),
                exposings.key_order() == exposings_order(asts_view(ast@.take(i as int))),
        {
            proof {
                assert(asts_view(ast@.take(i + 1)).drop_last() =~= asts_view(ast@.take(i as int)));
                assert(asts_view(ast@.take(i + 1)).last() == ast@[i as int]@);
            }
            match &ast[i] {
                AST::Import(imp) => {
                    let ghost before = doc_aliases@;
                    doc_aliases.insert(imp.alias.clone(), imp.module.clone());
                    proof {
                        lemma_text_map_insert(before, imp.alias@, doc_aliases@[imp.alias@]);
                    }
                    match &imp.exports {
                        Some(Export::All) => {
                            all_things.push(imp.module.clone());
                            assert(strings_view(all_things@) =~= all_things_of(
                                asts_view(ast@.take(i as int)),
                            ).push(imp.module@));
                        },
                        Some(Export::Things(things)) => {
                            insert_things_exec(&mut module_things, things, &imp.module);
                        },
                        None => {},
                    }
                    match &imp.exposing {
                        Some(Exposing::Things(things)) => {
                            insert_things_exec(&mut exposings, things, &imp.module);
                        },
                        _ => {},
                    }
                },
                _ => {},
            }
        }
        assert(ast@.take(n as int) =~= ast@);
        ParsedDocument {
            name: id.to_owned(),
            ast,
            processing_imports: true,
            doc_aliases,
            re_exports: ReExport { module_things, all_things },
            exposings,
            foreign_variable: Vec::new(),
            foreign_function: Vec::new(),
        }
    }

    /// The document `id` made of the items `ast`, as [`Self::parse_with_line_number`]
    /// from line 0.
    pub fn parse(id: &str, ast: Vec<AST>) -> (r: ParsedDocument)
        ensures
            parsed_ok(r, id@, ast@),
    {
        ParsedDocument::parse_with_line_number(id, ast, 0)
    }

    /// A copy of the document's aliases.
    pub fn get_doc_aliases(&self) -> (r: NameMap<String>)
        ensures
            r@ == self.doc_aliases@,
    {
        self.doc_aliases.copy()
    }

    /// Adds names of variables that a caller resolves, after those already there.
    pub fn add_foreign_variable(&mut self, foreign_variable: Vec<String>)
        ensures
            final(self).foreign_variable@ == old(self).foreign_variable@ + foreign_variable@,
            final(self).foreign_function == old(self).foreign_function,
            final(self).name == old(self).name,
            final(self).ast == old(self).ast,
            final(self).doc_aliases == old(self).doc_aliases,
            final(self).re_exports == old(self).re_exports,
            final(self).exposings == old(self).exposings,
            final(self).processing_imports == old(self).processing_imports,
    {
        let mut v = foreign_variable;
        self.foreign_variable.append(&mut v);
    }

    /// Adds names of functions that a caller resolves, after those already there.
    pub fn add_foreign_function(&mut self, foreign_function: Vec<String>)
        ensures
            final(self).foreign_function@ == old(self).foreign_function@ + foreign_function@,
            final(self).foreign_variable == old(self).foreign_variable,
            final(self).name == old(self).name,
            final(self).ast == old(self).ast,
            final(self).doc_aliases == old(self).doc_aliases,
            final(self).re_exports == old(self).re_exports,
            final(self).exposings == old(self).exposings,
            final(self).processing_imports == old(self).processing_imports,
    {
        let mut v = foreign_function;
        self.foreign_function.append(&mut v);
    }
}

} // verus!

//! How the interpreter resolves an import of a thing: it queues the items that define
//! the thing, follows re-exports and exposings to the module that defines it, or stops
//! for the caller to load a module or resolve a foreign variable.
use vstd::prelude::*;
use crate::ast::{copy_strings, strings_view, AST};
use crate::document::ParsedDocument;
use crate::interpreter::{
    bag_contains_key, bag_contents, items_view, stack_view, Error, InterpreterState, InterpreterWithoutState, StateWithThing,
    Thing, ToProcessItem, ToProcessItemView, PendingImportItem,
};
use crate::names::{text_map, NameMap};
use crate::resolve::{
    doc_thing_remaining_spec, get_doc_name_and_thing_name_and_remaining, resolve_name,
    resolve_name_spec,
};
use crate::text::{concat2, concat3, has_prefix, owned, starts_with, str_eq};

verus! {

broadcast use vstd::seq_lib::group_seq_properties, Seq::lemma_filter_push;

// ---------------------------------------------------------------- model

/// An import waited for, as pure values.
pub struct PendingImportItemView {
    pub module: Seq<char>,
    pub thing_name: Seq<char>,
    pub line_number: usize,
    pub caller: Seq<char>,
    pub exports: Seq<Seq<char>>,
}

impl View for PendingImportItem {
    type V = PendingImportItemView;

    open spec fn view(&self) -> PendingImportItemView {
        PendingImportItemView {
            module: self.module@,
            thing_name: self.thing_name@,
            line_number: self.line_number,
            caller: self.caller@,
            exports: strings_view(self.exports@),
        }
    }
}

/// The pending imports as pure values.
pub open spec fn pending_view(s: Seq<PendingImportItem>) -> Seq<PendingImportItemView> {
    s.map_values(|x: PendingImportItem| x@)
}

/// The queues that resolving imports changes, as pure values.
pub struct ImportQueues {
    pub stack: Seq<(Seq<char>, Seq<ToProcessItemView>)>,
    pub contains: Set<(Seq<char>, Seq<char>)>,
    pub pending: Seq<PendingImportItemView>,
    pub pending_contains: Set<(Seq<char>, Seq<char>)>,
}

/// The queues of an interpreter state.
pub open spec fn queues_of(s: InterpreterState) -> ImportQueues {
    ImportQueues {
        stack: stack_view(s.to_process.stack@),
        contains: s.to_process.contains@,
        pending: pending_view(s.pending_imports.stack@),
        pending_contains: s.pending_imports.contains@,
    }
}

/// How resolving an import ends.
pub enum ImportOutcome {
    StuckOnImport { module: Seq<char>, caller_module: Seq<char> },
    StuckOnForeignVariable { module: Seq<char>, variable: Seq<char>, caller_module: Seq<char> },
    Continue,
    NotFound { message: Seq<char>, doc_id: Seq<char>, line_number: usize },
}

/// An item queued for processing, not yet scanned.
pub open spec fn queued(a: AST, exports: Seq<Seq<char>>) -> ToProcessItemView {
    ToProcessItemView { number_of_scan: 0, ast: a@, exports }
}

/// An item, not a component invocation, that defines `thing` or a part `thing.x`.
pub open spec fn defines(thing: Seq<char>) -> spec_fn(AST) -> bool {
    |a: AST| !(a is ComponentInvocation) && (a.spec_name()@ == thing || has_prefix(
        a.spec_name()@,
        thing + "."@,
    ))
}

/// The items of a document that define `thing`, queued with `exports`.
pub open spec fn thing_items(asts: Seq<AST>, thing: Seq<char>, exports: Seq<Seq<char>>) -> Seq<ToProcessItemView> {
    asts.filter(defines(thing)).map_values(|a: AST| queued(a, exports))
}

/// An item, not a component invocation, of the document `id` whose full name is `key`
/// or a part `key.x`.
pub open spec fn defines_full(id: Seq<char>, aliases: Map<Seq<char>, Seq<char>>, key: Seq<char>) -> spec_fn(AST) -> bool {
    |a: AST| !(a is ComponentInvocation) && ({
        let full = resolve_name_spec(a.spec_name()@, id, aliases);
        full == key || has_prefix(full, key + "."@)
    })
}

/// The items of the document `id` that define the full name `key`, queued with `exports`.
pub open spec fn current_items(
    asts: Seq<AST>,
    id: Seq<char>,
    aliases: Map<Seq<char>, Seq<char>>,
    key: Seq<char>,
    exports: Seq<Seq<char>>,
) -> Seq<ToProcessItemView> {
    asts.filter(defines_full(id, aliases, key)).map_values(|a: AST| queued(a, exports))
}

/// The queues once the import on top of the pending stack is resolved.
pub open spec fn finish(q: ImportQueues, doc_name: Seq<char>, key: Seq<char>) -> ImportQueues {
    ImportQueues {
        pending: if q.pending.len() == 0 {
            q.pending
        } else {
            q.pending.drop_last()
        },
        pending_contains: q.pending_contains.remove((doc_name, key)),
        ..q
    }
}

/// `.rest`, or nothing.
pub open spec fn dotted(remaining: Option<Seq<char>>) -> Seq<char> {
    match remaining {
        Some(v) => "."@ + v,
        None => Seq::empty(),
    }
}

/// What resolving `name` of `module`, asked for by `current`, does to the queues, and
/// how it ends; `None` when it does not end within `fuel` steps through re-exports and
/// exposings, or when it needs the document `id` and that is not parsed.
pub open spec fn import_effect(
    pl: Map<Seq<char>, ParsedDocument>,
    id: Seq<char>,
    bag: Map<Seq<char>, Thing>,
    q: ImportQueues,
    module: Seq<char>,
    name: Seq<char>,
    line_number: usize,
    current: Seq<char>,
    exports: Seq<Seq<char>>,
    fuel: nat,
) -> Option<(ImportQueues, ImportOutcome)>
    decreases fuel,
{
    if fuel == 0 {
        None
    } else if !pl.contains_key(module) {
        Some((q, ImportOutcome::StuckOnImport { module, caller_module: current }))
    } else {
        let document = pl[module];
        let (doc_name, thing, remaining) = doc_thing_remaining_spec(name, module);
        let key = doc_name + "#"@ + thing;
        if doc_name != id && !pl.contains_key(id) {
            None
        } else {
            let q1 = if doc_name != id {
                let cur = pl[id];
                let items = current_items(cur.ast@, id, text_map(cur.doc_aliases@), key, exports);
                if items.len() > 0 && !q.contains.contains((id, key)) {
                    ImportQueues {
                        stack: q.stack.push((id, items)),
                        contains: q.contains.insert((id, key)),
                        ..q
                    }
                } else {
                    q
                }
            } else {
                q
            };
            let own = thing_items(document.ast@, thing, exports);
            if own.len() > 0 {
                let q2 = ImportQueues {
                    stack: q1.stack.push((doc_name, own)),
                    contains: q1.contains.insert((doc_name, key)),
                    ..q1
                };
                Some((finish(q2, doc_name, key), ImportOutcome::Continue))
            } else {
                let found_fv = strings_view(document.foreign_variable@).contains(thing);
                let things = text_map(document.re_exports.module_things@);
                let exposed = text_map(document.exposings@);
                if found_fv && !bag.contains_key(name) {
                    Some(
                        (
                            q1,
                            ImportOutcome::StuckOnForeignVariable {
                                module: doc_name,
                                variable: thing + dotted(remaining),
                                caller_module: current,
                            },
                        ),
                    )
                } else if strings_view(document.foreign_function@).contains(thing) {
                    Some((finish(q1, doc_name, key), ImportOutcome::Continue))
                } else if module != current && things.contains_key(thing) {
                    let em = things[thing];
                    import_effect(
                        pl,
                        id,
                        bag,
                        q1,
                        em,
                        em + "#"@ + thing + dotted(remaining),
                        line_number,
                        module,
                        exports.push(name),
                        (fuel - 1) as nat,
                    )
                } else if module == current && exposed.contains_key(thing) {
                    let em = exposed[thing];
                    import_effect(
                        pl,
                        id,
                        bag,
                        q1,
                        em,
                        em + "#"@ + thing + dotted(remaining),
                        line_number,
                        module,
                        exports.push(name),
                        (fuel - 1) as nat,
                    )
                } else if !found_fv {
                    Some(
                        (
                            q1,
                            ImportOutcome::NotFound {
                                message: "`"@ + name + "` not found"@,
                                doc_id: name,
                                line_number,
                            },
                        ),
                    )
                } else {
                    Some((finish(q1, doc_name, key), ImportOutcome::Continue))
                }
            }
        }
    }
}

/// With more steps allowed, a resolution that ended ends the same way.
pub proof fn lemma_import_effect_fuel(
    pl: Map<Seq<char>, ParsedDocument>,
    id: Seq<char>,
    bag: Map<Seq<char>, Thing>,
    q: ImportQueues,
    module: Seq<char>,
    name: Seq<char>,
    line_number: usize,
    current: Seq<char>,
    exports: Seq<Seq<char>>,
    f1: nat,
    f2: nat,
)
    requires
        import_effect(pl, id, bag, q, module, name, line_number, current, exports, f1) is Some,
        f1 <= f2,
    ensures
        import_effect(pl, id, bag, q, module, name, line_number, current, exports, f2)
            == import_effect(pl, id, bag, q, module, name, line_number, current, exports, f1),
    decreases f1,
{
    if f1 > 0 && pl.contains_key(module) {
        let document = pl[module];
        let (doc_name, thing, remaining) = doc_thing_remaining_spec(name, module);
        let key = doc_name + "#"@ + thing;
        if !(doc_name != id && !pl.contains_key(id)) {
            let q1 = if doc_name != id {
                let cur = pl[id];
                let items = current_items(cur.ast@, id, text_map(cur.doc_aliases@), key, exports);
                if items.len() > 0 && !q.contains.contains((id, key)) {
                    ImportQueues {
                        stack: q.stack.push((id, items)),
                        contains: q.contains.insert((id, key)),
                        ..q
                    }
                } else {
                    q
                }
            } else {
                q
            };
            let things = text_map(document.re_exports.module_things@);
            let exposed = text_map(document.exposings@);
            if things.contains_key(thing) {
                let em = things[thing];
                if import_effect(
                    pl,
                    id,
                    bag,
                    q1,
                    em,
                    em + "#"@ + thing + dotted(remaining),
                    line_number,
                    module,
                    exports.push(name),
                    (f1 - 1) as nat,
                ) is Some {
                    lemma_import_effect_fuel(
                        pl,
                        id,
                        bag,
                        q1,
                        em,
                        em + "#"@ + thing + dotted(remaining),
                        line_number,
                        module,
                        exports.push(name),
                        (f1 - 1) as nat,
                        (f2 - 1) as nat,
                    );
                }
            }
            if exposed.contains_key(thing) {
                let em = exposed[thing];
                if import_effect(
                    pl,
                    id,
                    bag,
                    q1,
                    em,
                    em + "#"@ + thing + dotted(remaining),
                    line_number,
                    module,
                    exports.push(name),
                    (f1 - 1) as nat,
                ) is Some {
                    lemma_import_effect_fuel(
                        pl,
                        id,
                        bag,
                        q1,
                        em,
                        em + "#"@ + thing + dotted(remaining),
                        line_number,
                        module,
                        exports.push(name),
                        (f1 - 1) as nat,
                        (f2 - 1) as nat,
                    );
                }
            }
        }
    }
}

/// Resolving `name` of `module` ends within some number of steps.
pub open spec fn import_ends(
    pl: Map<Seq<char>, ParsedDocument>,
    id: Seq<char>,
    bag: Map<Seq<char>, Thing>,
    q: ImportQueues,
    module: Seq<char>,
    name: Seq<char>,
    line_number: usize,
    current: Seq<char>,
    exports: Seq<Seq<char>>,
) -> bool {
    exists|f: nat| import_effect(pl, id, bag, q, module, name, line_number, current, exports, f) is Some
}

/// What resolving `name` of `module` does to the queues, and how it ends.
pub open spec fn import_result(
    pl: Map<Seq<char>, ParsedDocument>,
    id: Seq<char>,
    bag: Map<Seq<char>, Thing>,
    q: ImportQueues,
    module: Seq<char>,
    name: Seq<char>,
    line_number: usize,
    current: Seq<char>,
    exports: Seq<Seq<char>>,
) -> (ImportQueues, ImportOutcome) {
    let f = choose|f: nat| import_effect(pl, id, bag, q, module, name, line_number, current, exports, f) is Some;
    import_effect(pl, id, bag, q, module, name, line_number, current, exports, f)->Some_0
}

/// The result `r` is the outcome `o`.
pub open spec fn outcome_is<T>(r: Result<StateWithThing<T>, Error>, o: ImportOutcome) -> bool {
    match o {
        ImportOutcome::StuckOnImport { module, caller_module } => r matches Ok(
            StateWithThing::State(InterpreterWithoutState::StuckOnImport { module: m, caller_module: c }),
        ) && m@ == module && c@ == caller_module,
        ImportOutcome::StuckOnForeignVariable { module, variable, caller_module } => r matches Ok(
            StateWithThing::State(
                InterpreterWithoutState::StuckOnForeignVariable { module: m, variable: v, caller_module: c },
            ),
        ) && m@ == module && v@ == variable && c@ == caller_module,
        ImportOutcome::Continue => r matches Ok(StateWithThing::Continue),
        ImportOutcome::NotFound { message, doc_id, line_number } => r matches Err(
            Error::ParseError { message: m, doc_id: d, line_number: l },
        ) && m@ == message && d@ == doc_id && l == line_number,
    }
}

/// Every import that resolves to the word to go on takes the top of the pending stack.
pub proof fn lemma_continue_pops(
    pl: Map<Seq<char>, ParsedDocument>,
    id: Seq<char>,
    bag: Map<Seq<char>, Thing>,
    q: ImportQueues,
    module: Seq<char>,
    name: Seq<char>,
    line_number: usize,
    current: Seq<char>,
    exports: Seq<Seq<char>>,
    f: nat,
)
    requires
        import_effect(pl, id, bag, q, module, name, line_number, current, exports, f) matches Some(
            e,
        ) && e.1 is Continue,
    ensures
        ({
            let e = import_effect(pl, id, bag, q, module, name, line_number, current, exports, f)->Some_0;
            e.0.pending == (if q.pending.len() == 0 {
                q.pending
            } else {
                q.pending.drop_last()
            })
        }),
    decreases f,
{
    if f > 0 && pl.contains_key(module) {
        let document = pl[module];
        let (doc_name, thing, remaining) = doc_thing_remaining_spec(name, module);
        let key = doc_name + "#"@ + thing;
        if !(doc_name != id && !pl.contains_key(id)) {
            let q1 = if doc_name != id {
                let cur = pl[id];
                let items = current_items(cur.ast@, id, text_map(cur.doc_aliases@), key, exports);
                if items.len() > 0 && !q.contains.contains((id, key)) {
                    ImportQueues {
                        stack: q.stack.push((id, items)),
                        contains: q.contains.insert((id, key)),
                        ..q
                    }
                } else {
                    q
                }
            } else {
                q
            };
            assert(q1.pending == q.pending);
            let things = text_map(document.re_exports.module_things@);
            let exposed = text_map(document.exposings@);
            if things.contains_key(thing) {
                let em = things[thing];
                if import_effect(
                    pl,
                    id,
                    bag,
                    q1,
                    em,
                    em + "#"@ + thing + dotted(remaining),
                    line_number,
                    module,
                    exports.push(name),
                    (f - 1) as nat,
                ) matches Some(e2) && e2.1 is Continue {
                    lemma_continue_pops(
                        pl,
                        id,
                        bag,
                        q1,
                        em,
                        em + "#"@ + thing + dotted(remaining),
                        line_number,
                        module,
                        exports.push(name),
                        (f - 1) as nat,
                    );
                }
            }
            if exposed.contains_key(thing) {
                let em = exposed[thing];
                if import_effect(
                    pl,
                    id,
                    bag,
                    q1,
                    em,
                    em + "#"@ + thing + dotted(remaining),
                    line_number,
                    module,
                    exports.push(name),
                    (f - 1) as nat,
                ) matches Some(e2) && e2.1 is Continue {
                    lemma_continue_pops(
                        pl,
                        id,
                        bag,
                        q1,
                        em,
                        em + "#"@ + thing + dotted(remaining),
                        line_number,
                        module,
                        exports.push(name),
                        (f - 1) as nat,
                    );
                }
            }
        }
    }
}

/// Whether resolving ends does not depend on the queues.
pub proof fn lemma_import_effect_queues(
    pl: Map<Seq<char>, ParsedDocument>,
    id: Seq<char>,
    bag: Map<Seq<char>, Thing>,
    q: ImportQueues,
    q2: ImportQueues,
    module: Seq<char>,
    name: Seq<char>,
    line_number: usize,
    current: Seq<char>,
    exports: Seq<Seq<char>>,
    f: nat,
)
    ensures
        import_effect(pl, id, bag, q, module, name, line_number, current, exports, f) is Some
            <==> import_effect(pl, id, bag, q2, module, name, line_number, current, exports, f) is Some,
        import_effect(pl, id, bag, q, module, name, line_number, current, exports, f) is Some
            ==> import_effect(pl, id, bag, q, module, name, line_number, current, exports, f)->Some_0.1
            == import_effect(pl, id, bag, q2, module, name, line_number, current, exports, f)->Some_0.1,
    decreases f,
{
    if f > 0 && pl.contains_key(module) {
        let document = pl[module];
        let (doc_name, thing, remaining) = doc_thing_remaining_spec(name, module);
        let key = doc_name + "#"@ + thing;
        if !(doc_name != id && !pl.contains_key(id)) {
            let q1 = if doc_name != id {
                let cur = pl[id];
                let items = current_items(cur.ast@, id, text_map(cur.doc_aliases@), key, exports);
                if items.len() > 0 && !q.contains.contains((id, key)) {
                    ImportQueues {
                        stack: q.stack.push((id, items)),
                        contains: q.contains.insert((id, key)),
                        ..q
                    }
                } else {
                    q
                }
            } else {
                q
            };
            let q21 = if doc_name != id {
                let cur = pl[id];
                let items = current_items(cur.ast@, id, text_map(cur.doc_aliases@), key, exports);
                if items.len() > 0 && !q2.contains.contains((id, key)) {
                    ImportQueues {
                        stack: q2.stack.push((id, items)),
                        contains: q2.contains.insert((id, key)),
                        ..q2
                    }
                } else {
                    q2
                }
            } else {
                q2
            };
            let things = text_map(document.re_exports.module_things@);
            let exposed = text_map(document.exposings@);
            if things.contains_key(thing) {
                let em = things[thing];
                lemma_import_effect_queues(
                    pl,
                    id,
                    bag,
                    q1,
                    q21,
                    em,
                    em + "#"@ + thing + dotted(remaining),
                    line_number,
                    module,
                    exports.push(name),
                    (f - 1) as nat,
                );
            }
            if exposed.contains_key(thing) {
                let em = exposed[thing];
                lemma_import_effect_queues(
                    pl,
                    id,
                    bag,
                    q1,
                    q21,
                    em,
                    em + "#"@ + thing + dotted(remaining),
                    line_number,
                    module,
                    exports.push(name),
                    (f - 1) as nat,
                );
            }
        }
    }
}

/// Every import waited for resolves within some number of steps.
pub open spec fn pending_end(
    pl: Map<Seq<char>, ParsedDocument>,
    id: Seq<char>,
    bag: Map<Seq<char>, Thing>,
    q: ImportQueues,
) -> bool {
    forall|i: int|
        0 <= i < q.pending.len() ==> import_ends(
            pl,
            id,
            bag,
            q,
            #[trigger] q.pending[i].module,
            q.pending[i].thing_name,
            q.pending[i].line_number,
            q.pending[i].caller,
            q.pending[i].exports,
        )
}

/// What resolving the pending imports, from the top, does to the queues, and how it
/// ends: `None` when there was nothing to resolve.
pub open spec fn pending_effect(
    pl: Map<Seq<char>, ParsedDocument>,
    id: Seq<char>,
    bag: Map<Seq<char>, Thing>,
    q: ImportQueues,
    any: bool,
) -> (ImportQueues, Option<ImportOutcome>)
    decreases q.pending.len(),
{
    if q.pending.len() == 0 {
        (q, if any {
            Some(ImportOutcome::Continue)
        } else {
            None
        })
    } else {
        let item = q.pending.last();
        if !pl.contains_key(item.module) {
            (q, Some(ImportOutcome::StuckOnImport { module: item.module, caller_module: item.caller }))
        } else if !import_ends(
            pl,
            id,
            bag,
            q,
            item.module,
            item.thing_name,
            item.line_number,
            item.caller,
            item.exports,
        ) {
            (q, None)
        } else {
            let e = import_result(
                pl,
                id,
                bag,
                q,
                item.module,
                item.thing_name,
                item.line_number,
                item.caller,
                item.exports,
            );
            if e.1 is Continue {
                proof {
                    let f = choose|f: nat|
                        import_effect(
                            pl,
                            id,
                            bag,
                            q,
                            item.module,
                            item.thing_name,
                            item.line_number,
                            item.caller,
                            item.exports,
                            f,
                        ) is Some;
                    lemma_continue_pops(
                        pl,
                        id,
                        bag,
                        q,
                        item.module,
                        item.thing_name,
                        item.line_number,
                        item.caller,
                        item.exports,
                        f,
                    );
                }
                pending_effect(pl, id, bag, e.0, true)
            } else {
                (e.0, Some(e.1))
            }
        }
    }
}

/// The result `r` of resolving pending imports is the outcome `o`.
pub open spec fn pending_outcome_is<T>(r: Result<Option<StateWithThing<T>>, Error>, o: Option<ImportOutcome>) -> bool {
    match o {
        None => r matches Ok(None),
        Some(ImportOutcome::StuckOnImport { module, caller_module }) => r matches Ok(
            Some(StateWithThing::State(InterpreterWithoutState::StuckOnImport { module: m, caller_module: c })),
        ) && m@ == module && c@ == caller_module,
        Some(ImportOutcome::StuckOnForeignVariable { module, variable, caller_module }) => r matches Ok(
            Some(
                StateWithThing::State(
                    InterpreterWithoutState::StuckOnForeignVariable { module: m, variable: v, caller_module: c },
                ),
            ),
        ) && m@ == module && v@ == variable && c@ == caller_module,
        Some(ImportOutcome::Continue) => r matches Ok(Some(StateWithThing::Continue)),
        Some(ImportOutcome::NotFound { message, doc_id, line_number }) => r matches Err(
            Error::ParseError { message: m, doc_id: d, line_number: l },
        ) && m@ == message && d@ == doc_id && l == line_number,
    }
}

// ---------------------------------------------------------------- building blocks

fn queue_thing_items(asts: &Vec<AST>, thing: &str, exports: &Vec<String>) -> (r: Vec<ToProcessItem>)
    ensures
        items_view(r@) == thing_items(asts@, thing@, strings_view(exports@)),
{
    let mut out: Vec<ToProcessItem> = Vec::new();
    let n = asts.len();
    let ghost ex = strings_view(exports@);
    let dotted_thing = concat2(thing, ".");
    for i in 0..n
        invariant
            n == asts@.len(),
            ex == strings_view(exports@),
            dotted_thing@ == thing@ + "."@,
            items_view(out@) == thing_items(asts@.take(i as int), thing@, ex),
    {
        assert(asts@.take(i + 1) =~= asts@.take(i as int).push(asts@[i as int]));
        let a = &asts[i];
        let nm = a.name();
        let hit = !a.is_component() && (str_eq(nm.as_str(), thing) || starts_with(
            nm.as_str(),
            dotted_thing.as_str(),
        ));
        assert(hit == defines(thing@)(asts@[i as int]));
        let ghost before = out@;
        if hit {
            out.push(ToProcessItem { number_of_scan: 0, ast: a.copy(), exports: copy_strings(exports) });
            assert(items_view(out@) =~= items_view(before).push(queued(asts@[i as int], ex)));
        }
        assert(items_view(out@) =~= thing_items(asts@.take(i + 1), thing@, ex));
    }
    assert(asts@.take(n as int) =~= asts@);
    out
}

fn queue_current_items(
    asts: &Vec<AST>,
    id: &str,
    aliases: &NameMap<String>,
    key: &str,
    exports: &Vec<String>,
) -> (r: Vec<ToProcessItem>)
    ensures
        items_view(r@) == current_items(asts@, id@, text_map(aliases@), key@, strings_view(exports@)),
{
    let mut out: Vec<ToProcessItem> = Vec::new();
    let n = asts.len();
    let ghost ex = strings_view(exports@);
    let dotted_key = concat2(key, ".");
    for i in 0..n
        invariant
            n == asts@.len(),
            ex == strings_view(exports@),
            dotted_key@ == key@ + "."@,
            items_view(out@) == current_items(asts@.take(i as int), id@, text_map(aliases@), key@, ex),
    {
        assert(asts@.take(i + 1) =~= asts@.take(i as int).push(asts@[i as int]));
        let a = &asts[i];
        let nm = a.name();
        let full = resolve_name(nm.as_str(), id, aliases);
        let hit = !a.is_component() && (str_eq(full.as_str(), key) || starts_with(
            full.as_str(),
            dotted_key.as_str(),
        ));
        assert(hit == defines_full(id@, text_map(aliases@), key@)(asts@[i as int]));
        let ghost before = out@;
        if hit {
            out.push(ToProcessItem { number_of_scan: 0, ast: a.copy(), exports: copy_strings(exports) });
            assert(items_view(out@) =~= items_view(before).push(queued(asts@[i as int], ex)));
        }
        assert(items_view(out@) =~= current_items(asts@.take(i + 1), id@, text_map(aliases@), key@, ex));
    }
    assert(asts@.take(n as int) =~= asts@);
    out
}

fn has_string(v: &Vec<String>, s: &str) -> (r: bool)
    ensures
        r == strings_view(v@).contains(s@),
{
    let n = v.len();
    let mut i: usize = 0;
    while i < n
        invariant
            n == v@.len(),
            i <= n,
            forall|j: int| 0 <= j < i ==> v@[j]@ != s@,
        decreases n - i,
    {
        if str_eq(v[i].as_str(), s) {
            assert(strings_view(v@)[i as int] == s@);
            return true;
        }
        i = i + 1;
    }
    proof {
        if strings_view(v@).contains(s@) {
            let k = choose|k: int| 0 <= k < strings_view(v@).len() && strings_view(v@)[k] == s@;
            assert(v@[k]@ == s@);
        }
    }
    false
}

fn dotted_exec(remaining: &Option<String>) -> (r: String)
    ensures
        r@ == dotted(crate::text::opt_view(*remaining)),
{
    match remaining {
        Some(v) => concat2(".", v.as_str()),
        None => String::new(),
    }
}

/// A resolution that ends within `b` steps is the resolution that [`import_result`]
/// names.
pub proof fn lemma_bounded_import_is_result(
    pl: Map<Seq<char>, ParsedDocument>,
    id: Seq<char>,
    bag: Map<Seq<char>, Thing>,
    q: ImportQueues,
    module: Seq<char>,
    name: Seq<char>,
    line_number: usize,
    current: Seq<char>,
    exports: Seq<Seq<char>>,
    b: nat,
)
    requires
        import_effect(pl, id, bag, q, module, name, line_number, current, exports, b) is Some,
    ensures
        import_ends(pl, id, bag, q, module, name, line_number, current, exports),
        import_result(pl, id, bag, q, module, name, line_number, current, exports)
            == import_effect(pl, id, bag, q, module, name, line_number, current, exports, b)->Some_0,
{
    let f = choose|f: nat| import_effect(pl, id, bag, q, module, name, line_number, current, exports, f) is Some;
    assert(import_effect(pl, id, bag, q, module, name, line_number, current, exports, f) is Some);
    if f <= b {
        lemma_import_effect_fuel(pl, id, bag, q, module, name, line_number, current, exports, f, b);
    } else {
        lemma_import_effect_fuel(pl, id, bag, q, module, name, line_number, current, exports, b, f);
    }
}

/// What resolving the pending imports, from the top, does to the queues, and how it
/// ends, when each import it resolves ends within `b` steps; `None` when one does not.
pub open spec fn pending_bounded(
    pl: Map<Seq<char>, ParsedDocument>,
    id: Seq<char>,
    bag: Map<Seq<char>, Thing>,
    q: ImportQueues,
    any: bool,
    b: nat,
) -> Option<(ImportQueues, Option<ImportOutcome>)>
    decreases q.pending.len(),
{
    if q.pending.len() == 0 {
        Some((q, if any {
            Some(ImportOutcome::Continue)
        } else {
            None
        }))
    } else {
        let item = q.pending.last();
        if !pl.contains_key(item.module) {
            Some((q, Some(ImportOutcome::StuckOnImport { module: item.module, caller_module: item.caller })))
        } else {
            match import_effect(
                pl,
                id,
                bag,
                q,
                item.module,
                item.thing_name,
                item.line_number,
                item.caller,
                item.exports,
                b,
            ) {
                None => None,
                Some(e) => if e.1 is Continue {
                    proof {
                        lemma_continue_pops(
                            pl,
                            id,
                            bag,
                            q,
                            item.module,
                            item.thing_name,
                            item.line_number,
                            item.caller,
                            item.exports,
                            b,
                        );
                    }
                    pending_bounded(pl, id, bag, e.0, true, b)
                } else {
                    Some((e.0, Some(e.1)))
                },
            }
        }
    }
}

/// A bounded resolution of the pending imports that ends is the one that
/// [`pending_effect`] describes.
pub proof fn lemma_pending_bounded_is_effect(
    pl: Map<Seq<char>, ParsedDocument>,
    id: Seq<char>,
    bag: Map<Seq<char>, Thing>,
    q: ImportQueues,
    any: bool,
    b: nat,
)
    requires
        pending_bounded(pl, id, bag, q, any, b) is Some,
    ensures
        pending_bounded(pl, id, bag, q, any, b)->Some_0 == pending_effect(pl, id, bag, q, any),
    decreases q.pending.len(),
{
    if q.pending.len() > 0 {
        let item = q.pending.last();
        if pl.contains_key(item.module) {
            lemma_bounded_import_is_result(
                pl,
                id,
                bag,
                q,
                item.module,
                item.thing_name,
                item.line_number,
                item.caller,
                item.exports,
                b,
            );
            let e = import_effect(
                pl,
                id,
                bag,
                q,
                item.module,
                item.thing_name,
                item.line_number,
                item.caller,
                item.exports,
                b,
            )->Some_0;
            if e.1 is Continue {
                lemma_continue_pops(
                    pl,
                    id,
                    bag,
                    q,
                    item.module,
                    item.thing_name,
                    item.line_number,
                    item.caller,
                    item.exports,
                    b,
                );
                lemma_pending_bounded_is_effect(pl, id, bag, e.0, true, b);
            }
        }
    }
}

// ---------------------------------------------------------------- resolution

impl InterpreterState {
    fn resolve_import_things_within<T>(
        &mut self,
        module: &str,
        name: &str,
        line_number: usize,
        current_module: &str,
        exports: &Vec<String>,
        Ghost(fuel): Ghost<nat>,
        budget: Option<usize>,
    ) -> (r: Option<Result<StateWithThing<T>, Error>>)
        requires
            budget matches Some(b) ==> b as nat == fuel,
            budget is None ==> import_effect(
                old(self).parsed_libs@,
                old(self).id@,
                bag_contents(old(self).bag),
                queues_of(*old(self)),
                module@,
                name@,
                line_number,
                current_module@,
                strings_view(exports@),
                fuel,
            ) is Some,
        ensures
            match import_effect(
                old(self).parsed_libs@,
                old(self).id@,
                bag_contents(old(self).bag),
                queues_of(*old(self)),
                module@,
                name@,
                line_number,
                current_module@,
                strings_view(exports@),
                fuel,
            ) {
                Some(e) => r matches Some(x) && queues_of(*final(self)) == e.0 && outcome_is(x, e.1),
                None => r is None,
            },
            final(self).id == old(self).id,
            final(self).bag == old(self).bag,
            final(self).js == old(self).js,
            final(self).css == old(self).css,
            final(self).parsed_libs == old(self).parsed_libs,
            final(self).instructions == old(self).instructions,
        decreases fuel,
    {
        let ghost pl = self.parsed_libs@;
        let ghost q0 = queues_of(*self);
        let ghost ex = strings_view(exports@);
        if let Some(b) = budget {
            if b == 0 {
                return None;
            }
        }
        let document = match self.parsed_libs.get(module) {
            Some(d) => d,
            None => {
                return Some(Ok(
                    StateWithThing::State(
                        InterpreterWithoutState::StuckOnImport {
                            module: owned(module),
                            caller_module: owned(current_module),
                        },
                    ),
                ));
            },
        };
        let (doc_name, thing_name, remaining) = get_doc_name_and_thing_name_and_remaining(
            name,
            module,
            line_number,
        );
        let key = concat3(doc_name.as_str(), "#", thing_name.as_str());
        if !str_eq(doc_name.as_str(), self.id.as_str()) {
            let current_document = match self.parsed_libs.get(self.id.as_str()) {
                Some(d) => d,
                None => {
                    return None;
                },
            };
            let items = queue_current_items(
                &current_document.ast,
                self.id.as_str(),
                &current_document.doc_aliases,
                key.as_str(),
                exports,
            );
            if items.len() > 0 && !self.to_process.contains.contains(self.id.as_str(), key.as_str()) {
                let ghost st = self.to_process.stack@;
                self.to_process.stack.push((self.id.clone(), items));
                assert(stack_view(self.to_process.stack@) =~= stack_view(st).push(
                    (self.id@, items_view(items@)),
                ));
                self.to_process.contains.insert(self.id.clone(), key.clone());
            }
        }
        let ghost q1 = queues_of(*self);
        let own = queue_thing_items(&document.ast, thing_name.as_str(), exports);
        if own.len() > 0 {
            self.to_process.contains.insert(doc_name.clone(), key.clone());
            let ghost st = self.to_process.stack@;
            let ghost ov = items_view(own@);
            self.to_process.stack.push((doc_name.clone(), own));
            assert(stack_view(self.to_process.stack@) =~= stack_view(st).push((doc_name@, ov)));
        } else {
            let found_fv = has_string(&document.foreign_variable, thing_name.as_str());
            if found_fv && !bag_contains_key(&self.bag, name) {
                let rest = dotted_exec(&remaining);
                return Some(Ok(
                    StateWithThing::State(
                        InterpreterWithoutState::StuckOnForeignVariable {
                            module: doc_name,
                            variable: concat2(thing_name.as_str(), rest.as_str()),
                            caller_module: owned(current_module),
                        },
                    ),
                ));
            } else if has_string(&document.foreign_function, thing_name.as_str()) {
            } else if !str_eq(module, current_module)
                && document.re_exports.module_things.contains_key(thing_name.as_str()) {
                let em = match document.re_exports.module_things.get(thing_name.as_str()) {
                    Some(m) => m.clone(),
                    None => String::new(),
                };
                let mut ex2 = copy_strings(exports);
                ex2.push(owned(name));
                assert(strings_view(ex2@) =~= ex.push(name@));
                let rest = dotted_exec(&remaining);
                let mut nm = concat3(em.as_str(), "#", thing_name.as_str());
                nm.append(rest.as_str());
                return self.resolve_import_things_within(
                    em.as_str(),
                    nm.as_str(),
                    line_number,
                    module,
                    &ex2,
                    Ghost((fuel - 1) as nat),
                    match budget {
                        Some(b) => Some(b - 1),
                        None => None,
                    },
                );
            } else if str_eq(module, current_module) && document.exposings.contains_key(
                thing_name.as_str(),
            ) {
                let em = match document.exposings.get(thing_name.as_str()) {
                    Some(m) => m.clone(),
                    None => String::new(),
                };
                let mut ex2 = copy_strings(exports);
                ex2.push(owned(name));
                assert(strings_view(ex2@) =~= ex.push(name@));
                let rest = dotted_exec(&remaining);
                let mut nm = concat3(em.as_str(), "#", thing_name.as_str());
                nm.append(rest.as_str());
                return self.resolve_import_things_within(
                    em.as_str(),
                    nm.as_str(),
                    line_number,
                    module,
                    &ex2,
                    Ghost((fuel - 1) as nat),
                    match budget {
                        Some(b) => Some(b - 1),
                        None => None,
                    },
                );
            } else if !found_fv {
                return Some(Err(
                    Error::ParseError {
                        message: concat3("`", name, "` not found"),
                        doc_id: owned(name),
                        line_number,
                    },
                ));
            }
        }
        let ghost pst = self.pending_imports.stack@;
        self.pending_imports.stack.pop();
        assert(pending_view(self.pending_imports.stack@) =~= (if pst.len() == 0 {
            pending_view(pst)
        } else {
            pending_view(pst).drop_last()
        }));
        self.pending_imports.contains.remove(doc_name.as_str(), key.as_str());
        Some(Ok(StateWithThing::Continue))
    }

    /// Resolves the import of `name` from `module`, asked for by `current_module`, with
    /// the names it is exported under so far:
    /// - stops on the import of `module` when it is not parsed yet;
    /// - queues the items of the current document that define the full name, once;
    /// - queues the items of the module that define the thing, and the import is done;
    /// - else stops on a foreign variable of the module that the bag lacks, is done for a
    ///   foreign function, follows a re-export (from another module) or an exposing (from
    ///   the same one) to the module that defines the thing, or fails with `not found`.
    /// What it does is [`import_result`].
    pub fn resolve_import_things<T>(
        &mut self,
        module: &str,
        name: &str,
        line_number: usize,
        current_module: &str,
        exports: &Vec<String>,
    ) -> (r: Result<StateWithThing<T>, Error>)
        requires
            import_ends(
                old(self).parsed_libs@,
                old(self).id@,
                bag_contents(old(self).bag),
                queues_of(*old(self)),
                module@,
                name@,
                line_number,
                current_module@,
                strings_view(exports@),
            ),
        ensures
            ({
                let e = import_result(
                    old(self).parsed_libs@,
                    old(self).id@,
                    bag_contents(old(self).bag),
                    queues_of(*old(self)),
                    module@,
                    name@,
                    line_number,
                    current_module@,
                    strings_view(exports@),
                );
                &&& queues_of(*final(self)) == e.0
                &&& outcome_is(r, e.1)
            }),
            final(self).id == old(self).id,
            final(self).bag == old(self).bag,
            final(self).js == old(self).js,
            final(self).css == old(self).css,
            final(self).parsed_libs == old(self).parsed_libs,
            final(self).instructions == old(self).instructions,
    {
        let ghost f = choose|f: nat|
            import_effect(
                self.parsed_libs@,
                self.id@,
                bag_contents(self.bag),
                queues_of(*self),
                module@,
                name@,
                line_number,
                current_module@,
                strings_view(exports@),
                f,
            ) is Some;
        match self.resolve_import_things_within(
            module,
            name,
            line_number,
            current_module,
            exports,
            Ghost(f),
            None,
        ) {
            Some(r) => r,
            // Not reached: `requires` has the resolution end.
            None => Ok(StateWithThing::Continue),
        }
    }
}

impl InterpreterState {
    /// Resolves the pending imports from the top of their stack while each resolves to
    /// the word to go on; gives the first other outcome, the word to go on when at least
    /// one import was resolved, or `None` when none was waiting. An import of a module
    /// not parsed yet stops on that import. What it does is [`pending_effect`].
    pub fn resolve_pending_imports<T>(&mut self) -> (r: Result<Option<StateWithThing<T>>, Error>)
        requires
            pending_end(old(self).parsed_libs@, old(self).id@, bag_contents(old(self).bag), queues_of(*old(self))),
        ensures
            ({
                let e = pending_effect(
                    old(self).parsed_libs@,
                    old(self).id@,
                    bag_contents(old(self).bag),
                    queues_of(*old(self)),
                    false,
                );
                &&& queues_of(*final(self)) == e.0
                &&& pending_outcome_is(r, e.1)
            }),
            final(self).id == old(self).id,
            final(self).bag == old(self).bag,
            final(self).js == old(self).js,
            final(self).css == old(self).css,
            final(self).parsed_libs == old(self).parsed_libs,
            final(self).instructions == old(self).instructions,
    {
        let ghost pl = self.parsed_libs@;
        let ghost id = self.id@;
        let ghost bag = bag_contents(self.bag);
        let ghost target = pending_effect(pl, id, bag, queues_of(*self), false);
        let mut any_pending_import = false;
        loop
            invariant
                self.parsed_libs@ == pl,
                self.id@ == id,
                bag_contents(self.bag) == bag,
                self.id == old(self).id,
                self.bag == old(self).bag,
                self.js == old(self).js,
                self.css == old(self).css,
                self.parsed_libs == old(self).parsed_libs,
                self.instructions == old(self).instructions,
                pending_end(pl, id, bag, queues_of(*self)),
                pending_effect(pl, id, bag, queues_of(*self), any_pending_import) == target,
                target == pending_effect(
                    old(self).parsed_libs@,
                    old(self).id@,
                    bag_contents(old(self).bag),
                    queues_of(*old(self)),
                    false,
                ),
            decreases self.pending_imports.stack@.len(),
        {
            let ghost q = queues_of(*self);
            let n = self.pending_imports.stack.len();
            if n == 0 {
                assert(q.pending.len() == 0);
                assert(pending_effect(pl, id, bag, q, any_pending_import).0 == q);
                if any_pending_import {
                    return Ok(Some(StateWithThing::new_continue()));
                } else {
                    return Ok(None);
                }
            }
            let item = &self.pending_imports.stack[n - 1];
            assert(q.pending.last() == item@);
            let module = item.module.clone();
            let thing_name = item.thing_name.clone();
            let line_number = item.line_number;
            let caller = item.caller.clone();
            let exports = copy_strings(&item.exports);
            if self.parsed_libs.contains_key(module.as_str()) {
                assert(q.pending[q.pending.len() - 1].module == module@);
                let state = self.resolve_import_things::<T>(
                    module.as_str(),
                    thing_name.as_str(),
                    line_number,
                    caller.as_str(),
                    &exports,
                );
                let ghost e = import_result(
                    pl,
                    id,
                    bag,
                    q,
                    module@,
                    thing_name@,
                    line_number,
                    caller@,
                    strings_view(exports@),
                );
                proof {
                    assert(q.pending.last() == item@);
                    assert(import_ends(pl, id, bag, q, module@, thing_name@, line_number, caller@, strings_view(exports@)));
                    assert(pending_effect(pl, id, bag, q, any_pending_import) == (if e.1 is Continue {
                        pending_effect(pl, id, bag, e.0, true)
                    } else {
                        (e.0, Some(e.1))
                    }));
                }
                match state {
                    Ok(st) => {
                        any_pending_import = true;
                        if st.is_continue() {
                            proof {
                                let f = choose|f: nat|
                                    import_effect(
                                        pl,
                                        id,
                                        bag,
                                        q,
                                        module@,
                                        thing_name@,
                                        line_number,
                                        caller@,
                                        strings_view(exports@),
                                        f,
                                    ) is Some;
                                lemma_continue_pops(
                                    pl,
                                    id,
                                    bag,
                                    q,
                                    module@,
                                    thing_name@,
                                    line_number,
                                    caller@,
                                    strings_view(exports@),
                                    f,
                                );
                                let q2 = queues_of(*self);
                                assert forall|j: int| 0 <= j < q2.pending.len() implies import_ends(
                                    pl,
                                    id,
                                    bag,
                                    q2,
                                    #[trigger] q2.pending[j].module,
                                    q2.pending[j].thing_name,
                                    q2.pending[j].line_number,
                                    q2.pending[j].caller,
                                    q2.pending[j].exports,
                                ) by {
                                    assert(q2.pending[j] == q.pending[j]);
                                    let g = choose|g: nat|
                                        import_effect(
                                            pl,
                                            id,
                                            bag,
                                            q,
                                            q.pending[j].module,
                                            q.pending[j].thing_name,
                                            q.pending[j].line_number,
                                            q.pending[j].caller,
                                            q.pending[j].exports,
                                            g,
                                        ) is Some;
                                    lemma_import_effect_queues(
                                        pl,
                                        id,
                                        bag,
                                        q,
                                        q2,
                                        q.pending[j].module,
                                        q.pending[j].thing_name,
                                        q.pending[j].line_number,
                                        q.pending[j].caller,
                                        q.pending[j].exports,
                                        g,
                                    );
                                }
                            }
                            continue;
                        } else {
                            return Ok(Some(st));
                        }
                    },
                    Err(err) => {
                        return Err(err);
                    },
                }
            }
            return Ok(
                Some(
                    StateWithThing::new_state(
                        InterpreterWithoutState::StuckOnImport { module, caller_module: caller },
                    ),
                ),
            );
        }
    }
}

impl InterpreterState {
    /// [`Self::resolve_import_things`], following at most `max_steps` modules through
    /// re-exports and exposings: `None` when the resolution does not end within them
    /// (it goes round a cycle, or is longer), or when it needs the document being
    /// interpreted and that is not parsed. Otherwise what it does is [`import_result`].
    pub fn resolve_import_things_checked<T>(
        &mut self,
        module: &str,
        name: &str,
        line_number: usize,
        current_module: &str,
        exports: &Vec<String>,
        max_steps: usize,
    ) -> (r: Option<Result<StateWithThing<T>, Error>>)
        ensures
            match import_effect(
                old(self).parsed_libs@,
                old(self).id@,
                bag_contents(old(self).bag),
                queues_of(*old(self)),
                module@,
                name@,
                line_number,
                current_module@,
                strings_view(exports@),
                max_steps as nat,
            ) {
                Some(e) => {
                    &&& import_ends(
                        old(self).parsed_libs@,
                        old(self).id@,
                        bag_contents(old(self).bag),
                        queues_of(*old(self)),
                        module@,
                        name@,
                        line_number,
                        current_module@,
                        strings_view(exports@),
                    )
                    &&& e == import_result(
                        old(self).parsed_libs@,
                        old(self).id@,
                        bag_contents(old(self).bag),
                        queues_of(*old(self)),
                        module@,
                        name@,
                        line_number,
                        current_module@,
                        strings_view(exports@),
                    )
                    &&& r matches Some(x) && queues_of(*final(self)) == e.0 && outcome_is(x, e.1)
                },
                None => r is None,
            },
            final(self).id == old(self).id,
            final(self).bag == old(self).bag,
            final(self).js == old(self).js,
            final(self).css == old(self).css,
            final(self).parsed_libs == old(self).parsed_libs,
            final(self).instructions == old(self).instructions,
    {
        proof {
            if import_effect(
                self.parsed_libs@,
                self.id@,
                bag_contents(self.bag),
                queues_of(*self),
                module@,
                name@,
                line_number,
                current_module@,
                strings_view(exports@),
                max_steps as nat,
            ) is Some {
                lemma_bounded_import_is_result(
                    self.parsed_libs@,
                    self.id@,
                    bag_contents(self.bag),
                    queues_of(*self),
                    module@,
                    name@,
                    line_number,
                    current_module@,
                    strings_view(exports@),
                    max_steps as nat,
                );
            }
        }
        self.resolve_import_things_within(
            module,
            name,
            line_number,
            current_module,
            exports,
            Ghost(max_steps as nat),
            Some(max_steps),
        )
    }

    /// [`Self::resolve_pending_imports`], with each import followed through at most
    /// `max_steps` modules: `None` when one of the imports it resolves does not end
    /// within them (it goes round a cycle, or is longer), or needs the document being
    /// interpreted and that is not parsed. Otherwise what it does is [`pending_effect`].
    pub fn resolve_pending_imports_checked<T>(&mut self, max_steps: usize) -> (r: Option<Result<Option<StateWithThing<T>>, Error>>)
        ensures
            match pending_bounded(
                old(self).parsed_libs@,
                old(self).id@,
                bag_contents(old(self).bag),
                queues_of(*old(self)),
                false,
                max_steps as nat,
            ) {
                Some(e) => {
                    &&& e == pending_effect(
                        old(self).parsed_libs@,
                        old(self).id@,
                        bag_contents(old(self).bag),
                        queues_of(*old(self)),
                        false,
                    )
                    &&& r matches Some(x) && queues_of(*final(self)) == e.0 && pending_outcome_is(x, e.1)
                },
                None => r is None,
            },
            final(self).id == old(self).id,
            final(self).bag == old(self).bag,
            final(self).js == old(self).js,
            final(self).css == old(self).css,
            final(self).parsed_libs == old(self).parsed_libs,
            final(self).instructions == old(self).instructions,
    {
        let ghost pl = self.parsed_libs@;
        let ghost id = self.id@;
        let ghost bag = bag_contents(self.bag);
        let ghost b = max_steps as nat;
        let ghost target = pending_bounded(pl, id, bag, queues_of(*self), false, b);
        proof {
            if target is Some {
                lemma_pending_bounded_is_effect(pl, id, bag, queues_of(*self), false, b);
            }
        }
        let mut any_pending_import = false;
        loop
            invariant
                self.parsed_libs@ == pl,
                self.id@ == id,
                bag_contents(self.bag) == bag,
                b == max_steps as nat,
                self.id == old(self).id,
                self.bag == old(self).bag,
                self.js == old(self).js,
                self.css == old(self).css,
                self.parsed_libs == old(self).parsed_libs,
                self.instructions == old(self).instructions,
                pending_bounded(pl, id, bag, queues_of(*self), any_pending_import, b) == target,
                target == pending_bounded(
                    old(self).parsed_libs@,
                    old(self).id@,
                    bag_contents(old(self).bag),
                    queues_of(*old(self)),
                    false,
                    b,
                ),
                target is Some ==> target->Some_0 == pending_effect(
                    old(self).parsed_libs@,
                    old(self).id@,
                    bag_contents(old(self).bag),
                    queues_of(*old(self)),
                    false,
                ),
            decreases self.pending_imports.stack@.len(),
        {
            let ghost q = queues_of(*self);
            let n = self.pending_imports.stack.len();
            if n == 0 {
                assert(q.pending.len() == 0);
                if any_pending_import {
                    return Some(Ok(Some(StateWithThing::new_continue())));
                } else {
                    return Some(Ok(None));
                }
            }
            let item = &self.pending_imports.stack[n - 1];
            assert(q.pending.last() == item@);
            let module = item.module.clone();
            let thing_name = item.thing_name.clone();
            let line_number = item.line_number;
            let caller = item.caller.clone();
            let exports = copy_strings(&item.exports);
            if self.parsed_libs.contains_key(module.as_str()) {
                let state = self.resolve_import_things_within::<T>(
                    module.as_str(),
                    thing_name.as_str(),
                    line_number,
                    caller.as_str(),
                    &exports,
                    Ghost(b),
                    Some(max_steps),
                );
                match state {
                    None => {
                        return None;
                    },
                    Some(Ok(st)) => {
                        any_pending_import = true;
                        if st.is_continue() {
                            proof {
                                lemma_continue_pops(
                                    pl,
                                    id,
                                    bag,
                                    q,
                                    module@,
                                    thing_name@,
                                    line_number,
                                    caller@,
                                    strings_view(exports@),
                                    b,
                                );
                            }
                            continue;
                        } else {
                            return Some(Ok(Some(st)));
                        }
                    },
                    Some(Err(err)) => {
                        return Some(Err(err));
                    },
                }
            }
            return Some(Ok(
                Some(
                    StateWithThing::new_state(
                        InterpreterWithoutState::StuckOnImport { module, caller_module: caller },
                    ),
                ),
            ));
        }
    }
}

} // verus!

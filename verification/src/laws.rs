//! Properties that hold across the operations of the library.
use vstd::prelude::*;
use crate::ast::{strings_view, AstView};
use crate::doc::{asset_mode, asset_url, asset_value_ok, dark_asset_url, is_image_ext};
use crate::document::{doc_aliases_of, parsed_ok, same_parsed};
use crate::ast::AST;
use crate::imports::{pending_effect, ImportOutcome, ImportQueues, import_result, import_ends, lemma_continue_pops, import_effect};
use crate::imports::{dotted, lemma_import_effect_queues, thing_items, pending_end, pending_outcome_is};
use crate::interpreter::{Error, StateWithThing};
use crate::names::text_map;
use crate::interpreter::{bump_stack, drop_empty_tail, stack_after_remove, ToProcessItemView};
use crate::document::ParsedDocument;
use crate::interpreter::Thing;
use crate::p1::{header_lookup, is_comment_key, SectionView, HeaderEntry, is_live_entry, is_live_sub_section, uncomment_sub_section};
use crate::resolve::{resolve_name_spec, split_module_spec, doc_thing_remaining_spec, has_char, split_once_spec, is_first_index, doc_name_and_remaining_spec};
use crate::text::{has_suffix, last_index_of, trim_start_spec, has_prefix};
use crate::value::{is_image_src, is_text, Value};

verus! {

broadcast use vstd::seq_lib::group_seq_properties, vstd::seq_lib::group_filter_ensures, Seq::lemma_filter_push;

// ---------------------------------------------------------------- headers

/// A header written with a key that is not commented out is what a lookup of that key
/// reads back, unless a live header of that key was written before.
pub proof fn law_header_read_back(s: SectionView, k: Seq<char>, v: Seq<char>)
    requires
        !is_comment_key(k),
    ensures
        header_lookup(s.header, k) is None ==> header_lookup(s.with_header(k, v).header, k) == Some(v),
        header_lookup(s.header, k) is Some ==> header_lookup(s.with_header(k, v).header, k)
            == header_lookup(s.header, k),
    decreases s.header.len(),
{
    lemma_lookup_push(s.header, k, v);
}

proof fn lemma_lookup_push(h: Seq<HeaderEntry>, k: Seq<char>, v: Seq<char>)
    requires
        !is_comment_key(k),
    ensures
        header_lookup(h.push((k, v)), k) == (if header_lookup(h, k) is Some {
            header_lookup(h, k)
        } else {
            Some(v)
        }),
    decreases h.len(),
{
    if h.len() > 0 {
        assert(h.push((k, v)).drop_first() =~= h.drop_first().push((k, v)));
        lemma_lookup_push(h.drop_first(), k, v);
    }
}

/// A header whose key is commented out is never read.
pub proof fn law_comment_keys_not_read(h: Seq<HeaderEntry>, k: Seq<char>)
    requires
        is_comment_key(k),
    ensures
        header_lookup(h, k) is None,
    decreases h.len(),
{
    if h.len() > 0 {
        law_comment_keys_not_read(h.drop_first(), k);
    }
}

// ---------------------------------------------------------------- comments

/// Once its comments are removed, a section is not commented out, none of its headers
/// has a commented key, and none of its sub-sections is commented out or holds a
/// commented header.
pub proof fn law_remove_comments_leaves_no_comment(s: SectionView)
    ensures
        !s.uncommented().is_commented,
        forall|i: int| 0 <= i < s.uncommented().header.len() ==> !is_comment_key(
            #[trigger] s.uncommented().header[i].0,
        ),
        forall|i: int| 0 <= i < s.uncommented().sub_sections.len() ==> !(
        #[trigger] s.uncommented().sub_sections[i]).is_commented,
        forall|i: int, j: int|
            0 <= i < s.uncommented().sub_sections.len() && 0 <= j
                < s.uncommented().sub_sections[i].header.len() ==> !is_comment_key(
                #[trigger] s.uncommented().sub_sections[i].header[j].0,
            ),
{
    let u = s.uncommented();
    assert forall|i: int| 0 <= i < u.header.len() implies !is_comment_key(#[trigger] u.header[i].0) by {
        s.header.lemma_filter_pred(is_live_entry(), i);
    }
    let live = s.sub_sections.filter(is_live_sub_section());
    assert forall|i: int| 0 <= i < u.sub_sections.len() implies !(#[trigger] u.sub_sections[i]).is_commented by {
        assert(u.sub_sections[i] == uncomment_sub_section(live[i]));
    }
    assert forall|i: int, j: int|
        0 <= i < u.sub_sections.len() && 0 <= j < u.sub_sections[i].header.len() implies !is_comment_key(
        #[trigger] u.sub_sections[i].header[j].0,
    ) by {
        assert(u.sub_sections[i] == uncomment_sub_section(live[i]));
        live[i].header.lemma_filter_pred(is_live_entry(), j);
    }
}

// ---------------------------------------------------------------- the stack of items

/// Scanning the front item once more raises its count by one and keeps its place.
pub proof fn law_scan_count_rises(s: Seq<(Seq<char>, Seq<ToProcessItemView>)>)
    requires
        s.len() > 0,
        s.last().1.len() > 0,
        s.last().1[0].number_of_scan < usize::MAX,
    ensures
        bump_stack(s).len() == s.len(),
        bump_stack(s).last().0 == s.last().0,
        bump_stack(s).last().1.len() == s.last().1.len(),
        bump_stack(s).last().1[0].number_of_scan == s.last().1[0].number_of_scan + 1,
        bump_stack(s).last().1[0].ast == s.last().1[0].ast,
{
}

/// Dropping the empty entries at the top leaves either nothing or a top entry that
/// holds an item, and doing it again changes nothing.
pub proof fn law_next_item_is_stable(s: Seq<(Seq<char>, Seq<ToProcessItemView>)>)
    ensures
        drop_empty_tail(s).len() == 0 || drop_empty_tail(s).last().1.len() > 0,
        drop_empty_tail(drop_empty_tail(s)) == drop_empty_tail(s),
        drop_empty_tail(s).len() <= s.len(),
    decreases s.len(),
{
    if s.len() > 0 && s.last().1.len() == 0 {
        law_next_item_is_stable(s.drop_last());
    }
}

/// The number of items on a stack.
pub open spec fn item_count(s: Seq<(Seq<char>, Seq<ToProcessItemView>)>) -> nat
    decreases s.len(),
{
    if s.len() == 0 {
        0
    } else {
        item_count(s.drop_last()) + s.last().1.len()
    }
}

/// Being done with the front item of a top entry that holds items takes exactly one
/// item off the stack.
pub proof fn law_remove_takes_one_item(s: Seq<(Seq<char>, Seq<ToProcessItemView>)>)
    requires
        s.len() > 0,
        s.last().1.len() > 0,
    ensures
        item_count(stack_after_remove(s)) + 1 == item_count(s),
{
    if s.last().1.len() <= 1 {
    } else {
        let t = stack_after_remove(s);
        assert(t.drop_last() =~= s.drop_last());
    }
}

// ---------------------------------------------------------------- documents

/// Every alias that an import declares is an alias of the document.
pub proof fn law_import_alias_known(asts: Seq<AstView>, i: int)
    requires
        0 <= i < asts.len(),
        asts[i] is Import,
    ensures
        doc_aliases_of(asts).contains_key(asts[i]->Import_0.alias),
    decreases asts.len(),
{
    if i < asts.len() - 1 {
        assert(asts.drop_last()[i] == asts[i]);
        law_import_alias_known(asts.drop_last(), i);
    }
}

// ---------------------------------------------------------------- names

/// The key `doc#thing` under which a thing is queued splits back into the document and
/// the thing, when neither holds `#` and the thing holds no dot.
pub proof fn law_key_splits_back(d: Seq<char>, t: Seq<char>, doc_id: Seq<char>)
    requires
        !has_char(d, '#'),
        !has_char(t, '#'),
        !has_char(t, '.'),
    ensures
        doc_thing_remaining_spec(d + "#"@ + t, doc_id) == (d, t, None::<Seq<char>>),
{
    reveal_strlit("#");
    let s = d + "#"@ + t;
    assert(s[d.len() as int] == '#');
    assert(is_first_index(s, '#', d.len() as int)) by {
        assert forall|j: int| 0 <= j < d.len() implies s[j] != '#' by {
            assert(s[j] == d[j]);
        }
    }
    crate::resolve::lemma_first_index_unique(s, '#', d.len() as int);
    assert(s.subrange(0, d.len() as int) =~= d);
    assert(s.subrange(d.len() + 1int, s.len() as int) =~= t);
    assert(!has_char(t, '.'));
    assert(split_once_spec(t, '.') is None);
    assert(doc_name_and_remaining_spec(s) == (s, None::<Seq<char>>));
}

// ---------------------------------------------------------------- assets

/// The light-mode form of an image asset is the light image of the asset, and its
/// dark-mode form is the dark image.
pub proof fn law_image_modes_agree(
    package_name: Seq<char>,
    files: Seq<char>,
    plain: Value,
    light: Value,
    dark: Value,
)
    requires
        !has_suffix(files, ".light"@),
        !has_suffix(files, ".dark"@),
        last_index_of(files, '.') matches Some(k) && is_image_ext(
            files.subrange(k + 1, files.len() as int),
        ),
        asset_value_ok(plain, package_name, files),
        asset_value_ok(light, package_name, files + ".light"@),
        asset_value_ok(dark, package_name, files + ".dark"@),
    ensures
        exists|l: Seq<char>, d: Seq<char>|
            is_image_src(plain, l, d) && is_text(light, l) && is_text(dark, d),
{
    reveal_strlit(".light");
    reveal_strlit(".dark");
    let fl = files + ".light"@;
    let fd = files + ".dark"@;
    assert(fl.subrange(fl.len() - 6, fl.len() as int) =~= ".light"@);
    assert(fl.subrange(0, fl.len() - 6) =~= files);
    assert(fd.subrange(fd.len() - 5, fd.len() as int) =~= ".dark"@);
    assert(fd.subrange(0, fd.len() - 5) =~= files);
    assert(!has_suffix(fd, ".light"@)) by {
        if has_suffix(fd, ".light"@) {
            assert(fd.subrange(fd.len() - 6, fd.len() as int)[5] == fd[fd.len() - 1]);
        }
    }
    assert(asset_mode(fl) == (files, true, false));
    assert(asset_mode(fd) == (files, false, true));
    assert(asset_mode(files) == (files, false, false));
    let k = last_index_of(files, '.')->0;
    let file = files.subrange(0, k);
    let ext = files.subrange(k + 1, files.len() as int);
    assert(is_image_src(plain, asset_url(package_name, file, ext), dark_asset_url(package_name, file, ext)));
}

// ---------------------------------------------------------------- imports

/// When resolving the pending imports ends with the word to go on, no import is left
/// waiting.
pub proof fn law_pending_resolution_clears(
    pl: Map<Seq<char>, ParsedDocument>,
    id: Seq<char>,
    bag: Map<Seq<char>, Thing>,
    q: ImportQueues,
    any: bool,
)
    ensures
        pending_effect(pl, id, bag, q, any).1 == Some(ImportOutcome::Continue) ==> pending_effect(
            pl,
            id,
            bag,
            q,
            any,
        ).0.pending.len() == 0,
    decreases q.pending.len(),
{
    if q.pending.len() > 0 {
        let item = q.pending.last();
        if pl.contains_key(item.module) && import_ends(
            pl,
            id,
            bag,
            q,
            item.module,
            item.thing_name,
            item.line_number,
            item.caller,
            item.exports,
        ) {
            let e = import_result(
                pl,
                id,
                bag,
                q,
                item.module,
                item.thing_name,
                item.line_number,
                item.caller,
                item.exports,
            );
            if e.1 is Continue {
                let f = choose|f: nat|
                    import_effect(
                        pl,
                        id,
                        bag,
                        q,
                        item.module,
                        item.thing_name,
                        item.line_number,
                        item.caller,
                        item.exports,
                        f,
                    ) is Some;
                lemma_continue_pops(
                    pl,
                    id,
                    bag,
                    q,
                    item.module,
                    item.thing_name,
                    item.line_number,
                    item.caller,
                    item.exports,
                    f,
                );
                law_pending_resolution_clears(pl, id, bag, e.0, true);
            }
        }
    }
}

// ---------------------------------------------------------------- names

/// A resolved name is a full name: it holds `#`.
pub proof fn law_resolved_names_are_full(
    name: Seq<char>,
    doc_name: Seq<char>,
    aliases: Map<Seq<char>, Seq<char>>,
)
    ensures
        has_char(resolve_name_spec(name, doc_name, aliases), '#'),
{
    reveal_strlit("#");
    let n = trim_start_spec(trim_start_spec(name, "*$"@), "$"@);
    if !has_char(n, '#') {
        let r = resolve_name_spec(name, doc_name, aliases);
        match split_module_spec(n) {
            (Some(m), v, _) => {
                if aliases.contains_key(m) {
                    assert(r[aliases[m].len() as int] == '#');
                } else {
                    assert(r[doc_name.len() as int] == '#');
                }
            },
            (None, v, _) => {
                assert(r[doc_name.len() as int] == '#');
            },
        }
    }
}

/// Trimming a prefix as often as it is there leaves nothing more to trim.
pub proof fn law_trim_start_is_stable(s: Seq<char>, p: Seq<char>)
    ensures
        trim_start_spec(trim_start_spec(s, p), p) == trim_start_spec(s, p),
        !(p.len() > 0 && has_prefix(trim_start_spec(s, p), p)),
    decreases s.len(),
{
    if p.len() > 0 && has_prefix(s, p) {
        law_trim_start_is_stable(s.subrange(p.len() as int, s.len() as int), p);
    }
}

/// Parsing does not depend on the line the source started at: `parse` and
/// `parse_with_line_number` at any line make, of the same items, documents that agree
/// in every part, order of entries included.
pub proof fn law_parse_ignores_line_number(a: ParsedDocument, b: ParsedDocument, id: Seq<char>, ast: Seq<AST>)
    requires
        parsed_ok(a, id, ast),
        parsed_ok(b, id, ast),
    ensures
        same_parsed(a, b),
{
    assert(strings_view(a.foreign_variable@) =~= strings_view(b.foreign_variable@));
    assert(strings_view(a.foreign_function@) =~= strings_view(b.foreign_function@));
}

// ---------------------------------------------------------------- exposed names

/// A name that the current document exposes, and that it neither defines nor declares
/// as foreign, resolves exactly as the thing does in the module that the exposing
/// names: the resolution ends in the same number of steps but one, with the same
/// outcome.
pub proof fn law_exposed_name_follows_its_module(
    pl: Map<Seq<char>, ParsedDocument>,
    id: Seq<char>,
    bag: Map<Seq<char>, Thing>,
    q: ImportQueues,
    module: Seq<char>,
    name: Seq<char>,
    line_number: usize,
    exports: Seq<Seq<char>>,
    fuel: nat,
)
    requires
        fuel > 0,
        pl.contains_key(module),
        doc_thing_remaining_spec(name, module).0 == id || pl.contains_key(id),
        thing_items(pl[module].ast@, doc_thing_remaining_spec(name, module).1, exports).len() == 0,
        !strings_view(pl[module].foreign_variable@).contains(doc_thing_remaining_spec(name, module).1),
        !strings_view(pl[module].foreign_function@).contains(doc_thing_remaining_spec(name, module).1),
        text_map(pl[module].exposings@).contains_key(doc_thing_remaining_spec(name, module).1),
    ensures
        ({
            let (_d, t, rem) = doc_thing_remaining_spec(name, module);
            let em = text_map(pl[module].exposings@)[t];
            let here = import_effect(pl, id, bag, q, module, name, line_number, module, exports, fuel);
            let there = import_effect(
                pl,
                id,
                bag,
                q,
                em,
                em + "#"@ + t + dotted(rem),
                line_number,
                module,
                exports.push(name),
                (fuel - 1) as nat,
            );
            &&& (here is Some <==> there is Some)
            &&& here is Some ==> here->Some_0.1 == there->Some_0.1
        }),
{
    let document = pl[module];
    let (doc_name, thing, remaining) = doc_thing_remaining_spec(name, module);
    let key = doc_name + "#"@ + thing;
    let q1 = if doc_name != id {
        let cur = pl[id];
        let items = crate::imports::current_items(cur.ast@, id, text_map(cur.doc_aliases@), key, exports);
        if items.len() > 0 && !q.contains.contains((id, key)) {
            ImportQueues { stack: q.stack.push((id, items)), contains: q.contains.insert((id, key)), ..q }
        } else {
            q
        }
    } else {
        q
    };
    let em = text_map(document.exposings@)[thing];
    lemma_import_effect_queues(
        pl,
        id,
        bag,
        q1,
        q,
        em,
        em + "#"@ + thing + dotted(remaining),
        line_number,
        module,
        exports.push(name),
        (fuel - 1) as nat,
    );
}

/// A name that a module other than the asking one re-exports, and that the module
/// neither defines nor declares as foreign, resolves exactly as the thing does in the
/// module it is re-exported from: the resolution ends in the same number of steps but
/// one, with the same outcome.
pub proof fn law_re_exported_name_follows_its_module(
    pl: Map<Seq<char>, ParsedDocument>,
    id: Seq<char>,
    bag: Map<Seq<char>, Thing>,
    q: ImportQueues,
    module: Seq<char>,
    name: Seq<char>,
    line_number: usize,
    current: Seq<char>,
    exports: Seq<Seq<char>>,
    fuel: nat,
)
    requires
        fuel > 0,
        module != current,
        pl.contains_key(module),
        doc_thing_remaining_spec(name, module).0 == id || pl.contains_key(id),
        thing_items(pl[module].ast@, doc_thing_remaining_spec(name, module).1, exports).len() == 0,
        !strings_view(pl[module].foreign_variable@).contains(doc_thing_remaining_spec(name, module).1),
        !strings_view(pl[module].foreign_function@).contains(doc_thing_remaining_spec(name, module).1),
        text_map(pl[module].re_exports.module_things@).contains_key(doc_thing_remaining_spec(name, module).1),
    ensures
        ({
            let (_d, t, rem) = doc_thing_remaining_spec(name, module);
            let em = text_map(pl[module].re_exports.module_things@)[t];
            let here = import_effect(pl, id, bag, q, module, name, line_number, current, exports, fuel);
            let there = import_effect(
                pl,
                id,
                bag,
                q,
                em,
                em + "#"@ + t + dotted(rem),
                line_number,
                module,
                exports.push(name),
                (fuel - 1) as nat,
            );
            &&& (here is Some <==> there is Some)
            &&& here is Some ==> here->Some_0.1 == there->Some_0.1
        }),
{
    let document = pl[module];
    let (doc_name, thing, remaining) = doc_thing_remaining_spec(name, module);
    let key = doc_name + "#"@ + thing;
    let q1 = if doc_name != id {
        let cur = pl[id];
        let items = crate::imports::current_items(cur.ast@, id, text_map(cur.doc_aliases@), key, exports);
        if items.len() > 0 && !q.contains.contains((id, key)) {
            ImportQueues { stack: q.stack.push((id, items)), contains: q.contains.insert((id, key)), ..q }
        } else {
            q
        }
    } else {
        q
    };
    let em = text_map(document.re_exports.module_things@)[thing];
    lemma_import_effect_queues(
        pl,
        id,
        bag,
        q1,
        q,
        em,
        em + "#"@ + thing + dotted(remaining),
        line_number,
        module,
        exports.push(name),
        (fuel - 1) as nat,
    );
}

// ---------------------------------------------------------------- pending imports

/// When the import on top of the pending stack is not found, resolving the pending
/// imports fails with that import's error, at its line.
pub proof fn law_pending_not_found_is_an_error<T>(
    pl: Map<Seq<char>, ParsedDocument>,
    id: Seq<char>,
    bag: Map<Seq<char>, Thing>,
    q: ImportQueues,
    any: bool,
    r: Result<Option<StateWithThing<T>>, Error>,
)
    requires
        q.pending.len() > 0,
        pl.contains_key(q.pending.last().module),
        import_ends(
            pl,
            id,
            bag,
            q,
            q.pending.last().module,
            q.pending.last().thing_name,
            q.pending.last().line_number,
            q.pending.last().caller,
            q.pending.last().exports,
        ),
        pending_outcome_is(r, pending_effect(pl, id, bag, q, any).1),
    ensures
        import_result(
            pl,
            id,
            bag,
            q,
            q.pending.last().module,
            q.pending.last().thing_name,
            q.pending.last().line_number,
            q.pending.last().caller,
            q.pending.last().exports,
        ).1 matches ImportOutcome::NotFound { message, doc_id, line_number } ==> (r matches Err(
            Error::ParseError { message: m, doc_id: d, line_number: l },
        ) && m@ == message && d@ == doc_id && l == line_number),
{
}

proof fn lemma_pending_answers(
    pl: Map<Seq<char>, ParsedDocument>,
    id: Seq<char>,
    bag: Map<Seq<char>, Thing>,
    q: ImportQueues,
    any: bool,
)
    requires
        pending_end(pl, id, bag, q),
        any || q.pending.len() > 0,
    ensures
        pending_effect(pl, id, bag, q, any).1 is Some,
    decreases q.pending.len(),
{
    if q.pending.len() > 0 {
        let item = q.pending.last();
        if pl.contains_key(item.module) {
            assert(import_ends(
                pl,
                id,
                bag,
                q,
                q.pending[q.pending.len() - 1].module,
                q.pending[q.pending.len() - 1].thing_name,
                q.pending[q.pending.len() - 1].line_number,
                q.pending[q.pending.len() - 1].caller,
                q.pending[q.pending.len() - 1].exports,
            ));
            let e = import_result(
                pl,
                id,
                bag,
                q,
                item.module,
                item.thing_name,
                item.line_number,
                item.caller,
                item.exports,
            );
            if e.1 is Continue {
                let f = choose|f: nat|
                    import_effect(
                        pl,
                        id,
                        bag,
                        q,
                        item.module,
                        item.thing_name,
                        item.line_number,
                        item.caller,
                        item.exports,
                        f,
                    ) is Some;
                lemma_continue_pops(
                    pl,
                    id,
                    bag,
                    q,
                    item.module,
                    item.thing_name,
                    item.line_number,
                    item.caller,
                    item.exports,
                    f,
                );
                let q2 = e.0;
                assert forall|j: int| 0 <= j < q2.pending.len() implies import_ends(
                    pl,
                    id,
                    bag,
                    q2,
                    #[trigger] q2.pending[j].module,
                    q2.pending[j].thing_name,
                    q2.pending[j].line_number,
                    q2.pending[j].caller,
                    q2.pending[j].exports,
                ) by {
                    assert(q2.pending[j] == q.pending[j]);
                    let g = choose|g: nat|
                        import_effect(
                            pl,
                            id,
                            bag,
                            q,
                            q.pending[j].module,
                            q.pending[j].thing_name,
                            q.pending[j].line_number,
                            q.pending[j].caller,
                            q.pending[j].exports,
                            g,
                        ) is Some;
                    lemma_import_effect_queues(
                        pl,
                        id,
                        bag,
                        q,
                        q2,
                        q.pending[j].module,
                        q.pending[j].thing_name,
                        q.pending[j].line_number,
                        q.pending[j].caller,
                        q.pending[j].exports,
                        g,
                    );
                }
                lemma_pending_answers(pl, id, bag, q2, true);
            }
        }
    }
}

/// Resolving the pending imports answers that nothing was waiting only when no
/// import was waiting.
pub proof fn law_nothing_pending_only_when_empty<T>(
    pl: Map<Seq<char>, ParsedDocument>,
    id: Seq<char>,
    bag: Map<Seq<char>, Thing>,
    q: ImportQueues,
    r: Result<Option<StateWithThing<T>>, Error>,
)
    requires
        pending_end(pl, id, bag, q),
        pending_outcome_is(r, pending_effect(pl, id, bag, q, false).1),
        r matches Ok(None),
    ensures
        q.pending.len() == 0,
{
    if q.pending.len() > 0 {
        lemma_pending_answers(pl, id, bag, q, false);
    }
}

// ---------------------------------------------------------------- assets of 2021

/// In the 2021 edition too, the light-mode form of an image asset is the light image
/// of the asset, and its dark-mode form is the dark image: all three are served from
/// the same place.
pub proof fn law_image_modes_agree_2021(
    base_url: Seq<char>,
    package_name: Seq<char>,
    files: Seq<char>,
    plain: crate::ftd2021::Value,
    light: crate::ftd2021::Value,
    dark: crate::ftd2021::Value,
)
    requires
        !has_suffix(files, ".light"@),
        !has_suffix(files, ".dark"@),
        last_index_of(files, '.') matches Some(k) && is_image_ext(
            files.subrange(k + 1, files.len() as int),
        ),
        crate::ftd2021::asset_value_ok(plain, base_url, package_name, files),
        crate::ftd2021::asset_value_ok(light, base_url, package_name, files + ".light"@),
        crate::ftd2021::asset_value_ok(dark, base_url, package_name, files + ".dark"@),
    ensures
        exists|l: Seq<char>, d: Seq<char>|
            crate::ftd2021::is_image_src(plain, l, d) && crate::ftd2021::is_header_text(light, l)
                && crate::ftd2021::is_header_text(dark, d),
{
    reveal_strlit(".light");
    reveal_strlit(".dark");
    let fl = files + ".light"@;
    let fd = files + ".dark"@;
    assert(fl.subrange(fl.len() - 6, fl.len() as int) =~= ".light"@);
    assert(fl.subrange(0, fl.len() - 6) =~= files);
    assert(fd.subrange(fd.len() - 5, fd.len() as int) =~= ".dark"@);
    assert(fd.subrange(0, fd.len() - 5) =~= files);
    assert(!has_suffix(fd, ".light"@)) by {
        if has_suffix(fd, ".light"@) {
            assert(fd.subrange(fd.len() - 6, fd.len() as int)[5] == fd[fd.len() - 1]);
        }
    }
    assert(asset_mode(fl) == (files, true, false));
    assert(asset_mode(fd) == (files, false, true));
    assert(asset_mode(files) == (files, false, false));
    let k = last_index_of(files, '.')->0;
    let file = files.subrange(0, k);
    let ext = files.subrange(k + 1, files.len() as int);
    let path = crate::text::replace_char_spec(file, '.', "/"@);
    let light_url = crate::ftd2021::hosted_url(base_url, package_name, path + "."@ + ext);
    let dark_url = if has_suffix(file, "-dark"@) {
        light_url
    } else {
        crate::ftd2021::hosted_url(base_url, package_name, path + "-dark."@ + ext)
    };
    assert(crate::ftd2021::is_image_src(plain, light_url, dark_url));
}

// ---------------------------------------------------------------- sub-sections

/// Removing comments from a section keeps exactly its sub-sections that are not
/// commented out, in their order, each with its name and caption.
pub proof fn law_remove_comments_keeps_live_sub_sections(s: SectionView)
    ensures
        s.uncommented().sub_sections.len() == s.sub_sections.filter(is_live_sub_section()).len(),
        forall|k: int|
            0 <= k < s.uncommented().sub_sections.len() ==> {
                let before = s.sub_sections.filter(is_live_sub_section())[k];
                let after = #[trigger] s.uncommented().sub_sections[k];
                &&& after.name == before.name
                &&& after.caption == before.caption
                &&& !after.is_commented
            },
{
}

/// Removing comments from a section keeps its name and caption, and leaves it not
/// commented out.
pub proof fn law_remove_comments_keeps_name_and_caption(s: SectionView)
    ensures
        s.uncommented().name == s.name,
        s.uncommented().caption == s.caption,
        !s.uncommented().is_commented,
{
}

// ---------------------------------------------------------------- assets imports

/// Importing the assets of any package, the current one, a dependency or none known,
/// leaves the variable `files` of the module for the caller to resolve, and no function.
pub proof fn law_assets_leave_files_to_the_caller(
    p: crate::doc::ImportPlan,
    module: Seq<char>,
    package_name: Seq<char>,
    aliases: Seq<(String, String)>,
)
    requires
        crate::doc::import_plan_ok(p, module, package_name, aliases),
        has_suffix(module, "assets"@),
    ensures
        strings_view(p.foreign_variable@) == seq!["files"@],
        p.foreign_function@.len() == 0,
{
    reveal_strlit("assets");
    reveal_strlit("fastn/time");
    reveal_strlit("fastn/processors");
    if module == "fastn/time"@ {
        assert(module[module.len() - 1] == "assets"@[5]);
    }
    if module == "fastn/processors"@ {
        assert(module[module.len() - 2] == "assets"@[4]);
    }
}

/// In the 2021 edition, importing the assets of any package leaves the variables
/// `<module>#files` of the module for the caller to resolve.
pub proof fn law_assets_leave_files_to_the_caller_2021(
    p: crate::ftd2021::ImportPlan,
    module: Seq<char>,
    package_name: Seq<char>,
    aliases: Seq<(String, String)>,
)
    requires
        crate::ftd2021::import_plan_ok(p, module, package_name, aliases),
        has_suffix(module, "assets"@),
    ensures
        strings_view(p.foreign_variable_prefix@) == seq![module + "#files"@],
{
    reveal_strlit("assets");
    reveal_strlit("fastn/time");
    if module == "fastn/time"@ {
        assert(module[module.len() - 1] == "assets"@[5]);
    }
}

} // verus!

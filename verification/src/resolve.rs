//! How names are resolved: `doc#thing.field` names a thing of a document, and a
//! name without `#` is read in the document it stands in, through its aliases.
use vstd::prelude::*;
use crate::names::{text_map, NameMap};
use crate::text::{concat2, concat3, owned, trim_start_matches, trim_start_spec};

verus! {

broadcast use vstd::seq_lib::group_seq_properties;

/// `k` is the position of the first `c` in `s`.
pub open spec fn is_first_index(s: Seq<char>, c: char, k: int) -> bool {
    0 <= k < s.len() && s[k] == c && forall|j: int| 0 <= j < k ==> s[j] != c
}

/// `s` holds `c`.
pub open spec fn has_char(s: Seq<char>, c: char) -> bool {
    exists|k: int| 0 <= k < s.len() && s[k] == c
}

/// The position of the first `c` in `s`, when there is one.
pub open spec fn first_index(s: Seq<char>, c: char) -> int {
    choose|k: int| is_first_index(s, c, k)
}

/// `s` split at its first `c`, when it holds one.
pub open spec fn split_once_spec(s: Seq<char>, c: char) -> Option<(Seq<char>, Seq<char>)> {
    if has_char(s, c) {
        let k = first_index(s, c);
        Some((s.subrange(0, k), s.subrange(k + 1, s.len() as int)))
    } else {
        None
    }
}

pub(crate) proof fn lemma_first_index_unique(s: Seq<char>, c: char, k: int)
    requires
        is_first_index(s, c, k),
    ensures
        has_char(s, c),
        first_index(s, c) == k,
{
    assert(s[k] == c);
    let j = first_index(s, c);
    assert(is_first_index(s, c, j));
    if j < k {
        assert(s[j] != c);
    }
    if k < j {
        assert(s[k] != c);
    }
}

/// `s` split at its first `c`, when it holds one.
pub fn split_once(s: &str, c: char) -> (r: Option<(String, String)>)
    ensures
        match r {
            Some(p) => split_once_spec(s@, c) == Some((p.0@, p.1@)),
            None => split_once_spec(s@, c) is None,
        },
{
    let n = s.unicode_len();
    let mut i: usize = 0;
    while i < n
        invariant
            n == s@.len(),
            i <= n,
            forall|j: int| 0 <= j < i ==> s@[j] != c,
        decreases n - i,
    {
        if s.get_char(i) == c {
            proof {
                lemma_first_index_unique(s@, c, i as int);
            }
            let before = s.substring_char(0, i).to_owned();
            let after = s.substring_char(i + 1, n).to_owned();
            return Some((before, after));
        }
        i = i + 1;
    }
    None
}

/// Whether `s` holds `c`.
pub fn contains_char(s: &str, c: char) -> (r: bool)
    ensures
        r == has_char(s@, c),
{
    let n = s.unicode_len();
    let mut i: usize = 0;
    while i < n
        invariant
            n == s@.len(),
            i <= n,
            forall|j: int| 0 <= j < i ==> s@[j] != c,
        decreases n - i,
    {
        if s.get_char(i) == c {
            return true;
        }
        i = i + 1;
    }
    false
}

/// A name split at its dots: the module, the thing, and the rest after a second dot.
pub open spec fn split_module_spec(id: Seq<char>) -> (Option<Seq<char>>, Seq<char>, Option<Seq<char>>) {
    match split_once_spec(id, '.') {
        Some((p1, p2)) => match split_once_spec(p2, '.') {
            Some((p21, p22)) => (Some(p1), p21, Some(p22)),
            None => (Some(p1), p2, None),
        },
        None => (None, id, None),
    }
}

/// A name split at its dots: the module, the thing, and the rest after a second dot.
pub fn split_module(id: &str) -> (r: (Option<String>, String, Option<String>))
    ensures
        split_module_spec(id@) == (crate::text::opt_view(r.0), r.1@, crate::text::opt_view(r.2)),
{
    match split_once(id, '.') {
        Some((p1, p2)) => match split_once(p2.as_str(), '.') {
            Some((p21, p22)) => (Some(p1), p21, Some(p22)),
            None => (Some(p1), p2, None),
        },
        None => (None, owned(id), None),
    }
}

/// The full name `doc#thing` that `name` stands for in the document `doc_name`, whose
/// aliases are `aliases`: a name with `#` is already full; `m.v` and `m.v.c` use the
/// module aliased `m`, or are things of the document itself when `m` is no alias.
/// Leading `*$` and `$` markers are dropped first.
pub open spec fn resolve_name_spec(
    name: Seq<char>,
    doc_name: Seq<char>,
    aliases: Map<Seq<char>, Seq<char>>,
) -> Seq<char> {
    let n = trim_start_spec(trim_start_spec(name, "*$"@), "$"@);
    if has_char(n, '#') {
        n
    } else {
        match split_module_spec(n) {
            (Some(m), v, None) => if aliases.contains_key(m) {
                aliases[m] + "#"@ + v
            } else {
                doc_name + "#"@ + m + "."@ + v
            },
            (Some(m), v, Some(c)) => if aliases.contains_key(m) {
                aliases[m] + "#"@ + v + "."@ + c
            } else {
                doc_name + "#"@ + m + "."@ + v + "."@ + c
            },
            (None, v, _) => doc_name + "#"@ + v,
        }
    }
}

/// The full name `doc#thing` that `name` stands for in the document `doc_name`.
pub fn resolve_name(name: &str, doc_name: &str, aliases: &NameMap<String>) -> (r: String)
    ensures
        r@ == resolve_name_spec(name@, doc_name@, text_map(aliases@)),
{
    let a = trim_start_matches(name, "*$");
    let n = trim_start_matches(a.as_str(), "$");
    if contains_char(n.as_str(), '#') {
        return n;
    }
    match split_module(n.as_str()) {
        (Some(m), v, None) => match aliases.get(m.as_str()) {
            Some(target) => concat3(target.as_str(), "#", v.as_str()),
            None => {
                let mut r = concat3(doc_name, "#", m.as_str());
                r.append(".");
                r.append(v.as_str());
                r
            },
        },
        (Some(m), v, Some(c)) => match aliases.get(m.as_str()) {
            Some(target) => {
                let mut r = concat3(target.as_str(), "#", v.as_str());
                r.append(".");
                r.append(c.as_str());
                r
            },
            None => {
                let mut r = concat3(doc_name, "#", m.as_str());
                r.append(".");
                r.append(v.as_str());
                r.append(".");
                r.append(c.as_str());
                r
            },
        },
        (None, v, _) => concat3(doc_name, "#", v.as_str()),
    }
}

/// `s` split into the name up to its first dot after `#`, and what follows that dot.
pub open spec fn doc_name_and_remaining_spec(s: Seq<char>) -> (Seq<char>, Option<Seq<char>>) {
    let (part1, pattern) = match split_once_spec(s, '#') {
        Some((p1, p2)) => (p1 + "#"@, p2),
        None => (Seq::<char>::empty(), s),
    };
    match split_once_spec(pattern, '.') {
        Some((p1, p2)) => (part1 + p1, Some(p2)),
        None => (s, None),
    }
}

/// The document, the thing and what follows the thing that the full name `s` names;
/// a name without `#` is a thing of `doc_id`.
pub open spec fn doc_thing_remaining_spec(s: Seq<char>, doc_id: Seq<char>) -> (Seq<char>, Seq<char>, Option<Seq<char>>) {
    let (doc_name, remaining) = doc_name_and_remaining_spec(s);
    match split_once_spec(doc_name, '#') {
        Some((d, t)) => (d, t, remaining),
        None => (doc_id, doc_name, remaining),
    }
}

/// The document, the thing and what follows the thing that the full name `s` names.
pub fn get_doc_name_and_thing_name_and_remaining(
    s: &str,
    doc_id: &str,
    _line_number: usize,
) -> (r: (String, String, Option<String>))
    ensures
        doc_thing_remaining_spec(s@, doc_id@) == (r.0@, r.1@, crate::text::opt_view(r.2)),
{
    let (part1, pattern) = match split_once(s, '#') {
        Some((p1, p2)) => (concat2(p1.as_str(), "#"), p2),
        None => (String::new(), owned(s)),
    };
    let (doc_name, remaining) = match split_once(pattern.as_str(), '.') {
        Some((p1, p2)) => (concat2(part1.as_str(), p1.as_str()), Some(p2)),
        None => (owned(s), None),
    };
    assert((doc_name@, crate::text::opt_view(remaining)) == doc_name_and_remaining_spec(s@));
    match split_once(doc_name.as_str(), '#') {
        Some((d, t)) => (d, t, remaining),
        None => (owned(doc_id), doc_name, remaining),
    }
}

} // verus!

//! Sections of an FTD document: a name, an optional caption, headers, an optional
//! body and sub-sections. Keys and bodies that start with `/` are commented out; a
//! body that starts with `\/` is an escaped `/`.
use vstd::prelude::*;
use vstd::std_specs::cmp::PartialEqSpec;
use crate::text::{
    bool_text, bool_to_string, concat3, has_prefix, i32_to_string, int_decimal, opt_view, owned,
    starts_with_char, str_eq, suffix_from,
};

verus! {

broadcast use vstd::seq_lib::group_seq_properties, vstd::seq_lib::group_filter_ensures, Seq::lemma_filter_push;

// ---------------------------------------------------------------- model

/// A header entry as pure text: (key, value).
pub type HeaderEntry = (Seq<char>, Seq<char>);

/// A key that starts with `/` is commented out.
pub open spec fn is_comment_key(k: Seq<char>) -> bool {
    k.len() > 0 && k[0] == '/'
}

/// What a body becomes once its comment marker is handled: a body that starts with
/// `\/` loses the backslash, one that starts with `/` is dropped, any other stays.
pub open spec fn uncomment_body(b: Seq<char>) -> Option<Seq<char>> {
    if has_prefix(b, seq!['\\', '/']) {
        Some(b.drop_first())
    } else if has_prefix(b, seq!['/']) {
        None
    } else {
        Some(b)
    }
}

/// An optional body once its comment marker is handled.
pub open spec fn uncomment_opt_body(b: Option<Seq<char>>) -> Option<Seq<char>> {
    match b {
        Some(x) => uncomment_body(x),
        None => None,
    }
}

/// An entry whose key is not commented out.
pub open spec fn is_live_entry() -> spec_fn(HeaderEntry) -> bool {
    |e: HeaderEntry| !is_comment_key(e.0)
}

/// The entries of a header whose keys are not commented out, in order.
pub open spec fn live_entries(h: Seq<HeaderEntry>) -> Seq<HeaderEntry> {
    h.filter(is_live_entry())
}

/// The text of header entries.
pub open spec fn entries_view(v: Seq<(String, String)>) -> Seq<HeaderEntry> {
    v.map_values(|e: (String, String)| (e.0@, e.1@))
}

/// The value of the first entry, not commented out, whose key is `name`.
pub open spec fn header_lookup(h: Seq<HeaderEntry>, name: Seq<char>) -> Option<Seq<char>>
    decreases h.len(),
{
    if h.len() == 0 {
        None
    } else if !is_comment_key(h[0].0) && h[0].0 == name {
        Some(h[0].1)
    } else {
        header_lookup(h.drop_first(), name)
    }
}

/// A sub-section as pure values.
pub struct SubSectionView {
    pub name: Seq<char>,
    pub caption: Option<Seq<char>>,
    pub header: Seq<HeaderEntry>,
    pub body: Option<Seq<char>>,
    pub is_commented: bool,
}

/// A sub-section once its comments are removed.
pub open spec fn uncomment_sub_section(s: SubSectionView) -> SubSectionView {
    SubSectionView {
        name: s.name,
        caption: s.caption,
        header: live_entries(s.header),
        body: uncomment_opt_body(s.body),
        is_commented: false,
    }
}

/// A sub-section that is not commented out.
pub open spec fn is_live_sub_section() -> spec_fn(SubSectionView) -> bool {
    |x: SubSectionView| !x.is_commented
}

/// The sub-sections that are not commented out, each with its comments removed.
pub open spec fn live_sub_sections(s: Seq<SubSectionView>) -> Seq<SubSectionView> {
    s.filter(is_live_sub_section()).map_values(|x: SubSectionView| uncomment_sub_section(x))
}

/// The views of sub-sections.
pub open spec fn sub_sections_view(v: Seq<SubSection>) -> Seq<SubSectionView> {
    v.map_values(|s: SubSection| s@)
}

/// The sub-section `s` is live and named `name`.
pub open spec fn is_named_live(s: SubSectionView, name: Seq<char>) -> bool {
    !s.is_commented && s.name == name
}

/// A sub-section that is live and named `name`.
pub open spec fn named_live(name: Seq<char>) -> spec_fn(SubSectionView) -> bool {
    |x: SubSectionView| is_named_live(x, name)
}

/// How many sub-sections are live and named `name`.
pub open spec fn count_named(s: Seq<SubSectionView>, name: Seq<char>) -> nat {
    s.filter(named_live(name)).len()
}

/// A section as pure values.
pub struct SectionView {
    pub name: Seq<char>,
    pub caption: Option<Seq<char>>,
    pub header: Seq<HeaderEntry>,
    pub body: Option<Seq<char>>,
    pub sub_sections: Seq<SubSectionView>,
    pub is_commented: bool,
}

impl SectionView {
    /// The same section with one more header entry at the end.
    pub open spec fn with_header(self, k: Seq<char>, v: Seq<char>) -> SectionView {
        SectionView { header: self.header.push((k, v)), ..self }
    }

    /// The same section with the caption set.
    pub open spec fn with_caption(self, c: Option<Seq<char>>) -> SectionView {
        SectionView { caption: c, ..self }
    }

    /// The same section with the body set.
    pub open spec fn with_body(self, b: Option<Seq<char>>) -> SectionView {
        SectionView { body: b, ..self }
    }

    /// The same section with its comments removed.
    pub open spec fn uncommented(self) -> SectionView {
        SectionView {
            name: self.name,
            caption: self.caption,
            header: live_entries(self.header),
            body: uncomment_opt_body(self.body),
            sub_sections: live_sub_sections(self.sub_sections),
            is_commented: false,
        }
    }
}

// ---------------------------------------------------------------- types

/// Errors of the section layer.
#[derive(Debug, Clone, PartialEq, Eq)]
pub enum Error {
    InvalidInput { message: String, context: String },
    MoreThanOneSubSections { key: String },
    NotFound { key: String },
}

/// The rendered form of a text, with the text as written.
#[derive(Debug, Clone, PartialEq, Eq, Default)]
pub struct Rendered {
    pub original: String,
    pub rendered: String,
}

/// Key-value headers of a section, in the order they were written.
#[derive(Debug, Clone, PartialEq, Eq, Default)]
pub struct Header(pub Vec<(String, String)>);

/// A sub-section of a section.
#[derive(Debug, Clone, PartialEq, Eq, Default)]
pub struct SubSection {
    pub name: String,
    pub caption: Option<String>,
    pub header: Header,
    pub body: Option<String>,
    pub is_commented: bool,
}

/// The sub-sections of a section, in order.
#[derive(Debug, Clone, PartialEq, Eq, Default)]
pub struct SubSections(pub Vec<SubSection>);

/// A section of an FTD document.
#[derive(Debug, Clone, PartialEq, Eq, Default)]
pub struct Section {
    pub name: String,
    pub caption: Option<String>,
    pub header: Header,
    pub body: Option<String>,
    pub sub_sections: SubSections,
    pub is_commented: bool,
}

impl View for Header {
    type V = Seq<HeaderEntry>;

    open spec fn view(&self) -> Seq<HeaderEntry> {
        entries_view(self.0@)
    }
}

impl View for SubSection {
    type V = SubSectionView;

    open spec fn view(&self) -> SubSectionView {
        SubSectionView {
            name: self.name@,
            caption: opt_view(self.caption),
            header: self.header@,
            body: opt_view(self.body),
            is_commented: self.is_commented,
        }
    }
}

impl View for SubSections {
    type V = Seq<SubSectionView>;

    open spec fn view(&self) -> Seq<SubSectionView> {
        sub_sections_view(self.0@)
    }
}

impl View for Section {
    type V = SectionView;

    open spec fn view(&self) -> SectionView {
        SectionView {
            name: self.name@,
            caption: opt_view(self.caption),
            header: self.header@,
            body: opt_view(self.body),
            sub_sections: self.sub_sections@,
            is_commented: self.is_commented,
        }
    }
}

/// Error messages of the section layer.
pub open spec fn caption_missing_msg() -> Seq<char> {
    "caption is missing"@
}

pub open spec fn body_missing_msg() -> Seq<char> {
    "body is missing"@
}

pub open spec fn not_expected_msg(key: Seq<char>) -> Seq<char> {
    seq!['\''] + key + "' is not expected"@
}

// ---------------------------------------------------------------- helpers

fn clone_opt(o: &Option<String>) -> (r: Option<String>)
    ensures
        opt_view(r) == opt_view(*o),
{
    match o {
        Some(s) => Some(s.clone()),
        None => None,
    }
}

fn uncomment_body_exec(body: &String) -> (r: Option<String>)
    ensures
        opt_view(r) == uncomment_body(body@),
{
    let b = body.as_str();
    let n = b.unicode_len();
    let escaped = n >= 2 && b.get_char(0) == '\\' && b.get_char(1) == '/';
    proof {
        if has_prefix(body@, seq!['\\', '/']) {
            assert(body@.subrange(0, 2)[0] == body@[0]);
            assert(body@.subrange(0, 2)[1] == body@[1]);
        }
        if has_prefix(body@, seq!['/']) {
            assert(body@.subrange(0, 1)[0] == body@[0]);
        }
    }
    if escaped {
        assert(body@.subrange(0, 2) =~= seq!['\\', '/']);
        Some(suffix_from(b, 1))
    } else if starts_with_char(b, '/') {
        assert(body@.subrange(0, 1) =~= seq!['/']);
        None
    } else {
        Some(owned(b))
    }
}

fn uncomment_opt_body_exec(body: &Option<String>) -> (r: Option<String>)
    ensures
        opt_view(r) == uncomment_opt_body(opt_view(*body)),
{
    match body {
        None => None,
        Some(b) => uncomment_body_exec(b),
    }
}

fn invalid_input(message: String) -> (e: Error)
    ensures
        e matches Error::InvalidInput { message: m, context: c } && m@ == message@ && c@
            == Seq::<char>::empty(),
{
    Error::InvalidInput { message, context: String::new() }
}

// ---------------------------------------------------------------- Header

impl Header {
    /// The entries whose keys are not commented out, in order.
    pub fn live(&self) -> (r: Header)
        ensures
            r@ == live_entries(self@),
    {
        let mut out: Vec<(String, String)> = Vec::new();
        let n = self.0.len();
        for i in 0..n
            invariant
                n == self.0.len(),
                entries_view(out@) == live_entries(self@.take(i as int)),
        {
            let k = &self.0[i].0;
            let v = &self.0[i].1;
            assert(self@.take(i + 1) =~= self@.take(i as int).push(self@[i as int]));
            let ghost before = out@;
            if !starts_with_char(k.as_str(), '/') {
                out.push((k.clone(), v.clone()));
                assert(entries_view(out@) =~= entries_view(before).push(self@[i as int]));
            }
        }
        assert(self@.take(n as int) =~= self@);
        Header(out)
    }

    /// The value of the first entry, not commented out, whose key is `name`.
    pub fn str_optional(&self, name: &str) -> (r: Result<Option<String>, Error>)
        ensures
            r is Ok,
            r matches Ok(v) && opt_view(v) == header_lookup(self@, name@),
    {
        let n = self.0.len();
        let mut i: usize = 0;
        while i < n
            invariant
                n == self.0.len(),
                i <= n,
                header_lookup(self@, name@) == header_lookup(self@.skip(i as int), name@),
            decreases n - i,
        {
            assert(self@.skip(i as int).drop_first() =~= self@.skip(i + 1));
            let k = &self.0[i].0;
            if !starts_with_char(k.as_str(), '/') && str_eq(k.as_str(), name) {
                return Ok(Some(self.0[i].1.clone()));
            }
            i = i + 1;
        }
        Ok(None)
    }
}

// ---------------------------------------------------------------- SubSection

impl SubSection {
    /// The body once its comment marker is handled.
    pub fn body_without_comment(&self) -> (r: Option<String>)
        ensures
            opt_view(r) == uncomment_opt_body(self@.body),
    {
        uncomment_opt_body_exec(&self.body)
    }

    /// The same sub-section with commented headers and a commented body removed.
    pub fn remove_comments(&self) -> (r: SubSection)
        ensures
            r@ == uncomment_sub_section(self@),
    {
        SubSection {
            name: self.name.clone(),
            caption: clone_opt(&self.caption),
            header: self.header.live(),
            body: self.body_without_comment(),
            is_commented: false,
        }
    }
}

// ---------------------------------------------------------------- Section

impl Section {
    /// The body once its comment marker is handled: `None` when there is no body or it is
    /// commented out.
    pub fn body_without_comment(&self) -> (r: Option<String>)
        ensures
            opt_view(r) == uncomment_opt_body(self@.body),
    {
        uncomment_opt_body_exec(&self.body)
    }

    /// The same section with commented headers, a commented body and commented
    /// sub-sections removed, and with each remaining sub-section's comments removed.
    pub fn remove_comments(&self) -> (r: Section)
        ensures
            r@ == self@.uncommented(),
    {
        let header = self.header.live();
        let body = uncomment_opt_body_exec(&self.body);
        let subs = &self.sub_sections.0;
        let n = subs.len();
        let mut out: Vec<SubSection> = Vec::new();
        for i in 0..n
            invariant
                n == subs.len(),
                subs == self.sub_sections.0,
                sub_sections_view(out@) == live_sub_sections(self.sub_sections@.take(i as int)),
        {
            assert(self.sub_sections@.take(i + 1) =~= self.sub_sections@.take(i as int).push(
                self.sub_sections@[i as int],
            ));
            let ghost before = out@;
            if !subs[i].is_commented {
                let s = subs[i].remove_comments();
                out.push(s);
                assert(sub_sections_view(out@) =~= sub_sections_view(before).push(
                    uncomment_sub_section(self.sub_sections@[i as int]),
                ));
            }
            assert(live_sub_sections(self.sub_sections@.take(i + 1)) =~= sub_sections_view(
                out@,
            ));
        }
        assert(self.sub_sections@.take(n as int) =~= self.sub_sections@);
        Section {
            name: self.name.clone(),
            caption: clone_opt(&self.caption),
            header,
            body,
            sub_sections: SubSections(out),
            is_commented: false,
        }
    }

    /// The caption; an `InvalidInput` error when there is none.
    pub fn caption(&self) -> (r: Result<String, Error>)
        ensures
            self@.caption is Some <==> r is Ok,
            r matches Ok(v) ==> Some(v@) == self@.caption,
            r matches Err(e) ==> e matches Error::InvalidInput { message, context } && message@
                == caption_missing_msg() && context@ == Seq::<char>::empty(),
    {
        match &self.caption {
            Some(v) => Ok(v.clone()),
            None => {
                proof {
                    reveal_strlit("caption is missing");
                }
                Err(invalid_input(owned("caption is missing")))
            },
        }
    }

    /// The body once its comment marker is handled; an `InvalidInput` error when there
    /// is none left.
    pub fn body(&self) -> (r: Result<String, Error>)
        ensures
            uncomment_opt_body(self@.body) is Some <==> r is Ok,
            r matches Ok(v) ==> Some(v@) == uncomment_opt_body(self@.body),
            r matches Err(e) ==> e matches Error::InvalidInput { message, context } && message@
                == body_missing_msg() && context@ == Seq::<char>::empty(),
    {
        match self.body_without_comment() {
            Some(v) => Ok(v),
            None => {
                proof {
                    reveal_strlit("body is missing");
                }
                Err(invalid_input(owned("body is missing")))
            },
        }
    }

    /// `Ok` when no header, not commented out, has the key `key`; an `InvalidInput`
    /// error naming the key otherwise.
    pub fn assert_missing(&self, key: &str) -> (r: Result<(), Error>)
        ensures
            header_lookup(self@.header, key@) is None <==> r is Ok,
            r matches Err(e) ==> e matches Error::InvalidInput { message, context } && message@
                == not_expected_msg(key@) && context@ == Seq::<char>::empty(),
    {
        let found = self.header.str_optional(key);
        match found {
            Ok(Some(_)) => {
                proof {
                    reveal_strlit("'");
                    reveal_strlit("' is not expected");
                }
                Err(invalid_input(concat3("'", key, "' is not expected")))
            },
            _ => Ok(()),
        }
    }

    /// A section with only a name.
    pub fn with_name(name: &str) -> (r: Self)
        ensures
            r@ == (SectionView {
                name: name@,
                caption: None,
                header: Seq::empty(),
                body: None,
                sub_sections: Seq::empty(),
                is_commented: false,
            }),
    {
        let r = Section {
            name: owned(name),
            caption: None,
            header: Header(Vec::new()),
            body: None,
            sub_sections: SubSections(Vec::new()),
            is_commented: false,
        };
        assert(r@.header =~= Seq::<HeaderEntry>::empty());
        assert(r@.sub_sections =~= Seq::<SubSectionView>::empty());
        r
    }

    /// The same section with the caption `caption`.
    pub fn and_caption(self, caption: &str) -> (r: Self)
        ensures
            r@ == self@.with_caption(Some(caption@)),
    {
        let mut s = self;
        s.caption = Some(owned(caption));
        s
    }

    /// The same section with the original text of `value` as caption, when there is a
    /// value; unchanged otherwise.
    pub fn and_optional_caption(self, value: &Option<Rendered>) -> (r: Self)
        ensures
            value is None ==> r@ == self@,
            value matches Some(v) ==> r@ == self@.with_caption(Some(v.original@)),
    {
        match value {
            Some(v) => self.and_caption(v.original.as_str()),
            None => self,
        }
    }

    /// The same section with the header `key: value` added at the end.
    pub fn add_header(self, key: &str, value: &str) -> (r: Self)
        ensures
            r@ == self@.with_header(key@, value@),
    {
        let mut s = self;
        s.header.0.push((owned(key), owned(value)));
        assert(s@.header =~= self@.header.push((key@, value@)));
        s
    }

    /// The same section with `key: true` or `key: false` added, when there is a value.
    pub fn add_optional_header_bool(self, key: &str, value: Option<bool>) -> (r: Self)
        ensures
            value is None ==> r@ == self@,
            value matches Some(v) ==> r@ == self@.with_header(key@, bool_text(v)),
    {
        match value {
            Some(v) => {
                let t = bool_to_string(v);
                self.add_header(key, t.as_str())
            },
            None => self,
        }
    }

    /// The same section with `key: <decimal value>` added, when there is a value.
    pub fn add_optional_header_i32(self, key: &str, value: &Option<i32>) -> (r: Self)
        ensures
            value is None ==> r@ == self@,
            value matches Some(v) ==> r@ == self@.with_header(key@, int_decimal(v as int)),
    {
        match value {
            Some(v) => {
                let t = i32_to_string(*v);
                self.add_header(key, t.as_str())
            },
            None => self,
        }
    }

    /// The same section with `key: <text of value>` added when `value` differs from
    /// `reference`; unchanged when they are equal.
    pub fn add_header_if_not_equal<T: std::fmt::Display + PartialEq>(
        self,
        key: &str,
        value: T,
        reference: T,
    ) -> (r: Self)
        ensures
            r@ == self@ || exists|t: String|
                vstd::string::to_string_from_display_ensures::<T>(&value, t) && r@
                    == self@.with_header(key@, t@),
            T::obeys_eq_spec() ==> (value.eq_spec(&reference) <==> r@ == self@),
    {
        if !value.eq(&reference) {
            let t = value.to_string();
            let ghost before = self@;
            let r = self.add_header(key, t.as_str());
            assert(r@.header.len() == before.header.len() + 1);
            assert(r@ != before);
            r
        } else {
            self
        }
    }

    /// The same section with `key: value` added, when there is a value.
    pub fn add_optional_header(self, key: &str, value: &Option<String>) -> (r: Self)
        ensures
            value is None ==> r@ == self@,
            value matches Some(v) ==> r@ == self@.with_header(key@, v@),
    {
        match value {
            Some(v) => self.add_header(key, v.as_str()),
            None => self,
        }
    }

    /// The same section with the body `body`.
    pub fn and_body(self, body: &str) -> (r: Self)
        ensures
            r@ == self@.with_body(Some(body@)),
    {
        let mut s = self;
        s.body = Some(owned(body));
        s
    }

    /// The same section with the body set to `body`, which may be none.
    pub fn and_optional_body(self, body: &Option<String>) -> (r: Self)
        ensures
            r@ == self@.with_body(opt_view(*body)),
    {
        let mut s = self;
        s.body = clone_opt(body);
        s
    }

    /// The same section with `sub` added as its last sub-section.
    pub fn add_sub_section(self, sub: SubSection) -> (r: Self)
        ensures
            r@ == (SectionView { sub_sections: self@.sub_sections.push(sub@), ..self@ }),
    {
        let mut s = self;
        let ghost sv = sub@;
        s.sub_sections.0.push(sub);
        assert(s@.sub_sections =~= self@.sub_sections.push(sv));
        s
    }

    /// The one live sub-section named `name`: `MoreThanOneSubSections` when several are,
    /// `NotFound` when none is.
    pub fn sub_section_by_name(&self, name: &str) -> (r: Result<&SubSection, Error>)
        ensures
            count_named(self@.sub_sections, name@) == 1 <==> r is Ok,
            r matches Ok(s) ==> is_named_live(s@, name@) && self@.sub_sections.contains(s@),
            count_named(self@.sub_sections, name@) > 1 <==> (r matches Err(
                Error::MoreThanOneSubSections { key },
            ) && key@ == name@),
            count_named(self@.sub_sections, name@) == 0 <==> (r matches Err(
                Error::NotFound { key },
            ) && key@ == name@),
    {
        let subs = &self.sub_sections.0;
        let n = subs.len();
        let mut count: usize = 0;
        for i in 0..n
            invariant
                n == subs.len(),
                subs == self.sub_sections.0,
                count == self.sub_sections@.take(i as int).filter(named_live(name@)).len(),
                count <= i,
        {
            assert(self.sub_sections@.take(i + 1) =~= self.sub_sections@.take(i as int).push(
                self.sub_sections@[i as int],
            ));
            assert(self.sub_sections@[i as int] == subs@[i as int]@);
            assert(named_live(name@)(self.sub_sections@[i as int]) == is_named_live(
                self.sub_sections@[i as int],
                name@,
            ));
            if !subs[i].is_commented && str_eq(subs[i].name.as_str(), name) {
                count = count + 1;
            }
        }
        assert(self.sub_sections@.take(n as int) =~= self.sub_sections@);
        if count > 1 {
            return Err(Error::MoreThanOneSubSections { key: owned(name) });
        }
        let mut j: usize = 0;
        while j < n
            invariant
                n == subs.len(),
                subs == self.sub_sections.0,
                j <= n,
                count == self.sub_sections@.filter(named_live(name@)).len(),
                count <= 1,
                forall|k: int| 0 <= k < j ==> !is_named_live(#[trigger] self.sub_sections@[k], name@),
            decreases n - j,
        {
            if !subs[j].is_commented && str_eq(subs[j].name.as_str(), name) {
                proof {
                    assert(self.sub_sections@[j as int] == subs[j as int]@);
                    assert(named_live(name@)(self.sub_sections@[j as int]));
                    self.sub_sections@.lemma_filter_contains(named_live(name@), j as int);
                    assert(self.sub_sections@.filter(named_live(name@)).len() > 0);
                    assert(self.sub_sections@.contains(subs[j as int]@));
                }
                return Ok(&subs[j]);
            }
            assert(self.sub_sections@[j as int] == subs@[j as int]@);
            j = j + 1;
        }
        proof {
            if self.sub_sections@.filter(named_live(name@)).len() > 0 {
                let x = self.sub_sections@.filter(named_live(name@))[0];
                self.sub_sections@.lemma_filter_pred(named_live(name@), 0);
                assert(self.sub_sections@.filter(named_live(name@)).contains(x));
                self.sub_sections@.lemma_filter_contains_rev(named_live(name@), x);
                let k = choose|k: int| 0 <= k < n && self.sub_sections@[k] == x;
                assert(is_named_live(self.sub_sections@[k], name@));
            }
        }
        Err(Error::NotFound { key: owned(name) })
    }

    /// The section as a list of one.
    pub fn list(self) -> (r: Vec<Self>)
        ensures
            r@.len() == 1,
            r@[0] == self,
    {
        vec![self]
    }
}

} // verus!

//! How a document's imports and foreign variables are resolved: which source an
//! import reads and which names stay for the caller to resolve, and the URLs that a
//! package's assets are served under.
use vstd::prelude::*;
use crate::ast::strings_view;
use crate::interpreter::Error;
use crate::names::{with_key, NameMap};
use crate::text::{
    concat2, concat3, ends_with, has_prefix, has_suffix, last_index_of, owned, replace_char,
    replace_char_spec, rsplit_once_char, starts_with, str_eq, strip_suffix, trim_end_matches,
    trim_end_spec, trim_start_matches, trim_start_spec,
};
use crate::value::{image_src, is_image_src, is_text, text_value, Value};

verus! {

// ---------------------------------------------------------------- media types

/// The media type that `mime_guess` guesses first for a file extension, or
/// `application/octet-stream` when it knows none.
pub uninterp spec fn guessed_media_type(ext: Seq<char>) -> Seq<char>;

/// `mime_guess::MimeGuess::from_ext(ext).first_or_octet_stream()`, as text. Its result
/// is the first media type the crate's table lists for the extension (compared without
/// regard to case), or `application/octet-stream` for an empty extension or one the
/// table lacks; the table itself is not restated here.
#[verifier::external_body]
fn media_type_of_ext(ext: &str) -> (r: String)
    ensures
        r@ == guessed_media_type(ext@),
        ext@.len() == 0 ==> r@ == "application/octet-stream"@,
{
    mime_guess::MimeGuess::from_ext(ext).first_or_octet_stream().to_string()
}

/// Whether files with extension `ext` are images.
pub open spec fn is_image_ext(ext: Seq<char>) -> bool {
    has_prefix(guessed_media_type(ext), "image/"@)
}

/// Whether files with the extension `ext` are images.
pub fn ext_is_image(ext: &str) -> (r: bool)
    ensures
        r == is_image_ext(ext@),
{
    let t = media_type_of_ext(ext);
    starts_with(t.as_str(), "image/")
}

// ---------------------------------------------------------------- assets

/// The asset name without its `.light` or `.dark` ending, and which of them it had.
pub open spec fn asset_mode(files: Seq<char>) -> (Seq<char>, bool, bool) {
    if has_suffix(files, ".light"@) {
        (files.subrange(0, files.len() - 6), true, false)
    } else if has_suffix(files, ".dark"@) {
        (files.subrange(0, files.len() - 5), false, true)
    } else {
        (files, false, false)
    }
}

/// The URL of the file `file.ext` of a package: the dots of `file` become slashes.
pub open spec fn asset_url(package_name: Seq<char>, file: Seq<char>, ext: Seq<char>) -> Seq<char> {
    "-/"@ + package_name + "/"@ + replace_char_spec(file, '.', "/"@) + "."@ + ext
}

/// The URL of the dark-mode form of the image `file.ext`: `file-dark.ext`, unless
/// `file` already ends with `-dark`.
pub open spec fn dark_asset_url(package_name: Seq<char>, file: Seq<char>, ext: Seq<char>) -> Seq<char> {
    if has_suffix(file, "-dark"@) {
        asset_url(package_name, file, ext)
    } else {
        "-/"@ + package_name + "/"@ + replace_char_spec(file, '.', "/"@) + "-dark."@ + ext
    }
}

/// The value of the asset `files` of the package `package_name`: for an image, its
/// light-mode URL, its dark-mode URL, or both as an `ftd#image-src` record; for any
/// other file, its URL.
pub open spec fn asset_value_ok(v: Value, package_name: Seq<char>, files: Seq<char>) -> bool {
    let (f, light, dark) = asset_mode(files);
    match last_index_of(f, '.') {
        Some(k) => {
            let file = f.subrange(0, k);
            let ext = f.subrange(k + 1, f.len() as int);
            if is_image_ext(ext) {
                if light {
                    is_text(v, asset_url(package_name, file, ext))
                } else if dark {
                    is_text(v, dark_asset_url(package_name, file, ext))
                } else {
                    is_image_src(
                        v,
                        asset_url(package_name, file, ext),
                        dark_asset_url(package_name, file, ext),
                    )
                }
            } else {
                is_text(v, asset_url(package_name, file, ext))
            }
        },
        None => is_text(v, "-/"@ + package_name + "/"@ + f),
    }
}

fn asset_url_exec(package_name: &str, file: &str, ext: &str) -> (r: String)
    ensures
        r@ == asset_url(package_name@, file@, ext@),
{
    let mut r = concat3("-/", package_name, "/");
    let path = replace_char(file, '.', "/");
    r.append(path.as_str());
    r.append(".");
    r.append(ext);
    r
}

fn dark_asset_url_exec(package_name: &str, file: &str, ext: &str) -> (r: String)
    ensures
        r@ == dark_asset_url(package_name@, file@, ext@),
{
    if ends_with(file, "-dark") {
        asset_url_exec(package_name, file, ext)
    } else {
        let mut r = concat3("-/", package_name, "/");
        let path = replace_char(file, '.', "/");
        r.append(path.as_str());
        r.append("-dark.");
        r.append(ext);
        r
    }
}

/// The value of the asset `files` of the package `package_name`, as the pages of the
/// package refer to it.
pub fn asset_value(package_name: &str, files: &str) -> (r: Value)
    ensures
        asset_value_ok(r, package_name@, files@),
{
    proof {
        reveal_strlit(".light");
        reveal_strlit(".dark");
    }
    let (f, light, dark) = match strip_suffix(files, ".light") {
        Some(f) => (f, true, false),
        None => match strip_suffix(files, ".dark") {
            Some(f) => (f, false, true),
            None => (owned(files), false, false),
        },
    };
    assert((f@, light, dark) == asset_mode(files@));
    match rsplit_once_char(f.as_str(), '.') {
        Some((file, ext)) => {
            if ext_is_image(ext.as_str()) {
                let light_url = asset_url_exec(package_name, file.as_str(), ext.as_str());
                if light {
                    return text_value(light_url);
                }
                let dark_url = dark_asset_url_exec(package_name, file.as_str(), ext.as_str());
                if dark {
                    return text_value(dark_url);
                }
                image_src(light_url, dark_url)
            } else {
                text_value(asset_url_exec(package_name, file.as_str(), ext.as_str()))
            }
        },
        None => {
            let mut t = concat3("-/", package_name, "/");
            t.append(f.as_str());
            text_value(t)
        },
    }
}

// ---------------------------------------------------------------- downloaded assets

/// Where the dark form of an image comes from when assets are downloaded: a value
/// kept from an earlier download, the dark file just written, or no dark file.
#[derive(Debug, Clone, PartialEq, Eq)]
pub enum DarkSource {
    Cached(String),
    Written,
    Missing,
}

/// The files of an asset to fetch when assets are downloaded, relative to its
/// package: the file itself, and the dark form of an image when one is looked for.
#[derive(Debug, Clone, PartialEq, Eq)]
pub struct AssetFiles {
    pub path: String,
    pub dark_path: Option<String>,
}

/// Whether the dark form of the image `file.ext` is looked for: it is asked for in
/// both modes or in the dark one, and `file` is not already a dark form.
pub open spec fn looks_for_dark(files: Seq<char>) -> bool {
    let (f, light, _dark) = asset_mode(files);
    match last_index_of(f, '.') {
        Some(k) => is_image_ext(f.subrange(k + 1, f.len() as int)) && !light && !has_suffix(
            f.subrange(0, k),
            "-dark"@,
        ),
        None => false,
    }
}

/// The files to fetch for the asset `files`.
pub open spec fn asset_files_ok(a: AssetFiles, files: Seq<char>) -> bool {
    let (f, _light, _dark) = asset_mode(files);
    match last_index_of(f, '.') {
        Some(k) => {
            let path = replace_char_spec(f.subrange(0, k), '.', "/"@);
            let ext = f.subrange(k + 1, f.len() as int);
            &&& a.path@ == path + "."@ + ext
            &&& if looks_for_dark(files) {
                a.dark_path matches Some(d) && d@ == path + "-dark."@ + ext
            } else {
                a.dark_path is None
            }
        },
        None => a.path@ == f && a.dark_path is None,
    }
}

/// The files of the asset `files` to fetch, relative to its package.
pub fn asset_files(files: &str) -> (r: AssetFiles)
    ensures
        asset_files_ok(r, files@),
{
    proof {
        reveal_strlit(".light");
        reveal_strlit(".dark");
    }
    let (f, light, _dark) = match strip_suffix(files, ".light") {
        Some(f) => (f, true, false),
        None => match strip_suffix(files, ".dark") {
            Some(f) => (f, false, true),
            None => (owned(files), false, false),
        },
    };
    assert((f@, light, _dark) == asset_mode(files@));
    match rsplit_once_char(f.as_str(), '.') {
        Some((file, ext)) => {
            let path = replace_char(file.as_str(), '.', "/");
            let light_path = concat3(path.as_str(), ".", ext.as_str());
            let dark_path = if ext_is_image(ext.as_str()) && !light && !ends_with(file.as_str(), "-dark") {
                Some(concat3(path.as_str(), "-dark.", ext.as_str()))
            } else {
                None
            };
            AssetFiles { path: light_path, dark_path }
        },
        None => AssetFiles { path: f, dark_path: None },
    }
}

/// The value of the asset `files` of the package `package_name` once its files are
/// downloaded: as [`asset_value`] gives it, but where the dark form of an image is
/// looked for, the dark URL is the cached one, the dark file's when it was written,
/// or the light URL when there is no dark file.
pub open spec fn downloaded_asset_value_ok(v: Value, package_name: Seq<char>, files: Seq<char>, dark: DarkSource) -> bool {
    if looks_for_dark(files) {
        let (f, _light, darkm) = asset_mode(files);
        let k = last_index_of(f, '.')->0;
        let file = f.subrange(0, k);
        let ext = f.subrange(k + 1, f.len() as int);
        let light_url = asset_url(package_name, file, ext);
        let dark_url = match dark {
            DarkSource::Cached(c) => c@,
            DarkSource::Written => dark_asset_url(package_name, file, ext),
            DarkSource::Missing => light_url,
        };
        if darkm {
            is_text(v, dark_url)
        } else {
            is_image_src(v, light_url, dark_url)
        }
    } else {
        asset_value_ok(v, package_name, files)
    }
}

/// The value of the asset `files` of the package `package_name` once its files are
/// downloaded, with `dark` telling where the dark form of an image came from.
pub fn downloaded_asset_value(package_name: &str, files: &str, dark: &DarkSource) -> (r: Value)
    ensures
        downloaded_asset_value_ok(r, package_name@, files@, *dark),
{
    proof {
        reveal_strlit(".light");
        reveal_strlit(".dark");
    }
    let (f, light, darkm) = match strip_suffix(files, ".light") {
        Some(f) => (f, true, false),
        None => match strip_suffix(files, ".dark") {
            Some(f) => (f, false, true),
            None => (owned(files), false, false),
        },
    };
    assert((f@, light, darkm) == asset_mode(files@));
    if let Some((file, ext)) = rsplit_once_char(f.as_str(), '.') {
        if ext_is_image(ext.as_str()) && !light && !ends_with(file.as_str(), "-dark") {
            let light_url = asset_url_exec(package_name, file.as_str(), ext.as_str());
            let dark_url = match dark {
                DarkSource::Cached(c) => c.clone(),
                DarkSource::Written => dark_asset_url_exec(package_name, file.as_str(), ext.as_str()),
                DarkSource::Missing => owned(light_url.as_str()),
            };
            if darkm {
                return text_value(dark_url);
            }
            return image_src(light_url, dark_url);
        }
    }
    asset_value(package_name, files)
}

// ---------------------------------------------------------------- foreign variables

/// The message when a foreign variable cannot be resolved.
pub open spec fn not_found_2_msg(variable: Seq<char>) -> Seq<char> {
    variable + " not found 2"@
}

/// The first alias, in order, that equals `name`, with its package.
pub open spec fn alias_index(aliases: Seq<(String, String)>, name: Seq<char>) -> Option<int>
    decreases aliases.len(),
{
    if aliases.len() == 0 {
        None
    } else {
        match alias_index(aliases.drop_last(), name) {
            Some(i) => Some(i),
            None => if aliases.last().0@ == name {
                Some(aliases.len() - 1)
            } else {
                None
            },
        }
    }
}

/// The value of the foreign variable `variable` of the document `doc_name`, asked for
/// from a document of the package `package_name`, whose dependencies are `aliases`
/// (alias, package name):
/// - `fastn/time#now-str` is `now`, what the clock said;
/// - `files.<asset>` of `<package>/assets` is the asset of that package, when it is the
///   current package or one of its aliases;
/// - anything else is a `ParseError`.
pub fn resolve_foreign_variable2022(
    variable: &str,
    doc_name: &str,
    package_name: &str,
    aliases: &Vec<(String, String)>,
    now: &str,
) -> (r: Result<Value, Error>)
    ensures
        variable@ == "fastn/time#now-str"@ ==> r is Ok && is_text(r->Ok_0, now@),
        variable@ != "fastn/time#now-str"@ ==> ({
            let files = trim_start_spec(variable@, "files."@);
            let owner = trim_end_spec(doc_name@, "/assets"@);
            if has_prefix(variable@, "files."@) && owner == package_name@ {
                r is Ok && asset_value_ok(r->Ok_0, package_name@, files)
            } else if has_prefix(variable@, "files."@) && alias_index(aliases@, owner) is Some {
                r is Ok && asset_value_ok(
                    r->Ok_0,
                    aliases@[alias_index(aliases@, owner)->0].1@,
                    files,
                )
            } else {
                r == Err::<Value, Error>(Error::ParseError {
                    message: r->Err_0->ParseError_message,
                    doc_id: r->Err_0->ParseError_doc_id,
                    line_number: 0,
                }) && r->Err_0->ParseError_message@ == not_found_2_msg(variable@)
                    && r->Err_0->ParseError_doc_id@ == doc_name@
            }
        }),
{
    if str_eq(variable, "fastn/time#now-str") {
        return Ok(text_value(owned(now)));
    }
    if starts_with(variable, "files.") {
        let files = trim_start_matches(variable, "files.");
        let owner = trim_end_matches(doc_name, "/assets");
        if str_eq(package_name, owner.as_str()) {
            return Ok(asset_value(package_name, files.as_str()));
        }
        let n = aliases.len();
        let mut i: usize = 0;
        while i < n
            invariant
                n == aliases@.len(),
                i <= n,
                alias_index(aliases@.take(i as int), owner@) is None,
                variable@ != "fastn/time#now-str"@,
                has_prefix(variable@, "files."@),
                files@ == trim_start_spec(variable@, "files."@),
                owner@ == trim_end_spec(doc_name@, "/assets"@),
                owner@ != package_name@,
            decreases n - i,
        {
            assert(aliases@.take(i + 1).drop_last() =~= aliases@.take(i as int));
            if str_eq(aliases[i].0.as_str(), owner.as_str()) {
                proof {
                    lemma_alias_index_prefix(aliases@, (i + 1) as int, owner@);
                }
                return Ok(asset_value(aliases[i].1.as_str(), files.as_str()));
            }
            i = i + 1;
        }
        assert(aliases@.take(n as int) =~= aliases@);
    }
    Err(
        Error::ParseError {
            message: concat2(variable, " not found 2"),
            doc_id: owned(doc_name),
            line_number: 0,
        },
    )
}

/// What fetching the files of an asset from one package gave: they could not be
/// fetched or written, or they were, with where the dark form came from.
#[derive(Debug, Clone, PartialEq, Eq)]
pub enum AssetOutcome {
    Failed,
    Fetched(DarkSource),
}

/// The next step of resolving a foreign variable when assets are downloaded: fetch the
/// asset `files` from the package `package`, or the answer.
#[derive(Debug, Clone, PartialEq, Eq)]
pub enum ForeignStep<T> {
    Fetch { package: String, files: String },
    Done(T),
}

/// The first outcome that fetched the files.
pub open spec fn first_fetched(o: Seq<AssetOutcome>) -> Option<int>
    decreases o.len(),
{
    if o.len() == 0 {
        None
    } else {
        match first_fetched(o.drop_last()) {
            Some(i) => Some(i),
            None => if o.last() is Fetched {
                Some(o.len() - 1)
            } else {
                None
            },
        }
    }
}

pub(crate) proof fn lemma_first_fetched_prefix(o: Seq<AssetOutcome>, k: int)
    requires
        0 <= k <= o.len(),
        first_fetched(o.take(k)) is Some,
    ensures
        first_fetched(o) == first_fetched(o.take(k)),
    decreases o.len() - k,
{
    if k < o.len() {
        assert(o.take(k + 1).drop_last() =~= o.take(k));
        lemma_first_fetched_prefix(o, k + 1);
    } else {
        assert(o.take(k) =~= o);
    }
}

/// The packages whose assets the document `doc_name` names, in the order they are
/// tried: the current package `package_name`, when it is that document's package, then
/// the package of the first alias that is.
pub open spec fn asset_packages(doc_name: Seq<char>, package_name: Seq<char>, aliases: Seq<(String, String)>) -> Seq<Seq<char>> {
    let owner = trim_end_spec(doc_name, "/assets"@);
    (if owner == package_name { seq![package_name] } else { Seq::empty() }) + match alias_index(
        aliases,
        owner,
    ) {
        Some(i) => seq![aliases[i].1@],
        None => Seq::empty(),
    }
}

fn asset_packages_exec(doc_name: &str, package_name: &str, aliases: &Vec<(String, String)>) -> (r: Vec<String>)
    ensures
        strings_view(r@) == asset_packages(doc_name@, package_name@, aliases@),
{
    let owner = trim_end_matches(doc_name, "/assets");
    let mut r: Vec<String> = Vec::new();
    if str_eq(package_name, owner.as_str()) {
        r.push(owned(package_name));
    }
    let ghost first = strings_view(r@);
    let n = aliases.len();
    let mut i: usize = 0;
    while i < n
        invariant
            n == aliases@.len(),
            i <= n,
            alias_index(aliases@.take(i as int), owner@) is None,
            strings_view(r@) == first,
            owner@ == trim_end_spec(doc_name@, "/assets"@),
            first == (if owner@ == package_name@ { seq![package_name@] } else { Seq::<Seq<char>>::empty() }),
        decreases n - i,
    {
        assert(aliases@.take(i + 1).drop_last() =~= aliases@.take(i as int));
        if str_eq(aliases[i].0.as_str(), owner.as_str()) {
            proof {
                lemma_alias_index_prefix(aliases@, (i + 1) as int, owner@);
            }
            r.push(aliases[i].1.clone());
            assert(strings_view(r@) =~= asset_packages(doc_name@, package_name@, aliases@));
            return r;
        }
        i = i + 1;
    }
    assert(aliases@.take(n as int) =~= aliases@);
    assert(strings_view(r@) =~= asset_packages(doc_name@, package_name@, aliases@));
    r
}

/// The next step of resolving the foreign variable `variable` of the document
/// `doc_name` when assets are downloaded, asked for from a document of the package
/// `package_name`, whose dependencies are `aliases` (alias, package name). `outcomes`
/// holds what fetching the asset gave from each package tried so far, in the order of
/// [`asset_packages`]:
/// - `fastn/time#now-str` is `now`;
/// - for `files.<asset>`, the first package whose files were fetched gives the value,
///   as [`downloaded_asset_value`] makes it; while none has, the next package is
///   fetched from;
/// - when no package is left, or for anything else, a `ParseError`.
pub fn resolve_foreign_variable2022_step(
    variable: &str,
    doc_name: &str,
    package_name: &str,
    aliases: &Vec<(String, String)>,
    now: &str,
    outcomes: &Vec<AssetOutcome>,
) -> (r: ForeignStep<Result<Value, Error>>)
    requires
        outcomes@.len() <= asset_packages(doc_name@, package_name@, aliases@).len(),
    ensures
        variable@ == "fastn/time#now-str"@ ==> (r matches ForeignStep::Done(Ok(v)) && is_text(v, now@)),
        variable@ != "fastn/time#now-str"@ ==> ({
            let c = asset_packages(doc_name@, package_name@, aliases@);
            let files = trim_start_spec(variable@, "files."@);
            if has_prefix(variable@, "files."@) && first_fetched(outcomes@) is Some {
                let k = first_fetched(outcomes@)->0;
                r matches ForeignStep::Done(Ok(v)) && downloaded_asset_value_ok(
                    v,
                    c[k],
                    files,
                    outcomes@[k]->Fetched_0,
                )
            } else if has_prefix(variable@, "files."@) && outcomes@.len() < c.len() {
                r matches ForeignStep::Fetch { package, files: f } && package@ == c[outcomes@.len() as int]
                    && f@ == files
            } else {
                r matches ForeignStep::Done(Err(Error::ParseError { message, doc_id, line_number }))
                    && message@ == not_found_2_msg(variable@) && doc_id@ == doc_name@
                    && line_number == 0
            }
        }),
{
    if str_eq(variable, "fastn/time#now-str") {
        return ForeignStep::Done(Ok(text_value(owned(now))));
    }
    if starts_with(variable, "files.") {
        let files = trim_start_matches(variable, "files.");
        let c = asset_packages_exec(doc_name, package_name, aliases);
        let n = outcomes.len();
        let mut i: usize = 0;
        while i < n
            invariant
                n == outcomes@.len(),
                n <= c@.len(),
                i <= n,
                first_fetched(outcomes@.take(i as int)) is None,
                variable@ != "fastn/time#now-str"@,
                has_prefix(variable@, "files."@),
                files@ == trim_start_spec(variable@, "files."@),
                strings_view(c@) == asset_packages(doc_name@, package_name@, aliases@),
            decreases n - i,
        {
            assert(outcomes@.take(i + 1).drop_last() =~= outcomes@.take(i as int));
            if let AssetOutcome::Fetched(dark) = &outcomes[i] {
                proof {
                    lemma_first_fetched_prefix(outcomes@, (i + 1) as int);
                }
                assert(strings_view(c@)[i as int] == c@[i as int]@);
                return ForeignStep::Done(Ok(downloaded_asset_value(c[i].as_str(), files.as_str(), dark)));
            }
            i = i + 1;
        }
        assert(outcomes@.take(n as int) =~= outcomes@);
        if n < c.len() {
            assert(strings_view(c@)[n as int] == c@[n as int]@);
            return ForeignStep::Fetch { package: c[n].clone(), files };
        }
    }
    ForeignStep::Done(
        Err(
            Error::ParseError {
                message: concat2(variable, " not found 2"),
                doc_id: owned(doc_name),
                line_number: 0,
            },
        ),
    )
}

/// When an alias is found among the first `k` entries, it is the one found overall.
pub(crate) proof fn lemma_alias_index_prefix(aliases: Seq<(String, String)>, k: int, name: Seq<char>)
    requires
        0 <= k <= aliases.len(),
        alias_index(aliases.take(k), name) is Some,
    ensures
        alias_index(aliases, name) == alias_index(aliases.take(k), name),
    decreases aliases.len() - k,
{
    if k < aliases.len() {
        assert(aliases.take(k + 1).drop_last() =~= aliases.take(k));
        lemma_alias_index_prefix(aliases, k + 1, name);
    } else {
        assert(aliases.take(k) =~= aliases);
    }
}

// ---------------------------------------------------------------- imports

/// The processors that `fastn/processors` declares, for the caller to run.
pub open spec fn processor_functions() -> Seq<Seq<char>> {
    seq![
        "figma-typo-token"@,
        "figma-cs-token"@,
        "figma-cs-token-old"@,
        "http"@,
        "get-data"@,
        "toc"@,
        "sitemap"@,
        "full-sitemap"@,
        "request-data"@,
        "document-readers"@,
        "document-writers"@,
        "user-groups"@,
        "user-group-by-id"@,
        "get-identities"@,
        "document-id"@,
        "document-full-id"@,
        "document-suffix"@,
        "document-name"@,
        "user-details"@,
        "fastn-apps"@,
        "is-reader"@,
        "package-query"@,
        "pg"@,
        "package-tree"@,
        "fetch-file"@,
        "query"@,
    ]
}

/// The processors that any other document may use, for the caller to run.
pub open spec fn document_functions() -> Seq<Seq<char>> {
    seq![
        "figma-typo-token"@,
        "figma-cs-token"@,
        "figma-cs-token-old"@,
        "http"@,
        "package-query"@,
        "pg"@,
        "toc"@,
        "include"@,
        "get-data"@,
        "sitemap"@,
        "full-sitemap"@,
        "user-groups"@,
        "document-readers"@,
        "document-writers"@,
        "user-group-by-id"@,
        "get-identities"@,
        "document-id"@,
        "document-full-id"@,
        "document-name"@,
        "document-suffix"@,
        "package-id"@,
        "package-tree"@,
        "fetch-file"@,
        "get-version-data"@,
        "cr-meta"@,
        "request-data"@,
        "user-details"@,
        "fastn-apps"@,
        "is-reader"@,
    ]
}

/// The processors that `fastn/processors` declares.
pub fn processor_function_names() -> (v: Vec<String>)
    ensures
        strings_view(v@) == processor_functions(),
{
    let mut v: Vec<String> = Vec::new();
    v.push("figma-typo-token".to_owned());
    v.push("figma-cs-token".to_owned());
    v.push("figma-cs-token-old".to_owned());
    v.push("http".to_owned());
    v.push("get-data".to_owned());
    v.push("toc".to_owned());
    v.push("sitemap".to_owned());
    v.push("full-sitemap".to_owned());
    v.push("request-data".to_owned());
    v.push("document-readers".to_owned());
    v.push("document-writers".to_owned());
    v.push("user-groups".to_owned());
    v.push("user-group-by-id".to_owned());
    v.push("get-identities".to_owned());
    v.push("document-id".to_owned());
    v.push("document-full-id".to_owned());
    v.push("document-suffix".to_owned());
    v.push("document-name".to_owned());
    v.push("user-details".to_owned());
    v.push("fastn-apps".to_owned());
    v.push("is-reader".to_owned());
    v.push("package-query".to_owned());
    v.push("pg".to_owned());
    v.push("package-tree".to_owned());
    v.push("fetch-file".to_owned());
    v.push("query".to_owned());
    assert(strings_view(v@) =~= processor_functions());
    v
}

/// The processors that any other document may use.
pub fn document_function_names() -> (v: Vec<String>)
    ensures
        strings_view(v@) == document_functions(),
{
    let mut v: Vec<String> = Vec::new();
    v.push("figma-typo-token".to_owned());
    v.push("figma-cs-token".to_owned());
    v.push("figma-cs-token-old".to_owned());
    v.push("http".to_owned());
    v.push("package-query".to_owned());
    v.push("pg".to_owned());
    v.push("toc".to_owned());
    v.push("include".to_owned());
    v.push("get-data".to_owned());
    v.push("sitemap".to_owned());
    v.push("full-sitemap".to_owned());
    v.push("user-groups".to_owned());
    v.push("document-readers".to_owned());
    v.push("document-writers".to_owned());
    v.push("user-group-by-id".to_owned());
    v.push("get-identities".to_owned());
    v.push("document-id".to_owned());
    v.push("document-full-id".to_owned());
    v.push("document-name".to_owned());
    v.push("document-suffix".to_owned());
    v.push("package-id".to_owned());
    v.push("package-tree".to_owned());
    v.push("fetch-file".to_owned());
    v.push("get-version-data".to_owned());
    v.push("cr-meta".to_owned());
    v.push("request-data".to_owned());
    v.push("user-details".to_owned());
    v.push("fastn-apps".to_owned());
    v.push("is-reader".to_owned());
    assert(strings_view(v@) =~= document_functions());
    v
}

/// Where the source of an imported module comes from.
#[derive(Debug, Clone, PartialEq, Eq)]
pub enum ImportSource {
    /// No source: `fastn/time` only declares the foreign variable `time`.
    Time,
    /// The processor declarations that come with fastn.
    Processors,
    /// The font declarations of the current package.
    PackageFonts,
    /// The font declarations of the dependency `package`, imported under `alias`.
    DependencyFonts { alias: String, package: String },
    /// No source: no dependency's alias begins the module's name.
    NoFonts,
    /// The module's document, read through the library.
    Document,
}

/// How an import is resolved: its source, the path it is recorded under, and the
/// variables and functions that stay for the caller to resolve.
#[derive(Debug, Clone, PartialEq, Eq)]
pub struct ImportPlan {
    pub source: ImportSource,
    pub path: String,
    pub foreign_variable: Vec<String>,
    pub foreign_function: Vec<String>,
}

/// `a` comes before `b` in the order of strings: character by character, by code
/// point, a proper prefix first.
pub open spec fn text_lt(a: Seq<char>, b: Seq<char>) -> bool
    decreases a.len(),
{
    if a.len() == 0 {
        b.len() > 0
    } else if b.len() == 0 {
        false
    } else if a[0] != b[0] {
        (a[0] as int) < (b[0] as int)
    } else {
        text_lt(a.drop_first(), b.drop_first())
    }
}

/// The aliases are in the order of their names, each name once, as the keys of a
/// sorted map come.
pub open spec fn aliases_sorted(aliases: Seq<(String, String)>) -> bool {
    forall|i: int, j: int| 0 <= i < j < aliases.len() ==> text_lt(#[trigger] aliases[i].0@, #[trigger] aliases[j].0@)
}

/// The first alias, in order, that begins `module`.
pub open spec fn prefix_alias_index(aliases: Seq<(String, String)>, module: Seq<char>) -> Option<int>
    decreases aliases.len(),
{
    if aliases.len() == 0 {
        None
    } else {
        match prefix_alias_index(aliases.drop_last(), module) {
            Some(i) => Some(i),
            None => if has_prefix(module, aliases.last().0@) {
                Some(aliases.len() - 1)
            } else {
                None
            },
        }
    }
}

/// When an alias is found among the first `k` entries, it is the one found overall.
pub(crate) proof fn lemma_prefix_alias_index(aliases: Seq<(String, String)>, k: int, module: Seq<char>)
    requires
        0 <= k <= aliases.len(),
        prefix_alias_index(aliases.take(k), module) is Some,
    ensures
        prefix_alias_index(aliases, module) == prefix_alias_index(aliases.take(k), module),
    decreases aliases.len() - k,
{
    if k < aliases.len() {
        assert(aliases.take(k + 1).drop_last() =~= aliases.take(k));
        lemma_prefix_alias_index(aliases, k + 1, module);
    } else {
        assert(aliases.take(k) =~= aliases);
    }
}

/// The plan `p` is how `module` is imported by a document of the package
/// `package_name`, whose dependencies are `aliases` (alias, package name) in order.
pub open spec fn import_plan_ok(
    p: ImportPlan,
    module: Seq<char>,
    package_name: Seq<char>,
    aliases: Seq<(String, String)>,
) -> bool {
    if module == "fastn/time"@ {
        &&& p.source == ImportSource::Time
        &&& p.path@ == "$fastn$/time.ftd"@
        &&& strings_view(p.foreign_variable@) == seq!["time"@]
        &&& p.foreign_function@.len() == 0
    } else if module == "fastn/processors"@ {
        &&& p.source == ImportSource::Processors
        &&& p.path@ == "$fastn$/processors.ftd"@
        &&& p.foreign_variable@.len() == 0
        &&& strings_view(p.foreign_function@) == processor_functions()
    } else if has_suffix(module, "assets"@) {
        &&& strings_view(p.foreign_variable@) == seq!["files"@]
        &&& p.foreign_function@.len() == 0
        &&& if has_prefix(module, package_name) {
            &&& p.source == ImportSource::PackageFonts
            &&& p.path@ == package_name + "/-/assets.ftd"@
        } else {
            match prefix_alias_index(aliases, module) {
                Some(i) => {
                    &&& p.source matches ImportSource::DependencyFonts { alias, package }
                    &&& alias@ == aliases[i].0@
                    &&& package@ == aliases[i].1@
                    &&& p.path@ == aliases[i].1@ + "/-/fonts.ftd"@
                },
                None => p.source == ImportSource::NoFonts && p.path@.len() == 0,
            }
        }
    } else {
        &&& p.source == ImportSource::Document
        &&& p.path@.len() == 0
        &&& p.foreign_variable@.len() == 0
        &&& strings_view(p.foreign_function@) == document_functions()
    }
}

/// How `module` is imported by a document of the package `package_name`, whose
/// dependencies are `aliases` (alias, package name), in the order of their aliases.
/// For a document, the path is the one the library reads it from and is left empty here.
pub fn resolve_import_2022(
    module: &str,
    package_name: &str,
    aliases: &Vec<(String, String)>,
) -> (r: ImportPlan)
    requires
        aliases_sorted(aliases@),
    ensures
        import_plan_ok(r, module@, package_name@, aliases@),
{
    if str_eq(module, "fastn/time") {
        let mut v: Vec<String> = Vec::new();
        v.push("time".to_owned());
        assert(strings_view(v@) =~= seq!["time"@]);
        ImportPlan {
            source: ImportSource::Time,
            path: "$fastn$/time.ftd".to_owned(),
            foreign_variable: v,
            foreign_function: Vec::new(),
        }
    } else if str_eq(module, "fastn/processors") {
        ImportPlan {
            source: ImportSource::Processors,
            path: "$fastn$/processors.ftd".to_owned(),
            foreign_variable: Vec::new(),
            foreign_function: processor_function_names(),
        }
    } else if ends_with(module, "assets") {
        let mut v: Vec<String> = Vec::new();
        v.push("files".to_owned());
        assert(strings_view(v@) =~= seq!["files"@]);
        if starts_with(module, package_name) {
            return ImportPlan {
                source: ImportSource::PackageFonts,
                path: concat2(package_name, "/-/assets.ftd"),
                foreign_variable: v,
                foreign_function: Vec::new(),
            };
        }
        let n = aliases.len();
        let mut i: usize = 0;
        while i < n
            invariant
                n == aliases@.len(),
                i <= n,
                prefix_alias_index(aliases@.take(i as int), module@) is None,
                module@ != "fastn/time"@,
                module@ != "fastn/processors"@,
                has_suffix(module@, "assets"@),
                !has_prefix(module@, package_name@),
                strings_view(v@) == seq!["files"@],
            decreases n - i,
        {
            assert(aliases@.take(i + 1).drop_last() =~= aliases@.take(i as int));
            if starts_with(module, aliases[i].0.as_str()) {
                proof {
                    lemma_prefix_alias_index(aliases@, (i + 1) as int, module@);
                }
                return ImportPlan {
                    source: ImportSource::DependencyFonts {
                        alias: aliases[i].0.clone(),
                        package: aliases[i].1.clone(),
                    },
                    path: concat2(aliases[i].1.as_str(), "/-/fonts.ftd"),
                    foreign_variable: v,
                    foreign_function: Vec::new(),
                };
            }
            i = i + 1;
        }
        assert(aliases@.take(n as int) =~= aliases@);
        ImportPlan {
            source: ImportSource::NoFonts,
            path: String::new(),
            foreign_variable: v,
            foreign_function: Vec::new(),
        }
    } else {
        ImportPlan {
            source: ImportSource::Document,
            path: String::new(),
            foreign_variable: Vec::new(),
            foreign_function: document_function_names(),
        }
    }
}

// ---------------------------------------------------------------- interpreting a document

/// Where the interpreter stopped, as interpreting a document sees it. For a processor,
/// `processing_module` is the document the interpreter was processing, if any.
#[derive(Debug, Clone, PartialEq, Eq)]
pub enum HelperStop {
    Done,
    Import { module: String, caller_module: String },
    Processor { module: String, processor: String, line_number: usize, processing_module: Option<String> },
    ForeignVariable { module: String, variable: String, caller_module: String },
}

/// What happened since the last step of interpreting a document.
#[derive(Debug, Clone, PartialEq, Eq)]
pub enum HelperEvent {
    /// Interpreting the document `name` of the package `package_name` begins.
    Started { name: String, package_name: String },
    /// The interpreter stopped.
    Stopped(HelperStop),
    /// The imported module was read from the file `path`.
    ImportRead { module: String, path: String },
}

/// What to do next when interpreting a document.
#[derive(Debug, Clone, PartialEq, Eq)]
pub enum HelperAction {
    /// Parse the document and start the interpreter on it.
    Interpret,
    /// The interpreter is done: the document is the answer.
    Finish,
    /// Read the module `module` that `caller_module` imports.
    ResolveImport { module: String, caller_module: String },
    /// Parse the module read and continue the interpreter after the import.
    ContinueAfterImport { module: String },
    /// Run `processor` in the document `document`, for the item at `line_number`.
    RunProcessor { document: String, processor: String, line_number: usize },
    /// Resolve the foreign variable `variable` of `module` for `caller_module`.
    ResolveForeignVariable { variable: String, module: String, caller_module: String },
    /// Stop with this error.
    Fail(Error),
}

/// What interpreting a document keeps: the package each module belongs to, and the
/// files read for the imports, in order.
pub struct HelperState {
    pub module_package_map: NameMap<String>,
    pub dependencies: Vec<String>,
}

/// The next state and action of interpreting a document, from the state `s` and the
/// event `e`.
pub open spec fn helper_step_ok(s: HelperState, e: HelperEvent, t: HelperState, a: HelperAction) -> bool {
    match e {
        HelperEvent::Started { name, package_name } => {
            let key = trim_start_spec(trim_end_spec(name@, seq!['/']), seq!['/']);
            &&& crate::names::text_map(t.module_package_map@) == crate::names::text_map(s.module_package_map@).insert(key, package_name@)
            &&& t.module_package_map.key_order() == with_key(s.module_package_map.key_order(), key)
            &&& t.dependencies@ == s.dependencies@
            &&& a == HelperAction::Interpret
        },
        HelperEvent::Stopped(stop) => {
            &&& t.module_package_map == s.module_package_map
            &&& t.dependencies@ == s.dependencies@
            &&& match stop {
                HelperStop::Done => a == HelperAction::Finish,
                HelperStop::Import { module, caller_module } => a == (HelperAction::ResolveImport { module, caller_module }),
                HelperStop::Processor { module, processor, line_number, processing_module } => match processing_module {
                    Some(d) => a == (HelperAction::RunProcessor { document: d, processor, line_number }),
                    None => a matches HelperAction::Fail(Error::ValueNotFound { doc_id, line_number: l, message })
                        && doc_id == module && l == line_number && message@ == "Cannot find the module"@,
                },
                HelperStop::ForeignVariable { module, variable, caller_module } => a == (
                HelperAction::ResolveForeignVariable { variable, module, caller_module }),
            }
        },
        HelperEvent::ImportRead { module, path } => {
            &&& t.module_package_map == s.module_package_map
            &&& t.dependencies@ == s.dependencies@.push(path)
            &&& a == (HelperAction::ContinueAfterImport { module })
        },
    }
}

/// The next step of interpreting a document:
/// - when it starts, its name without slashes at the ends is entered as a module of
///   its package, and the document is interpreted;
/// - when the interpreter is done, that is the answer;
/// - when it stops on an import, the module is read; once read, its file is recorded
///   among the files the document depends on, and the interpreter continues;
/// - when it stops on a processor, the processor runs in the document being
///   processed; with none, `Cannot find the module` at the item's line;
/// - when it stops on a foreign variable, the variable is resolved.
pub fn helper_step(s: HelperState, e: HelperEvent) -> (r: (HelperState, HelperAction))
    ensures
        helper_step_ok(s, e, r.0, r.1),
{
    let mut s = s;
    match e {
        HelperEvent::Started { name, package_name } => {
            proof {
                reveal_strlit("/");
                assert("/"@ =~= seq!['/']);
            }
            let a = trim_end_matches(name.as_str(), "/");
            let key = trim_start_matches(a.as_str(), "/");
            let ghost before = s.module_package_map@;
            let ghost k = key@;
            s.module_package_map.insert(key, package_name);
            proof {
                crate::names::lemma_text_map_insert(before, k, s.module_package_map@[k]);
            }
            (s, HelperAction::Interpret)
        },
        HelperEvent::Stopped(stop) => {
            let a = match stop {
                HelperStop::Done => HelperAction::Finish,
                HelperStop::Import { module, caller_module } => HelperAction::ResolveImport { module, caller_module },
                HelperStop::Processor { module, processor, line_number, processing_module } => {
                    match processing_module {
                        Some(d) => HelperAction::RunProcessor { document: d, processor, line_number },
                        None => HelperAction::Fail(
                            Error::ValueNotFound {
                                doc_id: module,
                                line_number,
                                message: owned("Cannot find the module"),
                            },
                        ),
                    }
                },
                HelperStop::ForeignVariable { module, variable, caller_module } => {
                    HelperAction::ResolveForeignVariable { variable, module, caller_module }
                },
            };
            (s, a)
        },
        HelperEvent::ImportRead { module, path } => {
            s.dependencies.push(path);
            (s, HelperAction::ContinueAfterImport { module })
        },
    }
}

} // verus!

//! The 2021 edition of FTD: its values, and how its documents resolve the foreign
//! variables of a package's assets.
use vstd::prelude::*;
use crate::doc::{asset_mode, ext_is_image, is_image_ext, not_found_2_msg, alias_index, prefix_alias_index, ImportSource};
use crate::doc::{first_fetched, lemma_first_fetched_prefix, looks_for_dark, AssetFiles, AssetOutcome, DarkSource, ForeignStep};
use crate::ast::strings_view;
use crate::text::{has_prefix, starts_with};
use crate::text::{
    concat2, concat3, ends_with, has_suffix, last_index_of, owned, replace_char,
    replace_char_spec, rsplit_once_char, split_once_str, split_once_str_spec, str_eq,
    strip_suffix, trim_end_matches, trim_end_spec, trim_start_matches, trim_start_spec,
};

verus! {

/// Where a text value was written.
#[derive(Debug, Clone, Copy, PartialEq, Eq)]
pub enum TextSource {
    Header,
    Caption,
    Body,
    Default,
}

/// A value of the 2021 edition: a string, or a record with named fields.
#[derive(Debug, PartialEq, Eq)]
pub enum Value {
    String { text: String, source: TextSource },
    Record { name: String, fields: Vec<(String, PropertyValue)> },
}

/// A field of a record.
#[derive(Debug, PartialEq, Eq)]
pub enum PropertyValue {
    Value { value: Value },
}

/// Errors of the 2021 edition.
#[derive(Debug, Clone, PartialEq, Eq)]
pub enum Error {
    ParseError { message: String, doc_id: String, line_number: usize },
}

/// `v` is the header text `t`.
pub open spec fn is_header_text(v: Value, t: Seq<char>) -> bool {
    v matches Value::String { text, source } && text@ == t && source == TextSource::Header
}

/// `p` is the header text `t`.
pub open spec fn is_header_field(p: PropertyValue, t: Seq<char>) -> bool {
    p matches PropertyValue::Value { value } && is_header_text(value, t)
}

/// `v` is an `ftd#image-src` record of the images `light` and `dark`, fields in the
/// order of their names.
pub open spec fn is_image_src(v: Value, light: Seq<char>, dark: Seq<char>) -> bool {
    v matches Value::Record { name, fields } && name@ == "ftd#image-src"@ && fields@.len() == 2
        && fields@[0].0@ == "dark"@ && is_header_field(fields@[0].1, dark) && fields@[1].0@
        == "light"@ && is_header_field(fields@[1].1, light)
}

fn header_text(text: String) -> (r: Value)
    ensures
        is_header_text(r, text@),
{
    Value::String { text, source: TextSource::Header }
}

fn image_src(light: String, dark: String) -> (r: Value)
    ensures
        is_image_src(r, light@, dark@),
{
    let mut fields: Vec<(String, PropertyValue)> = Vec::new();
    fields.push(
        ("dark".to_owned(), PropertyValue::Value { value: Value::String { text: dark, source: TextSource::Header } }),
    );
    fields.push(
        ("light".to_owned(), PropertyValue::Value { value: Value::String { text: light, source: TextSource::Header } }),
    );
    Value::Record { name: "ftd#image-src".to_owned(), fields }
}

/// The URL, under `base_url` (without its trailing slashes), of an image of a package,
/// without leading slashes.
pub open spec fn hosted_url(base_url: Seq<char>, package_name: Seq<char>, path: Seq<char>) -> Seq<char> {
    trim_start_spec(
        trim_end_spec(base_url, seq!['/']) + "/-/"@ + package_name + "/"@ + path,
        seq!['/'],
    )
}

/// The value of the asset `files` of the package `package_name` in the 2021 edition:
/// images are served under `base_url`.
pub open spec fn asset_value_ok(v: Value, base_url: Seq<char>, package_name: Seq<char>, files: Seq<char>) -> bool {
    let (f, light, dark) = asset_mode(files);
    match last_index_of(f, '.') {
        Some(k) => {
            let file = f.subrange(0, k);
            let ext = f.subrange(k + 1, f.len() as int);
            let path = replace_char_spec(file, '.', "/"@);
            let light_url = hosted_url(base_url, package_name, path + "."@ + ext);
            let dark_url = if has_suffix(file, "-dark"@) {
                light_url
            } else {
                hosted_url(base_url, package_name, path + "-dark."@ + ext)
            };
            if is_image_ext(ext) {
                if light {
                    is_header_text(v, light_url)
                } else if dark {
                    is_header_text(v, dark_url)
                } else {
                    is_image_src(v, light_url, dark_url)
                }
            } else {
                is_header_text(v, "-/"@ + package_name + "/"@ + path + "."@ + ext)
            }
        },
        None => is_header_text(v, "-/"@ + package_name + "/"@ + f),
    }
}

fn hosted_url_exec(base_url: &str, package_name: &str, path: &str) -> (r: String)
    ensures
        r@ == hosted_url(base_url@, package_name@, path@),
{
    proof {
        reveal_strlit("/");
        assert("/"@ =~= seq!['/']);
    }
    let base = trim_end_matches(base_url, "/");
    let mut u = concat3(base.as_str(), "/-/", package_name);
    u.append("/");
    u.append(path);
    trim_start_matches(u.as_str(), "/")
}

/// The value of the asset `files` of the package `package_name`, with images served
/// under `base_url`.
pub fn asset_value(base_url: &str, package_name: &str, files: &str) -> (r: Value)
    ensures
        asset_value_ok(r, base_url@, package_name@, files@),
{
    proof {
        reveal_strlit(".light");
        reveal_strlit(".dark");
    }
    let (f, light, dark) = match strip_suffix(files, ".light") {
        Some(f) => (f, true, false),
        None => match strip_suffix(files, ".dark") {
            Some(f) => (f, false, true),
            None => (owned(files), false, false),
        },
    };
    assert((f@, light, dark) == asset_mode(files@));
    match rsplit_once_char(f.as_str(), '.') {
        Some((file, ext)) => {
            let path = replace_char(file.as_str(), '.', "/");
            if ext_is_image(ext.as_str()) {
                let light_path = concat3(path.as_str(), ".", ext.as_str());
                let light_url = hosted_url_exec(base_url, package_name, light_path.as_str());
                if light {
                    return header_text(light_url);
                }
                let dark_url = if ends_with(file.as_str(), "-dark") {
                    owned(light_url.as_str())
                } else {
                    let dark_path = concat3(path.as_str(), "-dark.", ext.as_str());
                    hosted_url_exec(base_url, package_name, dark_path.as_str())
                };
                if dark {
                    return header_text(dark_url);
                }
                image_src(light_url, dark_url)
            } else {
                let mut t = concat3("-/", package_name, "/");
                t.append(path.as_str());
                t.append(".");
                t.append(ext.as_str());
                header_text(t)
            }
        },
        None => {
            let mut t = concat3("-/", package_name, "/");
            t.append(f.as_str());
            header_text(t)
        },
    }
}

/// The value of the foreign variable `variable` of the document `doc_name`, asked for
/// from a document of the package `package_name`, whose dependencies are `aliases`
/// (alias, package name), with images served under `base_url`:
/// - `fastn/time#now-str` is `now`, what the clock said;
/// - `<package>/assets#files.<asset>` is the asset of that package, when it is the current
///   package or one of its aliases;
/// - anything else is a `ParseError`.
pub fn resolve_foreign_variable2(
    variable: &str,
    doc_name: &str,
    package_name: &str,
    aliases: &Vec<(String, String)>,
    base_url: &str,
    now: &str,
) -> (r: Result<Value, Error>)
    ensures
        variable@ == "fastn/time#now-str"@ ==> r is Ok && is_header_text(r->Ok_0, now@),
        variable@ != "fastn/time#now-str"@ ==> match split_once_str_spec(variable@, "/assets#files."@) {
            Some((owner, files)) => if owner == package_name@ {
                r is Ok && asset_value_ok(r->Ok_0, base_url@, package_name@, files)
            } else if alias_index(aliases@, owner) is Some {
                r is Ok && asset_value_ok(
                    r->Ok_0,
                    base_url@,
                    aliases@[alias_index(aliases@, owner)->0].1@,
                    files,
                )
            } else {
                r matches Err(Error::ParseError { message, doc_id, line_number }) && message@
                    == not_found_2_msg(variable@) && doc_id@ == doc_name@ && line_number == 0
            },
            None => r matches Err(Error::ParseError { message, doc_id, line_number }) && message@
                == not_found_2_msg(variable@) && doc_id@ == doc_name@ && line_number == 0,
        },
{
    if str_eq(variable, "fastn/time#now-str") {
        return Ok(header_text(owned(now)));
    }
    match split_once_str(variable, "/assets#files.") {
        Some((owner, files)) => {
            if str_eq(package_name, owner.as_str()) {
                return Ok(asset_value(base_url, package_name, files.as_str()));
            }
            let n = aliases.len();
            let mut i: usize = 0;
            while i < n
                invariant
                    n == aliases@.len(),
                    i <= n,
                    crate::doc::alias_index(aliases@.take(i as int), owner@) is None,
                    variable@ != "fastn/time#now-str"@,
                    split_once_str_spec(variable@, "/assets#files."@) == Some((owner@, files@)),
                    owner@ != package_name@,
                decreases n - i,
            {
                assert(aliases@.take(i + 1).drop_last() =~= aliases@.take(i as int));
                if str_eq(aliases[i].0.as_str(), owner.as_str()) {
                    proof {
                        crate::doc::lemma_alias_index_prefix(aliases@, (i + 1) as int, owner@);
                    }
                    return Ok(asset_value(base_url, aliases[i].1.as_str(), files.as_str()));
                }
                i = i + 1;
            }
            assert(aliases@.take(n as int) =~= aliases@);
        },
        None => {},
    }
    Err(
        Error::ParseError {
            message: concat2(variable, " not found 2"),
            doc_id: owned(doc_name),
            line_number: 0,
        },
    )
}

// ---------------------------------------------------------------- downloaded assets

/// The files to fetch for the asset `files` in the 2021 edition: only images are
/// fetched, the image itself and, when it is looked for, its dark form.
pub open spec fn image_files_ok(a: Option<AssetFiles>, files: Seq<char>) -> bool {
    let (f, _light, _dark) = asset_mode(files);
    match last_index_of(f, '.') {
        Some(k) => {
            let path = replace_char_spec(f.subrange(0, k), '.', "/"@);
            let ext = f.subrange(k + 1, f.len() as int);
            if is_image_ext(ext) {
                &&& a matches Some(x) && x.path@ == path + "."@ + ext
                &&& if looks_for_dark(files) {
                    a->0.dark_path matches Some(d) && d@ == path + "-dark."@ + ext
                } else {
                    a->0.dark_path is None
                }
            } else {
                a is None
            }
        },
        None => a is None,
    }
}

/// The files of the asset `files` to fetch in the 2021 edition, relative to its
/// package; `None` when it is not an image.
pub fn image_files(files: &str) -> (r: Option<AssetFiles>)
    ensures
        image_files_ok(r, files@),
{
    proof {
        reveal_strlit(".light");
        reveal_strlit(".dark");
    }
    let (f, light, _dark) = match strip_suffix(files, ".light") {
        Some(f) => (f, true, false),
        None => match strip_suffix(files, ".dark") {
            Some(f) => (f, false, true),
            None => (owned(files), false, false),
        },
    };
    assert((f@, light, _dark) == asset_mode(files@));
    match rsplit_once_char(f.as_str(), '.') {
        Some((file, ext)) => {
            if ext_is_image(ext.as_str()) {
                let path = replace_char(file.as_str(), '.', "/");
                let dark_path = if !light && !ends_with(file.as_str(), "-dark") {
                    Some(concat3(path.as_str(), "-dark.", ext.as_str()))
                } else {
                    None
                };
                Some(AssetFiles { path: concat3(path.as_str(), ".", ext.as_str()), dark_path })
            } else {
                None
            }
        },
        None => None,
    }
}

/// The value of the asset `files` of the package `package_name` once its image is
/// downloaded, with images served under `base_url`: as [`asset_value`] gives it, but
/// where the dark form is looked for, the dark URL is the cached one, the dark file's
/// when it was written, or the light URL when there is no dark file.
pub open spec fn downloaded_asset_value_ok(v: Value, base_url: Seq<char>, package_name: Seq<char>, files: Seq<char>, dark: DarkSource) -> bool {
    if looks_for_dark(files) {
        let (f, _light, darkm) = asset_mode(files);
        let k = last_index_of(f, '.')->0;
        let path = replace_char_spec(f.subrange(0, k), '.', "/"@);
        let ext = f.subrange(k + 1, f.len() as int);
        let light_url = hosted_url(base_url, package_name, path + "."@ + ext);
        let dark_url = match dark {
            DarkSource::Cached(c) => c@,
            DarkSource::Written => hosted_url(base_url, package_name, path + "-dark."@ + ext),
            DarkSource::Missing => light_url,
        };
        if darkm {
            is_header_text(v, dark_url)
        } else {
            is_image_src(v, light_url, dark_url)
        }
    } else {
        asset_value_ok(v, base_url, package_name, files)
    }
}

/// The value of the asset `files` of the package `package_name` once its image is
/// downloaded, with `dark` telling where the dark form came from.
pub fn downloaded_asset_value(base_url: &str, package_name: &str, files: &str, dark: &DarkSource) -> (r: Value)
    ensures
        downloaded_asset_value_ok(r, base_url@, package_name@, files@, *dark),
{
    proof {
        reveal_strlit(".light");
        reveal_strlit(".dark");
    }
    let (f, light, darkm) = match strip_suffix(files, ".light") {
        Some(f) => (f, true, false),
        None => match strip_suffix(files, ".dark") {
            Some(f) => (f, false, true),
            None => (owned(files), false, false),
        },
    };
    assert((f@, light, darkm) == asset_mode(files@));
    if let Some((file, ext)) = rsplit_once_char(f.as_str(), '.') {
        if ext_is_image(ext.as_str()) && !light && !ends_with(file.as_str(), "-dark") {
            let path = replace_char(file.as_str(), '.', "/");
            let light_path = concat3(path.as_str(), ".", ext.as_str());
            let light_url = hosted_url_exec(base_url, package_name, light_path.as_str());
            let dark_url = match dark {
                DarkSource::Cached(c) => c.clone(),
                DarkSource::Written => {
                    let dark_path = concat3(path.as_str(), "-dark.", ext.as_str());
                    hosted_url_exec(base_url, package_name, dark_path.as_str())
                },
                DarkSource::Missing => owned(light_url.as_str()),
            };
            if darkm {
                return header_text(dark_url);
            }
            return image_src(light_url, dark_url);
        }
    }
    asset_value(base_url, package_name, files)
}

/// The packages whose assets the variable `variable` names, in the order they are
/// tried: the current package `package_name`, when it is the one named, then the
/// package of the first alias that is.
pub open spec fn asset_packages(variable: Seq<char>, package_name: Seq<char>, aliases: Seq<(String, String)>) -> Seq<Seq<char>> {
    match split_once_str_spec(variable, "/assets#files."@) {
        Some((owner, _files)) => (if owner == package_name {
            seq![package_name]
        } else {
            Seq::empty()
        }) + match alias_index(aliases, owner) {
            Some(i) => seq![aliases[i].1@],
            None => Seq::empty(),
        },
        None => Seq::empty(),
    }
}

fn asset_packages_exec(owner: &str, package_name: &str, aliases: &Vec<(String, String)>) -> (r: Vec<String>)
    ensures
        strings_view(r@) == (if owner@ == package_name@ {
            seq![package_name@]
        } else {
            Seq::<Seq<char>>::empty()
        }) + match alias_index(aliases@, owner@) {
            Some(i) => seq![aliases@[i].1@],
            None => Seq::<Seq<char>>::empty(),
        },
{
    let mut r: Vec<String> = Vec::new();
    if str_eq(package_name, owner) {
        r.push(owned(package_name));
    }
    let ghost first = strings_view(r@);
    let n = aliases.len();
    let mut i: usize = 0;
    while i < n
        invariant
            n == aliases@.len(),
            i <= n,
            alias_index(aliases@.take(i as int), owner@) is None,
            strings_view(r@) == first,
            first == (if owner@ == package_name@ { seq![package_name@] } else { Seq::<Seq<char>>::empty() }),
        decreases n - i,
    {
        assert(aliases@.take(i + 1).drop_last() =~= aliases@.take(i as int));
        if str_eq(aliases[i].0.as_str(), owner) {
            proof {
                crate::doc::lemma_alias_index_prefix(aliases@, (i + 1) as int, owner@);
            }
            r.push(aliases[i].1.clone());
            assert(strings_view(r@) =~= first + seq![aliases@[i as int].1@]);
            return r;
        }
        i = i + 1;
    }
    assert(aliases@.take(n as int) =~= aliases@);
    assert(strings_view(r@) =~= first + Seq::<Seq<char>>::empty());
    r
}

/// The next step of resolving the foreign variable `variable` of the document
/// `doc_name` in the 2021 edition when assets are downloaded, asked for from a
/// document of the package `package_name`, whose dependencies are `aliases` (alias,
/// package name), with images served under `base_url`. `outcomes` holds what fetching
/// the asset gave from each package tried so far, in the order of [`asset_packages`]:
/// - `fastn/time#now-str` is `now`;
/// - for `<package>/assets#files.<asset>`, the first package whose files were fetched
///   gives the value, as [`downloaded_asset_value`] makes it; while none has, the next
///   package is fetched from;
/// - when no package is left, or for anything else, a `ParseError`.
pub fn resolve_foreign_variable2_step(
    variable: &str,
    doc_name: &str,
    package_name: &str,
    aliases: &Vec<(String, String)>,
    base_url: &str,
    now: &str,
    outcomes: &Vec<AssetOutcome>,
) -> (r: ForeignStep<Result<Value, Error>>)
    requires
        outcomes@.len() <= asset_packages(variable@, package_name@, aliases@).len(),
    ensures
        variable@ == "fastn/time#now-str"@ ==> (r matches ForeignStep::Done(Ok(v)) && is_header_text(v, now@)),
        variable@ != "fastn/time#now-str"@ ==> ({
            let c = asset_packages(variable@, package_name@, aliases@);
            match split_once_str_spec(variable@, "/assets#files."@) {
                Some((_owner, files)) => if first_fetched(outcomes@) is Some {
                    let k = first_fetched(outcomes@)->0;
                    r matches ForeignStep::Done(Ok(v)) && downloaded_asset_value_ok(
                        v,
                        base_url@,
                        c[k],
                        files,
                        outcomes@[k]->Fetched_0,
                    )
                } else if outcomes@.len() < c.len() {
                    r matches ForeignStep::Fetch { package, files: f } && package@ == c[outcomes@.len() as int]
                        && f@ == files
                } else {
                    r matches ForeignStep::Done(Err(Error::ParseError { message, doc_id, line_number }))
                        && message@ == not_found_2_msg(variable@) && doc_id@ == doc_name@
                        && line_number == 0
                },
                None => r matches ForeignStep::Done(Err(Error::ParseError { message, doc_id, line_number }))
                    && message@ == not_found_2_msg(variable@) && doc_id@ == doc_name@
                    && line_number == 0,
            }
        }),
{
    if str_eq(variable, "fastn/time#now-str") {
        return ForeignStep::Done(Ok(header_text(owned(now))));
    }
    if let Some((owner, files)) = split_once_str(variable, "/assets#files.") {
        let c = asset_packages_exec(owner.as_str(), package_name, aliases);
        assert(strings_view(c@) == asset_packages(variable@, package_name@, aliases@));
        let n = outcomes.len();
        let mut i: usize = 0;
        while i < n
            invariant
                n == outcomes@.len(),
                n <= c@.len(),
                i <= n,
                first_fetched(outcomes@.take(i as int)) is None,
                variable@ != "fastn/time#now-str"@,
                split_once_str_spec(variable@, "/assets#files."@) == Some((owner@, files@)),
                strings_view(c@) == asset_packages(variable@, package_name@, aliases@),
            decreases n - i,
        {
            assert(outcomes@.take(i + 1).drop_last() =~= outcomes@.take(i as int));
            if let AssetOutcome::Fetched(dark) = &outcomes[i] {
                proof {
                    lemma_first_fetched_prefix(outcomes@, (i + 1) as int);
                }
                assert(strings_view(c@)[i as int] == c@[i as int]@);
                return ForeignStep::Done(Ok(downloaded_asset_value(base_url, c[i].as_str(), files.as_str(), dark)));
            }
            i = i + 1;
        }
        assert(outcomes@.take(n as int) =~= outcomes@);
        if n < c.len() {
            assert(strings_view(c@)[n as int] == c@[n as int]@);
            return ForeignStep::Fetch { package: c[n].clone(), files };
        }
    }
    ForeignStep::Done(
        Err(
            Error::ParseError {
                message: concat2(variable, " not found 2"),
                doc_id: owned(doc_name),
                line_number: 0,
            },
        ),
    )
}

/// How an import of the 2021 edition is resolved: its source, and the names of the
/// foreign variables that the module's name prefixes.
#[derive(Debug, Clone, PartialEq, Eq)]
pub struct ImportPlan {
    pub source: ImportSource,
    pub foreign_variable_prefix: Vec<String>,
}

/// The plan `p` is how `module` is imported by a document of the package
/// `package_name`, whose dependencies are `aliases` (alias, package name) in order.
pub open spec fn import_plan_ok(
    p: ImportPlan,
    module: Seq<char>,
    package_name: Seq<char>,
    aliases: Seq<(String, String)>,
) -> bool {
    if module == "fastn/time"@ {
        &&& p.source == ImportSource::Time
        &&& strings_view(p.foreign_variable_prefix@) == seq![module]
    } else if has_suffix(module, "assets"@) {
        &&& strings_view(p.foreign_variable_prefix@) == seq![module + "#files"@]
        &&& if has_prefix(module, package_name) {
            p.source == ImportSource::PackageFonts
        } else {
            match prefix_alias_index(aliases, module) {
                Some(i) => p.source matches ImportSource::DependencyFonts { alias, package }
                    && alias@ == aliases[i].0@ && package@ == aliases[i].1@,
                None => p.source == ImportSource::NoFonts,
            }
        }
    } else {
        &&& p.source == ImportSource::Document
        &&& p.foreign_variable_prefix@.len() == 0
    }
}

/// How `module` is imported by a 2021 document of the package `package_name`, whose
/// dependencies are `aliases` (alias, package name), in the order of their aliases.
pub fn resolve_import(module: &str, package_name: &str, aliases: &Vec<(String, String)>) -> (r: ImportPlan)
    requires
        crate::doc::aliases_sorted(aliases@),
    ensures
        import_plan_ok(r, module@, package_name@, aliases@),
{
    if str_eq(module, "fastn/time") {
        let mut v: Vec<String> = Vec::new();
        v.push(owned(module));
        assert(strings_view(v@) =~= seq![module@]);
        ImportPlan { source: ImportSource::Time, foreign_variable_prefix: v }
    } else if ends_with(module, "assets") {
        let mut v: Vec<String> = Vec::new();
        v.push(concat2(module, "#files"));
        assert(strings_view(v@) =~= seq![module@ + "#files"@]);
        if starts_with(module, package_name) {
            return ImportPlan { source: ImportSource::PackageFonts, foreign_variable_prefix: v };
        }
        let n = aliases.len();
        let mut i: usize = 0;
        while i < n
            invariant
                n == aliases@.len(),
                i <= n,
                prefix_alias_index(aliases@.take(i as int), module@) is None,
                module@ != "fastn/time"@,
                has_suffix(module@, "assets"@),
                !has_prefix(module@, package_name@),
                strings_view(v@) == seq![module@ + "#files"@],
            decreases n - i,
        {
            assert(aliases@.take(i + 1).drop_last() =~= aliases@.take(i as int));
            if starts_with(module, aliases[i].0.as_str()) {
                proof {
                    crate::doc::lemma_prefix_alias_index(aliases@, (i + 1) as int, module@);
                }
                return ImportPlan {
                    source: ImportSource::DependencyFonts {
                        alias: aliases[i].0.clone(),
                        package: aliases[i].1.clone(),
                    },
                    foreign_variable_prefix: v,
                };
            }
            i = i + 1;
        }
        assert(aliases@.take(n as int) =~= aliases@);
        ImportPlan { source: ImportSource::NoFonts, foreign_variable_prefix: v }
    } else {
        ImportPlan { source: ImportSource::Document, foreign_variable_prefix: Vec::new() }
    }
}

} // verus!

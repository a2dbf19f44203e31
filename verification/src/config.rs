//! The configuration of a fastn package: where its files live, its edition of FTD,
//! the packages it depends on, and the apps mounted in it.
use vstd::prelude::*;
use crate::names::NameMap;
use crate::text::{concat2, concat3, has_prefix, owned, starts_with, trim_end_matches,
    trim_end_spec, trim_start_matches, trim_start_spec, split_once_str, split_once_str_spec,
    replace_str, replace_spec, trim, trim_end_ws, trim_start_ws, suffix_from, str_eq};
use crate::ast::strings_view;
use crate::text::opt_view;

verus! {

// ---------------------------------------------------------------- errors

/// Errors of package configuration.
#[derive(Debug, Clone, PartialEq, Eq)]
pub enum Error {
    UsageError { message: String },
    PackageError { message: String },
    /// A path does not begin with the directory it was to be taken relative to.
    StripPrefixError,
}

// ---------------------------------------------------------------- editions

/// The editions of FTD; 2022 is the default.
#[derive(Debug, Clone, Copy, PartialEq, Eq)]
pub enum FTDEdition {
    FTD2021,
    FTD2022,
    FTD2023,
}

impl Default for FTDEdition {
    fn default() -> (r: FTDEdition)
        ensures
            r == FTDEdition::FTD2022,
    {
        FTDEdition::FTD2022
    }
}

/// The message for an edition that is not known.
pub open spec fn unknown_edition_msg(s: Seq<char>) -> Seq<char> {
    "Unknown edition `"@ + s + "`. Help use `2022` instead"@
}

impl FTDEdition {
    /// The edition named `s`: `2022` or `2023`; a `UsageError` for any other name.
    pub fn from_string(s: &str) -> (r: Result<FTDEdition, Error>)
        ensures
            s@ == "2022"@ ==> r == Ok::<FTDEdition, Error>(FTDEdition::FTD2022),
            s@ == "2023"@ ==> r == Ok::<FTDEdition, Error>(FTDEdition::FTD2023),
            s@ != "2022"@ && s@ != "2023"@ ==> (r matches Err(Error::UsageError { message })
                && message@ == unknown_edition_msg(s@)),
    {
        proof {
            reveal_strlit("2022");
            reveal_strlit("2023");
            assert("2022"@[3] != "2023"@[3]);
        }
        if crate::text::str_eq(s, "2022") {
            Ok(FTDEdition::FTD2022)
        } else if crate::text::str_eq(s, "2023") {
            Ok(FTDEdition::FTD2023)
        } else {
            let m = concat3("Unknown edition `", s, "`. Help use `2022` instead");
            Err(Error::UsageError { message: m })
        }
    }

    /// Whether this is the 2023 edition.
    pub fn is_2023(&self) -> (r: bool)
        ensures
            r == (*self == FTDEdition::FTD2023),
    {
        matches!(self, FTDEdition::FTD2023)
    }
}

// ---------------------------------------------------------------- paths

/// The path that `camino` makes of `base` joined with `part`.
pub uninterp spec fn joined_path(base: Seq<char>, part: Seq<char>) -> Seq<char>;

/// `camino::Utf8Path::join`: `part` adjoined to `base`. Its result is a function of the
/// two paths alone; how it adjoins (a separator, an absolute `part` replacing `base`)
/// is not restated here.
#[verifier::external_body]
fn join_path(base: &str, part: &str) -> (r: String)
    ensures
        r@ == joined_path(base@, part@),
{
    camino::Utf8Path::new(base).join(part).into_string()
}

/// What is left of `path` once the whole components of `base` are taken from its start,
/// when `base` begins it.
pub uninterp spec fn stripped_path(path: Seq<char>, base: Seq<char>) -> Option<Seq<char>>;

/// `camino::Utf8Path::strip_prefix`: `path` without the leading components `base`, or
/// `None` when `base` does not begin it. The comparison is by whole components, which is
/// not restated here.
#[verifier::external_body]
fn strip_path_prefix(path: &str, base: &str) -> (r: Option<String>)
    ensures
        match r {
            Some(s) => stripped_path(path@, base@) == Some(s@),
            None => stripped_path(path@, base@) is None,
        },
{
    match camino::Utf8Path::new(path).strip_prefix(base) {
        Ok(p) => Some(p.as_str().to_owned()),
        Err(_) => None,
    }
}

/// The directory that holds `path`, when `path` has a final component.
pub uninterp spec fn parent_path(path: Seq<char>) -> Option<Seq<char>>;

/// `camino::Utf8Path::parent`: `path` without its final component, or `None` when
/// `path` ends in a root or a prefix. What a component is, is not restated here.
#[verifier::external_body]
fn path_parent(path: &str) -> (r: Option<String>)
    ensures
        match r {
            Some(s) => parent_path(path@) == Some(s@),
            None => parent_path(path@) is None,
        },
{
    match camino::Utf8Path::new(path).parent() {
        Some(p) => Some(p.as_str().to_owned()),
        None => None,
    }
}

// ---------------------------------------------------------------- packages

/// An app mounted in a package: the mount point, and the package that serves it.
#[derive(Debug, PartialEq, Eq)]
pub struct App {
    pub mount_point: String,
    pub package: Package,
}

/// A package: its name, the package it translates, where its `FASTN.ftd` lies, where
/// its files can be downloaded from, and the apps mounted in it.
#[derive(Debug, PartialEq, Eq)]
pub struct Package {
    pub name: String,
    pub translation_of: Option<Box<Package>>,
    pub fastn_path: Option<String>,
    pub download_base_url: Option<String>,
    pub apps: Vec<App>,
}

impl Package {
    /// A package with only a name.
    pub fn new(name: &str) -> (r: Package)
        ensures
            r.name@ == name@,
            r.translation_of is None,
            r.fastn_path is None,
            r.download_base_url is None,
            r.apps@.len() == 0,
    {
        Package {
            name: owned(name),
            translation_of: None,
            fastn_path: None,
            download_base_url: None,
            apps: Vec::new(),
        }
    }
}

// ---------------------------------------------------------------- config

/// The configuration of a package being worked on.
#[derive(Debug, PartialEq, Eq)]
pub struct Config {
    pub package: Package,
    pub root: String,
    pub packages_root: String,
    pub original_directory: String,
    pub all_packages: NameMap<Package>,
    pub downloaded_assets: NameMap<String>,
    pub global_ids: NameMap<String>,
    pub extra_data: NameMap<String>,
    pub current_document: Option<String>,
    pub dependencies_during_render: Vec<String>,
    pub ftd_edition: FTDEdition,
    pub ftd_external_js: Vec<String>,
    pub ftd_inline_js: Vec<String>,
    pub ftd_external_css: Vec<String>,
    pub ftd_inline_css: Vec<String>,
}

/// `s` without `c` at either end.
pub open spec fn trim_char_spec(s: Seq<char>, c: char) -> Seq<char> {
    trim_end_spec(trim_start_spec(s, seq![c]), seq![c])
}

fn trim_slashes(s: &str) -> (r: String)
    ensures
        r@ == trim_char_spec(s@, '/'),
{
    proof {
        reveal_strlit("/");
        assert("/"@ =~= seq!['/']);
    }
    let a = trim_start_matches(s, "/");
    trim_end_matches(a.as_str(), "/")
}

fn trim_leading_slashes(s: &str) -> (r: String)
    ensures
        r@ == trim_start_spec(s@, seq!['/']),
{
    proof {
        reveal_strlit("/");
        assert("/"@ =~= seq!['/']);
    }
    trim_start_matches(s, "/")
}

/// `-/<name>` for a package name, without slashes at its ends.
pub open spec fn package_prefix(name: Seq<char>) -> Seq<char> {
    "-/"@ + trim_char_spec(name, '/')
}

/// The first app, in order, whose mount point (without slashes at its ends) begins
/// `path`, or whose package's `-/<name>` does.
pub open spec fn app_match(apps: Seq<App>, path: Seq<char>) -> Option<int>
    decreases apps.len(),
{
    if apps.len() == 0 {
        None
    } else {
        match app_match(apps.drop_last(), path) {
            Some(i) => Some(i),
            None => {
                let a = apps.last();
                if has_prefix(trim_start_spec(path, seq!['/']), trim_char_spec(a.mount_point@, '/')) || has_prefix(
                    path,
                    package_prefix(a.package.name@),
                ) {
                    Some(apps.len() - 1)
                } else {
                    None
                }
            },
        }
    }
}

proof fn lemma_app_match_prefix(apps: Seq<App>, k: int, path: Seq<char>)
    requires
        0 <= k <= apps.len(),
        app_match(apps.take(k), path) is Some,
    ensures
        app_match(apps, path) == app_match(apps.take(k), path),
    decreases apps.len() - k,
{
    if k < apps.len() {
        assert(apps.take(k + 1).drop_last() =~= apps.take(k));
        lemma_app_match_prefix(apps, k + 1, path);
    } else {
        assert(apps.take(k) =~= apps);
    }
}

impl Config {
    /// The configuration of `package`, whose files lie under `root`, as read from
    /// `original_directory`: the packages it depends on go under `.packages` in the
    /// root; nothing is known yet of other packages, ids, assets or the current
    /// document; the edition is the default one.
    pub fn new(root: String, original_directory: String, package: Package) -> (r: Config)
        ensures
            r.package == package,
            r.root@ == root@,
            r.packages_root@ == joined_path(root@, ".packages"@),
            r.original_directory@ == original_directory@,
            r.all_packages@ == Map::<Seq<char>, Package>::empty(),
            r.downloaded_assets@ == Map::<Seq<char>, String>::empty(),
            r.global_ids@ == Map::<Seq<char>, String>::empty(),
            r.extra_data@ == Map::<Seq<char>, String>::empty(),
            r.current_document is None,
            r.dependencies_during_render@.len() == 0,
            r.ftd_edition == FTDEdition::FTD2022,
            r.ftd_external_js@.len() == 0,
            r.ftd_inline_js@.len() == 0,
            r.ftd_external_css@.len() == 0,
            r.ftd_inline_css@.len() == 0,
    {
        let packages_root = join_path(root.as_str(), ".packages");
        Config {
            package,
            root,
            packages_root,
            original_directory,
            all_packages: NameMap::new(),
            downloaded_assets: NameMap::new(),
            global_ids: NameMap::new(),
            extra_data: NameMap::new(),
            current_document: None,
            dependencies_during_render: Vec::new(),
            ftd_edition: FTDEdition::default(),
            ftd_external_js: Vec::new(),
            ftd_inline_js: Vec::new(),
            ftd_external_css: Vec::new(),
            ftd_inline_css: Vec::new(),
        }
    }
}

impl Config {
    /// Where `fastn build` puts the files it builds: `.build` under the root.
    pub fn build_dir(&self) -> (r: String)
        ensures
            r@ == joined_path(self.root@, ".build"@),
    {
        join_path(self.root.as_str(), ".build")
    }

    /// `.clone-state` under the root.
    pub fn clone_dir(&self) -> (r: String)
        ensures
            r@ == joined_path(self.root@, ".clone-state"@),
    {
        join_path(self.root.as_str(), ".clone-state")
    }

    /// `workspace.ftd` in the clone directory.
    pub fn workspace_file(&self) -> (r: String)
        ensures
            r@ == joined_path(joined_path(self.root@, ".clone-state"@), "workspace.ftd"@),
    {
        let d = self.clone_dir();
        join_path(d.as_str(), "workspace.ftd")
    }

    /// `cr` in the clone directory.
    pub fn clone_available_crs_path(&self) -> (r: String)
        ensures
            r@ == joined_path(joined_path(self.root@, ".clone-state"@), "cr"@),
    {
        let d = self.clone_dir();
        join_path(d.as_str(), "cr")
    }

    /// `.remote-state` under the root.
    pub fn remote_dir(&self) -> (r: String)
        ensures
            r@ == joined_path(self.root@, ".remote-state"@),
    {
        join_path(self.root.as_str(), ".remote-state")
    }

    /// `history` in the remote directory.
    pub fn remote_history_dir(&self) -> (r: String)
        ensures
            r@ == joined_path(joined_path(self.root@, ".remote-state"@), "history"@),
    {
        let d = self.remote_dir();
        join_path(d.as_str(), "history")
    }

    /// Where the lowest available change-request number is kept: `cr` in the remote
    /// directory.
    pub fn remote_cr(&self) -> (r: String)
        ensures
            r@ == joined_path(joined_path(self.root@, ".remote-state"@), "cr"@),
    {
        let d = self.remote_dir();
        join_path(d.as_str(), "cr")
    }

    /// `history.ftd` in the remote directory.
    pub fn history_file(&self) -> (r: String)
        ensures
            r@ == joined_path(joined_path(self.root@, ".remote-state"@), "history.ftd"@),
    {
        let d = self.remote_dir();
        join_path(d.as_str(), "history.ftd")
    }

    /// Where the history of the package is kept: `.history` under the root.
    pub fn history_dir(&self) -> (r: String)
        ensures
            r@ == joined_path(self.root@, ".history"@),
    {
        join_path(self.root.as_str(), ".history")
    }

    /// `.fastn` under the root.
    pub fn fastn_dir(&self) -> (r: String)
        ensures
            r@ == joined_path(self.root@, ".fastn"@),
    {
        join_path(self.root.as_str(), ".fastn")
    }

    /// `conflicted` in the `.fastn` directory.
    pub fn conflicted_dir(&self) -> (r: String)
        ensures
            r@ == joined_path(joined_path(self.root@, ".fastn"@), "conflicted"@),
    {
        let d = self.fastn_dir();
        join_path(d.as_str(), "conflicted")
    }

    /// The file that lists the latest snapshot of every file: `.history/.latest.ftd`.
    pub fn latest_ftd(&self) -> (r: String)
        ensures
            r@ == joined_path(self.root@, ".history/.latest.ftd"@),
    {
        join_path(self.root.as_str(), ".history/.latest.ftd")
    }

    /// Where track files are kept: `.tracks` under the root.
    pub fn track_dir(&self) -> (r: String)
        ensures
            r@ == joined_path(self.root@, ".tracks"@),
    {
        join_path(self.root.as_str(), ".tracks")
    }

    /// `path` relative to the root; a `StripPrefixError` when the root does not begin it.
    pub fn path_without_root(&self, path: &str) -> (r: Result<String, Error>)
        ensures
            match stripped_path(path@, self.root@) {
                Some(p) => r matches Ok(s) && s@ == p,
                None => r == Err::<String, Error>(Error::StripPrefixError),
            },
    {
        match strip_path_prefix(path, self.root.as_str()) {
            Some(p) => Ok(p),
            None => Err(Error::StripPrefixError),
        }
    }

    /// The track file of `path`: `<path without the root>.track` in the track
    /// directory, or `<path>.track` when the root does not begin `path`.
    pub fn track_path(&self, path: &str) -> (r: String)
        ensures
            r@ == joined_path(
                joined_path(self.root@, ".tracks"@),
                match stripped_path(path@, self.root@) {
                    Some(p) => p,
                    None => path@,
                } + ".track"@,
            ),
    {
        let without_root = match self.path_without_root(path) {
            Ok(p) => p,
            Err(_) => owned(path),
        };
        let track = concat2(without_root.as_str(), ".track");
        let d = self.track_dir();
        join_path(d.as_str(), track.as_str())
    }

    /// Whether the package translates another one.
    pub fn is_translation_package(&self) -> (r: bool)
        ensures
            r == (self.package.translation_of is Some),
    {
        self.package.translation_of.is_some()
    }

    /// Where the package that this one translates lies: the directory of its
    /// `FASTN.ftd`. A `UsageError` when this package translates none, or when the
    /// place of that package's `FASTN.ftd` is not known.
    pub fn original_path(&self) -> (r: Result<String, Error>)
        requires
            self.package.translation_of matches Some(o) ==> (o.fastn_path matches Some(p)
                ==> parent_path(p@) is Some),
        ensures
            match self.package.translation_of {
                None => r matches Err(Error::UsageError { message }) && message@
                    == "This package is not a translation package"@,
                Some(o) => match o.fastn_path {
                    Some(p) => r matches Ok(s) && parent_path(p@) == Some(s@),
                    None => r matches Err(Error::UsageError { message }) && message@
                        == "Unable to find `fastn_path` of the package "@ + o.name@,
                },
            },
    {
        let o = match &self.package.translation_of {
            Some(o) => o,
            None => {
                return Err(
                    Error::UsageError {
                        message: owned("This package is not a translation package"),
                    },
                );
            },
        };
        match &o.fastn_path {
            Some(p) => match path_parent(p.as_str()) {
                Some(d) => Ok(d),
                // Not reached: `requires` gives the path a parent.
                None => Ok(String::new()),
            },
            None => Err(
                Error::UsageError {
                    message: concat2(
                        "Unable to find `fastn_path` of the package ",
                        o.name.as_str(),
                    ),
                },
            ),
        }
    }

    /// `original_path`, or `None` where the place of the original package's
    /// `FASTN.ftd` has no directory above it.
    pub fn original_path_checked(&self) -> (r: Option<Result<String, Error>>)
        ensures
            match self.package.translation_of {
                Some(o) => match o.fastn_path {
                    Some(p) => match parent_path(p@) {
                        Some(d) => r matches Some(Ok(s)) && s@ == d,
                        None => r is None,
                    },
                    None => r matches Some(Err(Error::UsageError { message })) && message@
                        == "Unable to find `fastn_path` of the package "@ + o.name@,
                },
                None => r matches Some(Err(Error::UsageError { message })) && message@
                    == "This package is not a translation package"@,
            },
    {
        if let Some(o) = &self.package.translation_of {
            if let Some(p) = &o.fastn_path {
                if path_parent(p.as_str()).is_none() {
                    return None;
                }
            }
        }
        Some(self.original_path())
    }

    /// The directory that holds the files of `package`: that of its `FASTN.ftd` when
    /// its place is known, else the root for the package being worked on, else its
    /// directory under the packages root.
    pub fn get_root_for_package(&self, package: &Package) -> (r: String)
        requires
            package.fastn_path matches Some(p) ==> parent_path(p@) is Some,
        ensures
            match package.fastn_path {
                Some(p) => parent_path(p@) == Some(r@),
                None => if package.name@ == self.package.name@ {
                    r@ == self.root@
                } else {
                    r@ == joined_path(self.packages_root@, package.name@)
                },
            },
    {
        if let Some(p) = &package.fastn_path {
            match path_parent(p.as_str()) {
                Some(d) => d,
                // Not reached: `requires` gives the path a parent.
                None => String::new(),
            }
        } else if str_eq(package.name.as_str(), self.package.name.as_str()) {
            self.root.clone()
        } else {
            join_path(self.packages_root.as_str(), package.name.as_str())
        }
    }

    /// `get_root_for_package`, or `None` where the place of the package's `FASTN.ftd`
    /// has no directory above it.
    pub fn get_root_for_package_checked(&self, package: &Package) -> (r: Option<String>)
        ensures
            match package.fastn_path {
                Some(p) => match parent_path(p@) {
                    Some(d) => r matches Some(s) && s@ == d,
                    None => r is None,
                },
                None => r matches Some(s) && (if package.name@ == self.package.name@ {
                    s@ == self.root@
                } else {
                    s@ == joined_path(self.packages_root@, package.name@)
                }),
            },
    {
        if let Some(p) = &package.fastn_path {
            if path_parent(p.as_str()).is_none() {
                return None;
            }
        }
        Some(self.get_root_for_package(package))
    }

    /// The same configuration with the edition named `edition`, when one is named; a
    /// `UsageError` when that name is not an edition.
    pub fn add_edition(self, edition: Option<String>) -> (r: Result<Self, Error>)
        ensures
            edition is None ==> r == Ok::<Self, Error>(self),
            edition matches Some(e) ==> (e@ == "2022"@ ==> r == Ok::<Self, Error>(
                Config { ftd_edition: FTDEdition::FTD2022, ..self },
            )),
            edition matches Some(e) ==> (e@ == "2023"@ ==> r == Ok::<Self, Error>(
                Config { ftd_edition: FTDEdition::FTD2023, ..self },
            )),
            edition matches Some(e) ==> (e@ != "2022"@ && e@ != "2023"@ ==> (r matches Err(
                Error::UsageError { message },
            ) && message@ == unknown_edition_msg(e@))),
    {
        match edition {
            Some(e) => {
                let mut config = self;
                config.ftd_edition = FTDEdition::from_string(e.as_str())?;
                Ok(config)
            },
            None => Ok(self),
        }
    }

    /// The same configuration with the external scripts `external_js`.
    pub fn add_external_js(self, external_js: Vec<String>) -> (r: Self)
        ensures
            r == (Config { ftd_external_js: external_js, ..self }),
    {
        let mut config = self;
        config.ftd_external_js = external_js;
        config
    }

    /// The same configuration with the inline scripts `inline_js`.
    pub fn add_inline_js(self, inline_js: Vec<String>) -> (r: Self)
        ensures
            r == (Config { ftd_inline_js: inline_js, ..self }),
    {
        let mut config = self;
        config.ftd_inline_js = inline_js;
        config
    }

    /// The same configuration with the external style sheets `external_css`.
    pub fn add_external_css(self, external_css: Vec<String>) -> (r: Self)
        ensures
            r == (Config { ftd_external_css: external_css, ..self }),
    {
        let mut config = self;
        config.ftd_external_css = external_css;
        config
    }

    /// The same configuration with the inline style sheets `inline_css`.
    pub fn add_inline_css(self, inline_css: Vec<String>) -> (r: Self)
        ensures
            r == (Config { ftd_inline_css: inline_css, ..self }),
    {
        let mut config = self;
        config.ftd_inline_css = inline_css;
        config
    }

    /// The package that serves `path` within `package`, and what `path` becomes there:
    /// - a path that begins with `-/<package>` stays as it is and belongs to `package`;
    /// - else the first app whose mount point (without its slashes at the ends) begins
    ///   the path (without its leading slashes) serves it: the rest is that path with
    ///   the mount point trimmed from it, as often as it is there, and the path becomes
    ///   `-/<app package>/` followed by the rest without its leading slashes; so
    ///   `/todos/add-todo/` under the mount point `/todos/` becomes
    ///   `-/<todos package>/add-todo/`, with the rest `/add-todo/`;
    /// - or the first app whose `-/<name>` begins the path, where the path stays and
    ///   `-/<name>` is trimmed for the rest;
    /// - `None` when none of these holds.
    /// Gives (path with the package, package, rest of the path, app).
    pub fn get_mountpoint_sanitized_path<'a>(
        &'a self,
        package: &'a Package,
        path: &'a str,
    ) -> (r: Option<(String, &'a Package, String, Option<&'a App>)>)
        ensures
            has_prefix(path@, package_prefix(package.name@)) ==> (r matches Some(t) && t.0@
                == path@ && t.1 == package && t.2@ == trim_start_spec(
                path@,
                package_prefix(package.name@),
            ) && t.3 is None),
            !has_prefix(path@, package_prefix(package.name@)) ==> match app_match(
                package.apps@,
                path@,
            ) {
                None => r is None,
                Some(i) => {
                    let a = package.apps@[i];
                    let p = trim_start_spec(path@, seq!['/']);
                    if has_prefix(p, trim_char_spec(a.mount_point@, '/')) {
                        let rest = trim_start_spec(p, trim_char_spec(a.mount_point@, '/'));
                        (r matches Some(t) && t.0@ == "-/"@ + trim_char_spec(a.package.name@, '/') + "/"@
                            + trim_start_spec(rest, seq!['/']) && *t.1 == a.package && t.2@ == rest
                            && t.3 == Some(&a))
                    } else {
                        (r matches Some(t) && t.0@ == path@ && *t.1 == a.package && t.2@
                            == trim_start_spec(path@, package_prefix(a.package.name@)) && t.3 == Some(&a))
                    }
                },
            },
    {
        let own = trim_slashes(package.name.as_str());
        let own_prefix = concat2("-/", own.as_str());
        if starts_with(path, own_prefix.as_str()) {
            let rest = trim_start_matches(path, own_prefix.as_str());
            return Some((owned(path), package, rest, None));
        }
        let p = trim_leading_slashes(path);
        let n = package.apps.len();
        let mut i: usize = 0;
        while i < n
            invariant
                n == package.apps@.len(),
                i <= n,
                app_match(package.apps@.take(i as int), path@) is None,
                !has_prefix(path@, package_prefix(package.name@)),
                p@ == trim_start_spec(path@, seq!['/']),
            decreases n - i,
        {
            let app = &package.apps[i];
            assert(package.apps@.take(i + 1).drop_last() =~= package.apps@.take(i as int));
            assert(package.apps@.take(i + 1).last() == *app);
            let mp = trim_slashes(app.mount_point.as_str());
            let dep_name = trim_slashes(app.package.name.as_str());
            let dep_prefix = concat2("-/", dep_name.as_str());
            if starts_with(p.as_str(), mp.as_str()) {
                proof {
                    lemma_app_match_prefix(package.apps@, (i + 1) as int, path@);
                }
                let rest = trim_start_matches(p.as_str(), mp.as_str());
                let rest_path = trim_leading_slashes(rest.as_str());
                let mut with_package = concat3("-/", dep_name.as_str(), "/");
                with_package.append(rest_path.as_str());
                return Some((with_package, &app.package, rest, Some(app)));
            } else if starts_with(path, dep_prefix.as_str()) {
                proof {
                    lemma_app_match_prefix(package.apps@, (i + 1) as int, path@);
                }
                let rest = trim_start_matches(path, dep_prefix.as_str());
                return Some((owned(path), &app.package, rest, Some(app)));
            }
            i = i + 1;
        }
        assert(package.apps@.take(n as int) =~= package.apps@);
        None
    }
}

// ---------------------------------------------------------------- file names

/// What an id becomes before it is looked up as a file: the `.packages/` directory for
/// an id of another package (one that starts with `-/`), and the id up to any further
/// `-/`, without white space at its ends, with `index.html` read as `/`.
pub open spec fn file_id(id: Seq<char>) -> (Seq<char>, Seq<char>) {
    let (id1, add) = if has_prefix(id, "-/"@) {
        (id.subrange(2, id.len() as int), ".packages/"@)
    } else {
        (id, Seq::<char>::empty())
    };
    let id2 = match split_once_str_spec(id1, "-/"@) {
        Some((a, _)) => a,
        None => id1,
    };
    let id3 = replace_spec(
        replace_spec(trim_end_ws(trim_start_ws(id2)), "/index.html"@, "/"@),
        "index.html"@,
        "/"@,
    );
    (add, id3)
}

/// The files that may hold the document `id`, in the order they are tried.
pub open spec fn file_name_candidates(id: Seq<char>) -> Seq<Seq<char>> {
    let (add, i) = file_id(id);
    if i == "/"@ {
        seq![add + "index.ftd"@, add + "README.md"@]
    } else {
        let j = trim_char_spec(i, '/');
        seq![add + j + ".ftd"@, add + j + "/index.ftd"@, add + j + ".md"@, add + j + "/README.md"@]
    }
}

/// The first index at which `found` holds.
pub open spec fn first_found(found: Seq<bool>) -> Option<int>
    decreases found.len(),
{
    if found.len() == 0 {
        None
    } else {
        match first_found(found.drop_last()) {
            Some(i) => Some(i),
            None => if found.last() {
                Some(found.len() - 1)
            } else {
                None
            },
        }
    }
}

proof fn lemma_first_found_prefix(found: Seq<bool>, k: int)
    requires
        0 <= k <= found.len(),
        first_found(found.take(k)) is Some,
    ensures
        first_found(found) == first_found(found.take(k)),
    decreases found.len() - k,
{
    if k < found.len() {
        assert(found.take(k + 1).drop_last() =~= found.take(k));
        lemma_first_found_prefix(found, k + 1);
    } else {
        assert(found.take(k) =~= found);
    }
}

impl Config {
    /// The files, relative to the root, that may hold the document `id`, in the order
    /// they are tried.
    pub fn get_file_name_candidates(id: &str) -> (r: Vec<String>)
        ensures
            strings_view(r@) == file_name_candidates(id@),
    {
        proof {
            reveal_strlit("/index.html");
            reveal_strlit("index.html");
        }
        let (id1, add) = if starts_with(id, "-/") {
            proof {
                reveal_strlit("-/");
            }
            (suffix_from(id, 2), owned(".packages/"))
        } else {
            (owned(id), String::new())
        };
        let id2 = match split_once_str(id1.as_str(), "-/") {
            Some((a, _)) => a,
            None => id1,
        };
        let t = trim(id2.as_str());
        let r1 = replace_str(t.as_str(), "/index.html", "/");
        let id3 = replace_str(r1.as_str(), "index.html", "/");
        assert((add@, id3@) == file_id(id@));
        let mut v: Vec<String> = Vec::new();
        if str_eq(id3.as_str(), "/") {
            v.push(concat2(add.as_str(), "index.ftd"));
            v.push(concat2(add.as_str(), "README.md"));
        } else {
            let j = trim_slashes(id3.as_str());
            v.push(concat3(add.as_str(), j.as_str(), ".ftd"));
            v.push(concat3(add.as_str(), j.as_str(), "/index.ftd"));
            v.push(concat3(add.as_str(), j.as_str(), ".md"));
            v.push(concat3(add.as_str(), j.as_str(), "/README.md"));
        }
        assert(strings_view(v@) =~= file_name_candidates(id@));
        v
    }

    /// The first of the files that may hold the document `id` that is there, as `found`
    /// tells for each of them in turn; a `UsageError` when none is.
    pub fn get_file_name(id: &str, found: &Vec<bool>) -> (r: Result<String, Error>)
        requires
            found@.len() == file_name_candidates(id@).len(),
        ensures
            match first_found(found@) {
                Some(i) => r matches Ok(s) && s@ == file_name_candidates(id@)[i],
                None => r matches Err(Error::UsageError { message }) && message@
                    == "File not found"@,
            },
    {
        let candidates = Config::get_file_name_candidates(id);
        let n = candidates.len();
        let mut i: usize = 0;
        while i < n
            invariant
                n == candidates@.len(),
                n == found@.len(),
                strings_view(candidates@) == file_name_candidates(id@),
                i <= n,
                first_found(found@.take(i as int)) is None,
            decreases n - i,
        {
            assert(found@.take(i + 1).drop_last() =~= found@.take(i as int));
            if found[i] {
                proof {
                    lemma_first_found_prefix(found@, (i + 1) as int);
                }
                assert(strings_view(candidates@)[i as int] == candidates@[i as int]@);
                return Ok(candidates[i].clone());
            }
            i = i + 1;
        }
        assert(found@.take(n as int) =~= found@);
        Err(Error::UsageError { message: owned("File not found") })
    }
}

// ---------------------------------------------------------------- served files

/// The kind of a file of a package, as far as its id goes.
#[derive(Debug, Clone, Copy, PartialEq, Eq)]
pub enum FileKind {
    Ftd,
    Markdown,
    Other,
}

/// `p` stands somewhere in `s`.
pub open spec fn contains_str(s: Seq<char>, p: Seq<char>) -> bool {
    exists|k: int| crate::text::occurs_at(s, p, k)
}

/// The id a file served at `path` gets: for a path into a package (one in which `-/`
/// stands), the path without `/index.html` at its end and without slashes at its ends,
/// followed by `/index.md` for Markdown, `/index.ftd` for FTD, nothing for other files.
pub open spec fn served_file_id_spec(path: Seq<char>, kind: FileKind) -> Option<Seq<char>> {
    if contains_str(path, "-/"@) {
        let url = trim_char_spec(trim_end_spec(path, "/index.html"@), '/');
        Some(url + match kind {
            FileKind::Markdown => "/index.md"@,
            FileKind::Ftd => "/index.ftd"@,
            FileKind::Other => Seq::<char>::empty(),
        })
    } else {
        None
    }
}

impl Config {
    /// The id of the document `doc` of the package `package_name`:
    /// `-/<package>/<doc>`, each without slashes at its ends.
    pub fn package_document_id(package_name: &str, doc: &str) -> (r: String)
        ensures
            r@ == "-/"@ + trim_char_spec(package_name@, '/') + "/"@ + trim_char_spec(doc@, '/'),
    {
        let p = trim_slashes(package_name);
        let d = trim_slashes(doc);
        let mut r = concat3("-/", p.as_str(), "/");
        r.append(d.as_str());
        r
    }

    /// The id a file of the kind `kind`, served at `path`, gets; `None` where it keeps
    /// its own.
    pub fn served_file_id(path: &str, kind: FileKind) -> (r: Option<String>)
        ensures
            opt_view(r) == served_file_id_spec(path@, kind),
    {
        if split_once_str(path, "-/").is_none() {
            return None;
        }
        let u = trim_end_matches(path, "/index.html");
        let url = trim_slashes(u.as_str());
        let ext = match kind {
            FileKind::Markdown => "/index.md",
            FileKind::Ftd => "/index.ftd",
            FileKind::Other => "",
        };
        proof {
            reveal_strlit("");
        }
        Some(concat2(url.as_str(), ext))
    }
}

// ---------------------------------------------------------------- document names

impl Config {
    /// The name of the current document, `doc_id`, or else of the document at
    /// `document_path`, without slashes at its ends and between two slashes: `/` for
    /// nothing, `/foo/abc/` for `foo/abc`.
    pub fn document_name_with_default(doc_id: Option<String>, document_path: &str) -> (r: String)
        ensures
            ({
                let name = trim_char_spec(
                    match doc_id {
                        Some(d) => d@,
                        None => document_path@,
                    },
                    '/',
                );
                r@ == if name.len() == 0 {
                    "/"@
                } else {
                    "/"@ + name + "/"@
                }
            }),
    {
        let n = match doc_id {
            Some(d) => trim_slashes(d.as_str()),
            None => trim_slashes(document_path),
        };
        if n.unicode_len() == 0 {
            owned("/")
        } else {
            concat3("/", n.as_str(), "/")
        }
    }
}

// ---------------------------------------------------------------- file paths of ids

/// Where the document `id` is looked up, once `package` (of the name `package_name` in
/// the id) is found for it: (the `.packages/<package>/` prefix of its file, the id to
/// resolve in the package).
/// - a leading `-/` is dropped when the rest begins with the package's name in the id
///   or the package is not the one being worked on; a package other than that one
///   has its files under `.packages/<package>/`;
/// - the id ends before its first `-/`, loses white space at its ends and the name of
///   the package at its start (as often as it is there), and is `/` when nothing is
///   left.
pub open spec fn file_path_id_spec(
    id: Seq<char>,
    package_name: Seq<char>,
    package: Seq<char>,
    main: Seq<char>,
) -> (Seq<char>, Seq<char>) {
    let stripped = has_prefix(id, "-/"@);
    let rest = id.subrange(2, id.len() as int);
    let other = package != main;
    let id1 = if stripped && (has_prefix(rest, package_name) || other) {
        rest
    } else {
        id
    };
    let add = if stripped && other {
        ".packages/"@ + package + "/"@
    } else {
        Seq::empty()
    };
    let id2 = match split_once_str_spec(id1, "-/"@) {
        Some((a, _)) => a,
        None => id1,
    };
    let id3 = trim_start_spec(trim_end_ws(trim_start_ws(id2)), package_name);
    (add, if id3.len() == 0 {
        "/"@
    } else {
        id3
    })
}

impl Config {
    /// Where the document `id` is looked up, once `package` (of the name
    /// `package_name` in the id) is found for it: the `.packages/<package>/` prefix of
    /// its file, and the id to resolve in the package.
    pub fn file_path_id(&self, id: &str, package_name: &str, package: &Package) -> (r: (String, String))
        ensures
            (r.0@, r.1@) == file_path_id_spec(id@, package_name@, package.name@, self.package.name@),
    {
        proof {
            reveal_strlit("-/");
            reveal_strlit("/");
        }
        let other = !str_eq(package.name.as_str(), self.package.name.as_str());
        let mut id1 = owned(id);
        let mut add = String::new();
        if starts_with(id, "-/") {
            let rest = suffix_from(id, 2);
            if starts_with(rest.as_str(), package_name) || other {
                id1 = rest;
            }
            if other {
                add = concat3(".packages/", package.name.as_str(), "/");
            }
        }
        let id2 = match split_once_str(id1.as_str(), "-/") {
            Some((a, _)) => a,
            None => id1,
        };
        let t = trim(id2.as_str());
        let id3 = trim_start_matches(t.as_str(), package_name);
        if id3.unicode_len() == 0 {
            (add, owned("/"))
        } else {
            (add, id3)
        }
    }
}

// ---------------------------------------------------------------- downloads

/// One way to fetch a file of a package: the URL to read, the directory to create, the
/// file to write, and what to answer once it is written.
#[derive(Debug, Clone, PartialEq, Eq)]
pub struct DownloadAttempt {
    pub url: String,
    pub dir: String,
    pub file: String,
    pub result: String,
}

/// An attempt as pure values.
pub open spec fn attempt_is(a: DownloadAttempt, url: Seq<char>, dir: Seq<char>, file: Seq<char>, result: Seq<char>) -> bool {
    a.url@ == url && a.dir@ == dir && a.file@ == file && a.result@ == result
}

/// `s` split at its last `c`: (`/` and what comes before it, what comes after), or
/// (nothing, `s`).
pub open spec fn prefix_and_name(s: Seq<char>) -> (Seq<char>, Seq<char>) {
    match crate::text::last_index_of(s, '/') {
        Some(k) => ("/"@ + s.subrange(0, k), s.subrange(k + 1, s.len() as int)),
        None => (Seq::empty(), s),
    }
}

/// The attempts to fetch the document `id` of the package `name`, from the base URL
/// `base`, into the `.packages` directory under `root`, in the order they are tried.
pub open spec fn download_attempts_ok(
    v: Seq<DownloadAttempt>,
    root: Seq<char>,
    id: Seq<char>,
    name: Seq<char>,
    base: Seq<char>,
) -> bool {
    let id1 = trim_start_spec(id, name);
    let b = trim_end_spec(base, seq!['/']);
    let pkg_dir = joined_path(joined_path(root, ".packages"@), name);
    if id1 == "/"@ {
        &&& v.len() == 2
        &&& attempt_is(v[0], b + "/index.ftd"@, pkg_dir, joined_path(pkg_dir, "index.ftd"@), ".packages/"@ + name + "/index.ftd"@)
        &&& attempt_is(v[1], b + "/README.md"@, pkg_dir, joined_path(pkg_dir, "README.md"@), ".packages/"@ + name + "/README.md"@)
    } else {
        let i = trim_char_spec(id1, '/');
        let (prefix, last) = prefix_and_name(i);
        let dir0 = joined_path(joined_path(root, ".packages"@), name + prefix);
        let file0 = joined_path(dir0, last + ".ftd"@);
        let dir1 = joined_path(pkg_dir, i);
        let file1 = joined_path(dir1, "index.ftd"@);
        &&& v.len() == 4
        &&& attempt_is(v[0], b + "/"@ + i + ".ftd"@, dir0, file0, file0)
        &&& attempt_is(v[1], b + "/"@ + i + "/index.ftd"@, dir1, file1, file1)
        &&& attempt_is(v[2], b + "/"@ + i + ".md"@, pkg_dir, joined_path(pkg_dir, i + ".md"@), ".packages/"@ + name + "/"@ + i + ".md"@)
        &&& attempt_is(v[3], b + "/"@ + i + "/README.md"@, pkg_dir, joined_path(pkg_dir, i + "/README.md"@), ".packages/"@ + name + "/"@ + i + "/README.md"@)
    }
}

impl Config {
    /// The ways to fetch the document `id` of `package` into the `.packages` directory
    /// under `root`, in the order they are tried; a `PackageError` when the package has
    /// no base URL to download from. When none of them works, the file is not found.
    pub fn download_attempts(root: &str, id: &str, package: &Package) -> (r: Result<Vec<DownloadAttempt>, Error>)
        ensures
            package.download_base_url is None <==> r is Err,
            r matches Err(e) ==> e matches Error::PackageError { message } && message@ == "package base not found"@,
            r matches Ok(v) ==> download_attempts_ok(v@, root@, id@, package.name@, package.download_base_url->Some_0@),
    {
        proof {
            reveal_strlit("/");
            assert("/"@ =~= seq!['/']);
        }
        let id1 = trim_start_matches(id, package.name.as_str());
        let base = match &package.download_base_url {
            Some(b) => b,
            None => {
                return Err(Error::PackageError { message: owned("package base not found") });
            },
        };
        let b = trim_end_matches(base.as_str(), "/");
        let packages = join_path(root, ".packages");
        let pkg_dir = join_path(packages.as_str(), package.name.as_str());
        let mut v: Vec<DownloadAttempt> = Vec::new();
        if str_eq(id1.as_str(), "/") {
            let f0 = join_path(pkg_dir.as_str(), "index.ftd");
            let mut r0 = concat2(".packages/", package.name.as_str());
            r0.append("/index.ftd");
            v.push(DownloadAttempt { url: concat2(b.as_str(), "/index.ftd"), dir: owned(pkg_dir.as_str()), file: f0, result: r0 });
            let f1 = join_path(pkg_dir.as_str(), "README.md");
            let mut r1 = concat2(".packages/", package.name.as_str());
            r1.append("/README.md");
            v.push(DownloadAttempt { url: concat2(b.as_str(), "/README.md"), dir: owned(pkg_dir.as_str()), file: f1, result: r1 });
            return Ok(v);
        }
        let i = trim_slashes(id1.as_str());
        let (prefix, last) = match crate::text::rsplit_once_char(i.as_str(), '/') {
            Some((p, l)) => (concat2("/", p.as_str()), l),
            None => (String::new(), owned(i.as_str())),
        };
        assert((prefix@, last@) == prefix_and_name(i@));
        let name_prefix = concat2(package.name.as_str(), prefix.as_str());
        let dir0 = join_path(packages.as_str(), name_prefix.as_str());
        let last_ftd = concat2(last.as_str(), ".ftd");
        let file0 = join_path(dir0.as_str(), last_ftd.as_str());
        let mut u0 = concat3(b.as_str(), "/", i.as_str());
        u0.append(".ftd");
        v.push(DownloadAttempt { url: u0, dir: dir0, file: owned(file0.as_str()), result: file0 });
        let dir1 = join_path(pkg_dir.as_str(), i.as_str());
        let file1 = join_path(dir1.as_str(), "index.ftd");
        let mut u1 = concat3(b.as_str(), "/", i.as_str());
        u1.append("/index.ftd");
        v.push(DownloadAttempt { url: u1, dir: dir1, file: owned(file1.as_str()), result: file1 });
        let i_md = concat2(i.as_str(), ".md");
        let mut u2 = concat3(b.as_str(), "/", i.as_str());
        u2.append(".md");
        let mut r2 = concat3(".packages/", package.name.as_str(), "/");
        r2.append(i_md.as_str());
        assert(r2@ =~= ".packages/"@ + package.name@ + "/"@ + i@ + ".md"@);
        v.push(DownloadAttempt { url: u2, dir: owned(pkg_dir.as_str()), file: join_path(pkg_dir.as_str(), i_md.as_str()), result: r2 });
        let i_readme = concat2(i.as_str(), "/README.md");
        let mut u3 = concat3(b.as_str(), "/", i.as_str());
        u3.append("/README.md");
        let mut r3 = concat3(".packages/", package.name.as_str(), "/");
        r3.append(i_readme.as_str());
        assert(r3@ =~= ".packages/"@ + package.name@ + "/"@ + i@ + "/README.md"@);
        v.push(DownloadAttempt { url: u3, dir: owned(pkg_dir.as_str()), file: join_path(pkg_dir.as_str(), i_readme.as_str()), result: r3 });
        Ok(v)
    }
}

/// What to do next when fetching a document by its attempts.
#[derive(Debug, Clone, PartialEq, Eq)]
pub enum DownloadStep {
    /// Fetch the URL of the attempt at `index`.
    Fetch { index: usize },
    /// Write what the attempt at `index` answered to its file, then answer `result`.
    Write { index: usize, result: String },
    /// Stop with this error.
    Fail(Error),
}

impl Config {
    /// The next step of fetching by `attempts`, given for each of the attempts tried
    /// so far, in order, whether it answered: the first attempt that answered is
    /// written and its result is the answer; while none has answered, the next
    /// attempt is fetched; when every attempt was tried and none answered, the file
    /// is not found.
    pub fn download_step(attempts: &Vec<DownloadAttempt>, answered: &Vec<bool>) -> (r: DownloadStep)
        requires
            answered@.len() <= attempts@.len(),
        ensures
            match first_found(answered@) {
                Some(i) => r matches DownloadStep::Write { index, result } && index == i
                    && result@ == attempts@[i].result@,
                None => if answered@.len() < attempts@.len() {
                    r == (DownloadStep::Fetch { index: answered@.len() as usize })
                } else {
                    r matches DownloadStep::Fail(Error::UsageError { message }) && message@
                        == "File not found"@
                },
            },
    {
        let n = answered.len();
        let mut i: usize = 0;
        while i < n
            invariant
                n == answered@.len(),
                n <= attempts@.len(),
                i <= n,
                first_found(answered@.take(i as int)) is None,
            decreases n - i,
        {
            assert(answered@.take(i + 1).drop_last() =~= answered@.take(i as int));
            if answered[i] {
                proof {
                    lemma_first_found_prefix(answered@, (i + 1) as int);
                }
                return DownloadStep::Write { index: i, result: attempts[i].result.clone() };
            }
            i = i + 1;
        }
        assert(answered@.take(n as int) =~= answered@);
        if n < attempts.len() {
            DownloadStep::Fetch { index: n }
        } else {
            DownloadStep::Fail(Error::UsageError { message: owned("File not found") })
        }
    }
}

} // verus!

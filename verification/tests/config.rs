use fastn::config::{App, Config, DownloadAttempt, DownloadStep, Error, FTDEdition, FileKind, Package};
use fastn::names::NameMap;

fn config(root: &str) -> Config {
    Config {
        package: Package::new("main"),
        root: root.to_string(),
        packages_root: format!("{}/.packages", root),
        original_directory: root.to_string(),
        all_packages: NameMap::new(),
        downloaded_assets: NameMap::new(),
        global_ids: NameMap::new(),
        extra_data: NameMap::new(),
        current_document: None,
        dependencies_during_render: vec![],
        ftd_edition: FTDEdition::default(),
        ftd_external_js: vec![],
        ftd_inline_js: vec![],
        ftd_external_css: vec![],
        ftd_inline_css: vec![],
    }
}

#[test]
fn editions() {
    assert_eq!(FTDEdition::default(), FTDEdition::FTD2022);
    assert_eq!(FTDEdition::from_string("2022"), Ok(FTDEdition::FTD2022));
    assert_eq!(FTDEdition::from_string("2023"), Ok(FTDEdition::FTD2023));
    assert!(FTDEdition::from_string("2023").unwrap().is_2023());
    assert!(!FTDEdition::FTD2022.is_2023());
    assert_eq!(
        FTDEdition::from_string("2021"),
        Err(Error::UsageError {
            message: "Unknown edition `2021`. Help use `2022` instead".to_string()
        })
    );
}

#[test]
fn directories_under_the_root() {
    let c = config("/r");
    assert_eq!(c.build_dir(), "/r/.build");
    assert_eq!(c.clone_dir(), "/r/.clone-state");
    assert_eq!(c.workspace_file(), "/r/.clone-state/workspace.ftd");
    assert_eq!(c.clone_available_crs_path(), "/r/.clone-state/cr");
    assert_eq!(c.remote_dir(), "/r/.remote-state");
    assert_eq!(c.remote_history_dir(), "/r/.remote-state/history");
    assert_eq!(c.remote_cr(), "/r/.remote-state/cr");
    assert_eq!(c.history_file(), "/r/.remote-state/history.ftd");
    assert_eq!(c.history_dir(), "/r/.history");
    assert_eq!(c.fastn_dir(), "/r/.fastn");
    assert_eq!(c.conflicted_dir(), "/r/.fastn/conflicted");
    assert_eq!(c.latest_ftd(), "/r/.history/.latest.ftd");
    assert_eq!(c.track_dir(), "/r/.tracks");
}

#[test]
fn track_paths() {
    let c = config("/r");
    assert_eq!(c.track_path("/r/a/b.ftd"), "/r/.tracks/a/b.ftd.track");
    assert_eq!(c.track_path("/elsewhere/b.ftd"), "/elsewhere/b.ftd.track");
}

#[test]
fn builders_and_editions_of_a_config() {
    let c = config("/r").add_external_js(vec!["a.js".to_string()]);
    assert_eq!(c.ftd_external_js, vec!["a.js".to_string()]);
    let c = c.add_inline_js(vec!["b".to_string()]).add_external_css(vec!["c.css".to_string()]);
    let c = c.add_inline_css(vec!["d".to_string()]);
    assert_eq!(c.ftd_inline_js, vec!["b".to_string()]);
    assert_eq!(c.ftd_external_css, vec!["c.css".to_string()]);
    assert_eq!(c.ftd_inline_css, vec!["d".to_string()]);
    assert!(!c.is_translation_package());
    let c = c.add_edition(None).ok().unwrap();
    assert_eq!(c.ftd_edition, FTDEdition::FTD2022);
    let c = c.add_edition(Some("2023".to_string())).ok().unwrap();
    assert_eq!(c.ftd_edition, FTDEdition::FTD2023);
    let e = c.add_edition(Some("1999".to_string())).err().unwrap();
    assert_eq!(
        e,
        Error::UsageError { message: "Unknown edition `1999`. Help use `2022` instead".to_string() }
    );
}

#[test]
fn translation_packages() {
    let mut c = config("/r");
    c.package.translation_of = Some(Box::new(Package::new("orig")));
    assert!(c.is_translation_package());
}

#[test]
fn mount_points() {
    let mut c = config("/r");
    c.package.apps.push(App { mount_point: "/todos/".to_string(), package: Package::new("todos-pkg") });
    let p = &c.package;
    let (with_pkg, pkg, rest, app) = c.get_mountpoint_sanitized_path(p, "/todos/add-todo/").unwrap();
    assert_eq!(with_pkg, "-/todos-pkg/add-todo/");
    assert_eq!(pkg.name, "todos-pkg");
    assert_eq!(rest, "/add-todo/");
    assert_eq!(app.unwrap().mount_point, "/todos/");

    let (with_pkg, _, rest, _) = c.get_mountpoint_sanitized_path(p, "todos/add-todo/").unwrap();
    assert_eq!(with_pkg, "-/todos-pkg/add-todo/");
    assert_eq!(rest, "/add-todo/");

    let (with_pkg, pkg, rest, app) = c.get_mountpoint_sanitized_path(p, "-/main/foo/").unwrap();
    assert_eq!(with_pkg, "-/main/foo/");
    assert_eq!(pkg.name, "main");
    assert_eq!(rest, "/foo/");
    assert!(app.is_none());

    let (with_pkg, pkg, rest, _) = c.get_mountpoint_sanitized_path(p, "-/todos-pkg/x").unwrap();
    assert_eq!(with_pkg, "-/todos-pkg/x");
    assert_eq!(pkg.name, "todos-pkg");
    assert_eq!(rest, "/x");

    assert!(c.get_mountpoint_sanitized_path(p, "zzz/").is_none());
}

#[test]
fn file_name_candidates() {
    assert_eq!(
        Config::get_file_name_candidates("-/pkg/foo/"),
        vec![
            ".packages/pkg/foo.ftd".to_string(),
            ".packages/pkg/foo/index.ftd".to_string(),
            ".packages/pkg/foo.md".to_string(),
            ".packages/pkg/foo/README.md".to_string(),
        ]
    );
    assert_eq!(
        Config::get_file_name_candidates("/index.html"),
        vec!["index.ftd".to_string(), "README.md".to_string()]
    );
    assert_eq!(
        Config::get_file_name_candidates("a/-/b"),
        vec![
            "a.ftd".to_string(),
            "a/index.ftd".to_string(),
            "a.md".to_string(),
            "a/README.md".to_string(),
        ]
    );
    assert_eq!(Config::get_file_name_candidates(" foo/index.html ")[0], "foo.ftd");
}

#[test]
fn first_file_that_is_there() {
    assert_eq!(
        Config::get_file_name("foo", &vec![false, true, false, false]),
        Ok("foo/index.ftd".to_string())
    );
    assert_eq!(
        Config::get_file_name("/", &vec![false, false]),
        Err(Error::UsageError { message: "File not found".to_string() })
    );
}

fn attempt(url: &str, dir: &str, file: &str, result: &str) -> DownloadAttempt {
    DownloadAttempt {
        url: url.to_string(),
        dir: dir.to_string(),
        file: file.to_string(),
        result: result.to_string(),
    }
}

#[test]
fn download_attempts_need_a_base_url() {
    let package = Package::new("amitu.com/lib");
    assert_eq!(
        Config::download_attempts("/r", "amitu.com/lib/foo", &package),
        Err(Error::PackageError { message: "package base not found".to_string() })
    );
}

#[test]
fn download_attempts_of_the_index() {
    let mut package = Package::new("amitu.com/lib");
    package.download_base_url = Some("https://amitu.com/lib/".to_string());
    assert_eq!(
        Config::download_attempts("/r", "amitu.com/lib/", &package),
        Ok(vec![
            attempt(
                "https://amitu.com/lib/index.ftd",
                "/r/.packages/amitu.com/lib",
                "/r/.packages/amitu.com/lib/index.ftd",
                ".packages/amitu.com/lib/index.ftd"
            ),
            attempt(
                "https://amitu.com/lib/README.md",
                "/r/.packages/amitu.com/lib",
                "/r/.packages/amitu.com/lib/README.md",
                ".packages/amitu.com/lib/README.md"
            ),
        ])
    );
}

#[test]
fn download_attempts_of_a_nested_document() {
    let mut package = Package::new("amitu.com/lib");
    package.download_base_url = Some("https://amitu.com/lib".to_string());
    assert_eq!(
        Config::download_attempts("/r", "amitu.com/lib/a/b/", &package),
        Ok(vec![
            attempt(
                "https://amitu.com/lib/a/b.ftd",
                "/r/.packages/amitu.com/lib/a",
                "/r/.packages/amitu.com/lib/a/b.ftd",
                "/r/.packages/amitu.com/lib/a/b.ftd"
            ),
            attempt(
                "https://amitu.com/lib/a/b/index.ftd",
                "/r/.packages/amitu.com/lib/a/b",
                "/r/.packages/amitu.com/lib/a/b/index.ftd",
                "/r/.packages/amitu.com/lib/a/b/index.ftd"
            ),
            attempt(
                "https://amitu.com/lib/a/b.md",
                "/r/.packages/amitu.com/lib",
                "/r/.packages/amitu.com/lib/a/b.md",
                ".packages/amitu.com/lib/a/b.md"
            ),
            attempt(
                "https://amitu.com/lib/a/b/README.md",
                "/r/.packages/amitu.com/lib",
                "/r/.packages/amitu.com/lib/a/b/README.md",
                ".packages/amitu.com/lib/a/b/README.md"
            ),
        ])
    );
}

#[test]
fn download_attempts_of_a_top_level_document() {
    let mut package = Package::new("lib");
    package.download_base_url = Some("https://x.org".to_string());
    let attempts = Config::download_attempts("/r", "lib/foo", &package).unwrap();
    assert_eq!(attempts[0].dir, "/r/.packages/lib");
    assert_eq!(attempts[0].file, "/r/.packages/lib/foo.ftd");
    assert_eq!(attempts[0].url, "https://x.org/foo.ftd");
}

#[test]
fn paths_relative_to_the_root() {
    let c = config("/r");
    assert_eq!(c.path_without_root("/r/a/b.ftd"), Ok("a/b.ftd".to_string()));
    assert_eq!(c.path_without_root("/rx/b.ftd"), Err(Error::StripPrefixError));
}

#[test]
fn where_the_original_package_lies() {
    let mut c = config("/r");
    assert_eq!(
        c.original_path(),
        Err(Error::UsageError { message: "This package is not a translation package".to_string() })
    );
    c.package.translation_of = Some(Box::new(Package::new("orig")));
    assert_eq!(
        c.original_path(),
        Err(Error::UsageError {
            message: "Unable to find `fastn_path` of the package orig".to_string()
        })
    );
    let mut orig = Package::new("orig");
    orig.fastn_path = Some("/r/.packages/orig/FASTN.ftd".to_string());
    c.package.translation_of = Some(Box::new(orig));
    assert_eq!(c.original_path(), Ok("/r/.packages/orig".to_string()));
    assert_eq!(c.original_path_checked(), Some(Ok("/r/.packages/orig".to_string())));

    let mut rootless = Package::new("orig");
    rootless.fastn_path = Some("/".to_string());
    c.package.translation_of = Some(Box::new(rootless));
    assert_eq!(c.original_path_checked(), None);
}

#[test]
fn where_the_files_of_a_package_lie() {
    let c = config("/r");
    assert_eq!(c.get_root_for_package(&Package::new("main")), "/r");
    assert_eq!(c.get_root_for_package(&Package::new("dep.com")), "/r/.packages/dep.com");
    let mut p = Package::new("x");
    p.fastn_path = Some("/somewhere/x/FASTN.ftd".to_string());
    assert_eq!(c.get_root_for_package(&p), "/somewhere/x");
    assert_eq!(c.get_root_for_package_checked(&p), Some("/somewhere/x".to_string()));
    p.fastn_path = Some("".to_string());
    assert_eq!(c.get_root_for_package_checked(&p), None);
}

#[test]
fn download_steps_pick_the_first_that_answers() {
    let mut package = Package::new("lib");
    package.download_base_url = Some("https://x.org".to_string());
    let attempts = Config::download_attempts("/r", "lib/foo", &package).unwrap();
    assert_eq!(Config::download_step(&attempts, &vec![]), DownloadStep::Fetch { index: 0 });
    assert_eq!(Config::download_step(&attempts, &vec![false]), DownloadStep::Fetch { index: 1 });
    assert_eq!(
        Config::download_step(&attempts, &vec![false, false, true]),
        DownloadStep::Write { index: 2, result: ".packages/lib/foo.md".to_string() }
    );
    assert_eq!(
        Config::download_step(&attempts, &vec![true]),
        DownloadStep::Write { index: 0, result: "/r/.packages/lib/foo.ftd".to_string() }
    );
    assert_eq!(
        Config::download_step(&attempts, &vec![false, false, false, false]),
        DownloadStep::Fail(Error::UsageError { message: "File not found".to_string() })
    );
}

#[test]
fn a_new_configuration() {
    let c = Config::new("/r".to_string(), "/r/sub".to_string(), Package::new("main"));
    assert_eq!(c.packages_root, "/r/.packages");
    assert_eq!(c.root, "/r");
    assert_eq!(c.original_directory, "/r/sub");
    assert_eq!(c.package.name, "main");
    assert_eq!(c.all_packages.len(), 0);
    assert_eq!(c.ftd_edition, FTDEdition::FTD2022);
    assert!(c.current_document.is_none());
    let mut expected = config("/r");
    expected.original_directory = "/r/sub".to_string();
    assert_eq!(c, expected);
}

#[test]
fn ids_of_documents_and_served_files() {
    assert_eq!(Config::package_document_id("/amitu.com/", "/foo/bar/"), "-/amitu.com/foo/bar");
    assert_eq!(Config::package_document_id("p", "x"), "-/p/x");
    assert_eq!(
        Config::served_file_id("/-/amitu.com/foo/index.html", FileKind::Ftd),
        Some("-/amitu.com/foo/index.ftd".to_string())
    );
    assert_eq!(
        Config::served_file_id("-/amitu.com/foo/", FileKind::Markdown),
        Some("-/amitu.com/foo/index.md".to_string())
    );
    assert_eq!(
        Config::served_file_id("-/amitu.com/logo.png", FileKind::Other),
        Some("-/amitu.com/logo.png".to_string())
    );
    assert_eq!(Config::served_file_id("/foo/bar/", FileKind::Ftd), None);
}

#[test]
fn ids_looked_up_in_a_package() {
    let c = config("/r");
    let main = Package::new("main");
    let dep = Package::new("dep.com");
    assert_eq!(c.file_path_id("-/dep.com/foo/", "dep.com", &dep), (".packages/dep.com/".to_string(), "/foo/".to_string()));
    assert_eq!(c.file_path_id("-/main/foo/-/x", "main", &main), (String::new(), "/foo/".to_string()));
    assert_eq!(c.file_path_id("-/bar/", "main", &main), (String::new(), "/".to_string()));
    assert_eq!(c.file_path_id(" main ", "main", &main), (String::new(), "/".to_string()));
    assert_eq!(c.file_path_id("foo/", "main", &main), (String::new(), "foo/".to_string()));
}

#[test]
fn document_names_with_their_default() {
    assert_eq!(Config::document_name_with_default(None, "/"), "/");
    assert_eq!(Config::document_name_with_default(None, "foo/abc"), "/foo/abc/");
    assert_eq!(Config::document_name_with_default(Some("/foo/".to_string()), "bar"), "/foo/");
    assert_eq!(Config::document_name_with_default(Some(String::new()), "bar"), "/");
}

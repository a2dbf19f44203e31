use fastn::doc::{helper_step, HelperAction, HelperEvent, HelperState, HelperStop};
use fastn::names::NameMap;
use fastn::doc::{
    asset_files, downloaded_asset_value, resolve_foreign_variable2022_step, AssetFiles,
    AssetOutcome, DarkSource, ForeignStep,
};
use fastn::doc::{
    asset_value, document_function_names, ext_is_image, processor_function_names,
    resolve_foreign_variable2022, resolve_import_2022, ImportSource,
};
use fastn::interpreter::Error;
use fastn::value::{PropertyValue, Value};

fn text(v: &Value) -> &str {
    match v {
        Value::String { text } => text.as_str(),
        _ => panic!("not a string: {:?}", v),
    }
}

fn field<'a>(v: &'a Value, i: usize) -> (&'a str, &'a str) {
    match v {
        Value::Record { name, fields } => {
            assert_eq!(name, "ftd#image-src");
            let PropertyValue::Value { value, is_mutable, line_number } = &fields[i].1;
            assert!(!is_mutable);
            assert_eq!(*line_number, 0);
            (fields[i].0.as_str(), text(value))
        }
        _ => panic!("not a record: {:?}", v),
    }
}

#[test]
fn media_types_tell_images() {
    assert!(ext_is_image("png"));
    assert!(ext_is_image("svg"));
    assert!(!ext_is_image("css"));
    assert!(!ext_is_image(""));
}

#[test]
fn image_assets_have_light_and_dark_forms() {
    let v = asset_value("pkg", "images.logo.png");
    assert_eq!(field(&v, 0), ("dark", "-/pkg/images/logo-dark.png"));
    assert_eq!(field(&v, 1), ("light", "-/pkg/images/logo.png"));
    let l = asset_value("pkg", "images.logo.png.light");
    assert_eq!(text(&l), "-/pkg/images/logo.png");
    let d = asset_value("pkg", "images.logo.png.dark");
    assert_eq!(text(&d), "-/pkg/images/logo-dark.png");
    let dd = asset_value("pkg", "images.logo-dark.png");
    assert_eq!(field(&dd, 0), ("dark", "-/pkg/images/logo-dark.png"));
    assert_eq!(field(&dd, 1), ("light", "-/pkg/images/logo-dark.png"));
}

#[test]
fn other_assets_are_plain_urls() {
    assert_eq!(text(&asset_value("pkg", "css.style.css")), "-/pkg/css/style.css");
    assert_eq!(text(&asset_value("pkg", "README")), "-/pkg/README");
    assert_eq!(text(&asset_value("pkg", "style.css.light")), "-/pkg/style.css");
}

#[test]
fn foreign_variables_of_assets() {
    let aliases = vec![("dep".to_string(), "dep.com".to_string())];
    let v = resolve_foreign_variable2022("files.logo.png.light", "pkg/assets", "pkg", &aliases, "now")
        .ok()
        .unwrap();
    assert_eq!(text(&v), "-/pkg/logo.png");
    let v = resolve_foreign_variable2022("files.x.css", "dep/assets", "pkg", &aliases, "now")
        .ok()
        .unwrap();
    assert_eq!(text(&v), "-/dep.com/x.css");
    let v = resolve_foreign_variable2022("fastn/time#now-str", "fastn/time", "pkg", &aliases, "Mon")
        .ok()
        .unwrap();
    assert_eq!(text(&v), "Mon");
    let e = resolve_foreign_variable2022("files.x.css", "nobody/assets", "pkg", &aliases, "now")
        .err()
        .unwrap();
    assert_eq!(
        e,
        Error::ParseError {
            message: "files.x.css not found 2".to_string(),
            doc_id: "nobody/assets".to_string(),
            line_number: 0,
        }
    );
    let e = resolve_foreign_variable2022("other", "doc", "pkg", &aliases, "now").err().unwrap();
    assert_eq!(
        e,
        Error::ParseError {
            message: "other not found 2".to_string(),
            doc_id: "doc".to_string(),
            line_number: 0,
        }
    );
}

#[test]
fn import_plans() {
    let aliases = vec![
        ("dep".to_string(), "dep.com".to_string()),
        ("dep2".to_string(), "dep2.com".to_string()),
    ];
    let t = resolve_import_2022("fastn/time", "pkg", &aliases);
    assert_eq!(t.source, ImportSource::Time);
    assert_eq!(t.path, "$fastn$/time.ftd");
    assert_eq!(t.foreign_variable, vec!["time".to_string()]);
    assert!(t.foreign_function.is_empty());

    let p = resolve_import_2022("fastn/processors", "pkg", &aliases);
    assert_eq!(p.source, ImportSource::Processors);
    assert_eq!(p.path, "$fastn$/processors.ftd");
    assert_eq!(p.foreign_function, processor_function_names());
    assert_eq!(p.foreign_function.len(), 26);
    assert_eq!(p.foreign_function[0], "figma-typo-token");

    let own = resolve_import_2022("pkg/assets", "pkg", &aliases);
    assert_eq!(own.source, ImportSource::PackageFonts);
    assert_eq!(own.path, "pkg/-/assets.ftd");
    assert_eq!(own.foreign_variable, vec!["files".to_string()]);

    let dep = resolve_import_2022("dep2/assets", "pkg", &aliases);
    assert_eq!(
        dep.source,
        ImportSource::DependencyFonts { alias: "dep".to_string(), package: "dep.com".to_string() }
    );
    assert_eq!(dep.path, "dep.com/-/fonts.ftd");

    let none = resolve_import_2022("zzz/assets", "pkg", &aliases);
    assert_eq!(none.source, ImportSource::NoFonts);
    assert_eq!(none.path, "");

    let doc = resolve_import_2022("pkg/index", "pkg", &aliases);
    assert_eq!(doc.source, ImportSource::Document);
    assert!(doc.foreign_variable.is_empty());
    assert_eq!(doc.foreign_function, document_function_names());
    assert_eq!(doc.foreign_function.len(), 29);
    assert!(doc.foreign_function.contains(&"include".to_string()));
}

#[test]
fn files_to_download_for_an_asset() {
    assert_eq!(
        asset_files("images.logo.png"),
        AssetFiles {
            path: "images/logo.png".to_string(),
            dark_path: Some("images/logo-dark.png".to_string())
        }
    );
    assert_eq!(
        asset_files("images.logo.png.dark"),
        AssetFiles {
            path: "images/logo.png".to_string(),
            dark_path: Some("images/logo-dark.png".to_string())
        }
    );
    assert_eq!(
        asset_files("images.logo.png.light"),
        AssetFiles { path: "images/logo.png".to_string(), dark_path: None }
    );
    assert_eq!(
        asset_files("logo-dark.png"),
        AssetFiles { path: "logo-dark.png".to_string(), dark_path: None }
    );
    assert_eq!(
        asset_files("css.style.css"),
        AssetFiles { path: "css/style.css".to_string(), dark_path: None }
    );
    assert_eq!(asset_files("README"), AssetFiles { path: "README".to_string(), dark_path: None });
}

#[test]
fn dark_forms_of_downloaded_images() {
    let w = downloaded_asset_value("pkg", "logo.png", &DarkSource::Written);
    assert_eq!(field(&w, 0), ("dark", "-/pkg/logo-dark.png"));
    assert_eq!(field(&w, 1), ("light", "-/pkg/logo.png"));
    let m = downloaded_asset_value("pkg", "logo.png", &DarkSource::Missing);
    assert_eq!(field(&m, 0), ("dark", "-/pkg/logo.png"));
    let c = downloaded_asset_value("pkg", "logo.png.dark", &DarkSource::Cached("-/pkg/x.png".to_string()));
    assert_eq!(text(&c), "-/pkg/x.png");
    let l = downloaded_asset_value("pkg", "logo.png.light", &DarkSource::Missing);
    assert_eq!(text(&l), "-/pkg/logo.png");
    let o = downloaded_asset_value("pkg", "a.css", &DarkSource::Missing);
    assert_eq!(text(&o), "-/pkg/a.css");
}

#[test]
fn downloading_tries_the_packages_in_turn() {
    let aliases = vec![("pkg".to_string(), "pkg.com".to_string())];
    let step = |o: Vec<AssetOutcome>| {
        resolve_foreign_variable2022_step("files.logo.png", "pkg/assets", "pkg", &aliases, "now", &o)
    };
    assert_eq!(
        step(vec![]),
        ForeignStep::Fetch { package: "pkg".to_string(), files: "logo.png".to_string() }
    );
    assert_eq!(
        step(vec![AssetOutcome::Failed]),
        ForeignStep::Fetch { package: "pkg.com".to_string(), files: "logo.png".to_string() }
    );
    match step(vec![AssetOutcome::Failed, AssetOutcome::Fetched(DarkSource::Missing)]) {
        ForeignStep::Done(Ok(v)) => assert_eq!(field(&v, 1), ("light", "-/pkg.com/logo.png")),
        s => panic!("unexpected {:?}", s),
    }
    match step(vec![AssetOutcome::Failed, AssetOutcome::Failed]) {
        ForeignStep::Done(Err(Error::ParseError { message, doc_id, line_number })) => {
            assert_eq!(message, "files.logo.png not found 2");
            assert_eq!(doc_id, "pkg/assets");
            assert_eq!(line_number, 0);
        }
        s => panic!("unexpected {:?}", s),
    }
    match resolve_foreign_variable2022_step("fastn/time#now-str", "d", "pkg", &aliases, "then", &vec![]) {
        ForeignStep::Done(Ok(v)) => assert_eq!(text(&v), "then"),
        s => panic!("unexpected {:?}", s),
    }
}

#[test]
fn interpreting_a_document_step_by_step() {
    let s = HelperState { module_package_map: NameMap::new(), dependencies: vec![] };
    let (s, a) = helper_step(
        s,
        HelperEvent::Started { name: "/blog/post/".to_string(), package_name: "amitu.com".to_string() },
    );
    assert_eq!(a, HelperAction::Interpret);
    assert_eq!(s.module_package_map.get("blog/post"), Some(&"amitu.com".to_string()));
    let (s, a) = helper_step(
        s,
        HelperEvent::Stopped(HelperStop::Import { module: "lib".to_string(), caller_module: "blog/post".to_string() }),
    );
    assert_eq!(a, HelperAction::ResolveImport { module: "lib".to_string(), caller_module: "blog/post".to_string() });
    let (s, a) = helper_step(s, HelperEvent::ImportRead { module: "lib".to_string(), path: "lib.ftd".to_string() });
    assert_eq!(a, HelperAction::ContinueAfterImport { module: "lib".to_string() });
    assert_eq!(s.dependencies, vec!["lib.ftd".to_string()]);
    let (s, a) = helper_step(
        s,
        HelperEvent::Stopped(HelperStop::Processor {
            module: "m".to_string(),
            processor: "http".to_string(),
            line_number: 4,
            processing_module: None,
        }),
    );
    assert_eq!(
        a,
        HelperAction::Fail(Error::ValueNotFound {
            doc_id: "m".to_string(),
            line_number: 4,
            message: "Cannot find the module".to_string()
        })
    );
    let (s, a) = helper_step(
        s,
        HelperEvent::Stopped(HelperStop::Processor {
            module: "m".to_string(),
            processor: "http".to_string(),
            line_number: 4,
            processing_module: Some("blog/post".to_string()),
        }),
    );
    assert_eq!(
        a,
        HelperAction::RunProcessor { document: "blog/post".to_string(), processor: "http".to_string(), line_number: 4 }
    );
    let (s, a) = helper_step(
        s,
        HelperEvent::Stopped(HelperStop::ForeignVariable {
            module: "m".to_string(),
            variable: "v".to_string(),
            caller_module: "c".to_string(),
        }),
    );
    assert_eq!(
        a,
        HelperAction::ResolveForeignVariable { variable: "v".to_string(), module: "m".to_string(), caller_module: "c".to_string() }
    );
    let (_, a) = helper_step(s, HelperEvent::Stopped(HelperStop::Done));
    assert_eq!(a, HelperAction::Finish);
}

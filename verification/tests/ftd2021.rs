use fastn::doc::{AssetFiles, AssetOutcome, DarkSource, ForeignStep, ImportSource};
use fastn::ftd2021::{downloaded_asset_value, image_files, resolve_foreign_variable2_step};
use fastn::ftd2021::resolve_import;
use fastn::ftd2021::{asset_value, resolve_foreign_variable2, Error, PropertyValue, TextSource, Value};

fn text(v: &Value) -> &str {
    match v {
        Value::String { text, source } => {
            assert_eq!(*source, TextSource::Header);
            text.as_str()
        }
        _ => panic!("not a string: {:?}", v),
    }
}

fn field<'a>(v: &'a Value, i: usize) -> (&'a str, &'a str) {
    match v {
        Value::Record { name, fields } => {
            assert_eq!(name, "ftd#image-src");
            let PropertyValue::Value { value } = &fields[i].1;
            (fields[i].0.as_str(), text(value))
        }
        _ => panic!("not a record: {:?}", v),
    }
}

#[test]
fn images_are_served_under_the_base_url() {
    let v = asset_value("https://x.com/", "pkg", "images.logo.png");
    assert_eq!(field(&v, 0), ("dark", "https://x.com/-/pkg/images/logo-dark.png"));
    assert_eq!(field(&v, 1), ("light", "https://x.com/-/pkg/images/logo.png"));
    let l = asset_value("", "pkg", "images.logo.png.light");
    assert_eq!(text(&l), "-/pkg/images/logo.png");
    let d = asset_value("/", "pkg", "logo.png.dark");
    assert_eq!(text(&d), "-/pkg/logo-dark.png");
    assert_eq!(text(&asset_value("https://x.com", "pkg", "a.b.css")), "-/pkg/a/b.css");
    assert_eq!(text(&asset_value("https://x.com", "pkg", "README")), "-/pkg/README");
}

#[test]
fn foreign_variables_of_2021() {
    let aliases = vec![("dep".to_string(), "dep.com".to_string())];
    let v = resolve_foreign_variable2("pkg/assets#files.a.css", "d", "pkg", &aliases, "", "now")
        .ok()
        .unwrap();
    assert_eq!(text(&v), "-/pkg/a.css");
    let v = resolve_foreign_variable2("dep/assets#files.b.js", "d", "pkg", &aliases, "", "now")
        .ok()
        .unwrap();
    assert_eq!(text(&v), "-/dep.com/b.js");
    let v = resolve_foreign_variable2("fastn/time#now-str", "d", "pkg", &aliases, "", "Tue")
        .ok()
        .unwrap();
    assert_eq!(text(&v), "Tue");
    let e = resolve_foreign_variable2("x/assets#files.a.css", "d", "pkg", &aliases, "", "now")
        .err()
        .unwrap();
    assert_eq!(
        e,
        Error::ParseError {
            message: "x/assets#files.a.css not found 2".to_string(),
            doc_id: "d".to_string(),
            line_number: 0
        }
    );
}

#[test]
fn import_plans_of_2021() {
    let aliases = vec![("dep".to_string(), "dep.com".to_string())];
    let t = resolve_import("fastn/time", "pkg", &aliases);
    assert_eq!(t.source, ImportSource::Time);
    assert_eq!(t.foreign_variable_prefix, vec!["fastn/time".to_string()]);
    let a = resolve_import("pkg/assets", "pkg", &aliases);
    assert_eq!(a.source, ImportSource::PackageFonts);
    assert_eq!(a.foreign_variable_prefix, vec!["pkg/assets#files".to_string()]);
    let d = resolve_import("dep/assets", "pkg", &aliases);
    assert_eq!(
        d.source,
        ImportSource::DependencyFonts { alias: "dep".to_string(), package: "dep.com".to_string() }
    );
    let n = resolve_import("x/assets", "pkg", &aliases);
    assert_eq!(n.source, ImportSource::NoFonts);
    let doc = resolve_import("pkg/index", "pkg", &aliases);
    assert_eq!(doc.source, ImportSource::Document);
    assert!(doc.foreign_variable_prefix.is_empty());
}

#[test]
fn images_to_download_in_2021() {
    assert_eq!(
        image_files("images.logo.png"),
        Some(AssetFiles {
            path: "images/logo.png".to_string(),
            dark_path: Some("images/logo-dark.png".to_string())
        })
    );
    assert_eq!(
        image_files("logo.png.light"),
        Some(AssetFiles { path: "logo.png".to_string(), dark_path: None })
    );
    assert_eq!(image_files("a.css"), None);
    assert_eq!(image_files("README"), None);
}

#[test]
fn downloaded_images_in_2021() {
    let m = downloaded_asset_value("https://x.com", "pkg", "logo.png", &DarkSource::Missing);
    assert_eq!(field(&m, 0), ("dark", "https://x.com/-/pkg/logo.png"));
    assert_eq!(field(&m, 1), ("light", "https://x.com/-/pkg/logo.png"));
    let w = downloaded_asset_value("https://x.com", "pkg", "logo.png.dark", &DarkSource::Written);
    assert_eq!(text(&w), "https://x.com/-/pkg/logo-dark.png");
}

#[test]
fn downloading_in_2021_tries_the_packages_in_turn() {
    let aliases = vec![("dep".to_string(), "dep.com".to_string())];
    let v = "dep/assets#files.logo.png";
    assert_eq!(
        resolve_foreign_variable2_step(v, "d", "pkg", &aliases, "", "now", &vec![]),
        ForeignStep::Fetch { package: "dep.com".to_string(), files: "logo.png".to_string() }
    );
    match resolve_foreign_variable2_step(v, "d", "pkg", &aliases, "", "now", &vec![AssetOutcome::Fetched(DarkSource::Written)]) {
        ForeignStep::Done(Ok(x)) => assert_eq!(field(&x, 0), ("dark", "-/dep.com/logo-dark.png")),
        s => panic!("unexpected {:?}", s),
    }
    match resolve_foreign_variable2_step(v, "d", "pkg", &aliases, "", "now", &vec![AssetOutcome::Failed]) {
        ForeignStep::Done(Err(Error::ParseError { message, .. })) => {
            assert_eq!(message, "dep/assets#files.logo.png not found 2")
        }
        s => panic!("unexpected {:?}", s),
    }
}

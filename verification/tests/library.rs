use fastn::library::FPMLibrary;

#[test]
fn fpm_library_sources() {
    let lib = FPMLibrary::default();
    assert_eq!(lib.file_path("docs/intro"), "./docs/intro.ftd");
    assert_eq!(
        lib.get("fpm", "-- record x:", None),
        Some("-- record x:\n\n-- optional package-data package:\n".to_string())
    );
    assert_eq!(lib.get("other", "ignored", Some("body".to_string())), Some("body".to_string()));
    assert_eq!(lib.get("other", "ignored", None), None);
}

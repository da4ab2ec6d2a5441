use installed_apps::DirectoryFile;
use installed_apps::RawDirectory;
use installed_apps::RawRegistryEntry;
use installed_apps::app_from_directory;
use installed_apps::app_from_registry_entry;
use installed_apps::find_main_executable;

fn entry(subkey: &str, display: Option<&str>) -> RawRegistryEntry {
    RawRegistryEntry {
        subkey_name: subkey.to_string(),
        display_name: display.map(|d| d.to_string()),
        install_location: None,
        version: None,
        publisher: None,
        install_date: None,
        icon_path: None,
    }
}

fn file(name: &str, path: &str) -> DirectoryFile {
    DirectoryFile { name: name.to_string(), path: path.to_string() }
}

#[test]
fn subkey_without_display_name_is_skipped() {
    assert!(app_from_registry_entry(entry("{guid-1}", None)).is_none());
}

#[test]
fn update_and_hotfix_names_are_excluded() {
    assert!(app_from_registry_entry(entry("k1", Some("Security Update for Widget"))).is_none());
    assert!(app_from_registry_entry(entry("k2", Some("Widget Update"))).is_none());
    assert!(app_from_registry_entry(entry("k3", Some("Hotfix KB12345"))).is_none());
}

#[test]
fn visual_cpp_redistributable_is_excluded() {
    let e = entry("k4", Some("Microsoft Visual C++ 2015 Redistributable"));
    assert!(app_from_registry_entry(e).is_none());
}

#[test]
fn two_character_name_is_excluded() {
    assert!(app_from_registry_entry(entry("k5", Some("AB"))).is_none());
    assert!(app_from_registry_entry(entry("k6", Some(""))).is_none());
}

#[test]
fn plain_name_is_included_with_all_values() {
    let e = RawRegistryEntry {
        subkey_name: "{guid-widget}".to_string(),
        display_name: Some("Widget Pro".to_string()),
        install_location: Some(r"C:\Program Files\Widget".to_string()),
        version: Some("2.1".to_string()),
        publisher: Some("Widget Corp".to_string()),
        install_date: Some("20240110".to_string()),
        icon_path: Some(r"C:\Program Files\Widget\w.ico".to_string()),
    };
    let a = app_from_registry_entry(e).expect("included");
    assert_eq!(a.name, "{guid-widget}");
    assert_eq!(a.display_name, "Widget Pro");
    assert_eq!(a.path.as_deref(), Some(r"C:\Program Files\Widget"));
    assert_eq!(a.version.as_deref(), Some("2.1"));
    assert_eq!(a.publisher.as_deref(), Some("Widget Corp"));
    assert_eq!(a.install_date.as_deref(), Some("20240110"));
    assert_eq!(a.icon_path.as_deref(), Some(r"C:\Program Files\Widget\w.ico"));
    assert_eq!(a.category, "Other");
}

#[test]
fn excluded_name_check_is_case_sensitive() {
    // "update" in lowercase is not the literal token "Update"
    let a = app_from_registry_entry(entry("k7", Some("widget updater"))).expect("included");
    assert_eq!(a.display_name, "widget updater");
}

#[test]
fn first_qualifying_executable_is_found() {
    let files = vec![
        file("readme.txt", r"C:\Program Files\W\readme.txt"),
        file("setup.exe", r"C:\Program Files\W\setup.exe"),
        file("widget.exe", r"C:\Program Files\W\widget.exe"),
        file("other.exe", r"C:\Program Files\W\other.exe"),
    ];
    let p = find_main_executable(&files).expect("found");
    assert_eq!(p, r"C:\Program Files\W\widget.exe");
}

#[test]
fn installer_only_directory_yields_nothing() {
    let d = RawDirectory {
        name: "Widget".to_string(),
        files: vec![
            file("setup.exe", r"C:\Program Files\Widget\setup.exe"),
            file("uninstall.exe", r"C:\Program Files\Widget\uninstall.exe"),
        ],
    };
    assert!(app_from_directory(d).is_none());
}

#[test]
fn executable_filter_is_case_sensitive() {
    // "Setup.exe" does not contain the lowercase literal "setup"
    let files = vec![file("Setup.exe", r"C:\X\Setup.exe")];
    let p = find_main_executable(&files).expect("found");
    assert_eq!(p, r"C:\X\Setup.exe");
}

#[test]
fn directory_record_takes_the_directory_name() {
    let d = RawDirectory {
        name: "Steam".to_string(),
        files: vec![file("steam.exe", r"C:\Program Files\Steam\steam.exe")],
    };
    let a = app_from_directory(d).expect("record");
    assert_eq!(a.name, "Steam");
    assert_eq!(a.display_name, "Steam");
    assert_eq!(a.path.as_deref(), Some(r"C:\Program Files\Steam\steam.exe"));
    assert!(a.version.is_none());
    assert!(a.publisher.is_none());
    assert!(a.install_date.is_none());
    assert!(a.icon_path.is_none());
    assert_eq!(a.category, "Gaming");
}

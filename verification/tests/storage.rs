use std::path::PathBuf;

use libemin::storage::{cookie_store_path, file_in, has_cookie_store, settings_path};

#[test]
fn cookies_are_found_only_where_their_file_exists() {
    assert!(has_cookie_store(Some(true)));
    assert!(!has_cookie_store(Some(false)));
    assert!(!has_cookie_store(None));
}

#[test]
fn settings_and_cookies_have_files_of_their_own() {
    match (settings_path(), cookie_store_path()) {
        (Ok(settings), Ok(cookies)) => {
            assert_eq!(settings.name, "settings.json");
            assert_eq!(cookies.name, "cookies.json");
            assert_eq!(settings.directory, cookies.directory);
            assert!(settings.directory.is_absolute());
            assert!(settings.directory.ends_with("libemin"));
        }
        (settings, cookies) => {
            let message = "failed to resolve an app configuration directory";
            assert_eq!(settings.unwrap_err(), message);
            assert_eq!(cookies.unwrap_err(), message);
        }
    }
}

#[test]
fn files_need_a_directory() {
    let file = file_in(Some(PathBuf::from("/casa/mario")), "cookies.json").unwrap();
    assert_eq!(file.directory, PathBuf::from("/casa/mario"));
    assert_eq!(file.name, "cookies.json");
    assert_eq!(
        file_in(None, "cookies.json").unwrap_err(),
        "failed to resolve an app configuration directory"
    );
}

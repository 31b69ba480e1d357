use hestia::errors::LibraryError;
use hestia::library::{
    database_connection_string, CanonPath, Color, Icon, IconType, Library, LibraryConfig,
    LibraryPathConfig, WaitStep,
};

const DATA_HOME: &str = "/home/user/.local/share";

fn assert_default_path(p: &LibraryPathConfig) {
    assert_eq!(p.name.as_deref(), Some(""));
    assert_eq!(p.path.as_deref(), Some(""));
}

#[test]
fn check_library_creation_successful() {
    let share = format!("{}/hestia/test_lib", DATA_HOME);
    let lib = Library::new().switch_or_create_lib(&share, DATA_HOME, None).unwrap();
    match lib.library_config.as_ref() {
        Some(conf) => {
            assert_eq!(conf.library_paths.len(), 1);
            assert_default_path(&conf.library_paths[0]);
        }
        None => panic!("Initialization of config failed!"),
    }
    assert_eq!(lib.share_path.as_deref(), Some(share.as_str()));
}

#[test]
fn check_library_default_values() {
    let share = format!("{}/hestia/defaults", DATA_HOME);
    let lib = Library::new().switch_or_create_lib(&share, DATA_HOME, None).unwrap();
    let conf = lib.library_config.as_ref().unwrap();
    let default = LibraryConfig::default();
    assert_eq!(conf.name, default.name);
    assert_eq!(conf.name, "Library");
    assert_eq!(conf.color.name, "");
    assert_eq!(conf.color.hex, "");
    assert_eq!(conf.icon.name, "");
    assert_eq!(conf.icon.content, "");
    assert_eq!(conf.icon.content_type, IconType::Icon);
    assert_eq!(conf.library_paths.len(), default.library_paths.len());
}

#[test]
fn check_library_write_save_and_retrieve() {
    let share = format!("{}/hestia/saved", DATA_HOME);
    let mut lib = Library::new().switch_or_create_lib(&share, DATA_HOME, None).unwrap();
    let extra = LibraryPathConfig {
        name: Some("Hello".to_string()),
        path: Some("home/emmi/Documents/".to_string()),
    };
    if let Some(conf) = lib.library_config.as_mut() {
        conf.library_paths.push(extra.clone());
    }
    assert_eq!(lib.save_config(Ok(true), Ok(())), Ok(true));
    // What was saved is what the reopened library reads back.
    let saved = lib.library_config.clone();
    let reopened = Library::new().switch_or_create_lib(&share, DATA_HOME, saved).unwrap();
    let paths = &reopened.library_config.as_ref().unwrap().library_paths;
    assert_eq!(paths.len(), 2);
    assert_default_path(&paths[0]);
    assert_eq!(paths[1].name.as_deref(), Some("Hello"));
    assert_eq!(paths[1].path.as_deref(), Some("home/emmi/Documents/"));
}

#[test]
fn check_delete_library() {
    let share = format!("{}/hestia/doomed", DATA_HOME);
    let lib = Library::new().switch_or_create_lib(&share, DATA_HOME, None).unwrap();
    assert_eq!(lib.delete(Ok(true), Ok(())), Ok(()));
}

#[test]
fn deleting_a_library_reports_each_failure() {
    let with_path = || Library { share_path: Some("/data/lib".to_string()), library_config: None };
    assert_eq!(with_path().delete(Ok(true), Err(())), Err(LibraryError::Io));
    assert_eq!(with_path().delete(Ok(false), Ok(())), Err(LibraryError::InvalidSharePath));
    assert_eq!(with_path().delete(Err(()), Ok(())), Err(LibraryError::Io));
    assert_eq!(Library::new().delete(Err(()), Err(())), Ok(()));
}

#[test]
fn share_path_outside_data_home_is_refused() {
    let r = Library::new().switch_or_create_lib("/tmp/lib", DATA_HOME, None);
    assert!(matches!(r, Err(LibraryError::InvalidSharePath)));
    assert_eq!(Library::check_share_path("/home/user/.local/shared/x", DATA_HOME), Err(LibraryError::InvalidSharePath));
    assert_eq!(Library::check_share_path("/home/user/.local/share", DATA_HOME), Ok(()));
    assert_eq!(Library::check_share_path("/home/user/.local/share/hestia/x/", DATA_HOME), Ok(()));
}

#[test]
fn new_library_is_empty_and_last_or_new_falls_back() {
    let lib = Library::new();
    assert!(lib.share_path.is_none());
    assert!(lib.library_config.is_none());
    let fallback = Library::last_or_new(Err(LibraryError::LastLibraryNotFound));
    assert!(fallback.share_path.is_none());
    let kept = Library::last_or_new(Ok(Library { share_path: Some("/s".to_string()), library_config: None }));
    assert_eq!(kept.share_path.as_deref(), Some("/s"));
    assert_eq!(Library::last_library_path(None), Err(LibraryError::LastLibraryNotFound));
    assert_eq!(Library::last_library_path(Some("/s".to_string())), Ok("/s".to_string()));
}

#[test]
fn library_files_lie_in_its_directory() {
    let lib = Library { share_path: Some("/data/lib".to_string()), library_config: None };
    assert_eq!(lib.database_path(), Ok("/data/lib/db.sqlite".to_string()));
    assert_eq!(lib.config_path(), Ok("/data/lib/config.toml".to_string()));
    let slash = Library { share_path: Some("/data/lib/".to_string()), library_config: None };
    assert_eq!(slash.database_path(), Ok("/data/lib/db.sqlite".to_string()));
    assert_eq!(Library::new().database_path(), Err(LibraryError::Io));
    assert_eq!(Library::new().config_path(), Err(LibraryError::Io));
}

#[test]
fn canonical_database_path() {
    let lib = Library { share_path: Some("/data/lib".to_string()), library_config: None };
    let c = lib.get_canon_database_path(Some("/real/lib/db.sqlite".to_string())).unwrap();
    assert_eq!(c.as_str().unwrap(), "/real/lib/db.sqlite");
    let failed = lib.get_canon_database_path(None).unwrap();
    assert_eq!(failed.as_str().unwrap(), "");
    assert!(matches!(Library::new().get_canon_database_path(None), Err(LibraryError::Io)));
    let conn = database_connection_string(&c).unwrap();
    assert_eq!(conn, "sqlite:////real/lib/db.sqlite");
    assert_eq!(CanonPath::from_resolved(Some("/a".to_string())).into_path(), "/a");
}

#[test]
fn saving_the_config_needs_a_directory_and_a_config() {
    let with_config = Library {
        share_path: Some("/data/lib".to_string()),
        library_config: Some(LibraryConfig::default()),
    };
    assert_eq!(with_config.save_config(Ok(true), Ok(())), Ok(true));
    assert_eq!(with_config.save_config(Ok(false), Ok(())), Ok(false));
    assert_eq!(with_config.save_config(Ok(true), Err(())), Err(LibraryError::Io));
    assert_eq!(with_config.save_config(Err(()), Ok(())), Err(LibraryError::Io));
    let no_config = Library { share_path: Some("/data/lib".to_string()), library_config: None };
    assert_eq!(no_config.save_config(Ok(true), Ok(())), Err(LibraryError::InvalidSharePath));
    assert_eq!(Library::new().save_config(Ok(true), Ok(())), Err(LibraryError::Io));
    assert!(with_config.load_config().is_ok());
}

#[test]
fn waiting_for_the_library_directory() {
    let lib = Library { share_path: Some("/data/lib".to_string()), library_config: None };
    assert_eq!(lib.await_path_step(true, Ok(true), false), WaitStep::Done);
    assert_eq!(lib.await_path_step(true, Ok(false), false), WaitStep::Retry);
    assert_eq!(
        lib.await_path_step(true, Ok(false), true),
        WaitStep::Fail(LibraryError::CreationTimeout)
    );
    assert_eq!(lib.await_path_step(false, Ok(false), true), WaitStep::Done);
    assert_eq!(
        lib.await_path_step(false, Ok(true), true),
        WaitStep::Fail(LibraryError::DeletionTimeout)
    );
    assert_eq!(lib.await_path_step(false, Err(()), false), WaitStep::Retry);
    assert_eq!(
        lib.await_path_step(false, Err(()), true),
        WaitStep::Fail(LibraryError::CreationTimeout)
    );
    assert_eq!(
        Library::new().await_path_step(true, Ok(true), false),
        WaitStep::Fail(LibraryError::Io)
    );
}

#[test]
fn library_paths_skip_unset_directories() {
    let mut conf = LibraryConfig::default();
    conf.library_paths.push(LibraryPathConfig { name: Some("n".to_string()), path: None });
    conf.library_paths.push(LibraryPathConfig { name: None, path: Some("/photos".to_string()) });
    let lib = Library { share_path: None, library_config: Some(conf) };
    assert_eq!(lib.get_library_paths(), vec!["".to_string(), "/photos".to_string()]);
    assert_eq!(lib.get_paths().unwrap().len(), 3);
    assert!(Library::new().get_library_paths().is_empty());
    assert_eq!(Library::new().get_paths().err().unwrap(), "There is no config defined!");
}

#[test]
fn decorations_default_to_empty() {
    let c = Color::default();
    assert_eq!((c.name.as_str(), c.hex.as_str()), ("", ""));
    let i = Icon::default();
    assert_eq!(i.content_type, IconType::Icon);
    assert_eq!(IconType::default(), IconType::Icon);
    let d = LibraryPathConfig::default();
    assert_default_path(&d);
}

#[test]
fn config_text_needs_readable_utf8() {
    let text = Library::config_text(Ok(b"name = \"Library\"\n".to_vec())).unwrap();
    assert_eq!(text, "name = \"Library\"\n");
    let umlaut = Library::config_text(Ok("name = \"Bücher\"".as_bytes().to_vec())).unwrap();
    assert_eq!(umlaut, "name = \"Bücher\"");
    assert!(matches!(Library::config_text(Ok(vec![0x6e, 0xff, 0xfe])), Err(LibraryError::ConfigCreationError)));
    assert!(matches!(Library::config_text(Err(())), Err(LibraryError::ConfigCreationError)));
}

use bookweald_rs::config::{
    default_admin, default_admin_passwd, default_drop_existing_log_file_on_start, default_dry_run,
    default_host, default_max_component_len, default_name, default_passwd, default_port, default_user,
    dir_under, jobs_for, user_config_path, BookwealdConfig, ConfigError, DatabaseConfig, LoadOutcome,
};

#[test]
fn database_defaults() {
    assert_eq!(default_host(), "localhost");
    assert_eq!(default_port(), 5432);
    assert_eq!(default_user(), "books");
    assert_eq!(default_passwd(), "books");
    assert_eq!(default_name(), "books");
    assert_eq!(default_admin(), "admin");
    assert_eq!(default_admin_passwd(), "admin");
    let d = DatabaseConfig::default();
    assert_eq!(d.host, "localhost");
    assert_eq!(d.admin_passwd, "admin");
}

#[test]
fn library_defaults() {
    assert!(!default_dry_run());
    assert_eq!(default_max_component_len(), 0);
    assert!(!default_drop_existing_log_file_on_start());
    assert_eq!(jobs_for(Some(12)), 12);
    assert_eq!(jobs_for(None), 4);
    let c = BookwealdConfig::default_with(Some("/home/u".to_string()), None);
    assert_eq!(c.library_dir, "/home/u/books/incoming");
    assert_eq!(c.target_dir, "/home/u/books/organized");
    assert_eq!(c.jobs, 4);
    assert!(c.log_file.is_none() && c.blacklist.is_none() && c.alias_file.is_none());
    let c = BookwealdConfig::default_with(None, Some(2));
    assert_eq!(c.library_dir, "~/books/incoming");
    assert_eq!(c.jobs, 2);
    assert_eq!(dir_under(&Some("/h/".to_string()), "x"), "/h/x");
}

#[test]
fn location_is_chosen_in_order() {
    let given = BookwealdConfig::eff_location(Some("/etc/b.json".to_string()), true, None, false);
    assert_eq!(given.unwrap(), "/etc/b.json");
    let local = BookwealdConfig::eff_location(None, true, Some("/u/c.json".to_string()), true);
    assert_eq!(local.unwrap(), "config.json");
    let user = BookwealdConfig::eff_location(None, false, Some("/u/c.json".to_string()), true);
    assert_eq!(user.unwrap(), "/u/c.json");
    let none = BookwealdConfig::eff_location(None, false, Some("/u/c.json".to_string()), false);
    assert!(matches!(none, Err(ConfigError::NotFound)));
    assert_eq!(user_config_path("/home/u/.config"), "/home/u/.config/bookweald/config.json");
}

#[test]
fn load_turns_failures_into_errors() {
    let c = BookwealdConfig::default_with(None, None);
    assert!(BookwealdConfig::load("c.json", LoadOutcome::Parsed(c)).is_ok());
    let e = BookwealdConfig::load("c.json", LoadOutcome::ReadFailed { reason: "gone".to_string() }).unwrap_err();
    assert_eq!(e.message(), "Failed to read c.json: gone");
    let e = BookwealdConfig::load(
        "c.json",
        LoadOutcome::Invalid { position: Some((3, 7)), reason: "bad".to_string() },
    )
    .unwrap_err();
    assert_eq!(
        e.message(),
        "❌ Invalid configuration in c.json\n→ Line 3, Column 7\nError: bad\n\nRun `bookweald init --force` to regenerate a clean default."
    );
    let e = BookwealdConfig::load("c.json", LoadOutcome::Invalid { position: None, reason: "x".to_string() }).unwrap_err();
    assert!(matches!(e, ConfigError::Invalid { line: 0, column: 0, .. }));
    assert_eq!(
        ConfigError::NotFound.message(),
        "No config.json found.\nRun `bookweald init` (or `bookweald init --force`)"
    );
}

#[test]
fn the_default_configuration_is_written_unless_one_exists() {
    assert!(bookweald_rs::config::writes_default_config(false, false));
    assert!(bookweald_rs::config::writes_default_config(true, true));
    assert!(!bookweald_rs::config::writes_default_config(true, false));
}

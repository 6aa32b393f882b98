use thread_notes::config::{
    join_path, parse_toml_bool, parse_toml_u64, parse_u64, toml_value, Config,
    DEFAULT_SESSION_MINUTES,
};

#[test]
fn default_notes_dir_is_documents_thread() {
    let cfg = Config::from_dirs(
        None,
        Some("/home/ada".to_string()),
        Some("/home/ada/.config".to_string()),
    );
    assert_eq!(cfg.notes_dir, "/home/ada/Documents/thread");
    assert_eq!(cfg.config_dir, "/home/ada/.config/thread");
    assert!(cfg.show_scratch_in_thread);
    assert_eq!(cfg.session_minutes, DEFAULT_SESSION_MINUTES);
}

#[test]
fn thread_home_overrides_notes_dir() {
    let cfg = Config::from_dirs(Some("/tmp/thread-home".to_string()), None, None);
    assert_eq!(cfg.notes_dir, "/tmp/thread-home");
    assert_eq!(cfg.config_dir, "/tmp/thread-home");
    assert!(cfg.show_scratch_in_thread);
    assert_eq!(cfg.session_minutes, DEFAULT_SESSION_MINUTES);
}

#[test]
fn parse_show_scratch_accepts_bare_and_quoted() {
    assert_eq!(
        parse_toml_bool("show_scratch_in_thread = true", "show_scratch_in_thread"),
        Some(true)
    );
    assert_eq!(
        parse_toml_bool("show_scratch_in_thread=false", "show_scratch_in_thread"),
        Some(false)
    );
    assert_eq!(
        parse_toml_bool(
            "show_scratch_in_thread = \"false\"",
            "show_scratch_in_thread"
        ),
        Some(false)
    );
    assert_eq!(
        parse_toml_bool("unrelated = 1\n", "show_scratch_in_thread"),
        None
    );
}

#[test]
fn parse_session_minutes_accepts_bare_and_quoted() {
    assert_eq!(
        parse_toml_u64("session_minutes = 20", "session_minutes"),
        Some(20)
    );
    assert_eq!(
        parse_toml_u64("session_minutes=1", "session_minutes"),
        Some(1)
    );
    assert_eq!(
        parse_toml_u64("session_minutes = \"15\"", "session_minutes"),
        Some(15)
    );
    assert_eq!(parse_toml_u64("unrelated = 1\n", "session_minutes"), None);
}

#[test]
fn missing_home_and_config_dirs_fall_back_to_relative_paths() {
    let cfg = Config::from_dirs(None, None, None);
    assert_eq!(cfg.notes_dir, "thread");
    assert_eq!(cfg.config_dir, "./thread");
    assert_eq!(cfg.config_file(), "./thread/config.toml");
}

#[test]
fn default_config_values() {
    let cfg = Config::default();
    assert_eq!(cfg.notes_dir, "thread");
    assert_eq!(cfg.config_dir, ".");
    assert!(cfg.show_scratch_in_thread);
    assert_eq!(cfg.session_minutes, 20);
}

#[test]
fn config_text_hides_scratch_and_sets_minutes() {
    let mut cfg = Config::from_dirs(Some("/t".to_string()), None, None);
    cfg.apply_config_text("# comment\nshow_scratch_in_thread = false\nsession_minutes = 5\n");
    assert!(!cfg.show_scratch_in_thread);
    assert_eq!(cfg.session_minutes, 5);
    assert_eq!(cfg.notes_dir, "/t");
}

#[test]
fn zero_or_unparsable_minutes_keep_the_current_value() {
    let mut cfg = Config::from_dirs(Some("/t".to_string()), None, None);
    cfg.apply_config_text("session_minutes = 0\n");
    assert_eq!(cfg.session_minutes, DEFAULT_SESSION_MINUTES);
    cfg.apply_config_text("session_minutes = nope\n");
    assert_eq!(cfg.session_minutes, DEFAULT_SESSION_MINUTES);
    cfg.apply_config_text("show_scratch_in_thread = maybe\n");
    assert!(cfg.show_scratch_in_thread);
}

#[test]
fn toml_scan_skips_comments_and_trims_value() {
    assert_eq!(toml_value("// session_minutes = 3\n# x\n  session_minutes = '7',  \n", "session_minutes"), Some("7".to_string()));
    assert_eq!(toml_value("session_minutes_extra = 3\n", "session_minutes"), None);
    assert_eq!(toml_value("session_minutes = 4\r\nsession_minutes = 9\n", "session_minutes"), Some("4".to_string()));
    assert_eq!(parse_toml_bool("flag = TRUE\n", "flag"), Some(true));
    assert_eq!(parse_toml_bool("flag = 0\n", "flag"), Some(false));
}

#[test]
fn parse_u64_follows_std() {
    assert_eq!(parse_u64("+42"), Some(42));
    assert_eq!(parse_u64("18446744073709551615"), Some(u64::MAX));
    assert_eq!(parse_u64("18446744073709551616"), None);
    assert_eq!(parse_u64(""), None);
    assert_eq!(parse_u64("+"), None);
    assert_eq!(parse_u64("-1"), None);
    assert_eq!(parse_u64("1 2"), None);
}

#[test]
fn join_path_follows_path_join() {
    assert_eq!(join_path("/a/", "b"), "/a/b");
    assert_eq!(join_path("/a", "b"), "/a/b");
    assert_eq!(join_path("", "b"), "b");
    assert_eq!(join_path("/a", "/abs"), "/abs");
}

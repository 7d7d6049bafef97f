use waketimed::embedded_files::{
    embedded_dir_entry_paths, embedded_file_data, embedded_file_data_under, EmbeddedError,
    PREFIX_RULE_DEF, PREFIX_VAR_DEF,
};

#[test]
fn test_rule_def_entries() -> Result<(), EmbeddedError> {
    let entries: Vec<String> = embedded_dir_entry_paths(PREFIX_RULE_DEF)?
        .into_iter()
        .collect();
    let mut ref_entries: Vec<&str> = entries.iter().map(|path| path.as_str()).collect();
    ref_entries.sort_unstable();
    assert_eq!(
        &ref_entries,
        &[
            "/__WAKETIMED_EMBEDDED__/rule_def/wtd_call_present.yaml",
            "/__WAKETIMED_EMBEDDED__/rule_def/wtd_sleep_block_inhibited.yaml",
            "/__WAKETIMED_EMBEDDED__/rule_def/wtd_user_busy.yaml"
        ],
    );
    Ok(())
}

#[test]
fn test_var_def_entries() -> Result<(), EmbeddedError> {
    let entries: Vec<String> = embedded_dir_entry_paths(PREFIX_VAR_DEF)?
        .into_iter()
        .collect();
    let mut ref_entries: Vec<&str> = entries.iter().map(|path| path.as_str()).collect();
    ref_entries.sort_unstable();
    assert_eq!(
        &ref_entries,
        &[
            "/__WAKETIMED_EMBEDDED__/var_def/wtd_call_present.yaml",
            "/__WAKETIMED_EMBEDDED__/var_def/wtd_login_seat_busy.yaml",
            "/__WAKETIMED_EMBEDDED__/var_def/wtd_modem_voice_call_present.yaml",
            "/__WAKETIMED_EMBEDDED__/var_def/wtd_sleep_block_inhibited.yaml",
            "/__WAKETIMED_EMBEDDED__/var_def/wtd_user_busy.yaml",
        ],
    );
    Ok(())
}

#[test]
fn test_embedded_file_data() -> Result<(), EmbeddedError> {
    let data = embedded_file_data("/__WAKETIMED_EMBEDDED__/rule_def/wtd_user_busy.yaml")?;
    let expected_data = b"kind: !stayup_bool\n  value_script: \"wtd_user_busy\"\n";
    assert_eq!(&*data, expected_data);
    Ok(())
}

#[test]
fn test_embedded_file_data_error() -> Result<(), EmbeddedError> {
    let data = embedded_file_data("/__WAKETIMED_EMBEDDED__/rule_def/nonexistent.yaml");
    assert!(data.is_err());
    Ok(())
}

#[test]
fn embedded_errors_say_what_is_wrong() {
    assert_eq!(
        embedded_file_data("/__WAKETIMED_EMBEDDED__/rule_def/nonexistent.yaml"),
        Err(EmbeddedError::NotFound(
            "/__WAKETIMED_EMBEDDED__/rule_def/nonexistent.yaml".to_string()
        ))
    );
    assert_eq!(
        embedded_file_data("/etc/waketimed/rule_def/wtd_user_busy.yaml"),
        Err(EmbeddedError::UnknownPath(
            "/etc/waketimed/rule_def/wtd_user_busy.yaml".to_string()
        ))
    );
    // A path that only begins like the prefix is under no embedded directory.
    assert_eq!(
        embedded_file_data("/__WAKETIMED_EMBEDDED__/rule_definitions/x.yaml"),
        Err(EmbeddedError::UnknownPath(
            "/__WAKETIMED_EMBEDDED__/rule_definitions/x.yaml".to_string()
        ))
    );
    assert_eq!(
        embedded_dir_entry_paths("/__WAKETIMED_EMBEDDED__"),
        Err(EmbeddedError::UnknownDir("/__WAKETIMED_EMBEDDED__".to_string()))
    );
    assert_eq!(
        embedded_dir_entry_paths("/etc"),
        Err(EmbeddedError::UnknownDir("/etc".to_string()))
    );
}

#[test]
fn embedded_var_def_data() {
    let data = embedded_file_data("/__WAKETIMED_EMBEDDED__/var_def/wtd_user_busy.yaml").unwrap();
    assert_eq!(
        String::from_utf8(data).unwrap(),
        "data_type: bool\nkind: !category_any\n  category_name: wtd_user_busy\n"
    );
}

#[test]
fn embedded_data_by_the_directory_that_is_given() {
    let path = "/__WAKETIMED_EMBEDDED__/var_def/wtd_user_busy.yaml";
    assert_eq!(
        embedded_file_data_under(false, true, path),
        embedded_file_data(path)
    );
    // Among the rule definitions there is no file of this path.
    assert_eq!(
        embedded_file_data_under(true, true, path),
        Err(EmbeddedError::NotFound(path.to_string()))
    );
    assert_eq!(
        embedded_file_data_under(false, false, path),
        Err(EmbeddedError::UnknownPath(path.to_string()))
    );
}

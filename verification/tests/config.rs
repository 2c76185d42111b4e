use merge_mp4::config::AppConfig;

#[test]
fn nothing_is_set_at_first() {
    let config = AppConfig::default();
    assert_eq!(config.output_directory, None);
    assert_eq!(config.last_input_directory, None);
    assert_eq!(config.last_query_directory, None);
    assert_eq!(config.get_last_input_directory(), None);
    assert_eq!(config.get_last_query_directory(), None);
}

#[test]
fn a_setter_sets_its_own_directory_and_no_other() {
    let mut config = AppConfig::default();
    config.set_output_directory("/out".to_string());
    assert_eq!(
        config,
        AppConfig { output_directory: Some("/out".to_string()), last_input_directory: None, last_query_directory: None }
    );
    config.set_last_input_directory("/in".to_string());
    config.set_last_query_directory("/query".to_string());
    assert_eq!(config.output_directory, Some("/out".to_string()));
    assert_eq!(config.get_last_input_directory(), Some("/in".to_string()));
    assert_eq!(config.get_last_query_directory(), Some("/query".to_string()));
    config.set_output_directory("/elsewhere".to_string());
    assert_eq!(config.output_directory, Some("/elsewhere".to_string()));
    assert_eq!(config.last_input_directory, Some("/in".to_string()));
    config.clear_output_directory();
    assert_eq!(config.output_directory, None);
    assert_eq!(config.last_query_directory, Some("/query".to_string()));
}

#[test]
fn the_output_directory_falls_back_to_the_working_directory() {
    let mut config = AppConfig::default();
    assert_eq!(config.get_output_directory(Some("/work".to_string())), "/work");
    assert_eq!(config.get_output_directory(None), ".");
    config.set_output_directory("/out".to_string());
    assert_eq!(config.get_output_directory(Some("/work".to_string())), "/out");
    assert_eq!(config.get_output_directory(None), "/out");
}

#[test]
fn a_duplicate_equals_the_settings_it_was_made_from() {
    let mut config = AppConfig::default();
    config.set_last_input_directory("/视频".to_string());
    assert_eq!(config.duplicate(), config);
}

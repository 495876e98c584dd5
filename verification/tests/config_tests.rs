use print_agent::config::{config_dir_for, config_path, AgentConfig, ConfigOs};

#[test]
fn default_settings() {
    let cfg = AgentConfig::default();
    assert_eq!(cfg.server_url, "http://localhost:5050");
    assert_eq!(cfg.api_key, "");
    assert_eq!(cfg.printer_name, "");
    assert_eq!(cfg.poll_interval_seconds, 5);
    assert!(cfg.auto_start);
    assert_eq!(cfg.agent_id.len(), 8);
    assert!(cfg.agent_id.chars().all(|c| c.is_ascii_digit() || ('a'..='f').contains(&c)));
}

#[test]
fn default_agent_ids_differ() {
    let a = AgentConfig::default().agent_id;
    let b = AgentConfig::default().agent_id;
    let c = AgentConfig::default().agent_id;
    assert!(a != b || b != c);
}

#[test]
fn settings_file_location() {
    let sep = std::path::MAIN_SEPARATOR;
    assert_eq!(config_path(None), format!(".{}settings.json", sep));
    assert_eq!(
        config_path(Some("/home/u/.config/ampario-print-agent".to_string())),
        format!("/home/u/.config/ampario-print-agent{}settings.json", sep)
    );
    assert_eq!(config_path(Some("/tmp/".to_string())), "/tmp/settings.json");
}

#[test]
fn configuration_directories() {
    let sep = std::path::MAIN_SEPARATOR;
    assert_eq!(
        config_dir_for(ConfigOs::MacOs, Some("/Users/u".to_string()), None),
        Some(format!("/Users/u{s}Library{s}Application Support{s}ampario-print-agent", s = sep))
    );
    assert_eq!(
        config_dir_for(ConfigOs::Other, Some("/home/u".to_string()), Some("x".to_string())),
        Some(format!("/home/u{s}.config{s}ampario-print-agent", s = sep))
    );
    assert_eq!(
        config_dir_for(ConfigOs::Windows, Some("/home/u".to_string()), Some("/appdata".to_string())),
        Some(format!("/appdata{}ampario-print-agent", sep))
    );
    assert_eq!(
        config_dir_for(ConfigOs::Other, Some("//srv/u".to_string()), None),
        Some(format!("//srv/u{s}.config{s}ampario-print-agent", s = sep))
    );
    assert_eq!(config_dir_for(ConfigOs::MacOs, None, Some("a".to_string())), None);
    assert_eq!(config_dir_for(ConfigOs::Windows, Some("h".to_string()), None), None);
    assert_eq!(config_dir_for(ConfigOs::Other, None, None), None);
}

#[test]
fn joining_an_empty_directory() {
    assert_eq!(config_path(Some(String::new())), "settings.json");
}

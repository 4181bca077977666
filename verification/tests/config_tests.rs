use printlink::config::{
    clear_temp_config, get_current_config, load_config, load_multi_server_config, save_config_command,
    set_temp_config, validate_server_input, MainServerConfig, MultiServerConfig, TempConfigSlot,
    DEFAULT_PASSWORD, DEFAULT_SERVER_ADDR, DEFAULT_USERNAME,
};
use printlink::config::config_saved_message;

fn cfg(a: &str, u: &str, p: &str) -> MainServerConfig {
    MainServerConfig::new(a.to_string(), u.to_string(), p.to_string())
}

#[test]
fn test_default_config() {
    let config = MainServerConfig::default();
    assert_eq!(config.server_addr, "10.60.254.90");
    assert_eq!(config.username, "print");
    assert_eq!(config.password, "a*999999");
}

#[test]
fn default_constants() {
    assert_eq!(DEFAULT_SERVER_ADDR, "10.60.254.90");
    assert_eq!(DEFAULT_USERNAME, "print");
    assert_eq!(DEFAULT_PASSWORD, "a*999999");
}

#[test]
fn load_config_keeps_what_was_read() {
    let c = load_config(Some(cfg("192.168.1.1", "admin", "pass123")));
    assert_eq!(c.server_addr, "192.168.1.1");
    assert_eq!(c.username, "admin");
    assert_eq!(c.password, "pass123");
}

#[test]
fn load_config_falls_back_to_default() {
    let c = load_config(None);
    assert_eq!(c.server_addr, DEFAULT_SERVER_ADDR);
    assert_eq!(c.username, DEFAULT_USERNAME);
    assert_eq!(c.password, DEFAULT_PASSWORD);
}

#[test]
fn load_multi_server_config_falls_back_to_empty() {
    let m = load_multi_server_config(None);
    assert!(m.main_server_addr.is_none());
    assert!(m.extra_servers.is_empty());
    let kept = load_multi_server_config(Some(MultiServerConfig {
        main_server_addr: Some("10.0.0.1".to_string()),
        extra_servers: Vec::new(),
    }));
    assert_eq!(kept.main_server_addr.as_deref(), Some("10.0.0.1"));
}

#[test]
fn temp_config_takes_precedence_until_cleared() {
    let mut slot = TempConfigSlot::new();
    let stored = cfg("10.60.254.90", "print", "a*999999");
    assert_eq!(get_current_config(&slot, stored.clone()).server_addr, "10.60.254.90");
    set_temp_config(&mut slot, &cfg("10.1.1.1", "u", ""));
    let cur = get_current_config(&slot, stored.clone());
    assert_eq!(cur.server_addr, "10.1.1.1");
    assert_eq!(cur.username, "u");
    clear_temp_config(&mut slot);
    assert_eq!(get_current_config(&slot, stored).server_addr, "10.60.254.90");
}

#[test]
fn save_config_command_trims_and_accepts() {
    let c = save_config_command("  10.0.0.5 ", "\tadmin\n", " secret ").unwrap();
    assert_eq!(c.server_addr, "10.0.0.5");
    assert_eq!(c.username, "admin");
    assert_eq!(c.password, " secret ");
    assert_eq!(config_saved_message(&c), "配置已保存（服务器：10.0.0.5）");
}

#[test]
fn save_config_command_rejects_empty_fields() {
    assert_eq!(save_config_command("   ", "admin", "p").unwrap_err(), "服务器地址不能为空");
    assert_eq!(save_config_command("10.0.0.5", " ", "p").unwrap_err(), "账号不能为空");
    assert_eq!(save_config_command("10.0.0.5", "admin", "").unwrap_err(), "密码不能为空");
    // the address is checked first
    assert_eq!(validate_server_input("", "", "").unwrap_err(), "服务器地址不能为空");
}

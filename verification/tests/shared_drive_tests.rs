use printlink::shared_drive::{
    connect_shared_drive, establish_smb_connection, folder_enum_error, folder_enum_open_error, ipc_share_path,
    is_connection_to_host, is_connection_to_server, is_hidden_share, lex_less, list_root_folders, smb_retry_outcome, SmbConnectStep,
};
use printlink::tray::{tray_menu_action, TrayMenuAction, TRAY_REFRESH_EVENT};

#[test]
fn test_filter_hidden_shares() {
    // shares whose name ends with `$` are filtered out
    let names = vec!["public", "IPC$", "admin$", "docs"];
    let filtered: Vec<&str> = names
        .into_iter()
        .filter(|n| !is_hidden_share(n))
        .collect();
    assert_eq!(filtered, vec!["public", "docs"]);
}

#[test]
fn root_folders_are_sorted_and_unique() {
    let remotes: Vec<String> = vec![
        "\\\\nas\\public", "\\\\nas\\IPC$", "\\\\nas\\docs", "\\\\nas\\admin$", "\\\\nas\\public", "\\\\nas\\",
        "\\\\nas\\Zeta",
    ]
    .into_iter()
    .map(String::from)
    .collect();
    assert_eq!(list_root_folders(&remotes), vec!["Zeta".to_string(), "docs".to_string(), "public".to_string()]);
    let mut reversed = remotes.clone();
    reversed.reverse();
    assert_eq!(list_root_folders(&reversed), list_root_folders(&remotes));
    assert!(list_root_folders(&[]).is_empty());
}

#[test]
fn string_order_matches_std() {
    for (a, b) in [("a", "b"), ("ab", "a"), ("", "x"), ("Zeta", "docs"), ("共享", "共"), ("x", "x")] {
        assert_eq!(lex_less(a, b), a < b);
        assert_eq!(lex_less(b, a), b < a);
    }
}

#[test]
fn shared_drive_settings_are_checked() {
    let c = connect_shared_drive(" 192.168.1.100 ", "admin", "pass123").unwrap();
    assert_eq!(c.server_addr, "192.168.1.100");
    assert_eq!(c.username, "admin");
    assert_eq!(c.password, "pass123");
    assert_eq!(connect_shared_drive("", "admin", "p").unwrap_err(), "服务器地址不能为空");
}

#[test]
fn smb_connection_steps() {
    assert_eq!(ipc_share_path("nas"), "\\\\nas\\IPC$");
    assert!(matches!(establish_smb_connection(0, "r"), SmbConnectStep::Connected));
    assert!(matches!(establish_smb_connection(1219, "r"), SmbConnectStep::RetryAfterCancel));
    let failed = |code: u32| match establish_smb_connection(code, "\\\\nas\\IPC$") {
        SmbConnectStep::Failed(m) => m,
        other => panic!("unexpected {:?}", other),
    };
    assert_eq!(failed(5), "访问被拒绝，请检查账号密码是否正确");
    assert_eq!(failed(53), "找不到网络路径 \\\\nas\\IPC$，请检查服务器地址");
    assert_eq!(failed(86), "指定的网络密码不正确");
    assert_eq!(failed(1326), "登录失败：用户名或密码错误");
    assert_eq!(failed(67), "SMB 连接失败（错误码 67）");
    assert!(smb_retry_outcome(0).is_ok());
    assert_eq!(smb_retry_outcome(1219).unwrap_err(), "已有其他凭据连接到该服务器（错误码 1219），请先断开其他连接");
}

#[test]
fn folder_enumeration_messages() {
    assert_eq!(folder_enum_open_error("\\\\nas", 53), "无法枚举共享目录 \\\\nas（错误码 53）");
    assert_eq!(folder_enum_error(5), "枚举共享资源失败（错误码 5）");
}

#[test]
fn connections_to_cancel() {
    assert!(is_connection_to_server("\\\\NAS\\docs", "nas"));
    assert!(is_connection_to_server("\\\\nas\\IPC$", "NAS"));
    assert!(!is_connection_to_server("\\\\other\\docs", "nas"));
}

#[test]
fn connections_to_other_hosts_are_kept() {
    assert!(!is_connection_to_server("\\\\srv2\\x", "srv"));
    assert!(!is_connection_to_server("\\\\10.60.254.90\\HP-M4", "10.60.254.9"));
    assert!(is_connection_to_server("\\\\10.60.254.9\\HP-M4", "10.60.254.9"));
    assert!(is_connection_to_server("\\\\SRV", "srv"));
    assert!(!is_connection_to_server("srv\\x", "srv"));
}

#[test]
fn connection_host_is_compared_as_given() {
    assert!(is_connection_to_host("\\\\nas\\docs", "nas"));
    assert!(!is_connection_to_host("\\\\nas\\docs", "NAS"));
    assert!(!is_connection_to_host("\\\\nas2\\docs", "nas"));
    assert!(!is_connection_to_host("nas\\docs", "nas"));
}

#[test]
fn tray_menu_entries() {
    assert_eq!(TRAY_REFRESH_EVENT, "tray-refresh");
    assert_eq!(tray_menu_action("show"), TrayMenuAction::ShowWindow);
    assert_eq!(tray_menu_action("refresh"), TrayMenuAction::Refresh);
    assert_eq!(tray_menu_action("quit"), TrayMenuAction::Quit);
    assert_eq!(tray_menu_action("sep"), TrayMenuAction::Nothing);
}

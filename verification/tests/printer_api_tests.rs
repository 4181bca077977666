use printlink::config::{ExtraServer, MultiServerConfig};
use printlink::printer_api::{
    add_extra_server, added_server_message, build_printer_path, connect_printer, connect_printer_error,
    default_printer_set_message, display_name, extract_printer_server, filter_server_printers, find_extra_server,
    get_default_printer, get_local_printer_list, is_printer_connected, local_printer_enum_failure,
    open_printer_preference, open_printer_property, plan_printer_connection, printer_connected_message,
    printui_params, remove_extra_server, remove_printer, remove_printer_step, scan_cached_server, any_name_equal,
    select_by_prefix, select_local_printers, InstalledPrinter, RemovalAction, RemovalEvent,
};

fn multi(servers: &[(&str, &str, bool)]) -> MultiServerConfig {
    MultiServerConfig {
        main_server_addr: None,
        extra_servers: servers
            .iter()
            .map(|(a, u, saved)| ExtraServer {
                server_addr: a.to_string(),
                username: u.to_string(),
                credential_saved: *saved,
                created_at: 1,
            })
            .collect(),
    }
}

#[test]
fn test_build_printer_path() {
    assert_eq!(
        build_printer_path("10.60.254.90", "HP-M4"),
        "\\\\10.60.254.90\\HP-M4"
    );
    // a full path is not joined again
    assert_eq!(
        build_printer_path("10.60.254.90", "\\\\10.60.254.90\\HP-M4"),
        "\\\\10.60.254.90\\HP-M4"
    );
}

#[test]
fn test_filter_server_printers() {
    let names = vec![
        "\\\\10.60.254.90\\HP-M4".to_string(),
        "\\\\192.168.1.1\\Other".to_string(),
        "\\\\10.60.254.90\\Canon".to_string(),
        "Microsoft Print to PDF".to_string(),
    ];
    let filtered = filter_server_printers(&names, "10.60.254.90");
    assert_eq!(filtered.len(), 2);
    assert!(filtered.contains(&"\\\\10.60.254.90\\HP-M4".to_string()));
    assert!(filtered.contains(&"\\\\10.60.254.90\\Canon".to_string()));
}

#[test]
fn test_filter_case_insensitive() {
    let names = vec!["\\\\10.60.254.90\\hp-m4".to_string()];
    let filtered = filter_server_printers(&names, "10.60.254.90");
    assert_eq!(filtered.len(), 1);
}

#[test]
fn filter_keeps_order_and_is_idempotent() {
    let names = vec![
        "\\\\SRV\\b".to_string(),
        "\\\\other\\x".to_string(),
        "\\\\srv\\a".to_string(),
    ];
    let once = filter_server_printers(&names, "srv");
    assert_eq!(once, vec!["\\\\SRV\\b".to_string(), "\\\\srv\\a".to_string()]);
    assert_eq!(filter_server_printers(&once, "srv"), once);
}

#[test]
fn test_display_name() {
    assert_eq!(display_name("\\\\10.60.254.90\\HP-M4"), "HP-M4");
    assert_eq!(display_name("HP-M4"), "HP-M4");
}

#[test]
fn test_extract_printer_server() {
    assert_eq!(extract_printer_server("\\\\127.0.0.1\\IT-Print"), "127.0.0.1");
    assert_eq!(extract_printer_server("\\\\10.60.254.90\\HP-M4"), "10.60.254.90");
}

#[test]
fn extract_printer_server_edge_cases() {
    assert_eq!(extract_printer_server("PDF"), "PDF");
    assert_eq!(extract_printer_server("\\\\srv"), "srv");
    assert_eq!(extract_printer_server("\\\\"), "");
}

#[test]
fn printer_path_roundtrip_on_examples() {
    let p = build_printer_path("10.1.2.3", "Canon-ADV");
    assert_eq!(extract_printer_server(&p), "10.1.2.3");
    assert_eq!(display_name(&p), "Canon-ADV");
}

#[test]
fn connected_printer_is_detected_case_insensitively() {
    let installed = vec!["\\\\SRV\\HP".to_string()];
    assert!(is_printer_connected(&installed, "\\\\srv\\hp"));
    assert!(!is_printer_connected(&installed, "\\\\srv\\canon"));
    assert!(!is_printer_connected(&[], "\\\\srv\\hp"));
}

#[test]
fn connect_printer_plans() {
    let m = multi(&[("10.0.0.2", "alice", true)]);
    let installed = vec!["\\\\10.0.0.2\\HP".to_string()];
    assert_eq!(
        connect_printer("\\\\10.0.0.2\\hp", &installed, &m).unwrap_err(),
        "该打印机已安装，无需重复连接"
    );
    let extra = connect_printer("\\\\10.0.0.2\\Canon", &installed, &m).unwrap();
    assert_eq!(extra.server, "10.0.0.2");
    assert_eq!(extra.session_target.as_deref(), Some("\\\\10.0.0.2"));
    let main = connect_printer("\\\\10.60.254.90\\Canon", &installed, &m).unwrap();
    assert_eq!(main.server, "10.60.254.90");
    assert!(main.session_target.is_none());
    assert_eq!(printer_connected_message("\\\\a\\b"), "打印机连接成功：\\\\a\\b");
}

#[test]
fn connect_printer_error_messages() {
    let m = multi(&[("10.0.0.2", "alice", true)]);
    assert_eq!(connect_printer_error(1797, "\\\\x\\p", &m), "打印机驱动缺失，请先手动安装对应驱动后重试");
    assert_eq!(connect_printer_error(1930, "\\\\x\\p", &m), "打印机驱动缺失，请先手动安装对应驱动后重试");
    assert_eq!(connect_printer_error(1802, "\\\\x\\p", &m), "该打印机已安装，无需重复连接");
    assert_eq!(connect_printer_error(1326, "\\\\x\\p", &m), "凭据验证失败，请检查账号密码");
    assert_eq!(connect_printer_error(53, "\\\\x\\p", &m), "打印服务器 x 网络不通，请检查内网连接");
    assert_eq!(connect_printer_error(1203, "\\\\x\\p", &m), "打印服务器 x 网络不通，请检查内网连接");
    assert_eq!(connect_printer_error(5, "\\\\x\\p", &m), "打印机连接失败（错误码 5）：权限不足，请尝试以管理员身份运行程序");
    let extra = connect_printer_error(1801, "\\\\10.0.0.2\\p", &m);
    assert!(extra.starts_with("无法连接到打印机 \\\\10.0.0.2\\p\n\n请确认:\n1. 服务器 10.0.0.2 在线且可访问"));
    assert!(extra.contains("用户 'alice' 有访问权限"));
    let main = connect_printer_error(1801, "\\\\10.60.254.90\\p", &m);
    assert!(main.contains("用户 '(主服务器)' 有访问权限"));
    assert!(main.ends_with("4. 防火墙未阻止 445 端口"));
}

#[test]
fn local_printer_list_selects_server_and_default() {
    let entries = vec![
        InstalledPrinter { name: "\\\\10.60.254.90\\HP".into(), port_name: "p1".into(), driver_name: "d1".into() },
        InstalledPrinter { name: "Microsoft Print to PDF".into(), port_name: "p2".into(), driver_name: "d2".into() },
        InstalledPrinter { name: "\\\\10.60.254.90\\Canon".into(), port_name: "p3".into(), driver_name: "d3".into() },
    ];
    let items = get_local_printer_list(&entries, "10.60.254.90", "\\\\10.60.254.90\\Canon");
    assert_eq!(items.len(), 2);
    assert_eq!(items[0].name, "\\\\10.60.254.90\\HP");
    assert_eq!(items[0].port_name, "p1");
    assert!(!items[0].is_default);
    assert_eq!(items[1].driver_name, "d3");
    assert!(items[1].is_default);
    assert_eq!(items[1].status, "空闲");
}

#[test]
fn local_printer_enum_failures() {
    assert!(local_printer_enum_failure(1801).unwrap().is_empty());
    assert!(local_printer_enum_failure(87).unwrap().is_empty());
    assert_eq!(
        local_printer_enum_failure(5).unwrap_err(),
        "本地打印机枚举失败（错误码 5）：权限不足，请尝试以管理员身份运行程序"
    );
}

#[test]
fn extra_server_add_remove_and_rescan() {
    let mut m = multi(&[]);
    let cfg = add_extra_server(&mut m, " 10.0.0.7 ", " bob ", "pw", 1700000000).unwrap();
    assert_eq!(cfg.server_addr, "10.0.0.7");
    assert_eq!(cfg.username, "bob");
    assert_eq!(cfg.password, "pw");
    assert_eq!(m.extra_servers.len(), 1);
    assert!(m.extra_servers[0].credential_saved);
    assert_eq!(m.extra_servers[0].created_at, 1700000000);
    assert_eq!(find_extra_server(&m, "10.0.0.7"), Some(0));

    assert_eq!(add_extra_server(&mut m, "10.0.0.7", "x", "y", 2).unwrap_err(), "服务器 10.0.0.7 已存在");
    assert_eq!(m.extra_servers.len(), 1);
    assert_eq!(add_extra_server(&mut m, "10.0.0.8", "x", "", 2).unwrap_err(), "密码不能为空");
    assert_eq!(m.extra_servers.len(), 1);

    let scan = scan_cached_server(&m, "10.0.0.7").unwrap();
    assert_eq!(scan.username, "bob");
    assert_eq!(scan.password, "");

    assert!(remove_extra_server(&mut m, "10.0.0.7").is_ok());
    assert!(m.extra_servers.is_empty());
    assert_eq!(remove_extra_server(&mut m, "10.0.0.7").unwrap_err(), "未找到服务器 10.0.0.7");
    assert_eq!(scan_cached_server(&m, "10.0.0.7").unwrap_err(), "未找到服务器 10.0.0.7");
}

#[test]
fn rescan_needs_saved_credential() {
    let m = multi(&[("10.0.0.3", "carol", false)]);
    assert_eq!(scan_cached_server(&m, "10.0.0.3").unwrap_err(), "请重新输入密码保存凭据");
    assert_eq!(added_server_message("10.0.0.3", 4), "已添加服务器 10.0.0.3，发现 4 台打印机");
}

#[test]
fn default_printer_messages() {
    assert_eq!(default_printer_set_message("\\\\srv\\HP-M4"), "已将「HP-M4」设为默认打印机");
    assert_eq!(get_default_printer(Some("HP".to_string())).unwrap(), "HP");
    assert_eq!(get_default_printer(None).unwrap_err(), "未找到默认打印机");
}

#[test]
fn printer_removal_steps() {
    assert!(matches!(remove_printer(), RemovalAction::DeleteConnection));
    match remove_printer_step("\\\\srv\\HP", RemovalEvent::ConnectionDeleted(true)) {
        RemovalAction::Finish(Ok(m)) => assert_eq!(m, "已断开打印机：HP"),
        other => panic!("unexpected {:?}", other),
    }
    assert!(matches!(remove_printer_step("x", RemovalEvent::ConnectionDeleted(false)), RemovalAction::OpenPrinter));
    assert!(matches!(remove_printer_step("x", RemovalEvent::Opened(None)), RemovalAction::DeletePrinter));
    match remove_printer_step("x", RemovalEvent::Opened(Some(5))) {
        RemovalAction::Finish(Err(m)) => assert_eq!(m, "断开打印机失败（错误码 5）：权限不足，请尝试以管理员身份运行程序"),
        other => panic!("unexpected {:?}", other),
    }
    match remove_printer_step("\\\\s\\P", RemovalEvent::PrinterDeleted(None)) {
        RemovalAction::Finish(Ok(m)) => assert_eq!(m, "已断开打印机：P"),
        other => panic!("unexpected {:?}", other),
    }
}

#[test]
fn printer_dialogs() {
    assert_eq!(printui_params("/p", "\\\\s\\HP"), "printui.dll,PrintUIEntry /p /n \"\\\\s\\HP\"");
    assert_eq!(open_printer_property(33).unwrap(), "已打开打印机属性窗口");
    assert_eq!(open_printer_property(32).unwrap_err(), "无法打开打印机配置窗口");
    assert_eq!(open_printer_preference(42).unwrap(), "已打开打印首选项窗口");
    assert_eq!(open_printer_preference(2).unwrap_err(), "无法打开打印机配置窗口");
}

#[test]
fn filter_uses_unicode_lowercase() {
    let names = vec!["\\\\ÄRGER\\x".to_string(), "\\\\ärger\\y".to_string(), "\\\\ärger2\\z".to_string()];
    assert_eq!(filter_server_printers(&names, "ärger"), names[..2].to_vec());
}

#[test]
fn filter_needs_backslash_after_server() {
    let names = vec!["\\\\10.60.254.90\\HP-M4".to_string(), "\\\\10.60.254.9\\Canon".to_string()];
    assert_eq!(filter_server_printers(&names, "10.60.254.9"), vec!["\\\\10.60.254.9\\Canon".to_string()]);
    assert!(filter_server_printers(&names[..1], "10.60.254.9").is_empty());
    assert!(filter_server_printers(&["\\\\srv".to_string()], "srv").is_empty());
}

#[test]
fn select_by_prefix_uses_the_given_lower_case_forms() {
    let names = vec!["A".to_string(), "B".to_string(), "C".to_string()];
    let lowered = vec!["\\\\s\\a".to_string(), "x".to_string(), "\\\\s\\c".to_string()];
    assert_eq!(select_by_prefix(&lowered, &names, "\\\\s\\"), vec!["A".to_string(), "C".to_string()]);
    assert!(select_by_prefix(&lowered, &names, "zz").is_empty());
    assert_eq!(select_by_prefix(&lowered, &names, ""), names);
}

#[test]
fn any_name_equal_compares_whole_names() {
    let lowered = vec!["\\\\srv\\hp".to_string(), "\\\\srv\\canon".to_string()];
    assert!(any_name_equal(&lowered, "\\\\srv\\canon"));
    assert!(!any_name_equal(&lowered, "\\\\srv\\can"));
    assert!(!any_name_equal(&[], "x"));
}

#[test]
fn select_local_printers_uses_the_given_lower_case_names() {
    let entries = vec![
        InstalledPrinter { name: "\\\\S\\A".into(), port_name: "p1".into(), driver_name: "d1".into() },
        InstalledPrinter { name: "\\\\T\\B".into(), port_name: "p2".into(), driver_name: "d2".into() },
    ];
    let lowered = vec!["\\\\s\\a".to_string(), "\\\\t\\b".to_string()];
    let items = select_local_printers(&lowered, &entries, "\\\\t\\", "\\\\T\\B");
    assert_eq!(items.len(), 1);
    assert_eq!(items[0].name, "\\\\T\\B");
    assert_eq!(items[0].port_name, "p2");
    assert!(items[0].is_default);
}

#[test]
fn local_printer_list_needs_backslash_after_server() {
    let entries = vec![
        InstalledPrinter { name: "\\\\10.60.254.90\\HP-M4".into(), port_name: "p1".into(), driver_name: "d1".into() },
        InstalledPrinter { name: "\\\\10.60.254.9\\Canon".into(), port_name: "p2".into(), driver_name: "d2".into() },
    ];
    let items = get_local_printer_list(&entries, "10.60.254.9", "");
    assert_eq!(items.len(), 1);
    assert_eq!(items[0].name, "\\\\10.60.254.9\\Canon");
    assert!(!items[0].is_default);
}

#[test]
fn plan_printer_connection_follows_the_installed_flag() {
    let m = multi(&[("10.0.0.2", "bob", true)]);
    assert_eq!(plan_printer_connection(true, "\\\\10.0.0.2\\hp", &m).unwrap_err(), "该打印机已安装，无需重复连接");
    let extra = plan_printer_connection(false, "\\\\10.0.0.2\\hp", &m).unwrap();
    assert_eq!(extra.server, "10.0.0.2");
    assert_eq!(extra.session_target.as_deref(), Some("\\\\10.0.0.2"));
    let main = plan_printer_connection(false, "\\\\10.60.254.90\\hp", &m).unwrap();
    assert_eq!(main.server, "10.60.254.90");
    assert!(main.session_target.is_none());
}

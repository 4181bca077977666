use printlink::config::{MainServerConfig, DEFAULT_SERVER_ADDR};
use printlink::smb_scan::{
    driver_info_update, get_printer_cache, get_remote_driver_info, parse_printer_info1, scan_server_printers_fast,
    wnet_open_error, NetResource, PrinterItem, ScanAction, ScanEvent, ServerPrinterCache,
};
use printlink::utils::server_unreachable;

fn item(name: &str) -> PrinterItem {
    PrinterItem {
        name: name.to_string(),
        share_path: format!("\\\\10.60.254.90\\{name}"),
        driver_name: "连接后自动识别".to_string(),
        status: "空闲".to_string(),
    }
}

#[test]
fn test_share_name_extraction() {
    let full_path = "\\\\10.60.254.90\\HP-LaserJet";
    let share_name = parse_printer_info1(full_path, DEFAULT_SERVER_ADDR).unwrap().name;
    assert_eq!(share_name, "HP-LaserJet");

    let plain_name = "Canon-ADV";
    let share_name = parse_printer_info1(plain_name, DEFAULT_SERVER_ADDR).unwrap().name;
    assert_eq!(share_name, "Canon-ADV");
}

#[test]
fn test_share_path_construction() {
    let server_addr = DEFAULT_SERVER_ADDR;
    let name = "Epson-L3150";
    let path = parse_printer_info1(name, server_addr).unwrap().share_path;
    assert_eq!(path, "\\\\10.60.254.90\\Epson-L3150");
}

#[test]
fn parse_printer_info1_details() {
    assert!(parse_printer_info1("", "s").is_none());
    let p = parse_printer_info1("\\\\other\\HP", "s").unwrap();
    assert_eq!(p.share_path, "\\\\other\\HP");
    assert_eq!(p.driver_name, "连接后自动识别");
    assert_eq!(p.status, "空闲");
}

#[test]
fn test_scan_fails_gracefully_when_offline() {
    // an unreachable server ends the scan with a friendly message instead of panicking
    let (mut scan, first) = scan_server_printers_fast(&MainServerConfig::default());
    let server = match first {
        ScanAction::CheckOnline { server_addr } => server_addr,
        other => panic!("unexpected {:?}", other),
    };
    let result = match scan.step(ScanEvent::Online(Err(server_unreachable(&server)))) {
        ScanAction::Finish(r) => r,
        other => panic!("unexpected {:?}", other),
    };
    if let Err(e) = result {
        assert!(!e.is_empty());
    } else {
        panic!("an offline scan must fail");
    }
}

#[test]
fn scan_uses_printer_enumeration_when_it_finds_printers() {
    let (mut scan, _) = scan_server_printers_fast(&MainServerConfig::default());
    match scan.step(ScanEvent::Online(Ok(()))) {
        ScanAction::ProbeNetwork { server_unc } => assert_eq!(server_unc, "\\\\10.60.254.90"),
        other => panic!("unexpected {:?}", other),
    }
    match scan.step(ScanEvent::NetworkProbed { error_code: 122, needed: 300, returned: 0 }) {
        ScanAction::FetchNetwork { size, .. } => assert_eq!(size, 300),
        other => panic!("unexpected {:?}", other),
    }
    let names = vec!["HP".to_string(), "".to_string(), "\\\\10.60.254.90\\Canon".to_string()];
    match scan.step(ScanEvent::NetworkFetched { ok: true, returned: 3, names }) {
        ScanAction::Finish(Ok(items)) => {
            assert_eq!(items.len(), 2);
            assert_eq!(items[0].share_path, "\\\\10.60.254.90\\HP");
            assert_eq!(items[1].name, "Canon");
        },
        other => panic!("unexpected {:?}", other),
    }
    // the scan is over: further events are ignored
    assert!(matches!(scan.step(ScanEvent::WNetOpened { code: 0 }), ScanAction::Ignored));
}

#[test]
fn scan_falls_back_to_resource_enumeration() {
    let (mut scan, _) = scan_server_printers_fast(&MainServerConfig::default());
    scan.step(ScanEvent::Online(Ok(())));
    match scan.step(ScanEvent::NetworkProbed { error_code: 5, needed: 0, returned: 0 }) {
        ScanAction::OpenWNet { server_unc } => assert_eq!(server_unc, "\\\\10.60.254.90"),
        other => panic!("unexpected {:?}", other),
    }
    match scan.step(ScanEvent::WNetOpened { code: 0 }) {
        ScanAction::EnumWNet { buffer_len } => assert_eq!(buffer_len, 16384),
        other => panic!("unexpected {:?}", other),
    }
    match scan.step(ScanEvent::WNetBatch { code: 234, required_size: 40000, resources: Vec::new() }) {
        ScanAction::EnumWNet { buffer_len } => assert_eq!(buffer_len, 40000),
        other => panic!("unexpected {:?}", other),
    }
    let resources = vec![
        NetResource { is_print: true, remote_name: "\\\\10.60.254.90\\HP".to_string() },
        NetResource { is_print: false, remote_name: "\\\\10.60.254.90\\docs".to_string() },
        NetResource { is_print: true, remote_name: "".to_string() },
    ];
    assert!(matches!(scan.step(ScanEvent::WNetBatch { code: 0, required_size: 0, resources }), ScanAction::EnumWNet { .. }));
    match scan.step(ScanEvent::WNetBatch { code: 259, required_size: 0, resources: Vec::new() }) {
        ScanAction::Finish(Ok(items)) => {
            assert_eq!(items.len(), 1);
            assert_eq!(items[0].name, "HP");
            assert_eq!(items[0].share_path, "\\\\10.60.254.90\\HP");
        },
        other => panic!("unexpected {:?}", other),
    }
}

#[test]
fn scan_falls_back_when_printer_enumeration_is_empty() {
    let (mut scan, _) = scan_server_printers_fast(&MainServerConfig::default());
    scan.step(ScanEvent::Online(Ok(())));
    scan.step(ScanEvent::NetworkProbed { error_code: 234, needed: 10, returned: 0 });
    assert!(matches!(
        scan.step(ScanEvent::NetworkFetched { ok: true, returned: 0, names: Vec::new() }),
        ScanAction::OpenWNet { .. }
    ));
    match scan.step(ScanEvent::WNetOpened { code: 1326 }) {
        ScanAction::Finish(Err(e)) => assert_eq!(e, "凭据验证失败，请重启程序重试"),
        other => panic!("unexpected {:?}", other),
    }
}

#[test]
fn scan_resource_enumeration_errors() {
    let (mut scan, _) = scan_server_printers_fast(&MainServerConfig::default());
    scan.step(ScanEvent::Online(Ok(())));
    scan.step(ScanEvent::NetworkProbed { error_code: 0, needed: 0, returned: 0 });
    scan.step(ScanEvent::WNetOpened { code: 0 });
    match scan.step(ScanEvent::WNetBatch { code: 122, required_size: 100, resources: Vec::new() }) {
        ScanAction::Finish(Err(e)) => assert_eq!(e, "打印机枚举缓冲区分配异常"),
        other => panic!("unexpected {:?}", other),
    }

    let (mut scan, _) = scan_server_printers_fast(&MainServerConfig::default());
    scan.step(ScanEvent::Online(Ok(())));
    scan.step(ScanEvent::NetworkProbed { error_code: 0, needed: 0, returned: 0 });
    scan.step(ScanEvent::WNetOpened { code: 0 });
    match scan.step(ScanEvent::WNetBatch { code: 5, required_size: 0, resources: Vec::new() }) {
        ScanAction::Finish(Err(e)) => assert_eq!(e, "打印机枚举失败（错误码 5）：权限不足，请尝试以管理员身份运行程序"),
        other => panic!("unexpected {:?}", other),
    }
}

#[test]
fn scan_ignores_unexpected_events() {
    let (mut scan, _) = scan_server_printers_fast(&MainServerConfig::default());
    assert!(matches!(scan.step(ScanEvent::WNetOpened { code: 0 }), ScanAction::Ignored));
    assert!(matches!(scan.step(ScanEvent::Online(Ok(()))), ScanAction::ProbeNetwork { .. }));
}

#[test]
fn wnet_open_error_messages() {
    assert_eq!(wnet_open_error(53, "s"), "打印服务器 s 网络不通，请检查内网连接");
    assert_eq!(wnet_open_error(1203, "s"), "打印服务器 s 网络不通，请检查内网连接");
    assert_eq!(wnet_open_error(1326, "s"), "凭据验证失败，请重启程序重试");
    assert_eq!(wnet_open_error(87, "s"), "网络枚举失败（错误码 87）：参数错误");
}

#[test]
fn printer_cache_checks_server() {
    let cache = ServerPrinterCache {
        timestamp: 1700000000,
        server_addr: "10.60.254.90".to_string(),
        printers: vec![item("Test")],
    };
    let hit = get_printer_cache(Some(cache), "10.60.254.90").unwrap();
    assert_eq!(hit.len(), 1);
    assert_eq!(hit[0].name, "Test");
    let other = ServerPrinterCache { timestamp: 1, server_addr: "10.0.0.1".to_string(), printers: vec![item("X")] };
    assert!(get_printer_cache(Some(other), "10.60.254.90").is_none());
    assert!(get_printer_cache(None, "10.60.254.90").is_none());
}

#[test]
fn driver_updates() {
    let u = driver_info_update("\\\\s\\HP", "HP UPD".to_string(), 0, 3);
    assert_eq!(u.progress, 1);
    assert_eq!(u.total, 3);
    assert_eq!(u.share_path, "\\\\s\\HP");
    assert_eq!(u.driver_name, "HP UPD");
    assert!(get_remote_driver_info(String::new()).is_none());
    assert_eq!(get_remote_driver_info("HP".to_string()).as_deref(), Some("HP"));
}

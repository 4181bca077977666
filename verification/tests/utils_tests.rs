use printlink::credential::{credential_error_hint, credential_read_error, write_credential_result};
use printlink::utils::{
    address_parse_failure, app_data_root, server_unreachable, smb_socket_address_of, win_error_message, SMB_PORT,
    NETWORK_TIMEOUT_SECS,
};
use printlink::config::DEFAULT_SERVER_ADDR;

#[test]
fn test_win_error_message() {
    let msg = win_error_message("凭据写入", 5);
    assert!(msg.contains("权限不足"));
    assert!(msg.contains("5"));

    let msg = win_error_message("连接", 1326);
    assert!(msg.contains("密码错误"));
}

#[test]
fn win_error_message_exact_text() {
    assert_eq!(
        win_error_message("打印机连接", 1801),
        "打印机连接失败（错误码 1801）：打印机名称无效"
    );
    assert_eq!(win_error_message("网络枚举", 0), "网络枚举失败（错误码 0）：未知错误");
    assert_eq!(
        win_error_message("x", 4294967295),
        "x失败（错误码 4294967295）：未知错误"
    );
    assert_eq!(win_error_message("", 3), "失败（错误码 3）：系统找不到指定的路径");
}

#[test]
fn test_credential_error_hint() {
    assert!(credential_error_hint(5).contains("管理员"));
    assert!(credential_error_hint(1326).contains("凭据验证失败"));
    assert!(credential_error_hint(9999).contains("错误码 9999"));
}

#[test]
fn credential_hint_for_wrong_password() {
    assert_eq!(credential_error_hint(86), "凭据验证失败，请重启程序重试");
    assert_eq!(
        credential_error_hint(1),
        "凭据创建失败（错误码 1），如域策略禁止修改凭据请联系运维"
    );
}

#[test]
fn credential_write_outcomes() {
    assert_eq!(
        write_credential_result(true, 0, "10.0.0.1", "print").unwrap(),
        "凭据写入成功（10.0.0.1 / print）"
    );
    assert_eq!(
        write_credential_result(false, 5, "10.0.0.1", "print").unwrap_err(),
        "系统权限不足，请以管理员身份运行程序"
    );
}

#[test]
fn credential_read_errors() {
    assert_eq!(credential_read_error("T", 1168), "凭据不存在: T");
    assert!(credential_read_error("T", 5).contains("不存在") == false);
    assert_eq!(
        credential_read_error("T", 5),
        "凭据读取失败（错误码 5）：权限不足，请尝试以管理员身份运行程序"
    );
}

#[test]
fn test_server_addr_format() {
    assert_eq!(DEFAULT_SERVER_ADDR, "10.60.254.90");
    let addr = smb_socket_address_of(DEFAULT_SERVER_ADDR);
    assert_eq!(addr, format!("{DEFAULT_SERVER_ADDR}:{SMB_PORT}"));
}

#[test]
fn reachability_messages() {
    assert_eq!(NETWORK_TIMEOUT_SECS, 3);
    assert_eq!(smb_socket_address_of("fileserver"), "fileserver:445");
    assert_eq!(address_parse_failure("x:445"), "地址解析失败: x:445");
    assert_eq!(server_unreachable("10.0.0.9"), "打印服务器 10.0.0.9 网络不通，请检查内网连接");
}

#[test]
fn app_data_root_fallback() {
    assert_eq!(app_data_root(None), ".");
    assert_eq!(app_data_root(Some("C:\\Users\\a\\AppData\\Roaming".to_string())), "C:\\Users\\a\\AppData\\Roaming");
}

#[test]
fn different_codes_give_different_messages() {
    let codes = [0u32, 1, 2, 3, 5, 12, 53, 64, 87, 123, 1200, 1203, 1326, 99999];
    for (i, a) in codes.iter().enumerate() {
        for b in &codes[i + 1..] {
            assert_ne!(win_error_message("连接", *a), win_error_message("连接", *b));
        }
    }
    assert_eq!(win_error_message("连接", 12), "连接失败（错误码 12）：未知错误");
    assert_eq!(win_error_message("连接", 1), "连接失败（错误码 1）：未知错误");
}

//! Network constants and the user-facing texts for Windows error codes.

use vstd::prelude::*;
use crate::text::{concat, decimal, is_digit, lemma_decimal_digits, lemma_decimal_injective, u32_to_decimal};

verus! {

/// The SMB service port.
pub const SMB_PORT: u16 = 445;

/// Timeout of the reachability probe, in seconds.
pub const NETWORK_TIMEOUT_SECS: u64 = 3;

/// Folder of the application's files under the user's application data
/// directory.
pub const APP_DIR_NAME: &'static str = "PrintLink";

/// The directory that holds the application folder: the value of `APPDATA`
/// when it is set, the current directory (`.`) otherwise.
pub fn app_data_root(appdata: Option<String>) -> (r: String)
    ensures
        appdata matches Some(v) ==> r == v,
        appdata is None ==> r@ == "."@,
{
    match appdata {
        Some(v) => v,
        None => crate::text::owned("."),
    }
}

/// The explanation shown for a Windows error code.
pub open spec fn win_error_detail(code: u32) -> Seq<char> {
    if code == 5 {
        "权限不足，请尝试以管理员身份运行程序"@
    } else if code == 53 {
        "网络路径未找到，请确认已连接内网"@
    } else if code == 64 {
        "网络名称不可用"@
    } else if code == 85 {
        "本地设备名已在使用中"@
    } else if code == 86 {
        "指定的网络密码不正确"@
    } else if code == 87 {
        "参数错误"@
    } else if code == 1200 {
        "指定的设备名称无效"@
    } else if code == 1203 {
        "网络路径未找到"@
    } else if code == 1219 {
        "已存在与该服务器的会话，凭据冲突"@
    } else if code == 1326 {
        "登录失败：用户名或密码错误"@
    } else if code == 1327 {
        "用户账户限制，无法登录"@
    } else if code == 1797 {
        "打印机驱动程序未知"@
    } else if code == 1801 {
        "打印机名称无效"@
    } else if code == 1802 {
        "打印机已存在"@
    } else if code == 1803 {
        "打印机连接失败"@
    } else if code == 1804 {
        "指定的打印机驱动程序已安装"@
    } else if code == 1930 {
        "打印机驱动程序不兼容"@
    } else if code == 2 {
        "系统找不到指定的文件"@
    } else if code == 3 {
        "系统找不到指定的路径"@
    } else {
        "未知错误"@
    }
}

/// The full message for a failed `operation` with Windows error `code`:
/// `{operation}失败（错误码 {code}）：{detail}`.
pub open spec fn win_error_text(operation: Seq<char>, code: u32) -> Seq<char> {
    operation + "失败（错误码 "@ + decimal(code as nat) + "）："@ + win_error_detail(code)
}

/// The explanation for a Windows error code.
pub fn win_error_detail_str(code: u32) -> (r: &'static str)
    ensures
        r@ == win_error_detail(code),
{
    match code {
        5 => "权限不足，请尝试以管理员身份运行程序",
        53 => "网络路径未找到，请确认已连接内网",
        64 => "网络名称不可用",
        85 => "本地设备名已在使用中",
        86 => "指定的网络密码不正确",
        87 => "参数错误",
        1200 => "指定的设备名称无效",
        1203 => "网络路径未找到",
        1219 => "已存在与该服务器的会话，凭据冲突",
        1326 => "登录失败：用户名或密码错误",
        1327 => "用户账户限制，无法登录",
        1797 => "打印机驱动程序未知",
        1801 => "打印机名称无效",
        1802 => "打印机已存在",
        1803 => "打印机连接失败",
        1804 => "指定的打印机驱动程序已安装",
        1930 => "打印机驱动程序不兼容",
        2 => "系统找不到指定的文件",
        3 => "系统找不到指定的路径",
        _ => "未知错误",
    }
}

/// Turns a Windows error code into a user-facing message about `operation`.
pub fn win_error_message(operation: &str, code: u32) -> (r: String)
    ensures
        r@ == win_error_text(operation@, code),
{
    let mut r = concat(operation, "失败（错误码 ");
    let digits = u32_to_decimal(code);
    r.append(digits.as_str());
    r.append("）：");
    r.append(win_error_detail_str(code));
    r
}

/// Law: for one operation, different error codes give different messages.
pub proof fn law_win_error_text_distinct(operation: Seq<char>, c1: u32, c2: u32)
    requires
        c1 != c2,
    ensures
        win_error_text(operation, c1) != win_error_text(operation, c2),
{
    let head = operation + "失败（错误码 "@;
    let close = "）："@;
    let d1 = decimal(c1 as nat);
    let d2 = decimal(c2 as nat);
    let x1 = d1 + close + win_error_detail(c1);
    let x2 = d2 + close + win_error_detail(c2);
    assert(win_error_text(operation, c1) =~= head + x1);
    assert(win_error_text(operation, c2) =~= head + x2);
    if win_error_text(operation, c1) == win_error_text(operation, c2) {
        assert(x1 =~= (head + x1).skip(head.len() as int));
        assert(x2 =~= (head + x2).skip(head.len() as int));
        reveal_strlit("）：");
        lemma_decimal_digits(c1 as nat);
        lemma_decimal_digits(c2 as nat);
        if d1.len() < d2.len() {
            assert(x1[d1.len() as int] == '）');
            assert(x2[d1.len() as int] == d2[d1.len() as int]);
            assert(is_digit(d2[d1.len() as int]));
        } else if d2.len() < d1.len() {
            assert(x2[d2.len() as int] == '）');
            assert(x1[d2.len() as int] == d1[d2.len() as int]);
            assert(is_digit(d1[d2.len() as int]));
        } else {
            assert(d1 =~= x1.take(d1.len() as int));
            assert(d2 =~= x2.take(d2.len() as int));
            lemma_decimal_injective(c1 as nat, c2 as nat);
        }
    }
}

/// Law: the explanation of every error code is a non-empty text.
pub proof fn law_win_error_detail_nonempty(code: u32)
    ensures
        win_error_detail(code).len() > 0,
{
    reveal_strlit("权限不足，请尝试以管理员身份运行程序");
    reveal_strlit("网络路径未找到，请确认已连接内网");
    reveal_strlit("网络名称不可用");
    reveal_strlit("本地设备名已在使用中");
    reveal_strlit("指定的网络密码不正确");
    reveal_strlit("参数错误");
    reveal_strlit("指定的设备名称无效");
    reveal_strlit("网络路径未找到");
    reveal_strlit("已存在与该服务器的会话，凭据冲突");
    reveal_strlit("登录失败：用户名或密码错误");
    reveal_strlit("用户账户限制，无法登录");
    reveal_strlit("打印机驱动程序未知");
    reveal_strlit("打印机名称无效");
    reveal_strlit("打印机已存在");
    reveal_strlit("打印机连接失败");
    reveal_strlit("指定的打印机驱动程序已安装");
    reveal_strlit("打印机驱动程序不兼容");
    reveal_strlit("系统找不到指定的文件");
    reveal_strlit("系统找不到指定的路径");
    reveal_strlit("未知错误");
}

/// `{server_addr}:{SMB_PORT}`, the socket address that the reachability probe dials.
pub open spec fn smb_socket_address(server_addr: Seq<char>) -> Seq<char> {
    server_addr + ":"@ + decimal(SMB_PORT as nat)
}

/// The socket address that the reachability probe dials.
pub fn smb_socket_address_of(server_addr: &str) -> (r: String)
    ensures
        r@ == smb_socket_address(server_addr@),
{
    let mut r = concat(server_addr, ":");
    let port = u32_to_decimal(SMB_PORT as u32);
    r.append(port.as_str());
    r
}

/// Message for an address that does not parse as a socket address.
pub fn address_parse_failure(addr: &str) -> (r: String)
    ensures
        r@ == "地址解析失败: "@ + addr@,
{
    concat("地址解析失败: ", addr)
}

/// Message for a print server that cannot be reached.
pub open spec fn server_unreachable_text(server_addr: Seq<char>) -> Seq<char> {
    "打印服务器 "@ + server_addr + " 网络不通，请检查内网连接"@
}

/// Message for a print server that cannot be reached.
pub fn server_unreachable(server_addr: &str) -> (r: String)
    ensures
        r@ == server_unreachable_text(server_addr@),
{
    let mut r = concat("打印服务器 ", server_addr);
    r.append(" 网络不通，请检查内网连接");
    r
}

} // verus!

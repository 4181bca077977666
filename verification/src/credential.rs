//! Windows credentials of the print servers: the messages shown for writing
//! and reading them (the credential blob itself is built by
//! `utf16::credential_blob`).

use vstd::prelude::*;
use crate::text::{concat, decimal, owned, u32_to_decimal};
use crate::utils::{win_error_message, win_error_text};

verus! {

/// Windows: the element was not found.
pub const ERROR_NOT_FOUND: u32 = 1168;

/// The hint for a credential that could not be written.
pub open spec fn credential_error_text(code: u32) -> Seq<char> {
    if code == 5 {
        "系统权限不足，请以管理员身份运行程序"@
    } else if code == 1326 || code == 86 {
        "凭据验证失败，请重启程序重试"@
    } else {
        "凭据创建失败（错误码 "@ + decimal(code as nat) + "），如域策略禁止修改凭据请联系运维"@
    }
}

/// The hint for a credential that could not be written, by Windows error code.
pub fn credential_error_hint(code: u32) -> (r: String)
    ensures
        r@ == credential_error_text(code),
{
    if code == 5 {
        owned("系统权限不足，请以管理员身份运行程序")
    } else if code == 1326 || code == 86 {
        owned("凭据验证失败，请重启程序重试")
    } else {
        let mut r = owned("凭据创建失败（错误码 ");
        let digits = u32_to_decimal(code);
        r.append(digits.as_str());
        r.append("），如域策略禁止修改凭据请联系运维");
        r
    }
}

/// The outcome of writing the credential of `target` for `username`: a
/// confirmation when the write succeeded, the hint for `error_code` otherwise.
pub fn write_credential_result(written: bool, error_code: u32, target: &str, username: &str) -> (r: Result<String, String>)
    ensures
        written ==> (r matches Ok(m) && m@ == "凭据写入成功（"@ + target@ + " / "@ + username@ + "）"@),
        !written ==> (r matches Err(m) && m@ == credential_error_text(error_code)),
{
    if written {
        let mut m = concat("凭据写入成功（", target);
        m.append(" / ");
        m.append(username);
        m.append("）");
        Ok(m)
    } else {
        Err(credential_error_hint(error_code))
    }
}

/// The message for a credential of `target` that could not be read: a missing
/// credential is reported as such, any other error by its Windows message.
pub fn credential_read_error(target: &str, code: u32) -> (r: String)
    ensures
        code == ERROR_NOT_FOUND ==> r@ == "凭据不存在: "@ + target@,
        code != ERROR_NOT_FOUND ==> r@ == win_error_text("凭据读取"@, code),
{
    if code == ERROR_NOT_FOUND {
        concat("凭据不存在: ", target)
    } else {
        win_error_message("凭据读取", code)
    }
}

} // verus!

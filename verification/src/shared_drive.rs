//! Shared drives: the settings kept for them, the decisions taken while
//! opening an SMB session, and the list of root folders shown to the user.

use vstd::prelude::*;
use crate::config::{server_input_error, validate_server_input};
use crate::printer_api::{extract_printer_server, lemma_unc_literal, unc_lead, unc_root, unc_root_of};
use crate::text::{
    after_last, after_last_char, before_first, concat, decimal, ends_with_char, lowercase, owned, seq_ends_with_char,
    seq_starts_with, starts_with, str_eq, to_lowercase, trimmed, u32_to_decimal, views,
};

verus! {

/// Windows: the call succeeded.
pub const ERROR_SUCCESS: u32 = 0;

/// Stored settings of the shared drive.
#[derive(Debug)]
pub struct SharedDriveConfig {
    /// Server address of the shared drive.
    pub server_addr: String,
    /// SMB user name.
    pub username: String,
    /// SMB password.
    pub password: String,
}

/// The settings to store for entered shared-drive settings (checked as for
/// the main print server), or the complaint about them.
pub fn connect_shared_drive(server_addr: &str, username: &str, password: &str) -> (r: Result<SharedDriveConfig, String>)
    ensures
        match server_input_error(server_addr@, username@, password@) {
            Some(e) => r matches Err(m) && m@ == e,
            None => r matches Ok(c) && c.server_addr@ == trimmed(server_addr@) && c.username@ == trimmed(username@)
                && c.password@ == password@,
        },
{
    let (addr, user) = validate_server_input(server_addr, username, password)?;
    Ok(SharedDriveConfig { server_addr: addr, username: user, password: owned(password) })
}

/// `\\{server}\IPC$`, the share that carries the SMB session.
pub open spec fn ipc_share(server: Seq<char>) -> Seq<char> {
    unc_root(server) + "\\IPC$"@
}

/// `\\{server}\IPC$`, the share that carries the SMB session.
pub fn ipc_share_path(server_addr: &str) -> (r: String)
    ensures
        r@ == ipc_share(server_addr@),
{
    let mut r = unc_root_of(server_addr);
    r.append("\\IPC$");
    r
}

/// What to do after an attempt to connect the session share.
#[derive(Debug)]
pub enum SmbConnectStep {
    /// The session is established.
    Connected,
    /// Another session with other credentials exists: cancel it and try once more.
    RetryAfterCancel,
    /// The connection failed with this message.
    Failed(String),
}

/// The message for a failed connection of the session share `remote`.
pub open spec fn smb_error_text(code: u32, remote: Seq<char>) -> Seq<char> {
    if code == 5 {
        "访问被拒绝，请检查账号密码是否正确"@
    } else if code == 53 {
        "找不到网络路径 "@ + remote + "，请检查服务器地址"@
    } else if code == 86 {
        "指定的网络密码不正确"@
    } else if code == 1326 {
        "登录失败：用户名或密码错误"@
    } else {
        "SMB 连接失败（错误码 "@ + decimal(code as nat) + "）"@
    }
}

/// The step after connecting the session share `remote` returned `code`:
/// success, one retry for a conflicting session (1219), or the failure message.
pub fn establish_smb_connection(code: u32, remote: &str) -> (r: SmbConnectStep)
    ensures
        code == ERROR_SUCCESS ==> r is Connected,
        code == 1219 ==> r is RetryAfterCancel,
        code != ERROR_SUCCESS && code != 1219 ==> (r matches SmbConnectStep::Failed(m) && m@ == smb_error_text(code, remote@)),
{
    if code == ERROR_SUCCESS {
        SmbConnectStep::Connected
    } else if code == 1219 {
        SmbConnectStep::RetryAfterCancel
    } else if code == 5 {
        SmbConnectStep::Failed(owned("访问被拒绝，请检查账号密码是否正确"))
    } else if code == 53 {
        let mut m = concat("找不到网络路径 ", remote);
        m.append("，请检查服务器地址");
        SmbConnectStep::Failed(m)
    } else if code == 86 {
        SmbConnectStep::Failed(owned("指定的网络密码不正确"))
    } else if code == 1326 {
        SmbConnectStep::Failed(owned("登录失败：用户名或密码错误"))
    } else {
        let mut m = owned("SMB 连接失败（错误码 ");
        let digits = u32_to_decimal(code);
        m.append(digits.as_str());
        m.append("）");
        SmbConnectStep::Failed(m)
    }
}

/// The outcome of the retry after a conflicting session was cancelled.
pub fn smb_retry_outcome(code: u32) -> (r: Result<(), String>)
    ensures
        code == ERROR_SUCCESS ==> r is Ok,
        code != ERROR_SUCCESS ==> (r matches Err(m) && m@ == "已有其他凭据连接到该服务器（错误码 "@ + decimal(code as nat) + "），请先断开其他连接"@),
{
    if code == ERROR_SUCCESS {
        Ok(())
    } else {
        let mut m = owned("已有其他凭据连接到该服务器（错误码 ");
        let digits = u32_to_decimal(code);
        m.append(digits.as_str());
        m.append("），请先断开其他连接");
        Err(m)
    }
}

/// The message for a share enumeration of `unc` that could not be opened.
pub fn folder_enum_open_error(unc: &str, code: u32) -> (r: String)
    ensures
        r@ == "无法枚举共享目录 "@ + unc@ + "（错误码 "@ + decimal(code as nat) + "）"@,
{
    let mut m = concat("无法枚举共享目录 ", unc);
    m.append("（错误码 ");
    let digits = u32_to_decimal(code);
    m.append(digits.as_str());
    m.append("）");
    m
}

/// The message for a share enumeration that failed while reading.
pub fn folder_enum_error(code: u32) -> (r: String)
    ensures
        r@ == "枚举共享资源失败（错误码 "@ + decimal(code as nat) + "）"@,
{
    let mut m = owned("枚举共享资源失败（错误码 ");
    let digits = u32_to_decimal(code);
    m.append(digits.as_str());
    m.append("）");
    m
}

/// Whether a share is hidden (its name ends with `$`).
pub fn is_hidden_share(share_name: &str) -> (r: bool)
    ensures
        r == seq_ends_with_char(share_name@, '$'),
{
    ends_with_char(share_name, '$')
}

// ---------------------------------------------------------------------------
// Ordering of names
// ---------------------------------------------------------------------------

/// Lexicographic order of strings by character code, which is the order of
/// `String`'s `Ord` (UTF-8 preserves the order of code points).
pub open spec fn lex_lt(a: Seq<char>, b: Seq<char>) -> bool
    decreases a.len(),
{
    if a.len() == 0 {
        b.len() > 0
    } else if b.len() == 0 {
        false
    } else if a[0] != b[0] {
        (a[0] as u32) < (b[0] as u32)
    } else {
        lex_lt(a.drop_first(), b.drop_first())
    }
}

/// `a` comes before `b` in the order of `String`'s `Ord`, decided at
/// position `k`: the two agree on their first `k` characters, and there `a`
/// ends while `b` goes on, or the character of `a` has the smaller code.
pub open spec fn string_order_decided_at(a: Seq<char>, b: Seq<char>, k: int) -> bool {
    &&& 0 <= k <= a.len()
    &&& k <= b.len()
    &&& a.take(k) == b.take(k)
    &&& ((k == a.len() && k < b.len()) || (k < a.len() && k < b.len() && (a[k] as u32) < (b[k] as u32)))
}

/// Where the order is decided at `k`, `a` is below `b`.
proof fn lemma_lex_lt_from_position(a: Seq<char>, b: Seq<char>, k: int)
    requires
        string_order_decided_at(a, b, k),
    ensures
        lex_lt(a, b),
    decreases k,
{
    if k > 0 {
        assert(a[0] == a.take(k)[0] && b[0] == b.take(k)[0]);
        assert(a.drop_first().take(k - 1) =~= a.take(k).drop_first());
        assert(b.drop_first().take(k - 1) =~= b.take(k).drop_first());
        lemma_lex_lt_from_position(a.drop_first(), b.drop_first(), k - 1);
    }
}

/// Where `a` is below `b`, there is a position that decides it.
proof fn lemma_lex_lt_position(a: Seq<char>, b: Seq<char>) -> (k: int)
    requires
        lex_lt(a, b),
    ensures
        string_order_decided_at(a, b, k),
    decreases a.len(),
{
    if a.len() == 0 || a[0] != b[0] {
        assert(a.take(0) =~= b.take(0));
        0
    } else {
        let j = lemma_lex_lt_position(a.drop_first(), b.drop_first());
        assert(a.take(j + 1) =~= seq![a[0]] + a.drop_first().take(j));
        assert(b.take(j + 1) =~= seq![b[0]] + b.drop_first().take(j));
        assert(a[j + 1] == a.drop_first()[j] || j + 1 == a.len());
        j + 1
    }
}

/// Law: the order of the folder list is the order of `String`'s `Ord`,
/// whatever the lengths: `a` is below `b` exactly when, at the first position
/// where they differ, `a` has ended or has the smaller character. So a name
/// whose first character is smaller comes first (`Finance` before `HR`), and
/// a proper prefix comes before its extensions.
pub proof fn law_folder_order_is_string_order(a: Seq<char>, b: Seq<char>)
    ensures
        lex_lt(a, b) <==> exists|k: int| string_order_decided_at(a, b, k),
        (a.len() > 0 && b.len() > 0 && (a[0] as u32) < (b[0] as u32)) ==> lex_lt(a, b),
        (a.len() < b.len() && b.take(a.len() as int) == a) ==> lex_lt(a, b),
{
    if lex_lt(a, b) {
        let k = lemma_lex_lt_position(a, b);
        assert(string_order_decided_at(a, b, k));
    }
    if exists|k: int| string_order_decided_at(a, b, k) {
        let k = choose|k: int| string_order_decided_at(a, b, k);
        lemma_lex_lt_from_position(a, b, k);
    }
    if a.len() > 0 && b.len() > 0 && (a[0] as u32) < (b[0] as u32) {
        assert(a.take(0) =~= b.take(0));
        lemma_lex_lt_from_position(a, b, 0);
    }
    if a.len() < b.len() && b.take(a.len() as int) == a {
        assert(a.take(a.len() as int) =~= a);
        lemma_lex_lt_from_position(a, b, a.len() as int);
    }
}

/// Distinct characters have distinct codes.
proof fn lemma_char_codes_differ(a: char, b: char)
    requires
        a != b,
    ensures
        a as u32 != b as u32,
{
    crate::utf16::lemma_char_code(a);
    crate::utf16::lemma_char_code(b);
}

/// No string is below itself.
pub proof fn lemma_lex_irreflexive(a: Seq<char>)
    ensures
        !lex_lt(a, a),
    decreases a.len(),
{
    if a.len() > 0 {
        lemma_lex_irreflexive(a.drop_first());
    }
}

/// Two distinct strings are ordered one way or the other.
pub proof fn lemma_lex_total(a: Seq<char>, b: Seq<char>)
    requires
        a != b,
    ensures
        lex_lt(a, b) || lex_lt(b, a),
    decreases a.len(),
{
    if a.len() == 0 {
        assert(b.len() > 0) by {
            if b.len() == 0 {
                assert(a =~= b);
            }
        }
    } else if b.len() == 0 {
    } else if a[0] != b[0] {
        lemma_char_codes_differ(a[0], b[0]);
    } else {
        assert(a.drop_first() != b.drop_first()) by {
            if a.drop_first() == b.drop_first() {
                assert(a =~= seq![a[0]] + a.drop_first());
                assert(b =~= seq![b[0]] + b.drop_first());
            }
        }
        lemma_lex_total(a.drop_first(), b.drop_first());
    }
}

/// The order is transitive.
pub proof fn lemma_lex_transitive(a: Seq<char>, b: Seq<char>, c: Seq<char>)
    requires
        lex_lt(a, b),
        lex_lt(b, c),
    ensures
        lex_lt(a, c),
    decreases a.len(),
{
    if a.len() > 0 && b.len() > 0 && c.len() > 0 && a[0] == b[0] && b[0] == c[0] {
        lemma_lex_transitive(a.drop_first(), b.drop_first(), c.drop_first());
    }
}

/// Equal prefixes do not decide the order.
proof fn lemma_lex_skip(a: Seq<char>, b: Seq<char>, i: int)
    requires
        0 <= i <= a.len(),
        i <= b.len(),
        a.take(i) == b.take(i),
    ensures
        lex_lt(a, b) == lex_lt(a.skip(i), b.skip(i)),
    decreases i,
{
    if i == 0 {
        assert(a.skip(0) =~= a);
        assert(b.skip(0) =~= b);
    } else {
        assert(a[0] == a.take(i)[0]);
        assert(b[0] == b.take(i)[0]);
        assert(a.drop_first().take(i - 1) =~= a.take(i).drop_first());
        assert(b.drop_first().take(i - 1) =~= b.take(i).drop_first());
        lemma_lex_skip(a.drop_first(), b.drop_first(), i - 1);
        assert(a.drop_first().skip(i - 1) =~= a.skip(i));
        assert(b.drop_first().skip(i - 1) =~= b.skip(i));
    }
}

/// Whether `a` comes before `b` in the order of strings.
pub fn lex_less(a: &str, b: &str) -> (r: bool)
    ensures
        r == lex_lt(a@, b@),
{
    let n = a.unicode_len();
    let m = b.unicode_len();
    let mut i: usize = 0;
    assert(a@.take(0) =~= b@.take(0));
    while i < n && i < m && a.get_char(i) == b.get_char(i)
        invariant
            n == a@.len(),
            m == b@.len(),
            i <= n,
            i <= m,
            a@.take(i as int) == b@.take(i as int),
        decreases n - i,
    {
        assert(a@.take(i + 1) =~= a@.take(i as int).push(a@[i as int]));
        assert(b@.take(i + 1) =~= b@.take(i as int).push(b@[i as int]));
        i += 1;
    }
    proof {
        lemma_lex_skip(a@, b@, i as int);
    }
    let ghost sa = a@.skip(i as int);
    let ghost sb = b@.skip(i as int);
    if i == n {
        assert(sa.len() == 0);
        i < m
    } else if i == m {
        assert(sb.len() == 0);
        false
    } else {
        let ca = a.get_char(i);
        let cb = b.get_char(i);
        assert(sa[0] == ca && sb[0] == cb);
        ca < cb
    }
}

// ---------------------------------------------------------------------------
// Root folders of a shared drive
// ---------------------------------------------------------------------------

/// The folder name of a share: the last component of its remote name.
pub open spec fn share_folder_name(remote: Seq<char>) -> Seq<char> {
    after_last(remote, '\\')
}

/// A share shown as a folder: it has a name and it is not hidden.
pub open spec fn is_listed_folder(share: Seq<char>) -> bool {
    share.len() > 0 && !seq_ends_with_char(share, '$')
}

/// The folder names of the shares shown, in enumeration order (duplicates kept).
pub open spec fn folder_candidates(remotes: Seq<Seq<char>>) -> Seq<Seq<char>>
    decreases remotes.len(),
{
    if remotes.len() == 0 {
        Seq::empty()
    } else {
        let rest = folder_candidates(remotes.drop_last());
        let s = share_folder_name(remotes.last());
        if is_listed_folder(s) {
            rest.push(s)
        } else {
            rest
        }
    }
}

/// Each name comes before the next: the list is sorted and free of duplicates.
pub open spec fn strictly_sorted(s: Seq<Seq<char>>) -> bool {
    forall|i: int, j: int| 0 <= i < j < s.len() ==> lex_lt(#[trigger] s[i], #[trigger] s[j])
}

/// `a` and `b` hold the same names.
pub open spec fn same_names(a: Seq<Seq<char>>, b: Seq<Seq<char>>) -> bool {
    forall|x: Seq<char>| a.contains(x) <==> b.contains(x)
}

/// Inserting `x` at `p` into a strictly sorted list, where everything before
/// `p` is below `x` and `x` is below everything from `p` on, keeps it strictly
/// sorted, and adds exactly `x` to its names.
proof fn lemma_sorted_insert(s: Seq<Seq<char>>, x: Seq<char>, p: int)
    requires
        strictly_sorted(s),
        0 <= p <= s.len(),
        forall|k: int| 0 <= k < p ==> lex_lt(s[k], x),
        p < s.len() ==> lex_lt(x, s[p]),
    ensures
        strictly_sorted(s.insert(p, x)),
        forall|y: Seq<char>| s.insert(p, x).contains(y) <==> (s.contains(y) || y == x),
{
    let t = s.insert(p, x);
    assert forall|i: int, j: int| 0 <= i < j < t.len() implies lex_lt(#[trigger] t[i], #[trigger] t[j]) by {
        if j < p {
            assert(t[i] == s[i] && t[j] == s[j]);
        } else if j == p {
            assert(t[i] == s[i] && t[j] == x);
        } else if i < p {
            assert(t[i] == s[i] && t[j] == s[j - 1]);
            if j - 1 > p {
                assert(lex_lt(s[p], s[j - 1]));
                lemma_lex_transitive(x, s[p], s[j - 1]);
            }
            lemma_lex_transitive(s[i], x, s[j - 1]);
        } else if i == p {
            assert(t[i] == x && t[j] == s[j - 1]);
            if j - 1 > p {
                assert(lex_lt(s[p], s[j - 1]));
                lemma_lex_transitive(x, s[p], s[j - 1]);
            }
        } else {
            assert(t[i] == s[i - 1] && t[j] == s[j - 1]);
        }
    }
    assert forall|y: Seq<char>| t.contains(y) <==> (s.contains(y) || y == x) by {
        if t.contains(y) {
            let k = choose|k: int| 0 <= k < t.len() && t[k] == y;
            if k < p {
                assert(s[k] == y);
            } else if k > p {
                assert(s[k - 1] == y);
            }
        }
        if s.contains(y) {
            let k = choose|k: int| 0 <= k < s.len() && s[k] == y;
            if k < p {
                assert(t[k] == y);
            } else {
                assert(t[k + 1] == y);
            }
        }
        if y == x {
            assert(t[p] == y);
        }
    }
}

/// A list that holds what `s` holds and `x` besides holds the names of `s.push(x)`.
proof fn lemma_same_names_push(a: Seq<Seq<char>>, s: Seq<Seq<char>>, x: Seq<char>)
    requires
        forall|y: Seq<char>| #[trigger] a.contains(y) <==> (s.contains(y) || y == x),
    ensures
        same_names(a, s.push(x)),
{
    assert forall|y: Seq<char>| a.contains(y) <==> #[trigger] s.push(x).contains(y) by {
        if y == x {
            assert(s.push(x)[s.len() as int] == y);
        }
        if s.push(x).contains(y) && y != x {
            let k = choose|k: int| 0 <= k < s.push(x).len() && s.push(x)[k] == y;
            assert(s[k] == y);
        }
        if s.contains(y) {
            let k = choose|k: int| 0 <= k < s.len() && s[k] == y;
            assert(s.push(x)[k] == y);
        }
    }
}

/// The root folders of a shared drive, from the remote names of its shares:
/// the last component of each name, without empty and hidden (`$`) ones,
/// sorted, without duplicates.
pub fn list_root_folders(remote_names: &[String]) -> (r: Vec<String>)
    ensures
        strictly_sorted(views(r@)),
        same_names(views(r@), folder_candidates(views(remote_names@))),
{
    let n = remote_names.len();
    let mut out: Vec<String> = Vec::new();
    let mut i: usize = 0;
    assert(views(remote_names@.take(0)) =~= Seq::<Seq<char>>::empty());
    assert(views(out@) =~= Seq::<Seq<char>>::empty());
    while i < n
        invariant
            n == remote_names@.len(),
            i <= n,
            strictly_sorted(views(out@)),
            same_names(views(out@), folder_candidates(views(remote_names@.take(i as int)))),
        decreases n - i,
    {
        let ghost before = views(remote_names@.take(i as int));
        let ghost after = views(remote_names@.take(i + 1));
        assert(after.drop_last() =~= before);
        assert(after.last() == remote_names@[i as int]@);
        let share = after_last_char(remote_names[i].as_str(), '\\');
        if share.unicode_len() > 0 && !ends_with_char(share.as_str(), '$') {
            let ghost olds = views(out@);
            let len = out.len();
            let mut p: usize = 0;
            while p < len && lex_less(out[p].as_str(), share.as_str())
                invariant
                    len == out@.len(),
                    p <= len,
                    olds == views(out@),
                    forall|k: int| 0 <= k < p ==> lex_lt(olds[k], share@),
                decreases len - p,
            {
                p += 1;
            }
            if p < len && crate::text::str_eq(out[p].as_str(), share.as_str()) {
                assert(olds[p as int] == share@);
                proof {
                    assert(olds.contains(share@));
                    assert(folder_candidates(after) == folder_candidates(before).push(share@));
                    lemma_same_names_push(olds, folder_candidates(before), share@);
                }
            } else {
                proof {
                    if p < len {
                        assert(olds[p as int] != share@);
                        lemma_lex_total(olds[p as int], share@);
                    }
                    lemma_sorted_insert(olds, share@, p as int);
                }
                out.insert(p, share);
                assert(views(out@) =~= olds.insert(p as int, share@));
                proof {
                    assert(folder_candidates(after) == folder_candidates(before).push(share@));
                    assert forall|y: Seq<char>| #[trigger] olds.insert(p as int, share@).contains(y) <==> (folder_candidates(before).contains(y) || y == share@) by {
                        assert(olds.contains(y) <==> folder_candidates(before).contains(y));
                    }
                    lemma_same_names_push(olds.insert(p as int, share@), folder_candidates(before), share@);
                }
            }
        } else {
            assert(folder_candidates(after) == folder_candidates(before));
        }
        i += 1;
    }
    assert(remote_names@.take(n as int) =~= remote_names@);
    out
}

/// Law: the folder list depends only on which folders there are, not on the
/// order in which the shares were enumerated — two sorted, duplicate-free
/// lists of the same names are equal.
pub proof fn law_folder_list_is_determined(a: Seq<Seq<char>>, b: Seq<Seq<char>>)
    requires
        strictly_sorted(a),
        strictly_sorted(b),
        same_names(a, b),
    ensures
        a == b,
    decreases a.len(),
{
    if a.len() == 0 {
        if b.len() > 0 {
            assert(b.contains(b[0]));
        }
        assert(a =~= b);
    } else if b.len() == 0 {
        assert(a.contains(a[0]));
    } else {
        assert(a.contains(a[0]));
        assert(b.contains(b[0]));
        let ka = choose|k: int| 0 <= k < b.len() && b[k] == a[0];
        let kb = choose|k: int| 0 <= k < a.len() && a[k] == b[0];
        assert(a[0] == b[0]) by {
            if ka > 0 && kb > 0 {
                assert(lex_lt(b[0], b[ka]));
                assert(lex_lt(a[0], a[kb]));
                lemma_lex_transitive(a[0], a[kb], a[0]);
                lemma_lex_irreflexive(a[0]);
            }
        }
        let ta = a.drop_first();
        let tb = b.drop_first();
        assert forall|i: int, j: int| 0 <= i < j < ta.len() implies lex_lt(#[trigger] ta[i], #[trigger] ta[j]) by {
            assert(ta[i] == a[i + 1] && ta[j] == a[j + 1]);
        }
        assert forall|i: int, j: int| 0 <= i < j < tb.len() implies lex_lt(#[trigger] tb[i], #[trigger] tb[j]) by {
            assert(tb[i] == b[i + 1] && tb[j] == b[j + 1]);
        }
        assert forall|x: Seq<char>| ta.contains(x) <==> tb.contains(x) by {
            if ta.contains(x) {
                let k = choose|k: int| 0 <= k < ta.len() && ta[k] == x;
                assert(a[k + 1] == x);
                assert(a.contains(x));
                let m = choose|m: int| 0 <= m < b.len() && b[m] == x;
                if m == 0 {
                    assert(lex_lt(a[0], a[k + 1]));
                    lemma_lex_irreflexive(x);
                }
                assert(tb[m - 1] == x);
            }
            if tb.contains(x) {
                let k = choose|k: int| 0 <= k < tb.len() && tb[k] == x;
                assert(b[k + 1] == x);
                assert(b.contains(x));
                let m = choose|m: int| 0 <= m < a.len() && a[m] == x;
                if m == 0 {
                    assert(lex_lt(b[0], b[k + 1]));
                    lemma_lex_irreflexive(x);
                }
                assert(ta[m - 1] == x);
            }
        }
        law_folder_list_is_determined(ta, tb);
        assert(a =~= seq![a[0]] + ta);
        assert(b =~= seq![b[0]] + tb);
    }
}

// ---------------------------------------------------------------------------
// Disconnecting
// ---------------------------------------------------------------------------

/// Whether the lower-case name of a connected network resource, `remote_lower`,
/// is a UNC path whose host (the text between the leading `\\` and the next
/// `\`) is `server_lower`.
pub fn is_connection_to_host(remote_lower: &str, server_lower: &str) -> (r: bool)
    ensures
        r == (seq_starts_with(remote_lower@, unc_lead()) && before_first(remote_lower@.skip(2), '\\') == server_lower@),
{
    proof {
        lemma_unc_literal();
    }
    if !starts_with(remote_lower, "\\\\") {
        return false;
    }
    let host = extract_printer_server(remote_lower);
    str_eq(host.as_str(), server_lower)
}

/// Whether a connected network resource is a connection to `server_addr`, to
/// be cancelled on logout: in lower case, its host (the text between the
/// leading `\\` and the next `\`) is the server.
pub fn is_connection_to_server(remote: &str, server_addr: &str) -> (r: bool)
    ensures
        r == (seq_starts_with(lowercase(remote@), unc_lead())
            && before_first(lowercase(remote@).skip(2), '\\') == lowercase(server_addr@)),
{
    let server_lower = to_lowercase(server_addr);
    let remote_lower = to_lowercase(remote);
    is_connection_to_host(remote_lower.as_str(), server_lower.as_str())
}

} // verus!

//! Printer paths, the local printer list, connecting and removing network
//! printers, and the management of extra print servers.

use vstd::prelude::*;
use crate::config::{server_input_error, validate_server_input, ExtraServer, MainServerConfig, MultiServerConfig};
use crate::text::{
    after_last, after_last_char, before_first, before_first_char, concat, copy_string, decimal, last_index_of,
    lemma_before_first_prefix, lowercase, owned, seq_starts_with, slice,
    starts_with, str_eq, to_lowercase, trimmed, usize_to_decimal, views,
};
use crate::utils::{server_unreachable, server_unreachable_text, win_error_message, win_error_text};

verus! {

/// The two backslashes that open a UNC path.
pub open spec fn unc_lead() -> Seq<char> {
    seq!['\\', '\\']
}

/// `\\{server}`, the UNC root of a server.
pub open spec fn unc_root(server: Seq<char>) -> Seq<char> {
    unc_lead() + server
}

/// The full SMB path of a printer share: `share` itself when it is already a
/// UNC path, `\\{server}\{share}` otherwise.
pub open spec fn printer_path_of(server: Seq<char>, share: Seq<char>) -> Seq<char> {
    if seq_starts_with(share, unc_lead()) {
        share
    } else {
        unc_root(server) + seq!['\\'] + share
    }
}

/// The server named by a UNC printer path (the text between the leading `\\`
/// and the next `\`); a path that is not a UNC path is taken as the server itself.
pub open spec fn server_of_path(path: Seq<char>) -> Seq<char> {
    if seq_starts_with(path, unc_lead()) {
        before_first(path.skip(2), '\\')
    } else {
        path
    }
}

/// The display name of a printer: what follows the last `\` of its name.
pub open spec fn display_name_of(name: Seq<char>) -> Seq<char> {
    after_last(name, '\\')
}

/// `s` holds no backslash.
pub open spec fn no_backslash(s: Seq<char>) -> bool {
    forall|i: int| 0 <= i < s.len() ==> s[i] != '\\'
}

/// The literal `"\\\\"` is the UNC lead.
pub proof fn lemma_unc_literal()
    ensures
        "\\\\"@ == unc_lead(),
{
    reveal_strlit("\\\\");
    assert("\\\\"@ =~= unc_lead());
}

/// `\\{server}`.
pub fn unc_root_of(server: &str) -> (r: String)
    ensures
        r@ == unc_root(server@),
{
    proof {
        lemma_unc_literal();
    }
    concat("\\\\", server)
}

/// Extracts the server from a UNC printer path (`\\server\share` gives `server`);
/// a path that is not a UNC path is returned unchanged.
pub fn extract_printer_server(printer_path: &str) -> (r: String)
    ensures
        r@ == server_of_path(printer_path@),
{
    proof {
        lemma_unc_literal();
    }
    if starts_with(printer_path, "\\\\") {
        let rest = slice(printer_path, 2, printer_path.unicode_len());
        assert(rest@ =~= printer_path@.skip(2));
        before_first_char(rest.as_str(), '\\')
    } else {
        owned(printer_path)
    }
}

/// The display name of a printer: what follows the last `\` of its UNC name.
pub fn display_name(name: &str) -> (r: String)
    ensures
        r@ == display_name_of(name@),
{
    after_last_char(name, '\\')
}

/// The full SMB path of a printer share on `server`; a share already given as
/// a UNC path is kept as it is.
pub fn build_printer_path(server: &str, share_name: &str) -> (r: String)
    ensures
        r@ == printer_path_of(server@, share_name@),
{
    proof {
        lemma_unc_literal();
    }
    if starts_with(share_name, "\\\\") {
        owned(share_name)
    } else {
        let mut r = unc_root_of(server);
        r.append("\\");
        proof {
            reveal_strlit("\\");
        }
        r.append(share_name);
        assert(r@ =~= unc_root(server@) + seq!['\\'] + share_name@);
        r
    }
}

/// The last backslash of `s` is at `k` when nothing after `k` is a backslash.
proof fn lemma_last_index_of_is(s: Seq<char>, c: char, k: int)
    requires
        0 <= k < s.len(),
        s[k] == c,
        forall|j: int| k < j < s.len() ==> s[j] != c,
    ensures
        last_index_of(s, c) == k,
    decreases s.len(),
{
    if s.len() - 1 != k {
        let d = s.drop_last();
        assert forall|j: int| k < j < d.len() implies d[j] != c by {
            assert(d[j] == s[j]);
        }
        lemma_last_index_of_is(d, c, k);
    }
}

/// Law: the server of a printer path built from a server without backslashes
/// and a share that is not itself a UNC path is that server.
pub proof fn law_server_of_built_path(server: Seq<char>, share: Seq<char>)
    requires
        no_backslash(server),
        !seq_starts_with(share, unc_lead()),
    ensures
        server_of_path(printer_path_of(server, share)) == server,
{
    let lead = unc_lead();
    let p = printer_path_of(server, share);
    assert(p == lead + server + seq!['\\'] + share);
    assert(p.subrange(0, 2) =~= lead);
    let rest = p.skip(2);
    assert(rest =~= server + seq!['\\'] + share);
    assert forall|j: int| 0 <= j < server.len() implies rest[j] != '\\' by {
        assert(rest[j] == server[j]);
    }
    lemma_before_first_prefix(rest, '\\', server.len() as int);
    assert(rest.take(server.len() as int) =~= server);
}

/// Law: the display name of a printer path built from a share without
/// backslashes is that share, whatever the server.
pub proof fn law_display_name_of_built_path(server: Seq<char>, share: Seq<char>)
    requires
        no_backslash(share),
    ensures
        display_name_of(printer_path_of(server, share)) == share,
{
    let lead = unc_lead();
    assert(!seq_starts_with(share, lead)) by {
        if share.len() >= 2 {
            assert(share.subrange(0, 2)[0] == share[0]);
        }
    }
    let p = printer_path_of(server, share);
    assert(p == lead + server + seq!['\\'] + share);
    let k = server.len() as int + 2;
    assert(p[k] == '\\');
    assert forall|j: int| k < j < p.len() implies p[j] != '\\' by {
        assert(p[j] == share[j - k - 1]);
    }
    lemma_last_index_of_is(p, '\\', k);
    assert(p.skip(k + 1) =~= share);
}

// ---------------------------------------------------------------------------
// Selecting the printers of a server
// ---------------------------------------------------------------------------

/// The names among `names` whose lower-case form begins with `prefix`, in order.
pub open spec fn names_with_prefix(names: Seq<Seq<char>>, prefix: Seq<char>) -> Seq<Seq<char>>
    decreases names.len(),
{
    if names.len() == 0 {
        Seq::empty()
    } else {
        let rest = names_with_prefix(names.drop_last(), prefix);
        if seq_starts_with(lowercase(names.last()), prefix) {
            rest.push(names.last())
        } else {
            rest
        }
    }
}

/// The names whose lower-case forms, given alongside in `lowered`, begin with
/// `prefix`, in order.
pub open spec fn select_lowered(lowered: Seq<Seq<char>>, names: Seq<Seq<char>>, prefix: Seq<char>) -> Seq<Seq<char>>
    decreases names.len(),
{
    if names.len() == 0 || lowered.len() == 0 {
        Seq::empty()
    } else {
        let rest = select_lowered(lowered.drop_last(), names.drop_last(), prefix);
        if seq_starts_with(lowered.last(), prefix) {
            rest.push(names.last())
        } else {
            rest
        }
    }
}

/// `lowered` holds the lower-case form of each of `names`.
pub open spec fn lowered_forms(lowered: Seq<Seq<char>>, names: Seq<Seq<char>>) -> bool {
    &&& lowered.len() == names.len()
    &&& forall|i: int| 0 <= i < names.len() ==> #[trigger] lowered[i] == lowercase(names[i])
}

/// With the true lower-case forms, `select_lowered` is the selection by lower-case prefix.
pub proof fn lemma_select_lowered(lowered: Seq<Seq<char>>, names: Seq<Seq<char>>, prefix: Seq<char>)
    requires
        lowered_forms(lowered, names),
    ensures
        select_lowered(lowered, names, prefix) == names_with_prefix(names, prefix),
    decreases names.len(),
{
    if names.len() > 0 {
        let (l, n) = (lowered.drop_last(), names.drop_last());
        assert forall|i: int| 0 <= i < n.len() implies #[trigger] l[i] == lowercase(n[i]) by {
            assert(l[i] == lowered[i] && n[i] == names[i]);
        }
        lemma_select_lowered(l, n, prefix);
        assert(lowered.last() == lowered[names.len() - 1]);
    }
}

/// `\\{server}\` in lower case, which the names of the server's printers begin with.
pub open spec fn server_prefix(server: Seq<char>) -> Seq<char> {
    lowercase(unc_root(server) + seq!['\\'])
}

/// `\\{server}\`.
fn unc_share_prefix(server: &str) -> (r: String)
    ensures
        r@ == unc_root(server@) + seq!['\\'],
{
    let mut r = unc_root_of(server);
    proof {
        reveal_strlit("\\");
    }
    r.append("\\");
    assert(r@ =~= unc_root(server@) + seq!['\\']);
    r
}

/// The lower-case forms of `names`.
fn lowercase_all(names: &[String]) -> (r: Vec<String>)
    ensures
        lowered_forms(views(r@), views(names@)),
{
    let n = names.len();
    let mut out: Vec<String> = Vec::new();
    let mut i: usize = 0;
    while i < n
        invariant
            n == names@.len(),
            i <= n,
            out@.len() == i,
            forall|k: int| 0 <= k < i ==> #[trigger] out@[k]@ == lowercase(names@[k]@),
        decreases n - i,
    {
        out.push(to_lowercase(names[i].as_str()));
        i += 1;
    }
    out
}

/// Keeps the names whose lower-case forms (given in `lowered`, position by
/// position) begin with `prefix_lower`, in their order.
pub fn select_by_prefix(lowered: &[String], names: &[String], prefix_lower: &str) -> (r: Vec<String>)
    requires
        lowered@.len() == names@.len(),
    ensures
        views(r@) == select_lowered(views(lowered@), views(names@), prefix_lower@),
{
    let n = names.len();
    let mut out: Vec<String> = Vec::new();
    let mut i: usize = 0;
    while i < n
        invariant
            n == names@.len(),
            n == lowered@.len(),
            i <= n,
            views(out@) == select_lowered(views(lowered@.take(i as int)), views(names@.take(i as int)), prefix_lower@),
        decreases n - i,
    {
        assert(views(names@.take(i + 1)).drop_last() =~= views(names@.take(i as int)));
        assert(views(lowered@.take(i + 1)).drop_last() =~= views(lowered@.take(i as int)));
        assert(views(names@.take(i + 1)).last() == names@[i as int]@);
        assert(views(lowered@.take(i + 1)).last() == lowered@[i as int]@);
        if starts_with(lowered[i].as_str(), prefix_lower) {
            let ghost old_out = out@;
            out.push(names[i].clone());
            assert(views(out@) =~= views(old_out).push(names@[i as int]@));
        }
        i += 1;
    }
    assert(names@.take(n as int) =~= names@);
    assert(lowered@.take(n as int) =~= lowered@);
    out
}

/// Keeps the names that belong to `server` (their lower-case form begins with
/// the lower-case `\\{server}\`), in their order.
pub fn filter_server_printers(all_names: &[String], server: &str) -> (r: Vec<String>)
    ensures
        views(r@) == names_with_prefix(views(all_names@), server_prefix(server@)),
{
    let root = unc_share_prefix(server);
    let prefix = to_lowercase(root.as_str());
    let lowered = lowercase_all(all_names);
    let r = select_by_prefix(lowered.as_slice(), all_names, prefix.as_str());
    proof {
        lemma_select_lowered(views(lowered@), views(all_names@), prefix@);
    }
    r
}

/// Law: selecting the printers of a server twice selects the same names as once.
pub proof fn law_server_selection_idempotent(names: Seq<Seq<char>>, prefix: Seq<char>)
    ensures
        names_with_prefix(names_with_prefix(names, prefix), prefix) == names_with_prefix(names, prefix),
    decreases names.len(),
{
    if names.len() > 0 {
        let rest = names_with_prefix(names.drop_last(), prefix);
        law_server_selection_idempotent(names.drop_last(), prefix);
        if seq_starts_with(lowercase(names.last()), prefix) {
            let kept = rest.push(names.last());
            assert(kept.drop_last() =~= rest);
        }
    }
}

/// Whether one of the lower-case names `lowered` equals `target_lower`.
pub fn any_name_equal(lowered: &[String], target_lower: &str) -> (r: bool)
    ensures
        r == exists|i: int| 0 <= i < lowered@.len() && (#[trigger] lowered@[i])@ == target_lower@,
{
    let n = lowered.len();
    let mut i: usize = 0;
    while i < n
        invariant
            n == lowered@.len(),
            i <= n,
            forall|j: int| 0 <= j < i ==> (#[trigger] lowered@[j])@ != target_lower@,
        decreases n - i,
    {
        if str_eq(lowered[i].as_str(), target_lower) {
            return true;
        }
        i += 1;
    }
    false
}

/// Whether a printer with this path is already connected: some installed
/// printer has the same lower-case name.
pub fn is_printer_connected(installed: &[String], printer_path: &str) -> (r: bool)
    ensures
        r == exists|i: int| 0 <= i < installed@.len() && lowercase(#[trigger] installed@[i]@) == lowercase(printer_path@),
{
    let target = to_lowercase(printer_path);
    let lowered = lowercase_all(installed);
    let r = any_name_equal(lowered.as_slice(), target.as_str());
    proof {
        if r {
            let i = choose|i: int| 0 <= i < lowered@.len() && (#[trigger] lowered@[i])@ == target@;
            assert(views(lowered@)[i] == lowercase(views(installed@)[i]));
            assert(lowercase(installed@[i]@) == lowercase(printer_path@));
        } else {
            assert forall|i: int| 0 <= i < installed@.len() implies lowercase(#[trigger] installed@[i]@) != lowercase(printer_path@) by {
                assert(views(lowered@)[i] == lowercase(views(installed@)[i]));
                assert(lowered@[i]@ != target@);
            }
        }
    }
    r
}

// ---------------------------------------------------------------------------
// The local printer list
// ---------------------------------------------------------------------------

/// A printer connection as the system lists it.
#[derive(Debug)]
pub struct InstalledPrinter {
    /// Printer name (UNC path).
    pub name: String,
    /// Port name.
    pub port_name: String,
    /// Driver name.
    pub driver_name: String,
}

/// A locally connected printer.
#[derive(Debug)]
pub struct LocalPrinterItem {
    /// Printer name (UNC path).
    pub name: String,
    /// Port name.
    pub port_name: String,
    /// Driver name.
    pub driver_name: String,
    /// Whether this is the default printer.
    pub is_default: bool,
    /// Device status.
    pub status: String,
}

/// The installed printers whose lower-case name begins with `prefix`, in order.
pub open spec fn printers_with_prefix(entries: Seq<InstalledPrinter>, prefix: Seq<char>) -> Seq<InstalledPrinter>
    decreases entries.len(),
{
    if entries.len() == 0 {
        Seq::empty()
    } else {
        let rest = printers_with_prefix(entries.drop_last(), prefix);
        if seq_starts_with(lowercase(entries.last().name@), prefix) {
            rest.push(entries.last())
        } else {
            rest
        }
    }
}

/// `item` lists `entry`, marked default exactly when its name is `default_printer`.
pub open spec fn lists_printer(item: LocalPrinterItem, entry: InstalledPrinter, default_printer: Seq<char>) -> bool {
    &&& item.name@ == entry.name@
    &&& item.port_name@ == entry.port_name@
    &&& item.driver_name@ == entry.driver_name@
    &&& item.is_default == (entry.name@ == default_printer)
    &&& item.status@ == "空闲"@
}

/// Law: in a list of local printers, an item is marked default exactly when
/// its name is the default printer's name, so among items with different
/// names at most one is marked default.
pub proof fn law_default_mark_is_name_equality(items: Seq<LocalPrinterItem>, entries: Seq<InstalledPrinter>, default_printer: Seq<char>)
    requires
        items.len() == entries.len(),
        forall|i: int| 0 <= i < items.len() ==> lists_printer(#[trigger] items[i], entries[i], default_printer),
    ensures
        forall|i: int| 0 <= i < items.len() ==> ((#[trigger] items[i]).is_default <==> items[i].name@ == default_printer),
        forall|i: int, j: int|
            0 <= i < items.len() && 0 <= j < items.len() && (#[trigger] items[i]).name@ != (#[trigger] items[j]).name@
                ==> !(items[i].is_default && items[j].is_default),
{
    assert forall|i: int| 0 <= i < items.len() implies ((#[trigger] items[i]).is_default <==> items[i].name@ == default_printer) by {
        assert(lists_printer(items[i], entries[i], default_printer));
    }
}

/// The installed printers whose lower-case names, given alongside in `lowered`,
/// begin with `prefix`, in order.
pub open spec fn printers_selected(lowered: Seq<Seq<char>>, entries: Seq<InstalledPrinter>, prefix: Seq<char>) -> Seq<InstalledPrinter>
    decreases entries.len(),
{
    if entries.len() == 0 || lowered.len() == 0 {
        Seq::empty()
    } else {
        let rest = printers_selected(lowered.drop_last(), entries.drop_last(), prefix);
        if seq_starts_with(lowered.last(), prefix) {
            rest.push(entries.last())
        } else {
            rest
        }
    }
}

/// `lowered` holds the lower-case name of each of `entries`.
pub open spec fn lowered_names(lowered: Seq<Seq<char>>, entries: Seq<InstalledPrinter>) -> bool {
    &&& lowered.len() == entries.len()
    &&& forall|i: int| 0 <= i < entries.len() ==> #[trigger] lowered[i] == lowercase(entries[i].name@)
}

/// With the true lower-case names, `printers_selected` is the selection by lower-case prefix.
pub proof fn lemma_printers_selected(lowered: Seq<Seq<char>>, entries: Seq<InstalledPrinter>, prefix: Seq<char>)
    requires
        lowered_names(lowered, entries),
    ensures
        printers_selected(lowered, entries, prefix) == printers_with_prefix(entries, prefix),
    decreases entries.len(),
{
    if entries.len() > 0 {
        let (l, e) = (lowered.drop_last(), entries.drop_last());
        assert forall|i: int| 0 <= i < e.len() implies #[trigger] l[i] == lowercase(e[i].name@) by {
            assert(l[i] == lowered[i] && e[i] == entries[i]);
        }
        lemma_printers_selected(l, e, prefix);
        assert(lowered.last() == lowered[entries.len() - 1]);
    }
}

/// The lower-case names of `entries`.
fn lowercase_names(entries: &[InstalledPrinter]) -> (r: Vec<String>)
    ensures
        lowered_names(views(r@), entries@),
{
    let n = entries.len();
    let mut out: Vec<String> = Vec::new();
    let mut i: usize = 0;
    while i < n
        invariant
            n == entries@.len(),
            i <= n,
            out@.len() == i,
            forall|k: int| 0 <= k < i ==> #[trigger] out@[k]@ == lowercase(entries@[k].name@),
        decreases n - i,
    {
        out.push(to_lowercase(entries[i].name.as_str()));
        i += 1;
    }
    out
}

/// Lists the installed printers whose lower-case names (given in `lowered`,
/// position by position) begin with `prefix_lower`, in order, each marked
/// default when its name is `default_printer`.
pub fn select_local_printers(lowered: &[String], entries: &[InstalledPrinter], prefix_lower: &str, default_printer: &str) -> (r: Vec<LocalPrinterItem>)
    requires
        lowered@.len() == entries@.len(),
    ensures
        r@.len() == printers_selected(views(lowered@), entries@, prefix_lower@).len(),
        forall|i: int| 0 <= i < r@.len() ==> lists_printer(#[trigger] r@[i], printers_selected(views(lowered@), entries@, prefix_lower@)[i], default_printer@),
{
    let n = entries.len();
    let mut out: Vec<LocalPrinterItem> = Vec::new();
    let mut i: usize = 0;
    while i < n
        invariant
            n == entries@.len(),
            n == lowered@.len(),
            i <= n,
            out@.len() == printers_selected(views(lowered@.take(i as int)), entries@.take(i as int), prefix_lower@).len(),
            forall|k: int| 0 <= k < out@.len() ==> lists_printer(#[trigger] out@[k], printers_selected(views(lowered@.take(i as int)), entries@.take(i as int), prefix_lower@)[k], default_printer@),
        decreases n - i,
    {
        let ghost before = printers_selected(views(lowered@.take(i as int)), entries@.take(i as int), prefix_lower@);
        assert(entries@.take(i + 1).drop_last() =~= entries@.take(i as int));
        assert(entries@.take(i + 1).last() == entries@[i as int]);
        assert(views(lowered@.take(i + 1)).drop_last() =~= views(lowered@.take(i as int)));
        assert(views(lowered@.take(i + 1)).last() == lowered@[i as int]@);
        if starts_with(lowered[i].as_str(), prefix_lower) {
            let e = &entries[i];
            let item = LocalPrinterItem {
                name: copy_string(&e.name),
                port_name: copy_string(&e.port_name),
                driver_name: copy_string(&e.driver_name),
                is_default: str_eq(e.name.as_str(), default_printer),
                status: owned("空闲"),
            };
            out.push(item);
            assert(printers_selected(views(lowered@.take(i + 1)), entries@.take(i + 1), prefix_lower@) == before.push(entries@[i as int]));
        }
        i += 1;
    }
    assert(entries@.take(n as int) =~= entries@);
    assert(lowered@.take(n as int) =~= lowered@);
    out
}

/// The local printer list: the installed printers of the configured server
/// (lower-case name beginning with the lower-case `\\{server_addr}\`), in
/// order, each marked default when its name is `default_printer`.
pub fn get_local_printer_list(entries: &[InstalledPrinter], server_addr: &str, default_printer: &str) -> (r: Vec<LocalPrinterItem>)
    ensures
        r@.len() == printers_with_prefix(entries@, server_prefix(server_addr@)).len(),
        forall|i: int| 0 <= i < r@.len() ==> lists_printer(#[trigger] r@[i], printers_with_prefix(entries@, server_prefix(server_addr@))[i], default_printer@),
{
    let root = unc_share_prefix(server_addr);
    let prefix = to_lowercase(root.as_str());
    let lowered = lowercase_names(entries);
    let r = select_local_printers(lowered.as_slice(), entries, prefix.as_str(), default_printer);
    proof {
        lemma_printers_selected(views(lowered@), entries@, prefix@);
    }
    r
}

/// The outcome of a failed enumeration of the local printers: error codes
/// 1801 and 87 mean that there is nothing to list, anything else is an error.
pub fn local_printer_enum_failure(code: u32) -> (r: Result<Vec<LocalPrinterItem>, String>)
    ensures
        (code == 1801 || code == 87) ==> (r matches Ok(v) && v@.len() == 0),
        !(code == 1801 || code == 87) ==> (r matches Err(m) && m@ == win_error_text("本地打印机枚举"@, code)),
{
    if code == 1801 || code == 87 {
        Ok(Vec::new())
    } else {
        Err(win_error_message("本地打印机枚举", code))
    }
}

// ---------------------------------------------------------------------------
// Extra servers
// ---------------------------------------------------------------------------

/// The position of the first extra server with this address, or -1.
pub open spec fn server_index(servers: Seq<ExtraServer>, addr: Seq<char>) -> int
    decreases servers.len(),
{
    if servers.len() == 0 {
        -1
    } else if servers[0].server_addr@ == addr {
        0
    } else {
        let k = server_index(servers.drop_first(), addr);
        if k < 0 {
            -1
        } else {
            k + 1
        }
    }
}

/// `server_index` finds the first server with the address, and -1 means there is none.
pub proof fn lemma_server_index(servers: Seq<ExtraServer>, addr: Seq<char>)
    ensures
        -1 <= server_index(servers, addr) < servers.len(),
        server_index(servers, addr) >= 0 ==> servers[server_index(servers, addr)].server_addr@ == addr,
        forall|j: int|
            0 <= j < servers.len() && (server_index(servers, addr) < 0 || j < server_index(servers, addr))
                ==> (#[trigger] servers[j]).server_addr@ != addr,
    decreases servers.len(),
{
    if servers.len() > 0 && servers[0].server_addr@ != addr {
        let d = servers.drop_first();
        lemma_server_index(d, addr);
        assert forall|j: int|
            0 <= j < servers.len() && (server_index(servers, addr) < 0 || j < server_index(servers, addr))
                implies (#[trigger] servers[j]).server_addr@ != addr by {
            if j > 0 {
                assert(servers[j] == d[j - 1]);
            }
        }
    }
}

/// A position `k` with the address and none before it is what `server_index` gives.
proof fn lemma_server_index_is(servers: Seq<ExtraServer>, addr: Seq<char>, k: int)
    requires
        -1 <= k < servers.len(),
        k >= 0 ==> servers[k].server_addr@ == addr,
        forall|j: int| 0 <= j < servers.len() && (k < 0 || j < k) ==> (#[trigger] servers[j]).server_addr@ != addr,
    ensures
        server_index(servers, addr) == k,
{
    lemma_server_index(servers, addr);
    let r = server_index(servers, addr);
    if r >= 0 && k >= 0 {
        if r < k {
            assert(servers[r].server_addr@ != addr);
        } else if k < r {
            assert(servers[k].server_addr@ != addr);
        }
    } else if r >= 0 {
        assert(servers[r].server_addr@ != addr);
    } else if k >= 0 {
        assert(servers[k].server_addr@ != addr);
    }
}

/// The position of the first extra server with this address.
pub fn find_extra_server(multi: &MultiServerConfig, server_addr: &str) -> (r: Option<usize>)
    ensures
        server_index(multi.extra_servers@, server_addr@) < 0 ==> r is None,
        server_index(multi.extra_servers@, server_addr@) >= 0 ==> r == Some(server_index(multi.extra_servers@, server_addr@) as usize),
        r matches Some(i) ==> i < multi.extra_servers@.len() && multi.extra_servers@[i as int].server_addr@ == server_addr@,
{
    let n = multi.extra_servers.len();
    let mut i: usize = 0;
    while i < n
        invariant
            n == multi.extra_servers@.len(),
            i <= n,
            forall|j: int| 0 <= j < i ==> (#[trigger] multi.extra_servers@[j]).server_addr@ != server_addr@,
        decreases n - i,
    {
        if str_eq(multi.extra_servers[i].server_addr.as_str(), server_addr) {
            proof {
                lemma_server_index_is(multi.extra_servers@, server_addr@, i as int);
            }
            return Some(i);
        }
        i += 1;
    }
    proof {
        lemma_server_index_is(multi.extra_servers@, server_addr@, -1);
    }
    None
}

/// `e` is the record of a newly added extra server.
pub open spec fn is_new_extra_server(e: ExtraServer, addr: Seq<char>, username: Seq<char>, created_at: u64) -> bool {
    &&& e.server_addr@ == addr
    &&& e.username@ == username
    &&& e.credential_saved
    &&& e.created_at == created_at
}

/// Registers an extra server from entered settings. The settings are checked
/// as for the main server; an address that is already registered is refused.
/// On success the server is appended (its credential marked as saved) and the
/// configuration to write the credential for and to scan with is returned;
/// on failure nothing changes.
pub fn add_extra_server(
    multi: &mut MultiServerConfig,
    server_addr: &str,
    username: &str,
    password: &str,
    created_at: u64,
) -> (r: Result<MainServerConfig, String>)
    ensures
        final(multi).main_server_addr == old(multi).main_server_addr,
        match server_input_error(server_addr@, username@, password@) {
            Some(e) => r matches Err(m) && m@ == e && final(multi).extra_servers@ == old(multi).extra_servers@,
            None => if server_index(old(multi).extra_servers@, trimmed(server_addr@)) >= 0 {
                &&& r matches Err(m) && m@ == "服务器 "@ + trimmed(server_addr@) + " 已存在"@
                &&& final(multi).extra_servers@ == old(multi).extra_servers@
            } else {
                &&& r matches Ok(c) && c.holds(trimmed(server_addr@), trimmed(username@), password@)
                &&& final(multi).extra_servers@.drop_last() == old(multi).extra_servers@
                &&& final(multi).extra_servers@.len() == old(multi).extra_servers@.len() + 1
                &&& is_new_extra_server(final(multi).extra_servers@.last(), trimmed(server_addr@), trimmed(username@), created_at)
            },
        },
{
    let (addr, user) = validate_server_input(server_addr, username, password)?;
    if find_extra_server(multi, addr.as_str()).is_some() {
        let mut m = concat("服务器 ", addr.as_str());
        m.append(" 已存在");
        return Err(m);
    }
    let entry = ExtraServer {
        server_addr: copy_string(&addr),
        username: copy_string(&user),
        credential_saved: true,
        created_at,
    };
    multi.extra_servers.push(entry);
    assert(multi.extra_servers@.drop_last() =~= old(multi).extra_servers@);
    Ok(MainServerConfig::new(addr, user, owned(password)))
}

/// The message for an address that is not a registered extra server.
pub open spec fn server_not_found_text(addr: Seq<char>) -> Seq<char> {
    "未找到服务器 "@ + addr
}

/// Removes the first extra server with this address; refused when there is none.
pub fn remove_extra_server(multi: &mut MultiServerConfig, server_addr: &str) -> (r: Result<(), String>)
    ensures
        final(multi).main_server_addr == old(multi).main_server_addr,
        server_index(old(multi).extra_servers@, server_addr@) < 0 ==> {
            &&& r matches Err(m) && m@ == server_not_found_text(server_addr@)
            &&& final(multi).extra_servers@ == old(multi).extra_servers@
        },
        server_index(old(multi).extra_servers@, server_addr@) >= 0 ==> {
            &&& r is Ok
            &&& final(multi).extra_servers@ == old(multi).extra_servers@.remove(server_index(old(multi).extra_servers@, server_addr@))
        },
{
    proof {
        lemma_server_index(multi.extra_servers@, server_addr@);
    }
    match find_extra_server(multi, server_addr) {
        Some(i) => {
            let _ = multi.extra_servers.remove(i);
            Ok(())
        },
        None => Err(concat("未找到服务器 ", server_addr)),
    }
}

/// The configuration for rescanning a registered extra server with its saved
/// credential (the password is left empty for Windows to supply). Refused for
/// an unknown address, and for a server whose credential was not saved.
pub fn scan_cached_server(multi: &MultiServerConfig, server_addr: &str) -> (r: Result<MainServerConfig, String>)
    ensures
        server_index(multi.extra_servers@, server_addr@) < 0 ==> (r matches Err(m) && m@ == server_not_found_text(server_addr@)),
        server_index(multi.extra_servers@, server_addr@) >= 0 ==> {
            let s = multi.extra_servers@[server_index(multi.extra_servers@, server_addr@)];
            &&& !s.credential_saved ==> (r matches Err(m) && m@ == "请重新输入密码保存凭据"@)
            &&& s.credential_saved ==> (r matches Ok(c) && c.holds(server_addr@, s.username@, Seq::empty()))
        },
{
    proof {
        lemma_server_index(multi.extra_servers@, server_addr@);
    }
    match find_extra_server(multi, server_addr) {
        None => Err(concat("未找到服务器 ", server_addr)),
        Some(i) => {
            let s = &multi.extra_servers[i];
            if !s.credential_saved {
                return Err(owned("请重新输入密码保存凭据"));
            }
            Ok(MainServerConfig::new(owned(server_addr), copy_string(&s.username), String::new()))
        },
    }
}

/// The confirmation after adding an extra server and scanning it.
pub fn added_server_message(server_addr: &str, printer_count: usize) -> (r: String)
    ensures
        r@ == "已添加服务器 "@ + server_addr@ + "，发现 "@ + decimal(printer_count as nat) + " 台打印机"@,
{
    let mut r = concat("已添加服务器 ", server_addr);
    r.append("，发现 ");
    let count = usize_to_decimal(printer_count);
    r.append(count.as_str());
    r.append(" 台打印机");
    r
}

/// No two extra servers share an address.
pub open spec fn unique_addresses(servers: Seq<ExtraServer>) -> bool {
    forall|i: int, j: int|
        0 <= i < j < servers.len() ==> (#[trigger] servers[i]).server_addr@ != (#[trigger] servers[j]).server_addr@
}

/// Law: adding a server whose address is not registered, then removing that
/// address, gives back the original list.
pub proof fn law_add_then_remove_restores(servers: Seq<ExtraServer>, e: ExtraServer)
    requires
        server_index(servers, e.server_addr@) < 0,
    ensures
        server_index(servers.push(e), e.server_addr@) == servers.len(),
        servers.push(e).remove(servers.len() as int) == servers,
{
    lemma_server_index(servers, e.server_addr@);
    let p = servers.push(e);
    assert forall|j: int| 0 <= j < p.len() && j < servers.len() implies (#[trigger] p[j]).server_addr@ != e.server_addr@ by {
        assert(p[j] == servers[j]);
    }
    lemma_server_index_is(p, e.server_addr@, servers.len() as int);
    assert(p.remove(servers.len() as int) =~= servers);
}

/// Law: a server just added can be rescanned with its saved credential: it is
/// the one found under its address.
pub proof fn law_added_server_is_found(servers: Seq<ExtraServer>, e: ExtraServer)
    requires
        server_index(servers, e.server_addr@) < 0,
    ensures
        servers.push(e)[server_index(servers.push(e), e.server_addr@)] == e,
{
    law_add_then_remove_restores(servers, e);
}

/// Law: adding only unregistered addresses, and removing, keep the addresses
/// of the extra servers distinct.
pub proof fn law_unique_addresses_preserved(servers: Seq<ExtraServer>, e: ExtraServer, addr: Seq<char>)
    requires
        unique_addresses(servers),
    ensures
        server_index(servers, e.server_addr@) < 0 ==> unique_addresses(servers.push(e)),
        server_index(servers, addr) >= 0 ==> unique_addresses(servers.remove(server_index(servers, addr))),
{
    lemma_server_index(servers, e.server_addr@);
    lemma_server_index(servers, addr);
    if server_index(servers, e.server_addr@) < 0 {
        let p = servers.push(e);
        assert forall|i: int, j: int| 0 <= i < j < p.len() implies (#[trigger] p[i]).server_addr@ != (#[trigger] p[j]).server_addr@ by {
            assert(p[i] == servers[i]);
            if j < servers.len() {
                assert(p[j] == servers[j]);
            }
        }
    }
    if server_index(servers, addr) >= 0 {
        let k = server_index(servers, addr);
        let q = servers.remove(k);
        assert forall|i: int, j: int| 0 <= i < j < q.len() implies (#[trigger] q[i]).server_addr@ != (#[trigger] q[j]).server_addr@ by {
            let ii = if i < k { i } else { i + 1 };
            let jj = if j < k { j } else { j + 1 };
            assert(q[i] == servers[ii]);
            assert(q[j] == servers[jj]);
        }
    }
}

// ---------------------------------------------------------------------------
// Connecting a printer
// ---------------------------------------------------------------------------

/// What connecting a printer requires: its server, and the UNC root to open
/// an SMB session to first when the server is an extra server.
#[derive(Debug)]
pub struct ConnectPlan {
    /// The server that the printer belongs to.
    pub server: String,
    /// `\\{server}` when the server is an extra server, whose saved credential
    /// needs a session before the connection.
    pub session_target: Option<String>,
}

/// The plan for connecting the printer at `printer_path`, given whether a
/// printer of that name is `already_installed`: refused when it is; otherwise
/// the plan names its server and, for an extra server, the session to open first.
pub fn plan_printer_connection(already_installed: bool, printer_path: &str, multi: &MultiServerConfig) -> (r: Result<ConnectPlan, String>)
    ensures
        already_installed ==> (r matches Err(m) && m@ == "该打印机已安装，无需重复连接"@),
        !already_installed ==> (r matches Ok(p) && {
            &&& p.server@ == server_of_path(printer_path@)
            &&& server_index(multi.extra_servers@, server_of_path(printer_path@)) >= 0 ==> (p.session_target matches Some(t) && t@ == unc_root(server_of_path(printer_path@)))
            &&& server_index(multi.extra_servers@, server_of_path(printer_path@)) < 0 ==> p.session_target is None
        }),
{
    if already_installed {
        return Err(owned("该打印机已安装，无需重复连接"));
    }
    let server = extract_printer_server(printer_path);
    let session_target = if find_extra_server(multi, server.as_str()).is_some() {
        Some(unc_root_of(server.as_str()))
    } else {
        None
    };
    Ok(ConnectPlan { server, session_target })
}

/// Decides how to connect the printer at `printer_path`: refused when a
/// printer with that name (compared in lower case) is already installed;
/// otherwise the plan names its server and, for an extra server, the session
/// to open first.
pub fn connect_printer(printer_path: &str, installed: &[String], multi: &MultiServerConfig) -> (r: Result<ConnectPlan, String>)
    ensures
        (exists|i: int| 0 <= i < installed@.len() && lowercase(#[trigger] installed@[i]@) == lowercase(printer_path@))
            ==> (r matches Err(m) && m@ == "该打印机已安装，无需重复连接"@),
        !(exists|i: int| 0 <= i < installed@.len() && lowercase(#[trigger] installed@[i]@) == lowercase(printer_path@))
            ==> (r matches Ok(p) && {
            &&& p.server@ == server_of_path(printer_path@)
            &&& server_index(multi.extra_servers@, server_of_path(printer_path@)) >= 0 ==> (p.session_target matches Some(t) && t@ == unc_root(server_of_path(printer_path@)))
            &&& server_index(multi.extra_servers@, server_of_path(printer_path@)) < 0 ==> p.session_target is None
        }),
{
    let installed_already = is_printer_connected(installed, printer_path);
    plan_printer_connection(installed_already, printer_path, multi)
}

/// The confirmation for a connected printer.
pub fn printer_connected_message(printer_path: &str) -> (r: String)
    ensures
        r@ == "打印机连接成功："@ + printer_path@,
{
    concat("打印机连接成功：", printer_path)
}

/// The account named in the hint for error 1801: the user name of the extra
/// server (or `?`), or `(主服务器)` for the main server.
pub open spec fn connect_account(multi: MultiServerConfig, server: Seq<char>) -> Seq<char> {
    if server_index(multi.extra_servers@, server) >= 0 {
        multi.extra_servers@[server_index(multi.extra_servers@, server)].username@
    } else {
        "(主服务器)"@
    }
}

/// The hint for error 1801 (invalid printer name).
pub open spec fn printer_unreachable_hint(path: Seq<char>, server: Seq<char>, account: Seq<char>) -> Seq<char> {
    "无法连接到打印机 "@ + path + "\n\n请确认:\n1. 服务器 "@ + server + " 在线且可访问\n2. SMB 共享服务已启用\n3. 用户 '"@
        + account + "' 有访问权限\n4. 防火墙未阻止 445 端口"@
}

/// The message for a printer connection that failed with Windows error `code`.
pub open spec fn connect_error_text(code: u32, path: Seq<char>, multi: MultiServerConfig) -> Seq<char> {
    let server = server_of_path(path);
    if code == 1797 || code == 1930 {
        "打印机驱动缺失，请先手动安装对应驱动后重试"@
    } else if code == 1801 {
        printer_unreachable_hint(path, server, connect_account(multi, server))
    } else if code == 1802 {
        "该打印机已安装，无需重复连接"@
    } else if code == 1326 {
        "凭据验证失败，请检查账号密码"@
    } else if code == 53 || code == 1203 {
        server_unreachable_text(server)
    } else {
        win_error_text("打印机连接"@, code)
    }
}

/// The message for a printer connection that failed with Windows error `code`.
pub fn connect_printer_error(code: u32, printer_path: &str, multi: &MultiServerConfig) -> (r: String)
    ensures
        r@ == connect_error_text(code, printer_path@, *multi),
{
    let server = extract_printer_server(printer_path);
    if code == 1797 || code == 1930 {
        owned("打印机驱动缺失，请先手动安装对应驱动后重试")
    } else if code == 1801 {
        proof {
            lemma_server_index(multi.extra_servers@, server@);
        }
        let account = match find_extra_server(multi, server.as_str()) {
            Some(i) => copy_string(&multi.extra_servers[i].username),
            None => owned("(主服务器)"),
        };
        let mut r = concat("无法连接到打印机 ", printer_path);
        r.append("\n\n请确认:\n1. 服务器 ");
        r.append(server.as_str());
        r.append(" 在线且可访问\n2. SMB 共享服务已启用\n3. 用户 '");
        r.append(account.as_str());
        r.append("' 有访问权限\n4. 防火墙未阻止 445 端口");
        r
    } else if code == 1802 {
        owned("该打印机已安装，无需重复连接")
    } else if code == 1326 {
        owned("凭据验证失败，请检查账号密码")
    } else if code == 53 || code == 1203 {
        server_unreachable(server.as_str())
    } else {
        win_error_message("打印机连接", code)
    }
}

// ---------------------------------------------------------------------------
// Default printer, removal, printer dialogs
// ---------------------------------------------------------------------------

/// The confirmation after making `name` the default printer.
pub fn default_printer_set_message(name: &str) -> (r: String)
    ensures
        r@ == "已将「"@ + display_name_of(name@) + "」设为默认打印机"@,
{
    let shown = display_name(name);
    let mut r = concat("已将「", shown.as_str());
    r.append("」设为默认打印机");
    r
}

/// The outcome of a request for the default printer: its name, or the
/// message that there is none.
pub fn get_default_printer(found: Option<String>) -> (r: Result<String, String>)
    ensures
        found matches Some(n) ==> r == Ok::<String, String>(n),
        found is None ==> (r matches Err(m) && m@ == "未找到默认打印机"@),
{
    match found {
        Some(n) => Ok(n),
        None => Err(owned("未找到默认打印机")),
    }
}

/// The next system call when removing a printer, or the result.
#[derive(Debug)]
pub enum RemovalAction {
    /// Remove the printer connection of the current user.
    DeleteConnection,
    /// Open the printer object (the connection could not be removed).
    OpenPrinter,
    /// Delete the opened printer object, then close it.
    DeletePrinter,
    /// Removal is over.
    Finish(Result<String, String>),
}

/// What the last system call of a removal reported.
#[derive(Debug)]
pub enum RemovalEvent {
    /// The connection removal succeeded (`true`) or failed.
    ConnectionDeleted(bool),
    /// Opening the printer succeeded (`None`) or failed with the error code.
    Opened(Option<u32>),
    /// Deleting the printer succeeded (`None`) or failed with the error code.
    PrinterDeleted(Option<u32>),
}

/// The confirmation for a removed printer.
pub open spec fn printer_removed_text(name: Seq<char>) -> Seq<char> {
    "已断开打印机："@ + display_name_of(name)
}

/// The first step of removing a printer: remove the user's connection.
pub fn remove_printer() -> (r: RemovalAction)
    ensures
        r is DeleteConnection,
{
    RemovalAction::DeleteConnection
}

/// The step after `event` while removing the printer `name`: a removed
/// connection ends it; otherwise the printer object is opened and deleted,
/// and a failure of either ends it with the Windows error message.
pub fn remove_printer_step(name: &str, event: RemovalEvent) -> (r: RemovalAction)
    ensures
        match event {
            RemovalEvent::ConnectionDeleted(true) => r matches RemovalAction::Finish(Ok(m)) && m@ == printer_removed_text(name@),
            RemovalEvent::ConnectionDeleted(false) => r is OpenPrinter,
            RemovalEvent::Opened(None) => r is DeletePrinter,
            RemovalEvent::Opened(Some(code)) => r matches RemovalAction::Finish(Err(m)) && m@ == win_error_text("断开打印机"@, code),
            RemovalEvent::PrinterDeleted(None) => r matches RemovalAction::Finish(Ok(m)) && m@ == printer_removed_text(name@),
            RemovalEvent::PrinterDeleted(Some(code)) => r matches RemovalAction::Finish(Err(m)) && m@ == win_error_text("断开打印机"@, code),
        },
{
    match event {
        RemovalEvent::ConnectionDeleted(true) | RemovalEvent::PrinterDeleted(None) => {
            let shown = display_name(name);
            RemovalAction::Finish(Ok(concat("已断开打印机：", shown.as_str())))
        },
        RemovalEvent::ConnectionDeleted(false) => RemovalAction::OpenPrinter,
        RemovalEvent::Opened(None) => RemovalAction::DeletePrinter,
        RemovalEvent::Opened(Some(code)) | RemovalEvent::PrinterDeleted(Some(code)) => RemovalAction::Finish(
            Err(win_error_message("断开打印机", code)),
        ),
    }
}

/// The `rundll32` arguments that open a printer dialog:
/// `printui.dll,PrintUIEntry {flag} /n "{printer_name}"`.
pub fn printui_params(flag: &str, printer_name: &str) -> (r: String)
    ensures
        r@ == "printui.dll,PrintUIEntry "@ + flag@ + " /n \""@ + printer_name@ + "\""@,
{
    let mut r = concat("printui.dll,PrintUIEntry ", flag);
    r.append(" /n \"");
    r.append(printer_name);
    r.append("\"");
    r
}

/// Whether the shell launched the dialog: `ShellExecuteW` reports success
/// with a value above 32.
pub open spec fn shell_launch_succeeded(code: isize) -> bool {
    code > 32
}

/// The outcome of opening the printer properties dialog, given what
/// `ShellExecuteW` returned.
pub fn open_printer_property(shell_code: isize) -> (r: Result<String, String>)
    ensures
        shell_launch_succeeded(shell_code) ==> (r matches Ok(m) && m@ == "已打开打印机属性窗口"@),
        !shell_launch_succeeded(shell_code) ==> (r matches Err(m) && m@ == "无法打开打印机配置窗口"@),
{
    if shell_code <= 32 {
        Err(owned("无法打开打印机配置窗口"))
    } else {
        Ok(owned("已打开打印机属性窗口"))
    }
}

/// The outcome of opening the printing preferences dialog, given what
/// `ShellExecuteW` returned.
pub fn open_printer_preference(shell_code: isize) -> (r: Result<String, String>)
    ensures
        shell_launch_succeeded(shell_code) ==> (r matches Ok(m) && m@ == "已打开打印首选项窗口"@),
        !shell_launch_succeeded(shell_code) ==> (r matches Err(m) && m@ == "无法打开打印机配置窗口"@),
{
    if shell_code <= 32 {
        Err(owned("无法打开打印机配置窗口"))
    } else {
        Ok(owned("已打开打印首选项窗口"))
    }
}

} // verus!

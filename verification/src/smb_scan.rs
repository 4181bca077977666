//! Listing the shared printers of a print server: the decisions of the scan
//! (reachability check, then the printer enumeration, then the network
//! resource enumeration as a fallback), the printer records it produces, and
//! the checks on the cached list.

use vstd::prelude::*;
use crate::config::MainServerConfig;
use crate::printer_api::{printer_path_of, unc_root, unc_root_of, build_printer_path};
use crate::text::{after_last, after_last_char, copy_string, owned};
use crate::utils::{server_unreachable, server_unreachable_text, win_error_message, win_error_text};

verus! {

/// Windows: the call succeeded.
pub const NO_ERROR: u32 = 0;

/// Windows: the buffer is too small.
pub const ERROR_INSUFFICIENT_BUFFER: u32 = 122;

/// Windows: more data is available.
pub const ERROR_MORE_DATA: u32 = 234;

/// Windows: no more items.
pub const ERROR_NO_MORE_ITEMS: u32 = 259;

/// Size of the first buffer of the network resource enumeration, in bytes.
pub const WNET_BUFFER_LEN: u32 = 16384;

/// A printer that can be connected.
#[derive(Debug)]
pub struct PrinterItem {
    /// Display name (the share name).
    pub name: String,
    /// Full SMB share path.
    pub share_path: String,
    /// Driver name.
    pub driver_name: String,
    /// Device status.
    pub status: String,
}

/// Driver information found for one printer, reported while the drivers are looked up.
#[derive(Debug)]
pub struct DriverInfoUpdate {
    /// Share path of the printer.
    pub share_path: String,
    /// Driver name.
    pub driver_name: String,
    /// How many printers have been handled so far.
    pub progress: u32,
    /// How many printers there are.
    pub total: u32,
}

/// The cached printer list of a server.
#[derive(Debug)]
pub struct ServerPrinterCache {
    /// When the list was cached (Unix seconds).
    pub timestamp: u64,
    /// The server the list belongs to; a cache of another server is not used.
    pub server_addr: String,
    /// The printers.
    pub printers: Vec<PrinterItem>,
}

/// `item` is the record of the printer share at `path` named `share`, with
/// the driver still unknown.
pub open spec fn is_share_item(item: PrinterItem, share: Seq<char>, path: Seq<char>) -> bool {
    &&& item.name@ == share
    &&& item.share_path@ == path
    &&& item.driver_name@ == "连接后自动识别"@
    &&& item.status@ == "空闲"@
}

/// The record for a printer found by the printer enumeration under `name`
/// (either a share name or a full UNC path) on `server_addr`; no record for
/// an empty name.
pub fn parse_printer_info1(name: &str, server_addr: &str) -> (r: Option<PrinterItem>)
    ensures
        name@.len() == 0 ==> r is None,
        name@.len() > 0 ==> (r matches Some(item) && is_share_item(item, after_last(name@, '\\'), printer_path_of(server_addr@, name@))),
{
    if name.unicode_len() == 0 {
        return None;
    }
    Some(PrinterItem {
        name: after_last_char(name, '\\'),
        share_path: build_printer_path(server_addr, name),
        driver_name: owned("连接后自动识别"),
        status: owned("空闲"),
    })
}

/// A network resource as the resource enumeration lists it.
#[derive(Debug)]
pub struct NetResource {
    /// Whether it is a printer resource.
    pub is_print: bool,
    /// Its remote name (UNC path).
    pub remote_name: String,
}

/// The remote names of the printer resources with a remote name, in order.
pub open spec fn printer_resource_paths(resources: Seq<NetResource>) -> Seq<Seq<char>>
    decreases resources.len(),
{
    if resources.len() == 0 {
        Seq::empty()
    } else {
        let rest = printer_resource_paths(resources.drop_last());
        let last = resources.last();
        if last.is_print && last.remote_name@.len() > 0 {
            rest.push(last.remote_name@)
        } else {
            rest
        }
    }
}

/// Law: the paths a batch of the resource enumeration adds to what the scan
/// has collected are the remote names of all of its printer resources that
/// have a remote name, in their order: one path for each such resource, and
/// what was collected before stays in front.
pub proof fn law_batch_adds_every_printer_resource(collected: Seq<Seq<char>>, resources: Seq<NetResource>)
    ensures
        ({
            let printers = resources.filter(|r: NetResource| r.is_print && r.remote_name@.len() > 0);
            let after = collected + printer_resource_paths(resources);
            &&& after.len() == collected.len() + printers.len()
            &&& after.take(collected.len() as int) == collected
            &&& forall|k: int| 0 <= k < printers.len() ==> after[collected.len() + k] == (#[trigger] printers[k]).remote_name@
        }),
    decreases resources.len(),
{
    let pred = |r: NetResource| r.is_print && r.remote_name@.len() > 0;
    let printers = resources.filter(pred);
    let after = collected + printer_resource_paths(resources);
    assert(after.take(collected.len() as int) =~= collected);
    if resources.len() == 0 {
        reveal(Seq::filter);
        assert(printers.len() == 0);
    } else {
        let init = resources.drop_last();
        law_batch_adds_every_printer_resource(collected, init);
        assert(resources =~= init.push(resources.last()));
        init.lemma_filter_push(resources.last(), pred);
        let before_paths = printer_resource_paths(init);
        assert forall|k: int| 0 <= k < printers.len() implies after[collected.len() + k] == (#[trigger] printers[k]).remote_name@ by {
            if k < init.filter(pred).len() {
                assert(printers[k] == init.filter(pred)[k]);
                assert(after[collected.len() + k] == (collected + before_paths)[collected.len() + k]);
            }
        }
    }
}

/// The non-empty names, in order.
pub open spec fn nonempty_names(names: Seq<Seq<char>>) -> Seq<Seq<char>>
    decreases names.len(),
{
    if names.len() == 0 {
        Seq::empty()
    } else {
        let rest = nonempty_names(names.drop_last());
        if names.last().len() > 0 {
            rest.push(names.last())
        } else {
            rest
        }
    }
}

/// `items` are the records of the printers found by the printer enumeration
/// under `names` on `server`.
pub open spec fn network_items(items: Seq<PrinterItem>, names: Seq<Seq<char>>, server: Seq<char>) -> bool {
    &&& items.len() == nonempty_names(names).len()
    &&& forall|i: int|
        0 <= i < items.len() ==> is_share_item(
            #[trigger] items[i],
            after_last(nonempty_names(names)[i], '\\'),
            printer_path_of(server, nonempty_names(names)[i]),
        )
}

/// `items` are the records of the printer shares at `paths`.
pub open spec fn share_items(items: Seq<PrinterItem>, paths: Seq<Seq<char>>) -> bool {
    &&& items.len() == paths.len()
    &&& forall|i: int| 0 <= i < items.len() ==> is_share_item(#[trigger] items[i], after_last(paths[i], '\\'), paths[i])
}

/// The records of the printers found by the printer enumeration under `names`.
pub fn parse_network_printers(names: &[String], server_addr: &str) -> (r: Vec<PrinterItem>)
    ensures
        network_items(r@, crate::text::views(names@), server_addr@),
{
    let n = names.len();
    let mut out: Vec<PrinterItem> = Vec::new();
    let mut i: usize = 0;
    while i < n
        invariant
            n == names@.len(),
            i <= n,
            network_items(out@, crate::text::views(names@.take(i as int)), server_addr@),
        decreases n - i,
    {
        let ghost before = crate::text::views(names@.take(i as int));
        let ghost after = crate::text::views(names@.take(i + 1));
        assert(after.drop_last() =~= before);
        assert(after.last() == names@[i as int]@);
        match parse_printer_info1(names[i].as_str(), server_addr) {
            Some(item) => {
                out.push(item);
                assert(nonempty_names(after) == nonempty_names(before).push(names@[i as int]@));
            },
            None => {},
        }
        i += 1;
    }
    assert(names@.take(n as int) =~= names@);
    out
}

/// The records of the printer shares at `paths`.
pub fn share_printers(paths: &[String]) -> (r: Vec<PrinterItem>)
    ensures
        share_items(r@, crate::text::views(paths@)),
{
    let n = paths.len();
    let mut out: Vec<PrinterItem> = Vec::new();
    let mut i: usize = 0;
    while i < n
        invariant
            n == paths@.len(),
            i <= n,
            share_items(out@, crate::text::views(paths@.take(i as int))),
        decreases n - i,
    {
        let ghost before = crate::text::views(paths@.take(i as int));
        assert(crate::text::views(paths@.take(i + 1)) =~= before.push(paths@[i as int]@));
        let item = PrinterItem {
            name: after_last_char(paths[i].as_str(), '\\'),
            share_path: copy_string(&paths[i]),
            driver_name: owned("连接后自动识别"),
            status: owned("空闲"),
        };
        out.push(item);
        i += 1;
    }
    assert(paths@.take(n as int) =~= paths@);
    out
}

/// The message for a network resource enumeration that could not be opened.
pub open spec fn wnet_open_error_text(code: u32, server_addr: Seq<char>) -> Seq<char> {
    if code == 53 || code == 1203 {
        server_unreachable_text(server_addr)
    } else if code == 1326 {
        "凭据验证失败，请重启程序重试"@
    } else {
        win_error_text("网络枚举"@, code)
    }
}

/// The message for a network resource enumeration that could not be opened.
pub fn wnet_open_error(code: u32, server_addr: &str) -> (r: String)
    ensures
        r@ == wnet_open_error_text(code, server_addr@),
{
    if code == 53 || code == 1203 {
        server_unreachable(server_addr)
    } else if code == 1326 {
        owned("凭据验证失败，请重启程序重试")
    } else {
        win_error_message("网络枚举", code)
    }
}

// ---------------------------------------------------------------------------
// The scan
// ---------------------------------------------------------------------------

/// Where a scan stands: which system call it waits for.
#[derive(Debug, Clone, Copy)]
pub enum ScanPhase {
    /// Waiting for the reachability check of the SMB port.
    CheckOnline,
    /// Waiting for the first printer enumeration call (which asks for the size).
    ProbeNetwork,
    /// Waiting for the second printer enumeration call, with a buffer of this size.
    FetchNetwork(u32),
    /// Waiting for the network resource enumeration to open.
    OpenWNet,
    /// Waiting for a batch of network resources read into a buffer of this size.
    EnumWNet(u32),
    /// The scan is over.
    Done,
}

/// What the caller does next for a scan.
#[derive(Debug)]
pub enum ScanAction {
    /// Check that the SMB port of the server answers.
    CheckOnline { server_addr: String },
    /// Enumerate the shared printers of `server_unc` without a buffer, to learn the size needed.
    ProbeNetwork { server_unc: String },
    /// Enumerate the shared printers of `server_unc` into a buffer of `size` bytes.
    FetchNetwork { server_unc: String, size: u32 },
    /// Open the enumeration of the printer resources under `server_unc`.
    OpenWNet { server_unc: String },
    /// Read the next batch of resources into a buffer of `buffer_len` bytes.
    EnumWNet { buffer_len: u32 },
    /// The scan is over with this result (an open resource enumeration is closed first).
    Finish(Result<Vec<PrinterItem>, String>),
    /// The event was not the one the scan waits for; nothing to do.
    Ignored,
}

/// What the last system call of a scan reported.
#[derive(Debug)]
pub enum ScanEvent {
    /// The reachability check passed, or failed with this message.
    Online(Result<(), String>),
    /// The first printer enumeration call: its error code, the size needed, the count returned.
    NetworkProbed { error_code: u32, needed: u32, returned: u32 },
    /// The second printer enumeration call: whether it succeeded, how many
    /// entries it returned, and their names.
    NetworkFetched { ok: bool, returned: u32, names: Vec<String> },
    /// The resource enumeration was opened (code 0) or failed with this code.
    WNetOpened { code: u32 },
    /// A batch of the resource enumeration: the result code, the size the
    /// system asked for, and the resources read.
    WNetBatch { code: u32, required_size: u32, resources: Vec<NetResource> },
}

/// A scan of the shared printers of one server, driven by its caller: the
/// caller performs each action and hands back what the system reported.
pub struct ScanMachine {
    server_addr: String,
    phase: ScanPhase,
    found: Vec<String>,
}

impl ScanMachine {
    /// The server being scanned.
    pub closed spec fn server(self) -> Seq<char> {
        self.server_addr@
    }

    /// Where the scan stands.
    pub closed spec fn phase(self) -> ScanPhase {
        self.phase
    }

    /// The share paths of the printers collected so far from the resource enumeration.
    pub closed spec fn collected(self) -> Seq<Seq<char>> {
        crate::text::views(self.found@)
    }
}

/// The printer enumeration found nothing usable after its first call: an
/// error other than "buffer too small", or no size needed.
pub open spec fn probe_gives_up(error_code: u32, needed: u32) -> bool {
    (error_code != ERROR_INSUFFICIENT_BUFFER && error_code != ERROR_MORE_DATA) || needed == 0
}

/// Starts the scan of the server of `config` (the stored configuration): the
/// first step is the reachability check.
pub fn scan_server_printers_fast(config: &MainServerConfig) -> (r: (ScanMachine, ScanAction))
    ensures
        r.0.server() == config.server_addr@,
        r.0.phase() is CheckOnline,
        r.0.collected().len() == 0,
        r.1 matches ScanAction::CheckOnline { server_addr } && server_addr@ == config.server_addr@,
{
    let m = ScanMachine { server_addr: copy_string(&config.server_addr), phase: ScanPhase::CheckOnline, found: Vec::new() };
    assert(crate::text::views(m.found@) =~= Seq::<Seq<char>>::empty());
    (m, ScanAction::CheckOnline { server_addr: copy_string(&config.server_addr) })
}

impl ScanMachine {
    /// Moves to `phase` and asks for its system call.
    fn enter(&mut self, phase: ScanPhase) -> (r: ScanAction)
        requires
            !(phase is CheckOnline) && !(phase is Done),
        ensures
            final(self).server() == old(self).server(),
            final(self).collected() == old(self).collected(),
            final(self).phase() == phase,
            match phase {
                ScanPhase::ProbeNetwork => r matches ScanAction::ProbeNetwork { server_unc } && server_unc@ == unc_root(old(self).server()),
                ScanPhase::FetchNetwork(size) => r matches ScanAction::FetchNetwork { server_unc, size: s } && server_unc@ == unc_root(old(self).server()) && s == size,
                ScanPhase::OpenWNet => r matches ScanAction::OpenWNet { server_unc } && server_unc@ == unc_root(old(self).server()),
                ScanPhase::EnumWNet(len) => r matches ScanAction::EnumWNet { buffer_len } && buffer_len == len,
                _ => false,
            },
    {
        self.phase = phase;
        match phase {
            ScanPhase::ProbeNetwork => ScanAction::ProbeNetwork { server_unc: unc_root_of(self.server_addr.as_str()) },
            ScanPhase::FetchNetwork(size) => ScanAction::FetchNetwork { server_unc: unc_root_of(self.server_addr.as_str()), size },
            ScanPhase::OpenWNet => ScanAction::OpenWNet { server_unc: unc_root_of(self.server_addr.as_str()) },
            ScanPhase::EnumWNet(len) => ScanAction::EnumWNet { buffer_len: len },
            _ => ScanAction::Ignored,
        }
    }

    /// Ends the scan with `result`.
    fn finish(&mut self, result: Result<Vec<PrinterItem>, String>) -> (r: ScanAction)
        ensures
            final(self).server() == old(self).server(),
            final(self).phase() is Done,
            r == ScanAction::Finish(result),
    {
        self.phase = ScanPhase::Done;
        ScanAction::Finish(result)
    }

    /// Takes the next step of the scan after `event`:
    /// - a failed reachability check ends the scan with its message; a passed one starts the printer enumeration;
    /// - the printer enumeration is used when it yields printers; when its first call gives up, when its
    ///   second call fails with nothing returned, or when it yields no printer, the network resource
    ///   enumeration is opened instead;
    /// - an enumeration that cannot be opened ends the scan with a message for its error code;
    /// - each batch of resources adds its printer resources; "no more items" ends the scan with all
    ///   printers collected; "buffer too small" asks again with the size the system asked for when that
    ///   is larger, and ends the scan with an error otherwise; any other error ends it with its message;
    /// - an event the scan does not wait for changes nothing.
    pub fn step(&mut self, event: ScanEvent) -> (r: ScanAction)
        ensures
            final(self).server() == old(self).server(),
            match (old(self).phase(), event) {
                (ScanPhase::CheckOnline, ScanEvent::Online(Err(e))) => final(self).phase() is Done && r == ScanAction::Finish(
                    Err::<Vec<PrinterItem>, String>(e),
                ),
                (ScanPhase::CheckOnline, ScanEvent::Online(Ok(()))) => final(self).phase() is ProbeNetwork && final(self).collected() == old(self).collected() && (r matches ScanAction::ProbeNetwork { server_unc } && server_unc@ == unc_root(old(self).server())),
                (ScanPhase::ProbeNetwork, ScanEvent::NetworkProbed { error_code, needed, returned }) => if probe_gives_up(error_code, needed) {
                    final(self).phase() is OpenWNet && final(self).collected() == old(self).collected() && (r matches ScanAction::OpenWNet { server_unc } && server_unc@ == unc_root(old(self).server()))
                } else {
                    final(self).phase() == ScanPhase::FetchNetwork(needed) && final(self).collected() == old(self).collected() && (r matches ScanAction::FetchNetwork { server_unc, size } && server_unc@ == unc_root(old(self).server()) && size == needed)
                },
                (ScanPhase::FetchNetwork(_), ScanEvent::NetworkFetched { ok, returned, names }) => if (!ok && returned == 0) || nonempty_names(crate::text::views(names@)).len() == 0 {
                    final(self).phase() is OpenWNet && final(self).collected() == old(self).collected() && (r matches ScanAction::OpenWNet { server_unc } && server_unc@ == unc_root(old(self).server()))
                } else {
                    final(self).phase() is Done && (r matches ScanAction::Finish(Ok(items)) && network_items(items@, crate::text::views(names@), old(self).server()))
                },
                (ScanPhase::OpenWNet, ScanEvent::WNetOpened { code }) => if code != NO_ERROR {
                    final(self).phase() is Done && (r matches ScanAction::Finish(Err(m)) && m@ == wnet_open_error_text(code, old(self).server()))
                } else {
                    final(self).phase() == ScanPhase::EnumWNet(WNET_BUFFER_LEN) && final(self).collected() == old(self).collected()
                        && (r matches ScanAction::EnumWNet { buffer_len } && buffer_len == WNET_BUFFER_LEN)
                },
                (ScanPhase::EnumWNet(len), ScanEvent::WNetBatch { code, required_size, resources }) => if code == ERROR_NO_MORE_ITEMS {
                    final(self).phase() is Done && (r matches ScanAction::Finish(Ok(items)) && share_items(items@, old(self).collected()))
                } else if code == ERROR_INSUFFICIENT_BUFFER || code == ERROR_MORE_DATA {
                    if required_size > len {
                        final(self).phase() == ScanPhase::EnumWNet(required_size) && final(self).collected() == old(self).collected()
                            && (r matches ScanAction::EnumWNet { buffer_len } && buffer_len == required_size)
                    } else {
                        final(self).phase() is Done && (r matches ScanAction::Finish(Err(m)) && m@ == "打印机枚举缓冲区分配异常"@)
                    }
                } else if code != NO_ERROR {
                    final(self).phase() is Done && (r matches ScanAction::Finish(Err(m)) && m@ == win_error_text("打印机枚举"@, code))
                } else {
                    final(self).phase() == ScanPhase::EnumWNet(len)
                        && final(self).collected() == old(self).collected() + printer_resource_paths(resources@)
                        && (r matches ScanAction::EnumWNet { buffer_len } && buffer_len == len)
                },
                _ => final(self).phase() == old(self).phase() && final(self).collected() == old(self).collected() && r is Ignored,
            },
    {
        match (self.phase, event) {
            (ScanPhase::CheckOnline, ScanEvent::Online(Err(e))) => self.finish(Err(e)),
            (ScanPhase::CheckOnline, ScanEvent::Online(Ok(()))) => self.enter(ScanPhase::ProbeNetwork),
            (ScanPhase::ProbeNetwork, ScanEvent::NetworkProbed { error_code, needed, returned }) => {
                if (error_code != ERROR_INSUFFICIENT_BUFFER && error_code != ERROR_MORE_DATA) || needed == 0 {
                    self.enter(ScanPhase::OpenWNet)
                } else {
                    self.enter(ScanPhase::FetchNetwork(needed))
                }
            },
            (ScanPhase::FetchNetwork(_), ScanEvent::NetworkFetched { ok, returned, names }) => {
                if !ok && returned == 0 {
                    return self.enter(ScanPhase::OpenWNet);
                }
                let items = parse_network_printers(names.as_slice(), self.server_addr.as_str());
                if items.len() == 0 {
                    self.enter(ScanPhase::OpenWNet)
                } else {
                    self.finish(Ok(items))
                }
            },
            (ScanPhase::OpenWNet, ScanEvent::WNetOpened { code }) => {
                if code != NO_ERROR {
                    let m = wnet_open_error(code, self.server_addr.as_str());
                    self.finish(Err(m))
                } else {
                    self.enter(ScanPhase::EnumWNet(WNET_BUFFER_LEN))
                }
            },
            (ScanPhase::EnumWNet(len), ScanEvent::WNetBatch { code, required_size, resources }) => {
                if code == ERROR_NO_MORE_ITEMS {
                    let items = share_printers(self.found.as_slice());
                    self.finish(Ok(items))
                } else if code == ERROR_INSUFFICIENT_BUFFER || code == ERROR_MORE_DATA {
                    if required_size > len {
                        self.enter(ScanPhase::EnumWNet(required_size))
                    } else {
                        self.finish(Err(owned("打印机枚举缓冲区分配异常")))
                    }
                } else if code != NO_ERROR {
                    let m = win_error_message("打印机枚举", code);
                    self.finish(Err(m))
                } else {
                    self.collect(&resources);
                    ScanAction::EnumWNet { buffer_len: len }
                }
            },
            _ => ScanAction::Ignored,
        }
    }

    /// Adds the printer resources of a batch to the collected printers.
    fn collect(&mut self, resources: &Vec<NetResource>)
        ensures
            final(self).server() == old(self).server(),
            final(self).phase() == old(self).phase(),
            final(self).collected() == old(self).collected() + printer_resource_paths(resources@),
    {
        let n = resources.len();
        let mut i: usize = 0;
        assert(resources@.take(0) =~= Seq::<NetResource>::empty());
        assert(old(self).collected() + printer_resource_paths(resources@.take(0)) =~= old(self).collected());
        while i < n
            invariant
                n == resources@.len(),
                i <= n,
                self.server() == old(self).server(),
                self.phase() == old(self).phase(),
                self.collected() == old(self).collected() + printer_resource_paths(resources@.take(i as int)),
            decreases n - i,
        {
            let ghost before = self.collected();
            assert(resources@.take(i + 1).drop_last() =~= resources@.take(i as int));
            assert(resources@.take(i + 1).last() == resources@[i as int]);
            let res = &resources[i];
            if res.is_print && res.remote_name.unicode_len() > 0 {
                {
                    self.found.push(copy_string(&res.remote_name));
                    assert(self.collected() =~= before.push(resources@[i as int].remote_name@));
                    assert(printer_resource_paths(resources@.take(i + 1)) == printer_resource_paths(resources@.take(i as int)).push(resources@[i as int].remote_name@));
                    assert(self.collected() =~= old(self).collected() + printer_resource_paths(resources@.take(i + 1)));
                }
            }
            i += 1;
        }
        assert(resources@.take(n as int) =~= resources@);
    }
}

// ---------------------------------------------------------------------------
// Cached lists and driver information
// ---------------------------------------------------------------------------

/// The cached printer list, if it belongs to `server_addr`: a cache of
/// another server (or no cache) gives nothing.
pub fn get_printer_cache(cache: Option<ServerPrinterCache>, server_addr: &str) -> (r: Option<Vec<PrinterItem>>)
    ensures
        match cache {
            Some(c) => if c.server_addr@ == server_addr@ {
                r == Some(c.printers)
            } else {
                r is None
            },
            None => r is None,
        },
{
    match cache {
        Some(c) => {
            if crate::text::str_eq(c.server_addr.as_str(), server_addr) {
                Some(c.printers)
            } else {
                None
            }
        },
        None => None,
    }
}

/// The progress report for the printer at position `index` of `total`
/// printers whose driver was found: progress counts from 1.
pub fn driver_info_update(share_path: &str, driver_name: String, index: usize, total: usize) -> (r: DriverInfoUpdate)
    requires
        index < total,
    ensures
        r.share_path@ == share_path@,
        r.driver_name == driver_name,
        r.progress == (index + 1) as u32,
        r.total == total as u32,
{
    DriverInfoUpdate {
        share_path: owned(share_path),
        driver_name,
        progress: (index + 1) as u32,
        total: total as u32,
    }
}

/// The driver name read from a remote printer, if it is not empty.
pub fn get_remote_driver_info(driver_name: String) -> (r: Option<String>)
    ensures
        driver_name@.len() == 0 ==> r is None,
        driver_name@.len() > 0 ==> r == Some(driver_name),
{
    if driver_name.unicode_len() == 0 {
        None
    } else {
        Some(driver_name)
    }
}

} // verus!

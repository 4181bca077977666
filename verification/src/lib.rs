//! PrintLink: the decision logic of a client that connects the shared
//! printers and shared drives of SMB print servers.
//!
//! The library decides; the program around it performs the system calls
//! (printing, credentials, network, files) and hands their results back.

pub mod config;
pub mod credential;
pub mod printer_api;
pub mod shared_drive;
pub mod smb_scan;
pub mod text;
pub mod tray;
pub mod utf16;
pub mod utils;

use vstd::prelude::*;
use crate::smb_scan::PrinterItem;

verus! {

/// The printers found on one server, as reported to the window.
#[derive(Debug)]
pub struct ServerScanResult {
    /// The server scanned.
    pub server_addr: String,
    /// How many printers were found.
    pub count: u32,
    /// The printers.
    pub printers: Vec<PrinterItem>,
}

/// A failed scan of one server, as reported to the window.
#[derive(Debug)]
pub struct ServerScanError {
    /// The server scanned.
    pub server_addr: String,
    /// Why the scan failed.
    pub error: String,
}

} // verus!

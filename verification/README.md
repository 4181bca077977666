# printlink

PrintLink connects the shared printers and shared drives of SMB print
servers on Windows. This crate holds its decision logic, verified with Verus:

- `src/config.rs` – main and extra server settings, the temporary
  configuration used while scanning, checks on entered settings.
- `src/printer_api.rs` – printer paths, selecting a server's printers,
  connecting and removing printers, extra server management.
- `src/smb_scan.rs` – the printer scan as a state machine (reachability
  check, printer enumeration, resource enumeration as fallback), cached lists.
- `src/shared_drive.rs` – SMB session decisions, the sorted list of root folders.
- `src/credential.rs`, `src/utf16.rs` – credential blobs (UTF-16LE) and the
  decoding of wide strings returned by Windows.
- `src/utils.rs`, `src/text.rs`, `src/tray.rs` – error texts, string
  operations, tray menu entries.

`app/` is the Tauri program around the library: it performs the system calls
(printing, credentials, WNet, files, TCP) and hands their results to the
library. `tests/` exercises the library on concrete values.

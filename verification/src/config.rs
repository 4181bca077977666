//! Application configuration: the main print server, the extra servers, the
//! temporary configuration used while scanning an extra server, and the
//! checks applied to what the user enters.

use vstd::prelude::*;
use crate::text::{concat, is_white_space, law_trimmed_empty_iff_white, owned, trim, trimmed};

verus! {

/// Default print server address.
pub const DEFAULT_SERVER_ADDR: &'static str = "10.60.254.90";

/// Default credential user name.
pub const DEFAULT_USERNAME: &'static str = "print";

/// Default credential password.
pub const DEFAULT_PASSWORD: &'static str = "a*999999";

/// Configuration of the main print server.
#[derive(Debug)]
pub struct MainServerConfig {
    /// Print server address (IP or host name).
    pub server_addr: String,
    /// SMB credential user name.
    pub username: String,
    /// SMB credential password.
    pub password: String,
}

impl MainServerConfig {
    /// The three fields hold exactly these texts.
    pub open spec fn holds(self, server_addr: Seq<char>, username: Seq<char>, password: Seq<char>) -> bool {
        &&& self.server_addr@ == server_addr
        &&& self.username@ == username
        &&& self.password@ == password
    }

    /// This is the built-in default configuration.
    pub open spec fn is_default(self) -> bool {
        self.holds(DEFAULT_SERVER_ADDR@, DEFAULT_USERNAME@, DEFAULT_PASSWORD@)
    }

    /// Builds a configuration from its three fields.
    pub fn new(server_addr: String, username: String, password: String) -> (r: Self)
        ensures
            r.server_addr == server_addr,
            r.username == username,
            r.password == password,
    {
        MainServerConfig { server_addr, username, password }
    }
}

impl Clone for MainServerConfig {
    fn clone(&self) -> (r: Self)
        ensures
            r == *self,
    {
        MainServerConfig {
            server_addr: self.server_addr.clone(),
            username: self.username.clone(),
            password: self.password.clone(),
        }
    }
}

impl Default for MainServerConfig {
    fn default() -> (r: Self)
        ensures
            r.is_default(),
    {
        MainServerConfig {
            server_addr: owned(DEFAULT_SERVER_ADDR),
            username: owned(DEFAULT_USERNAME),
            password: owned(DEFAULT_PASSWORD),
        }
    }
}

/// An extra print server registered by the user.
#[derive(Debug)]
pub struct ExtraServer {
    /// Server address (IP or domain name).
    pub server_addr: String,
    /// User name.
    pub username: String,
    /// Whether the credential has been stored in Windows (the password itself is never kept).
    pub credential_saved: bool,
    /// When the server was added (Unix seconds).
    pub created_at: u64,
}

impl Clone for ExtraServer {
    fn clone(&self) -> (r: Self)
        ensures
            r == *self,
    {
        ExtraServer {
            server_addr: self.server_addr.clone(),
            username: self.username.clone(),
            credential_saved: self.credential_saved,
            created_at: self.created_at,
        }
    }
}

/// The main server address and the list of extra servers.
#[derive(Debug)]
pub struct MultiServerConfig {
    /// Main server address (kept alongside the main configuration file).
    pub main_server_addr: Option<String>,
    /// The extra servers.
    pub extra_servers: Vec<ExtraServer>,
}

impl MultiServerConfig {
    /// The addresses of the extra servers, in order.
    pub open spec fn addrs(self) -> Seq<Seq<char>> {
        self.extra_servers@.map_values(|s: ExtraServer| s.server_addr@)
    }
}

impl Default for MultiServerConfig {
    fn default() -> (r: Self)
        ensures
            r.main_server_addr is None,
            r.extra_servers@.len() == 0,
    {
        MultiServerConfig { main_server_addr: None, extra_servers: Vec::new() }
    }
}

/// The configuration in effect after reading the configuration file: what
/// was read when the file could be read and parsed, the default otherwise.
pub fn load_config(parsed: Option<MainServerConfig>) -> (r: MainServerConfig)
    ensures
        parsed matches Some(c) ==> r == c,
        parsed is None ==> r.is_default(),
{
    match parsed {
        Some(c) => c,
        None => MainServerConfig::default(),
    }
}

/// The extra-server configuration after reading its file: what was read
/// when the file could be read and parsed, an empty one otherwise.
pub fn load_multi_server_config(parsed: Option<MultiServerConfig>) -> (r: MultiServerConfig)
    ensures
        parsed matches Some(c) ==> r == c,
        parsed is None ==> r.main_server_addr is None && r.extra_servers@.len() == 0,
{
    match parsed {
        Some(c) => c,
        None => MultiServerConfig::default(),
    }
}

// ---------------------------------------------------------------------------
// Temporary configuration
// ---------------------------------------------------------------------------

/// Holds the temporary configuration that takes precedence over the stored
/// one while an extra server is being scanned.
pub struct TempConfigSlot {
    temp: Option<MainServerConfig>,
}

impl View for TempConfigSlot {
    type V = Option<MainServerConfig>;

    closed spec fn view(&self) -> Option<MainServerConfig> {
        self.temp
    }
}

impl TempConfigSlot {
    /// A slot holding no temporary configuration.
    pub fn new() -> (r: Self)
        ensures
            r@ is None,
    {
        TempConfigSlot { temp: None }
    }
}

/// The configuration in effect given the slot's content and the stored configuration.
pub open spec fn current_config(slot: Option<MainServerConfig>, stored: MainServerConfig) -> MainServerConfig {
    match slot {
        Some(c) => c,
        None => stored,
    }
}

/// Makes `cfg` the temporary configuration.
pub fn set_temp_config(slot: &mut TempConfigSlot, cfg: &MainServerConfig)
    ensures
        final(slot)@ == Some(*cfg),
{
    slot.temp = Some(cfg.clone());
}

/// The configuration in effect: the temporary one when there is one, the
/// stored one (`stored`, as `load_config` gives it) otherwise.
pub fn get_current_config(slot: &TempConfigSlot, stored: MainServerConfig) -> (r: MainServerConfig)
    ensures
        r == current_config(slot@, stored),
{
    match &slot.temp {
        Some(t) => t.clone(),
        None => stored,
    }
}

/// Removes the temporary configuration.
pub fn clear_temp_config(slot: &mut TempConfigSlot)
    ensures
        final(slot)@ is None,
{
    slot.temp = None;
}

/// Law: while a temporary configuration is set, it is the configuration in
/// effect, whatever is stored.
pub proof fn law_temp_config_takes_precedence(cfg: MainServerConfig, stored: MainServerConfig)
    ensures
        current_config(Some(cfg), stored) == cfg,
{
}

/// Law: once the temporary configuration is cleared, the stored one is in effect again.
pub proof fn law_cleared_temp_config_restores_stored(stored: MainServerConfig)
    ensures
        current_config(None, stored) == stored,
{
}

// ---------------------------------------------------------------------------
// Checks on entered server settings
// ---------------------------------------------------------------------------

/// The complaint about entered server settings, if any: an empty address
/// (after trimming), then an empty user name (after trimming), then an empty password.
pub open spec fn server_input_error(server_addr: Seq<char>, username: Seq<char>, password: Seq<char>) -> Option<Seq<char>> {
    if trimmed(server_addr).len() == 0 {
        Some("服务器地址不能为空"@)
    } else if trimmed(username).len() == 0 {
        Some("账号不能为空"@)
    } else if password.len() == 0 {
        Some("密码不能为空"@)
    } else {
        None
    }
}

/// Law: entered settings are accepted exactly when the address and the user
/// name each hold a character that is not white space and the password is not
/// empty, whatever their length; an address of white space only (or an empty
/// one) is refused as empty.
pub proof fn law_server_input_accepted(server_addr: Seq<char>, username: Seq<char>, password: Seq<char>)
    ensures
        server_input_error(server_addr, username, password) is None <==> (
            (exists|i: int| 0 <= i < server_addr.len() && !is_white_space(#[trigger] server_addr[i]))
            && (exists|i: int| 0 <= i < username.len() && !is_white_space(#[trigger] username[i]))
            && password.len() > 0),
        (forall|i: int| 0 <= i < server_addr.len() ==> is_white_space(#[trigger] server_addr[i]))
            ==> server_input_error(server_addr, username, password) == Some("服务器地址不能为空"@),
{
    law_trimmed_empty_iff_white(server_addr);
    law_trimmed_empty_iff_white(username);
}

/// Checks entered server settings. On success, gives the trimmed address and user name.
pub fn validate_server_input(server_addr: &str, username: &str, password: &str) -> (r: Result<(String, String), String>)
    ensures
        match server_input_error(server_addr@, username@, password@) {
            Some(e) => r matches Err(m) && m@ == e,
            None => r matches Ok((a, u)) && a@ == trimmed(server_addr@) && u@ == trimmed(username@),
        },
{
    let addr = trim(server_addr);
    let user = trim(username);
    if addr.unicode_len() == 0 {
        return Err(owned("服务器地址不能为空"));
    }
    if user.unicode_len() == 0 {
        return Err(owned("账号不能为空"));
    }
    if password.unicode_len() == 0 {
        return Err(owned("密码不能为空"));
    }
    Ok((addr, user))
}

/// The configuration to store for entered main-server settings, or the complaint about them.
pub fn save_config_command(server_addr: &str, username: &str, password: &str) -> (r: Result<MainServerConfig, String>)
    ensures
        match server_input_error(server_addr@, username@, password@) {
            Some(e) => r matches Err(m) && m@ == e,
            None => r matches Ok(c) && c.holds(trimmed(server_addr@), trimmed(username@), password@),
        },
{
    let (addr, user) = validate_server_input(server_addr, username, password)?;
    Ok(MainServerConfig { server_addr: addr, username: user, password: owned(password) })
}

/// The confirmation shown once a configuration has been saved.
pub fn config_saved_message(config: &MainServerConfig) -> (r: String)
    ensures
        r@ == "配置已保存（服务器："@ + config.server_addr@ + "）"@,
{
    let mut r = concat("配置已保存（服务器：", config.server_addr.as_str());
    r.append("）");
    r
}

} // verus!

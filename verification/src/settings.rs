//! Process-wide configuration as the core consumes it: plain values read
//! once at startup and immutable thereafter, with the defaults the bind
//! address falls back to and the data-driven choice of transport security
//! mode by port.

use vstd::prelude::*;

verus! {

/// Mail-transport and message-default configuration.
pub struct EmailSettings {
    /// Transport endpoint host.
    pub smtp_server: String,
    /// Transport endpoint port; also selects the security mode.
    pub smtp_port: u16,
    /// Account name for the transport credential pair.
    pub email_account: String,
    /// Account secret for the transport credential pair.
    pub email_password: String,
    /// Default sender address, used when a request supplies none.
    pub email_from: String,
    /// Default recipient address, used when a request supplies none.
    pub email_to: String,
    /// Default sender display name, used when a request supplies none.
    pub sender_name: String,
}

/// HTTP server configuration.
pub struct ServerSettings {
    /// Address the server binds to.
    pub server_host: String,
    /// Port the server binds to.
    pub server_port: u16,
    /// The shared secret a caller must present.
    pub api_key: String,
}

/// The whole process configuration.
pub struct AppSettings {
    /// Mail-transport and default-message settings.
    pub email: EmailSettings,
    /// HTTP server settings.
    pub server: ServerSettings,
}

/// The bind host used when none is configured.
pub fn default_server_host() -> (r: String)
    ensures
        r@ == "0.0.0.0"@,
{
    "0.0.0.0".to_owned()
}

/// The bind port used when none is configured.
pub fn default_server_port() -> (r: u16)
    ensures
        r == 3000,
{
    3000
}

/// How the session to the mail-transport endpoint is encrypted.
#[derive(Clone, Copy, Debug, PartialEq, Eq, Structural)]
pub enum TransportSecurityMode {
    /// The whole connection is wrapped in TLS from the first byte.
    ImplicitTls,
    /// The connection starts in the clear and must upgrade via STARTTLS.
    MandatoryStartTls,
    /// The connection upgrades via STARTTLS when the server offers it.
    Opportunistic,
}

/// The security mode each port selects: the implicit-TLS port, the
/// mandatory-STARTTLS submission port, and opportunistic upgrade everywhere
/// else.
pub open spec fn security_mode_spec(port: u16) -> TransportSecurityMode {
    if port == 465 {
        TransportSecurityMode::ImplicitTls
    } else if port == 587 {
        TransportSecurityMode::MandatoryStartTls
    } else {
        TransportSecurityMode::Opportunistic
    }
}

/// Select the transport security mode from the configured port.
pub fn transport_security_mode(port: u16) -> (m: TransportSecurityMode)
    ensures
        m == security_mode_spec(port),
{
    if port == 465 {
        TransportSecurityMode::ImplicitTls
    } else if port == 587 {
        TransportSecurityMode::MandatoryStartTls
    } else {
        TransportSecurityMode::Opportunistic
    }
}

} // verus!

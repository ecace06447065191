//! Configuration values and the bind-address policy.
use vstd::prelude::*;

verus! {

/// Server configuration, as read from the TOML file.
pub struct Config {
    pub bind: String,
    pub db_path: String,
    pub session_ttl_secs: u64,
    pub audit_retention_days: u64,
    pub max_failed_logins: u32,
    pub lockout_minutes: u64,
    pub pm2_log_dirs: Vec<String>,
    pub docker_socket: Option<String>,
}

/// Default session lifetime: seven days.
pub fn default_session_ttl() -> (r: u64)
    ensures
        r == 7 * 24 * 3600,
{
    7 * 24 * 3600
}

/// Default audit retention: ninety days.
pub fn default_audit_retention() -> (r: u64)
    ensures
        r == 90,
{
    90
}

/// Default number of failed logins before the account is locked.
pub fn default_max_failed_logins() -> (r: u32)
    ensures
        r == 5,
{
    5
}

/// Default lockout duration in minutes.
pub fn default_lockout_minutes() -> (r: u64)
    ensures
        r == 15,
{
    15
}

/// An IP address: four octets, or eight 16-bit segments.
#[derive(Clone, Copy, Debug, PartialEq, Eq)]
pub enum IpAddr {
    V4([u8; 4]),
    V6([u16; 8]),
}

/// A parsed socket address.
#[derive(Clone, Copy, Debug, PartialEq, Eq)]
pub struct SocketAddr {
    pub ip: IpAddr,
    pub port: u16,
}

/// `Ipv4Addr::is_loopback`: 127.0.0.0/8.
pub open spec fn v4_is_loopback(o: [u8; 4]) -> bool {
    o[0] == 127
}

/// `Ipv4Addr::is_private`: 10.0.0.0/8, 172.16.0.0/12, 192.168.0.0/16.
pub open spec fn v4_is_private(o: [u8; 4]) -> bool {
    ||| o[0] == 10
    ||| o[0] == 172 && 16 <= o[1] <= 31
    ||| o[0] == 192 && o[1] == 168
}

/// `Ipv4Addr::is_link_local`: 169.254.0.0/16.
pub open spec fn v4_is_link_local(o: [u8; 4]) -> bool {
    o[0] == 169 && o[1] == 254
}

/// `Ipv4Addr::is_unspecified`: 0.0.0.0.
pub open spec fn v4_is_unspecified(o: [u8; 4]) -> bool {
    o[0] == 0 && o[1] == 0 && o[2] == 0 && o[3] == 0
}

/// The carrier-grade NAT range 100.64.0.0/10 used by Tailscale.
pub open spec fn v4_is_cgnat(o: [u8; 4]) -> bool {
    o[0] == 100 && 64 <= o[1] < 128
}

/// `Ipv6Addr::is_loopback`: `::1`.
pub open spec fn v6_is_loopback(s: [u16; 8]) -> bool {
    s[0] == 0 && s[1] == 0 && s[2] == 0 && s[3] == 0 && s[4] == 0 && s[5] == 0 && s[6] == 0
        && s[7] == 1
}

/// Unique-local addresses fc00::/7.
pub open spec fn v6_is_unique_local(s: [u16; 8]) -> bool {
    0xfc00 <= s[0] <= 0xfdff
}

/// Link-local addresses fe80::/10.
pub open spec fn v6_is_link_local(s: [u16; 8]) -> bool {
    0xfe80 <= s[0] <= 0xfebf
}

/// The addresses the server may bind to: loopback, private, link-local,
/// and the Tailscale CGNAT range for IPv4; loopback, unique-local and
/// link-local for IPv6.
pub open spec fn safe_bind(ip: IpAddr) -> bool {
    match ip {
        IpAddr::V4(o) => v4_is_loopback(o) || v4_is_private(o) || v4_is_link_local(o) || (
        !v4_is_unspecified(o) && v4_is_cgnat(o)),
        IpAddr::V6(s) => v6_is_loopback(s) || v6_is_unique_local(s) || v6_is_link_local(s),
    }
}

/// Whether the server may bind to `ip`.
pub fn is_safe_bind(ip: IpAddr) -> (r: bool)
    ensures
        r == safe_bind(ip),
{
    match ip {
        IpAddr::V4(o) => {
            let loopback = o[0] == 127;
            let private = o[0] == 10 || (o[0] == 172 && 16 <= o[1] && o[1] <= 31) || (o[0] == 192
                && o[1] == 168);
            let link_local = o[0] == 169 && o[1] == 254;
            let unspecified = o[0] == 0 && o[1] == 0 && o[2] == 0 && o[3] == 0;
            loopback || private || link_local || (!unspecified && o[0] == 100 && 64 <= o[1]
                && o[1] < 128)
        },
        IpAddr::V6(s) => {
            let loopback = s[0] == 0 && s[1] == 0 && s[2] == 0 && s[3] == 0 && s[4] == 0 && s[5]
                == 0 && s[6] == 0 && s[7] == 1;
            loopback || (0xfc00 <= s[0] && s[0] <= 0xfdff) || (0xfe80 <= s[0] && s[0] <= 0xfebf)
        },
    }
}

/// Why a bind address was refused.
#[derive(Debug, PartialEq, Eq)]
pub enum BindError {
    /// `bind` is not a socket address.
    Invalid,
    /// `bind` names a publicly routable address.
    Public { ip: IpAddr, port: u16 },
}

impl Config {
    /// The session lifetime in seconds, as the signed timestamps use it
    /// (`session_ttl_secs as i64`).
    pub fn session_ttl(&self) -> (r: i64)
        ensures
            r == self.session_ttl_secs as i64,
    {
        self.session_ttl_secs as i64
    }

    /// The lockout duration in seconds (`lockout_minutes * 60`, as `i64`).
    pub fn lockout_secs(&self) -> (r: i64)
        requires
            self.lockout_minutes * 60 <= u64::MAX,
        ensures
            r == (self.lockout_minutes * 60) as i64,
    {
        (self.lockout_minutes * 60) as i64
    }

    /// Hard-fails if the bind address is publicly routable: the server only
    /// listens on loopback or private networks. `parsed` is `self.bind`
    /// parsed as a socket address, or `None` where it is not one.
    pub fn validate_bind(&self, parsed: Option<SocketAddr>) -> (r: Result<(), BindError>)
        ensures
            r == (match parsed {
                None => Err(BindError::Invalid),
                Some(a) => if safe_bind(a.ip) {
                    Ok(())
                } else {
                    Err(BindError::Public { ip: a.ip, port: a.port })
                },
            }),
    {
        match parsed {
            None => Err(BindError::Invalid),
            Some(a) => {
                if is_safe_bind(a.ip) {
                    Ok(())
                } else {
                    Err(BindError::Public { ip: a.ip, port: a.port })
                }
            },
        }
    }
}


/// The unspecified addresses, which listen on every interface, are refused:
/// `0.0.0.0` and `::`.
pub proof fn lemma_unspecified_refused()
    ensures
        !safe_bind(IpAddr::V4([0u8, 0u8, 0u8, 0u8])),
        !safe_bind(IpAddr::V6([0u16, 0u16, 0u16, 0u16, 0u16, 0u16, 0u16, 0u16])),
{
    let a = [0u8, 0u8, 0u8, 0u8];
    assert(a[0] == 0 && a[1] == 0);
    let b = [0u16, 0u16, 0u16, 0u16, 0u16, 0u16, 0u16, 0u16];
    assert(b[0] == 0 && b[7] == 0);
}

/// Any address that passes the check is loopback, private, link-local or in
/// the CGNAT range: a publicly routable IPv4 address never passes.
pub proof fn lemma_accepted_v4_is_not_public(o: [u8; 4])
    requires
        safe_bind(IpAddr::V4(o)),
    ensures
        o[0] == 127 || o[0] == 10 || (o[0] == 172 && 16 <= o[1] <= 31) || (o[0] == 192 && o[1]
            == 168) || (o[0] == 169 && o[1] == 254) || (o[0] == 100 && 64 <= o[1] < 128),
{
}

} // verus!

//! Well-known locations of the daemon's data, binaries and endpoints.
use vstd::prelude::*;

verus! {

pub const DATA_DIR: &'static str = "/var/lib/localdomain";

pub const CERTS_DIR: &'static str = "/var/lib/localdomain/certs";

pub const CADDY_DIR: &'static str = "/var/lib/localdomain/caddy";

pub const LOGS_DIR: &'static str = "/var/lib/localdomain/logs";

pub const CADDY_BINARY: &'static str = "/usr/local/bin/caddy";

pub const CA_CERT: &'static str = "/var/lib/localdomain/certs/localdomain-ca.crt";

pub const CA_KEY: &'static str = "/var/lib/localdomain/certs/localdomain-ca.key";

pub const CADDYFILE: &'static str = "/var/lib/localdomain/caddy/Caddyfile";

pub const CADDY_PID: &'static str = "/var/lib/localdomain/caddy/caddy.pid";

pub const HOSTS_FILE: &'static str = "/etc/hosts";

pub const SOCKET_PATH: &'static str = "/var/run/localdomain.sock";

pub const CLOUDFLARED_BINARY: &'static str = "/usr/local/bin/cloudflared";

pub const TUNNEL_DIR: &'static str = "/var/lib/localdomain/tunnels";

/// `<dir>/<file>`.
pub open spec fn join_path(dir: Seq<char>, file: Seq<char>) -> Seq<char> {
    dir + "/"@ + file
}

/// The access log that the proxy writes for `domain`.
pub open spec fn access_log_path(domain: Seq<char>) -> Seq<char> {
    join_path(LOGS_DIR@, domain + ".access.log"@)
}

/// Path of the access log of `domain`.
pub fn log_path(domain: &str) -> (r: String)
    ensures
        r@ == access_log_path(domain@),
{
    let mut p = String::from_str(LOGS_DIR);
    p.append("/");
    p.append(domain);
    p.append(".access.log");
    assert(p@ =~= access_log_path(domain@));
    p
}

} // verus!

//! Layout of a XAMPP installation and the ports its Apache listens on.
use vstd::prelude::*;

use crate::httpd_conf::{listen_port_of_lines, parse_listen_port};
use crate::text::lines;

verus! {

pub open spec fn under(root: Seq<char>, rel: Seq<char>) -> Seq<char> {
    root + rel
}

fn path_under(root: &str, rel: &str) -> (r: String)
    ensures
        r@ == under(root@, rel@),
{
    let mut p = String::from_str(root);
    p.append(rel);
    p
}

/// `<xampp>/etc/extra/httpd-vhosts.conf`.
pub fn vhosts_conf_path(xampp_path: &str) -> (r: String)
    ensures
        r@ == under(xampp_path@, "/etc/extra/httpd-vhosts.conf"@),
{
    path_under(xampp_path, "/etc/extra/httpd-vhosts.conf")
}

/// `<xampp>/etc/httpd.conf`.
pub fn httpd_conf_path(xampp_path: &str) -> (r: String)
    ensures
        r@ == under(xampp_path@, "/etc/httpd.conf"@),
{
    path_under(xampp_path, "/etc/httpd.conf")
}

/// `<xampp>/etc/extra/httpd-ssl.conf`.
pub fn httpd_ssl_conf_path(xampp_path: &str) -> (r: String)
    ensures
        r@ == under(xampp_path@, "/etc/extra/httpd-ssl.conf"@),
{
    path_under(xampp_path, "/etc/extra/httpd-ssl.conf")
}

/// `<xampp>/bin/httpd`.
pub fn get_httpd_binary(xampp_path: &str) -> (r: String)
    ensures
        r@ == under(xampp_path@, "/bin/httpd"@),
{
    path_under(xampp_path, "/bin/httpd")
}

/// The places where an installation is looked for, in order.
pub fn get_platform_candidates() -> (r: Vec<String>)
    ensures
        r@.len() == 2,
        r@[0]@ == "/opt/lampp"@,
        r@[1]@ == "/Applications/XAMPP/xamppfiles"@,
{
    let mut v: Vec<String> = Vec::new();
    v.push(String::from_str("/opt/lampp"));
    v.push(String::from_str("/Applications/XAMPP/xamppfiles"));
    v
}

/// The port a configuration text declares, or `default` when the text is
/// missing or declares none.
pub open spec fn declared_port(conf: Option<Seq<char>>, default: u16) -> u16 {
    match conf {
        Some(c) => match listen_port_of_lines(lines(c)) {
            Some(p) => p,
            None => default,
        },
        None => default,
    }
}

pub open spec fn opt_view(s: Option<&str>) -> Option<Seq<char>> {
    match s {
        Some(x) => Some(x@),
        None => None,
    }
}

fn port_or(conf: Option<&str>, default: u16) -> (r: u16)
    ensures
        r == declared_port(opt_view(conf), default),
{
    match conf {
        Some(c) => match parse_listen_port(c) {
            Some(p) => p,
            None => default,
        },
        None => default,
    }
}

/// The HTTP and HTTPS ports of an installation, from the texts of its
/// `httpd.conf` and `httpd-ssl.conf` (`None` when a file cannot be read):
/// the first `Listen` port of each, else 80 and 443.
pub fn get_xampp_ports(httpd_conf: Option<&str>, ssl_conf: Option<&str>) -> (r: (u16, u16))
    ensures
        r.0 == declared_port(opt_view(httpd_conf), 80),
        r.1 == declared_port(opt_view(ssl_conf), 443),
{
    (port_or(httpd_conf, 80), port_or(ssl_conf, 443))
}

} // verus!

//! Domain-level data: protocols, the per-domain configurations that the
//! generators consume, and input validation.
use vstd::prelude::*;

use crate::text::{chars_of, lemma_next_char_bounds, next_char, str_eq, find_char};

verus! {

/// Which listeners a domain is served on.
#[derive(Debug, Clone, Copy, PartialEq, Eq, Structural)]
pub enum Protocol {
    Http,
    Https,
    Both,
}

/// The lower-case name of a protocol.
pub open spec fn protocol_name(p: Protocol) -> Seq<char> {
    match p {
        Protocol::Http => "http"@,
        Protocol::Https => "https"@,
        Protocol::Both => "both"@,
    }
}

/// Whether a protocol name selects an HTTPS listener.
pub open spec fn wants_https(p: Seq<char>) -> bool {
    p == "https"@ || p == "both"@
}

/// Whether a protocol name selects a plain HTTP listener.
pub open spec fn wants_http(p: Seq<char>) -> bool {
    p == "http"@ || p == "both"@
}

impl Protocol {
    pub fn as_str(&self) -> (r: &'static str)
        ensures
            r@ == protocol_name(*self),
    {
        match self {
            Protocol::Http => "http",
            Protocol::Https => "https",
            Protocol::Both => "both",
        }
    }

    pub fn from_str(s: &str) -> (r: Option<Protocol>)
        ensures
            r == (if s@ == "http"@ {
                Some(Protocol::Http)
            } else if s@ == "https"@ {
                Some(Protocol::Https)
            } else if s@ == "both"@ {
                Some(Protocol::Both)
            } else {
                None::<Protocol>
            }),
    {
        if str_eq(s, "http") {
            Some(Protocol::Http)
        } else if str_eq(s, "https") {
            Some(Protocol::Https)
        } else if str_eq(s, "both") {
            Some(Protocol::Both)
        } else {
            None
        }
    }
}

/// Whether the protocol name `p` selects HTTPS (`"https"` or `"both"`).
pub fn protocol_wants_https(p: &str) -> (r: bool)
    ensures
        r == wants_https(p@),
{
    str_eq(p, "https") || str_eq(p, "both")
}

/// Whether the protocol name `p` selects plain HTTP (`"http"` or `"both"`).
pub fn protocol_wants_http(p: &str) -> (r: bool)
    ensures
        r == wants_http(p@),
{
    str_eq(p, "http") || str_eq(p, "both")
}

/// A domain as the desktop client stores it.
#[derive(Debug, Clone)]
pub struct DomainConfig {
    pub id: String,
    pub name: String,
    pub target_host: String,
    pub target_port: u16,
    pub protocol: Protocol,
    pub wildcard: bool,
    pub enabled: bool,
}

/// One line of the managed hosts block.
#[derive(Debug, Clone)]
pub struct HostsEntry {
    pub domain: String,
    pub ip: String,
}

/// A reverse-proxied domain for the Caddyfile generator.
#[derive(Debug, Clone)]
pub struct CaddyDomainConfig {
    pub name: String,
    pub target_host: String,
    pub target_port: u16,
    /// "http", "https", or "both"
    pub protocol: String,
    pub cert_path: Option<String>,
    pub key_path: Option<String>,
    pub access_log: bool,
}

/// An Apache virtual host for the vhosts generator.
#[derive(Debug, Clone)]
pub struct XamppVhostConfig {
    pub name: String,
    pub document_root: String,
    /// "http", "https", or "both"
    pub protocol: String,
    pub cert_path: Option<String>,
    pub key_path: Option<String>,
}

pub open spec fn is_ascii_alpha(c: char) -> bool {
    ('a' <= c && c <= 'z') || ('A' <= c && c <= 'Z')
}

pub open spec fn is_ascii_alnum(c: char) -> bool {
    is_ascii_alpha(c) || ('0' <= c && c <= '9')
}

/// A DNS label: letters, digits and hyphens, starting and ending with a
/// letter or digit.
pub open spec fn is_label(l: Seq<char>) -> bool {
    &&& l.len() >= 1
    &&& is_ascii_alnum(l[0])
    &&& is_ascii_alnum(l.last())
    &&& forall|k: int| 0 <= k < l.len() ==> is_ascii_alnum(#[trigger] l[k]) || l[k] == '-'
}

/// A top-level label: two or more letters.
pub open spec fn is_tld(t: Seq<char>) -> bool {
    t.len() >= 2 && forall|k: int| 0 <= k < t.len() ==> is_ascii_alpha(#[trigger] t[k])
}

/// `s[i..]` is one or more labels, each followed by a dot, then a top-level label.
pub open spec fn domain_from(s: Seq<char>, i: int) -> bool
    decreases s.len() - i,
{
    let e = next_char(s, i, '.');
    if i < 0 || e < i || e >= s.len() {
        false
    } else {
        is_label(s.subrange(i, e)) && (is_tld(s.subrange(e + 1, s.len() as int)) || domain_from(
            s,
            e + 1,
        ))
    }
}

/// Domain syntax: labels separated by dots, at least two of them, the last
/// made of two or more letters (`project.test`, `sub.domain.test`).
pub open spec fn valid_domain_syntax(s: Seq<char>) -> bool {
    domain_from(s, 0)
}

fn is_ascii_alpha_char(c: char) -> (r: bool)
    ensures
        r == is_ascii_alpha(c),
{
    ('a' <= c && c <= 'z') || ('A' <= c && c <= 'Z')
}

fn is_ascii_alnum_char(c: char) -> (r: bool)
    ensures
        r == is_ascii_alnum(c),
{
    is_ascii_alpha_char(c) || ('0' <= c && c <= '9')
}

fn label_ok(v: &Vec<char>, a: usize, b: usize) -> (r: bool)
    requires
        a <= b <= v.len(),
    ensures
        r == is_label(v@.subrange(a as int, b as int)),
{
    let ghost l = v@.subrange(a as int, b as int);
    if a == b || !is_ascii_alnum_char(v[a]) || !is_ascii_alnum_char(v[b - 1]) {
        return false;
    }
    let mut k = a;
    while k < b
        invariant
            a <= k <= b <= v.len(),
            l == v@.subrange(a as int, b as int),
            forall|m: int| 0 <= m < k - a ==> is_ascii_alnum(#[trigger] l[m]) || l[m] == '-',
        decreases b - k,
    {
        if !is_ascii_alnum_char(v[k]) && v[k] != '-' {
            assert(l[k - a] == v@[k as int]);
            return false;
        }
        k = k + 1;
    }
    true
}

fn tld_ok(v: &Vec<char>, a: usize, b: usize) -> (r: bool)
    requires
        a <= b <= v.len(),
    ensures
        r == is_tld(v@.subrange(a as int, b as int)),
{
    let ghost t = v@.subrange(a as int, b as int);
    if b - a < 2 {
        return false;
    }
    let mut k = a;
    while k < b
        invariant
            a <= k <= b <= v.len(),
            t == v@.subrange(a as int, b as int),
            forall|m: int| 0 <= m < k - a ==> is_ascii_alpha(#[trigger] t[m]),
        decreases b - k,
    {
        if !is_ascii_alpha_char(v[k]) {
            assert(t[k - a] == v@[k as int]);
            return false;
        }
        k = k + 1;
    }
    true
}

/// Whether `name` has domain syntax (see `valid_domain_syntax`).
pub fn is_valid_domain_syntax(name: &str) -> (r: bool)
    ensures
        r == valid_domain_syntax(name@),
{
    let v = chars_of(name);
    let mut i: usize = 0;
    while i <= v.len()
        invariant
            i <= v.len(),
            v@ == name@,
            domain_from(v@, 0) == domain_from(v@, i as int),
        decreases v.len() - i,
    {
        let e = find_char(&v, i, '.');
        proof {
            lemma_next_char_bounds(v@, i as int, '.');
        }
        if e >= v.len() {
            return false;
        }
        if !label_ok(&v, i, e) {
            return false;
        }
        if tld_ok(&v, e + 1, v.len()) {
            return true;
        }
        i = e + 1;
    }
    false
}

pub open spec fn empty_domain_msg() -> Seq<char> {
    "Domain name cannot be empty"@
}

pub open spec fn long_domain_msg() -> Seq<char> {
    "Domain name too long (max 253 characters)"@
}

pub open spec fn bad_domain_msg(name: Seq<char>) -> Seq<char> {
    "Invalid domain name '"@ + name + "'. Use format like 'project.test'"@
}

/// Accepts a non-empty name of at most 253 bytes with domain syntax.
pub fn validate_domain_name(name: &str) -> (r: Result<(), String>)
    ensures
        r is Ok <==> name@.len() > 0 && name.len() <= 253 && valid_domain_syntax(name@),
        r matches Err(m) ==> m@ == (if name@.len() == 0 {
            empty_domain_msg()
        } else if name.len() > 253 {
            long_domain_msg()
        } else {
            bad_domain_msg(name@)
        }),
{
    if name.is_empty() {
        return Err(String::from_str("Domain name cannot be empty"));
    }
    if name.len() > 253 {
        return Err(String::from_str("Domain name too long (max 253 characters)"));
    }
    if !is_valid_domain_syntax(name) {
        let mut m = String::from_str("Invalid domain name '");
        m.append(name);
        m.append("'. Use format like 'project.test'");
        return Err(m);
    }
    Ok(())
}

/// Rejects port 0.
pub fn validate_port(port: u16) -> (r: Result<(), String>)
    ensures
        r is Ok <==> port != 0,
        r matches Err(m) ==> m@ == "Port cannot be 0"@,
{
    if port == 0 {
        return Err(String::from_str("Port cannot be 0"));
    }
    Ok(())
}

/// A path is absolute when it starts at the root directory.
pub open spec fn is_absolute_path(p: Seq<char>) -> bool {
    p.len() > 0 && p[0] == '/'
}

/// Accepts a non-empty absolute path.
pub fn validate_document_root(path: &str) -> (r: Result<(), String>)
    ensures
        r is Ok <==> path@.len() > 0 && is_absolute_path(path@),
        r matches Err(m) ==> m@ == (if path@.len() == 0 {
            "Document root cannot be empty"@
        } else {
            "Document root must be an absolute path"@
        }),
{
    if path.is_empty() {
        return Err(String::from_str("Document root cannot be empty"));
    }
    let v = chars_of(path);
    if v[0] != '/' {
        return Err(String::from_str("Document root must be an absolute path"));
    }
    Ok(())
}

} // verus!

//! Public tunnels: the command lines of the tunnel agents, their files, and
//! the discovery of the public URL in an agent's log.
use vstd::prelude::*;

use crate::paths::TUNNEL_DIR;
use crate::text::{
    chars_of, contains, decimal, is_ws, is_ws_char, line_ranges, lines, occurs_at, push_decimal,
    range_contains, range_eq, ranges_view, ranges_within,
};

verus! {

/// The domain with each `'.'` replaced by `'_'`, for file names.
pub open spec fn sanitized(d: Seq<char>) -> Seq<char> {
    Seq::new(d.len(), |k: int| if d[k] == '.' { '_' } else { d[k] })
}

fn char_str(c: char) -> (r: &'static str)
    requires
        c == '_' || c == '.',
    ensures
        r@ == seq![c],
{
    proof {
        reveal_strlit("_");
        reveal_strlit(".");
    }
    if c == '_' {
        "_"
    } else {
        "."
    }
}

/// `domain.replace('.', "_")`.
pub fn sanitize_domain(domain: &str) -> (r: String)
    ensures
        r@ == sanitized(domain@),
{
    let v = chars_of(domain);
    let mut out = String::new();
    let mut start: usize = 0;
    let mut i: usize = 0;
    while i < v.len()
        invariant
            start <= i <= v.len(),
            v@ == domain@,
            out@ + v@.subrange(start as int, i as int) == sanitized(v@).take(i as int),
            forall|k: int| start <= k < i ==> v@[k] != '.',
        decreases v.len() - i,
    {
        if v[i] == '.' {
            let ghost pre = out@ + v@.subrange(start as int, i as int);
            out.append(domain.substring_char(start, i));
            out.append(char_str('_'));
            assert(out@ =~= pre + seq!['_']);
            assert(sanitized(v@).take(i + 1) =~= sanitized(v@).take(i as int) + seq!['_']);
            start = i + 1;
            assert(v@.subrange(start as int, i + 1) =~= Seq::<char>::empty());
            assert(out@ + v@.subrange(start as int, i + 1) =~= out@);
        } else {
            assert(sanitized(v@).take(i + 1) =~= sanitized(v@).take(i as int) + seq![v@[i as int]]);
            assert(out@ + v@.subrange(start as int, i + 1) =~= out@ + v@.subrange(start as int, i as int) + seq![v@[i as int]]);
        }
        i = i + 1;
    }
    out.append(domain.substring_char(start, v.len()));
    assert(sanitized(v@).take(v@.len() as int) =~= sanitized(v@));
    out
}

/// `<tunnels>/<sanitized domain><suffix>`.
pub open spec fn tunnel_file(domain: Seq<char>, suffix: Seq<char>) -> Seq<char> {
    TUNNEL_DIR@ + "/"@ + sanitized(domain) + suffix
}

pub fn tunnel_file_path(domain: &str, suffix: &str) -> (r: String)
    ensures
        r@ == tunnel_file(domain@, suffix@),
{
    let mut p = String::from_str(TUNNEL_DIR);
    p.append("/");
    let s = sanitize_domain(domain);
    p.append(s.as_str());
    p.append(suffix);
    p
}

/// The log of a quick tunnel: `<tunnels>/<domain with _>.log`.
pub fn quick_log_path(domain: &str) -> (r: String)
    ensures
        r@ == tunnel_file(domain@, ".log"@),
{
    tunnel_file_path(domain, ".log")
}

/// The log of a named tunnel: `<tunnels>/<domain with _>_named.log`.
pub fn named_log_path(domain: &str) -> (r: String)
    ensures
        r@ == tunnel_file(domain@, "_named.log"@),
{
    tunnel_file_path(domain, "_named.log")
}

/// The ingress configuration of a named tunnel: `<tunnels>/<domain with _>_config.yml`.
pub fn named_config_path(domain: &str) -> (r: String)
    ensures
        r@ == tunnel_file(domain@, "_config.yml"@),
{
    tunnel_file_path(domain, "_config.yml")
}

/// The credentials file of a named tunnel: `<tunnels>/<uuid>.json`.
pub fn credentials_path(tunnel_uuid: &str) -> (r: String)
    ensures
        r@ == TUNNEL_DIR@ + "/"@ + tunnel_uuid@ + ".json"@,
{
    let mut p = String::from_str(TUNNEL_DIR);
    p.append("/");
    p.append(tunnel_uuid);
    p.append(".json");
    p
}

/// `http://<domain>:<port>`.
pub open spec fn origin_url(domain: Seq<char>, port: u16) -> Seq<char> {
    "http://"@ + domain + ":"@ + decimal(port as nat)
}

pub fn build_origin_url(domain: &str, port: u16) -> (r: String)
    ensures
        r@ == origin_url(domain@, port),
{
    let mut u = String::from_str("http://");
    u.append(domain);
    u.append(":");
    push_decimal(&mut u, port as u64);
    u
}

pub open spec fn strings_view(v: Seq<String>) -> Seq<Seq<char>> {
    Seq::new(v.len(), |k: int| v[k]@)
}

/// Arguments of the agent for a quick tunnel to `domain` on `local_port`.
pub fn quick_tunnel_args(domain: &str, local_port: u16) -> (r: Vec<String>)
    ensures
        strings_view(r@) == seq![
            "tunnel"@,
            "--url"@,
            origin_url(domain@, local_port),
            "--http-host-header"@,
            domain@,
        ],
{
    let mut a: Vec<String> = Vec::new();
    a.push(String::from_str("tunnel"));
    a.push(String::from_str("--url"));
    a.push(build_origin_url(domain, local_port));
    a.push(String::from_str("--http-host-header"));
    a.push(String::from_str(domain));
    assert(strings_view(a@) =~= seq![
        "tunnel"@,
        "--url"@,
        origin_url(domain@, local_port),
        "--http-host-header"@,
        domain@,
    ]);
    a
}

/// `<subdomain>.<apex>` when both are given, else empty.
pub open spec fn named_hostname(subdomain: Seq<char>, apex: Seq<char>) -> Seq<char> {
    if subdomain.len() > 0 && apex.len() > 0 {
        subdomain + "."@ + apex
    } else {
        seq![]
    }
}

pub fn build_named_hostname(subdomain: &str, apex: &str) -> (r: String)
    ensures
        r@ == named_hostname(subdomain@, apex@),
{
    if !subdomain.is_empty() && !apex.is_empty() {
        let mut h = String::from_str(subdomain);
        h.append(".");
        h.append(apex);
        h
    } else {
        String::new()
    }
}

/// The public URL assumed for a named tunnel whose log names none.
pub open spec fn named_fallback_url(subdomain: Seq<char>, apex: Seq<char>) -> Seq<char> {
    if subdomain.len() > 0 && apex.len() > 0 {
        "https://"@ + subdomain + "."@ + apex
    } else {
        "https://tunnel-connecting..."@
    }
}

pub fn named_fallback(subdomain: &str, apex: &str) -> (r: String)
    ensures
        r@ == named_fallback_url(subdomain@, apex@),
{
    if !subdomain.is_empty() && !apex.is_empty() {
        let mut u = String::from_str("https://");
        u.append(subdomain);
        u.append(".");
        u.append(apex);
        u
    } else {
        String::from_str("https://tunnel-connecting...")
    }
}

/// The ingress configuration of a named tunnel run from a local config file:
/// the hostname is routed to the domain's local origin with its Host header
/// kept, everything else answers 404.
pub open spec fn named_config(
    tunnel_uuid: Seq<char>,
    creds_path: Seq<char>,
    hostname: Seq<char>,
    domain: Seq<char>,
    local_port: u16,
) -> Seq<char> {
    "tunnel: "@ + tunnel_uuid + "\ncredentials-file: "@ + creds_path
        + "\ningress:\n  - hostname: "@ + hostname + "\n    service: http://"@ + domain + ":"@
        + decimal(local_port as nat) + "\n    originRequest:\n      httpHostHeader: "@ + domain
        + "\n  - service: http_status:404\n"@
}

pub fn build_named_config(
    tunnel_uuid: &str,
    creds_path: &str,
    hostname: &str,
    domain: &str,
    local_port: u16,
) -> (r: String)
    ensures
        r@ == named_config(tunnel_uuid@, creds_path@, hostname@, domain@, local_port),
{
    let mut c = String::from_str("tunnel: ");
    c.append(tunnel_uuid);
    c.append("\ncredentials-file: ");
    c.append(creds_path);
    c.append("\ningress:\n  - hostname: ");
    c.append(hostname);
    c.append("\n    service: http://");
    c.append(domain);
    c.append(":");
    push_decimal(&mut c, local_port as u64);
    c.append("\n    originRequest:\n      httpHostHeader: ");
    c.append(domain);
    c.append("\n  - service: http_status:404\n");
    c
}

/// Arguments of the agent for a named tunnel: from the config file when
/// one is written, else by token.
pub fn named_tunnel_args(config_path: Option<&str>, tunnel_uuid: &str, token: &str) -> (r: Vec<
    String,
>)
    ensures
        strings_view(r@) == (match config_path {
            Some(p) => seq!["tunnel"@, "--config"@, p@, "run"@, tunnel_uuid@],
            None => seq!["tunnel"@, "run"@, "--token"@, token@],
        }),
{
    let mut a: Vec<String> = Vec::new();
    a.push(String::from_str("tunnel"));
    match config_path {
        Some(p) => {
            a.push(String::from_str("--config"));
            a.push(String::from_str(p));
            a.push(String::from_str("run"));
            a.push(String::from_str(tunnel_uuid));
            assert(strings_view(a@) =~= seq!["tunnel"@, "--config"@, p@, "run"@, tunnel_uuid@]);
        },
        None => {
            a.push(String::from_str("run"));
            a.push(String::from_str("--token"));
            a.push(String::from_str(token));
            assert(strings_view(a@) =~= seq!["tunnel"@, "run"@, "--token"@, token@]);
        },
    }
    a
}

/// Arguments of `ssh` for a reverse tunnel from `remote_port` on the server
/// to `local_port` here.
pub open spec fn ssh_args_view(
    local_port: u16,
    host: Seq<char>,
    port: u16,
    user: Seq<char>,
    key: Seq<char>,
    remote_port: u16,
) -> Seq<Seq<char>> {
    seq![
        "-N"@,
        "-o"@,
        "StrictHostKeyChecking=no"@,
        "-o"@,
        "ExitOnForwardFailure=yes"@,
        "-p"@,
        decimal(port as nat),
        "-R"@,
        decimal(remote_port as nat) + ":localhost:"@ + decimal(local_port as nat),
    ] + (if key.len() > 0 {
        seq!["-i"@, key]
    } else {
        seq![]
    }) + seq![user + "@"@ + host]
}

pub fn ssh_tunnel_args(
    local_port: u16,
    host: &str,
    port: u16,
    user: &str,
    key: &str,
    remote_port: u16,
) -> (r: Vec<String>)
    ensures
        strings_view(r@) == ssh_args_view(local_port, host@, port, user@, key@, remote_port),
{
    let mut a: Vec<String> = Vec::new();
    a.push(String::from_str("-N"));
    a.push(String::from_str("-o"));
    a.push(String::from_str("StrictHostKeyChecking=no"));
    a.push(String::from_str("-o"));
    a.push(String::from_str("ExitOnForwardFailure=yes"));
    a.push(String::from_str("-p"));
    let mut p = String::new();
    push_decimal(&mut p, port as u64);
    a.push(p);
    a.push(String::from_str("-R"));
    let mut fwd = String::new();
    push_decimal(&mut fwd, remote_port as u64);
    fwd.append(":localhost:");
    push_decimal(&mut fwd, local_port as u64);
    a.push(fwd);
    if !key.is_empty() {
        a.push(String::from_str("-i"));
        a.push(String::from_str(key));
    }
    let mut target = String::from_str(user);
    target.append("@");
    target.append(host);
    a.push(target);
    assert(strings_view(a@) =~= ssh_args_view(local_port, host@, port, user@, key@, remote_port));
    a
}

/// The public URL of an SSH reverse tunnel: `http://<host>:<remote_port>`.
pub fn ssh_public_url(host: &str, remote_port: u16) -> (r: String)
    ensures
        r@ == "http://"@ + host@ + ":"@ + decimal(remote_port as nat),
{
    let mut u = String::from_str("http://");
    u.append(host);
    u.append(":");
    push_decimal(&mut u, remote_port as u64);
    u
}


/// The first position at or after `i` where `t` occurs in `s`, or -1.
pub open spec fn first_occurrence_from(s: Seq<char>, t: Seq<char>, i: int) -> int
    decreases s.len() - i,
{
    if i < 0 || i >= s.len() || i + t.len() > s.len() {
        -1
    } else if occurs_at(s, t, i) {
        i
    } else {
        first_occurrence_from(s, t, i + 1)
    }
}

/// A character that ends a URL in a log line.
pub open spec fn url_stop(c: char) -> bool {
    is_ws(c) || c == '"' || c == '\''
}

/// The first position at or after `i` holding a URL-ending character, or `s.len()`.
pub open spec fn url_end_from(s: Seq<char>, i: int) -> int
    decreases s.len() - i,
{
    if i < 0 || i >= s.len() {
        s.len() as int
    } else if url_stop(s[i]) {
        i
    } else {
        url_end_from(s, i + 1)
    }
}

/// The URL that starts at the first `https://` of a line, up to the first
/// whitespace or quote.
pub open spec fn line_url(l: Seq<char>) -> Option<Seq<char>> {
    let p = first_occurrence_from(l, "https://"@, 0);
    if p < 0 {
        None
    } else {
        Some(l.subrange(p, url_end_from(l, p)))
    }
}

/// A quick tunnel's URL is on `trycloudflare.com`; a named tunnel's is on
/// neither that nor the agent's own `argotunnel.com`, and has a host.
pub open spec fn accepts_url(u: Seq<char>, named: bool) -> bool {
    if named {
        !contains(u, "trycloudflare.com"@) && !contains(u, "argotunnel.com"@) && u.len() > 11
    } else {
        contains(u, "trycloudflare.com"@)
    }
}

/// The first accepted URL of the lines.
pub open spec fn first_url(ls: Seq<Seq<char>>, named: bool) -> Option<Seq<char>>
    decreases ls.len(),
{
    if ls.len() == 0 {
        None
    } else if line_url(ls[0]) is Some && accepts_url(line_url(ls[0])->0, named) {
        line_url(ls[0])
    } else {
        first_url(ls.drop_first(), named)
    }
}

/// The first occurrence of `t` in `v[x..y]`, as an absolute index, or `y`.
fn find_in_range(v: &Vec<char>, x: usize, y: usize, t: &Vec<char>) -> (r: usize)
    requires
        x <= y <= v.len(),
        t.len() > 0,
    ensures
        x <= r <= y,
        r == y ==> first_occurrence_from(v@.subrange(x as int, y as int), t@, 0) == -1,
        r < y ==> first_occurrence_from(v@.subrange(x as int, y as int), t@, 0) == r - x,
{
    let ghost s = v@.subrange(x as int, y as int);
    if t.len() > y - x {
        return y;
    }
    let mut i = x;
    while i <= y - t.len()
        invariant
            x <= i <= y - t.len() + 1,
            t.len() <= y - x,
            t.len() > 0,
            y <= v.len(),
            s == v@.subrange(x as int, y as int),
            first_occurrence_from(s, t@, 0) == first_occurrence_from(s, t@, i - x),
        decreases y - i,
    {
        let hit = range_eq(v, i, i + t.len(), t);
        assert(s.subrange(i - x, i - x + t.len()) =~= v@.subrange(i as int, i + t.len()));
        if hit {
            return i;
        }
        i = i + 1;
    }
    y
}

/// The URL of the line `v[x..y]`, as absolute bounds.
fn line_url_range(v: &Vec<char>, x: usize, y: usize, https: &Vec<char>) -> (r: Option<(usize, usize)>)
    requires
        x <= y <= v.len(),
        https@ == "https://"@,
        https@.len() == 8,
    ensures
        match r {
            Some((a, b)) => x <= a <= b <= y && line_url(v@.subrange(x as int, y as int)) == Some(
                v@.subrange(a as int, b as int),
            ),
            None => line_url(v@.subrange(x as int, y as int)) is None,
        },
{
    let ghost s = v@.subrange(x as int, y as int);
    let p = find_in_range(v, x, y, https);
    if p == y {
        return None;
    }
    let mut e = p;
    while e < y && !(is_ws_char(v[e]) || v[e] == '"' || v[e] == '\'')
        invariant
            x <= p <= e <= y <= v.len(),
            s == v@.subrange(x as int, y as int),
            url_end_from(s, p - x) == url_end_from(s, e - x),
        decreases y - e,
    {
        e = e + 1;
    }
    assert(s.subrange(p - x, e - x) =~= v@.subrange(p as int, e as int));
    Some((p, e))
}

/// The first accepted URL in an agent's log (see `accepts_url`).
pub fn find_public_url(log: &str, named: bool) -> (r: Option<String>)
    ensures
        match r {
            Some(u) => first_url(lines(log@), named) == Some(u@),
            None => first_url(lines(log@), named) is None,
        },
{
    let v = chars_of(log);
    let https = chars_of("https://");
    let quick = chars_of("trycloudflare.com");
    let internal = chars_of("argotunnel.com");
    proof {
        reveal_strlit("https://");
    }
    let rs = line_ranges(&v);
    let ghost ls = lines(log@);
    assert(ls.skip(0) =~= ls);
    let mut k: usize = 0;
    while k < rs.len()
        invariant
            k <= rs.len(),
            v@ == log@,
            https@ == "https://"@,
            https@.len() == 8,
            quick@ == "trycloudflare.com"@,
            internal@ == "argotunnel.com"@,
            ranges_within(rs@, v@.len()),
            ranges_view(v@, rs@) == ls,
            ls == lines(log@),
            first_url(ls, named) == first_url(ls.skip(k as int), named),
        decreases rs.len() - k,
    {
        let (x, y) = rs[k];
        assert(rs@[k as int].0 <= rs@[k as int].1 <= v@.len());
        let ghost l = ls[k as int];
        assert(l == v@.subrange(x as int, y as int));
        assert(ls.skip(k as int)[0] == l);
        assert(ls.skip(k as int).drop_first() =~= ls.skip(k + 1));
        match line_url_range(&v, x, y, &https) {
            Some((a, b)) => {
                let ok = if named {
                    !range_contains(&v, a, b, &quick) && !range_contains(&v, a, b, &internal)
                        && b - a > 11
                } else {
                    range_contains(&v, a, b, &quick)
                };
                if ok {
                    return Some(String::from_str(log.substring_char(a, b)));
                }
            },
            None => {},
        }
        k = k + 1;
    }
    None
}

/// The public URL in a quick tunnel's log, if it is there yet.
pub fn find_quick_tunnel_url(log: &str) -> (r: Option<String>)
    ensures
        match r {
            Some(u) => first_url(lines(log@), false) == Some(u@),
            None => first_url(lines(log@), false) is None,
        },
{
    find_public_url(log, false)
}

/// The public URL in a named tunnel's log, if it is there yet.
pub fn find_named_tunnel_url(log: &str) -> (r: Option<String>)
    ensures
        match r {
            Some(u) => first_url(lines(log@), true) == Some(u@),
            None => first_url(lines(log@), true) is None,
        },
{
    find_public_url(log, true)
}


/// Where the tunnel agent is downloaded from, per platform.
pub fn cloudflared_download_url(macos: bool, aarch64: bool) -> (r: &'static str)
    ensures
        r@ == (if macos {
            if aarch64 {
                "https://github.com/cloudflare/cloudflared/releases/latest/download/cloudflared-darwin-arm64.tgz"@
            } else {
                "https://github.com/cloudflare/cloudflared/releases/latest/download/cloudflared-darwin-amd64.tgz"@
            }
        } else if aarch64 {
            "https://github.com/cloudflare/cloudflared/releases/latest/download/cloudflared-linux-arm64"@
        } else {
            "https://github.com/cloudflare/cloudflared/releases/latest/download/cloudflared-linux-amd64"@
        }),
{
    if macos {
        if aarch64 {
            "https://github.com/cloudflare/cloudflared/releases/latest/download/cloudflared-darwin-arm64.tgz"
        } else {
            "https://github.com/cloudflare/cloudflared/releases/latest/download/cloudflared-darwin-amd64.tgz"
        }
    } else if aarch64 {
        "https://github.com/cloudflare/cloudflared/releases/latest/download/cloudflared-linux-arm64"
    } else {
        "https://github.com/cloudflare/cloudflared/releases/latest/download/cloudflared-linux-amd64"
    }
}

/// The first position at or after `i` that is not whitespace, or `s.len()`.
pub open spec fn skip_ws(s: Seq<char>, i: int) -> int
    decreases s.len() - i,
{
    if i < 0 || i >= s.len() {
        s.len() as int
    } else if !is_ws(s[i]) {
        i
    } else {
        skip_ws(s, i + 1)
    }
}

/// The first position at or after `i` that is whitespace, or `s.len()`.
pub open spec fn word_end(s: Seq<char>, i: int) -> int
    decreases s.len() - i,
{
    if i < 0 || i >= s.len() {
        s.len() as int
    } else if is_ws(s[i]) {
        i
    } else {
        word_end(s, i + 1)
    }
}

/// `split_whitespace().nth(n)` of the text from position `i` on.
pub open spec fn nth_word_from(s: Seq<char>, i: int, n: nat) -> Option<Seq<char>>
    decreases n,
{
    let a = skip_ws(s, i);
    if a >= s.len() {
        None
    } else if n == 0 {
        Some(s.subrange(a, word_end(s, a)))
    } else {
        nth_word_from(s, word_end(s, a), (n - 1) as nat)
    }
}

/// The version in the agent's `--version` output
/// (`cloudflared version 2024.1.5 (built ...)`): its third word.
pub fn parse_cloudflared_version(out: &str) -> (r: Option<String>)
    ensures
        match r {
            Some(v) => nth_word_from(out@, 0, 2) == Some(v@),
            None => nth_word_from(out@, 0, 2) is None,
        },
{
    let v = chars_of(out);
    let mut i: usize = 0;
    let mut n: usize = 2;
    while n <= 2
        invariant
            i <= v.len(),
            n <= 2,
            v@ == out@,
            nth_word_from(out@, 0, 2) == nth_word_from(out@, i as int, n as nat),
        decreases n,
    {
        let mut a = i;
        while a < v.len() && is_ws_char(v[a])
            invariant
                i <= a <= v.len(),
                skip_ws(v@, i as int) == skip_ws(v@, a as int),
            decreases v.len() - a,
        {
            a = a + 1;
        }
        if a >= v.len() {
            return None;
        }
        let mut b = a;
        while b < v.len() && !is_ws_char(v[b])
            invariant
                a <= b <= v.len(),
                word_end(v@, a as int) == word_end(v@, b as int),
            decreases v.len() - b,
        {
            b = b + 1;
        }
        if n == 0 {
            return Some(String::from_str(out.substring_char(a, b)));
        }
        i = b;
        n = n - 1;
    }
    None
}

/// Reads of an agent's log while waiting for its public URL.
pub const URL_POLLS: u32 = 30;

/// Pause before each read of the log, in milliseconds (15 s in all).
pub const URL_POLL_INTERVAL_MS: u64 = 500;

/// What to do after one read of an agent's log.
#[derive(Debug)]
pub enum UrlPollStep {
    /// The public URL was found.
    Found(String),
    /// Pause and read again.
    Again,
    /// The reads are used up.
    TimedOut,
}

/// Waiting for a tunnel agent to log its public URL.
pub struct UrlPoll {
    pub reads_done: u32,
    pub max_reads: u32,
    /// A named tunnel (else a quick one); decides which URLs are accepted.
    pub named: bool,
}

impl UrlPoll {
    pub fn new(named: bool) -> (r: Self)
        ensures
            r.reads_done == 0,
            r.max_reads == URL_POLLS,
            r.named == named,
    {
        UrlPoll { reads_done: 0, max_reads: URL_POLLS, named }
    }

    /// Records one read of the log (`None` when it could not be read).
    pub fn after_read(&mut self, log: Option<&str>) -> (r: UrlPollStep)
        requires
            old(self).reads_done < old(self).max_reads,
        ensures
            final(self).max_reads == old(self).max_reads,
            final(self).named == old(self).named,
            final(self).reads_done == old(self).reads_done + 1,
            match r {
                UrlPollStep::Found(u) => log matches Some(t) && first_url(lines(t@), old(self).named)
                    == Some(u@),
                UrlPollStep::Again => (log is None || first_url(lines(log->0@), old(self).named) is None)
                    && final(self).reads_done < final(self).max_reads,
                UrlPollStep::TimedOut => (log is None || first_url(lines(log->0@), old(self).named)
                    is None) && final(self).reads_done == final(self).max_reads,
            },
    {
        self.reads_done = self.reads_done + 1;
        match log {
            Some(text) => match find_public_url(text, self.named) {
                Some(u) => return UrlPollStep::Found(u),
                None => {},
            },
            None => {},
        }
        if self.reads_done < self.max_reads {
            UrlPollStep::Again
        } else {
            UrlPollStep::TimedOut
        }
    }
}

/// What follows a wait that found no URL.
#[derive(Debug)]
pub enum TimeoutAction {
    /// Stop the agent and fail the request with this message (quick tunnels).
    StopAndFail(String),
    /// Report this deterministic URL instead (named tunnels).
    Fallback(String),
}

pub fn on_url_timeout(named: bool, subdomain: &str, apex: &str) -> (r: TimeoutAction)
    ensures
        named ==> (r matches TimeoutAction::Fallback(u) && u@ == named_fallback_url(subdomain@, apex@)),
        !named ==> (r matches TimeoutAction::StopAndFail(m)
            && m@ == "Timed out waiting for cloudflared to provide a public URL"@),
{
    if named {
        TimeoutAction::Fallback(named_fallback(subdomain, apex))
    } else {
        TimeoutAction::StopAndFail(String::from_str("Timed out waiting for cloudflared to provide a public URL"))
    }
}

/// A named tunnel runs from a local config file when both the credentials
/// and the tunnel UUID are given, else by token.
pub fn uses_config_file(credentials_json: &str, tunnel_uuid: &str) -> (r: bool)
    ensures
        r == (credentials_json@.len() > 0 && tunnel_uuid@.len() > 0),
{
    !credentials_json.is_empty() && !tunnel_uuid.is_empty()
}

} // verus!

//! Apache (XAMPP) configuration: the managed virtual-host block, the
//! `Listen` port detection and the directive switches in `httpd.conf`.
use vstd::prelude::*;

use crate::domain::{protocol_wants_http, protocol_wants_https, wants_http, wants_https, XamppVhostConfig};
use crate::managed::{
    is_fresh_block, lemma_outside_after_block, no_cr_line_ends, outside_text, sentinels_ok,
    strip_managed_block,
};
use crate::text::{
    decimal, is_plain_line, lemma_lines_append, lemma_lines_cons, lines, push_decimal, trim,
    trim_end, trim_start,
};

verus! {

pub const VHOSTS_SENTINEL_START: &'static str = "# BEGIN LOCALDOMAIN MANAGED VHOSTS";

pub const VHOSTS_SENTINEL_END: &'static str = "# END LOCALDOMAIN MANAGED VHOSTS";

/// `<VirtualHost *:port>` and a line ending.
pub open spec fn vhost_open(port: u16) -> Seq<char> {
    "<VirtualHost *:"@ + decimal(port as nat) + ">\n"@
}

/// The `<Directory>` section granting access to `root`, and the closing tag.
pub open spec fn vhost_directory(root: Seq<char>) -> Seq<char> {
    "    <Directory \""@ + root
        + "\">\n        Options Indexes FollowSymLinks\n        AllowOverride All\n        Require all granted\n    </Directory>\n</VirtualHost>\n\n"@
}

/// The virtual host that keeps `localhost` serving the installation's htdocs.
pub open spec fn localhost_vhost(xampp_path: Seq<char>, http_port: u16) -> Seq<char> {
    vhost_open(http_port) + "    ServerName localhost\n    DocumentRoot \""@ + xampp_path
        + "/htdocs\"\n</VirtualHost>\n\n"@
}

pub open spec fn http_vhost(v: XamppVhostConfig, http_port: u16) -> Seq<char> {
    vhost_open(http_port) + "    ServerName "@ + v.name@ + "\n    DocumentRoot \""@
        + v.document_root@ + "\"\n"@ + vhost_directory(v.document_root@)
}

/// The text of an optional path; empty when absent.
pub open spec fn opt_text(p: Option<String>) -> Seq<char> {
    match p {
        Some(s) => s@,
        None => seq![],
    }
}

pub open spec fn https_vhost(v: XamppVhostConfig, ssl_port: u16) -> Seq<char> {
    vhost_open(ssl_port) + "    ServerName "@ + v.name@ + "\n    DocumentRoot \""@
        + v.document_root@ + "\"\n"@ + "    SSLEngine on\n    SSLCertificateFile \""@
        + opt_text(v.cert_path) + "\"\n    SSLCertificateKeyFile \""@ + opt_text(v.key_path)
        + "\"\n"@ + vhost_directory(v.document_root@)
}

/// The blocks of the virtual hosts, in order: per host HTTP first, then HTTPS.
pub open spec fn vhost_sites(vs: Seq<XamppVhostConfig>, http_port: u16, ssl_port: u16) -> Seq<
    char,
>
    decreases vs.len(),
{
    if vs.len() == 0 {
        seq![]
    } else {
        let v = vs.last();
        vhost_sites(vs.drop_last(), http_port, ssl_port) + (if wants_http(v.protocol@) {
            http_vhost(v, http_port)
        } else {
            seq![]
        }) + (if wants_https(v.protocol@) {
            https_vhost(v, ssl_port)
        } else {
            seq![]
        })
    }
}

/// The managed block with its leading blank line; nothing when there are no hosts.
pub open spec fn vhosts_block(
    vs: Seq<XamppVhostConfig>,
    xampp_path: Seq<char>,
    http_port: u16,
    ssl_port: u16,
) -> Seq<char> {
    if vs.len() == 0 {
        seq![]
    } else {
        "\n"@ + VHOSTS_SENTINEL_START@ + "\n"@ + localhost_vhost(xampp_path, http_port)
            + vhost_sites(vs, http_port, ssl_port) + VHOSTS_SENTINEL_END@ + "\n"@
    }
}

/// The user's part of the file: the text outside the managed block, ended
/// by a line ending unless it is empty.
pub open spec fn vhosts_user_part(current: Seq<char>) -> Seq<char> {
    let o = outside_text(current, VHOSTS_SENTINEL_START@, VHOSTS_SENTINEL_END@);
    if o.len() > 0 {
        o + "\n"@
    } else {
        o
    }
}

/// The new `httpd-vhosts.conf`.
pub open spec fn vhosts_content(
    current: Seq<char>,
    vs: Seq<XamppVhostConfig>,
    xampp_path: Seq<char>,
    http_port: u16,
    ssl_port: u16,
) -> Seq<char> {
    vhosts_user_part(current) + vhosts_block(vs, xampp_path, http_port, ssl_port)
}

fn append_vhost_open(out: &mut String, port: u16)
    ensures
        final(out)@ == old(out)@ + vhost_open(port),
{
    out.append("<VirtualHost *:");
    push_decimal(out, port as u64);
    out.append(">\n");
    assert(final(out)@ =~= old(out)@ + vhost_open(port));
}

fn append_vhost_directory(out: &mut String, root: &str)
    ensures
        final(out)@ == old(out)@ + vhost_directory(root@),
{
    out.append("    <Directory \"");
    out.append(root);
    out.append(
        "\">\n        Options Indexes FollowSymLinks\n        AllowOverride All\n        Require all granted\n    </Directory>\n</VirtualHost>\n\n",
    );
    assert(final(out)@ =~= old(out)@ + vhost_directory(root@));
}

pub fn build_localhost_vhost(xampp_path: &str, http_port: u16) -> (r: String)
    ensures
        r@ == localhost_vhost(xampp_path@, http_port),
{
    let mut out = String::new();
    append_vhost_open(&mut out, http_port);
    out.append("    ServerName localhost\n    DocumentRoot \"");
    out.append(xampp_path);
    out.append("/htdocs\"\n</VirtualHost>\n\n");
    assert(out@ =~= localhost_vhost(xampp_path@, http_port));
    out
}

pub fn build_http_vhost(vhost: &XamppVhostConfig, http_port: u16) -> (r: String)
    ensures
        r@ == http_vhost(*vhost, http_port),
{
    let mut out = String::new();
    append_vhost_open(&mut out, http_port);
    out.append("    ServerName ");
    out.append(vhost.name.as_str());
    out.append("\n    DocumentRoot \"");
    out.append(vhost.document_root.as_str());
    out.append("\"\n");
    append_vhost_directory(&mut out, vhost.document_root.as_str());
    assert(out@ =~= http_vhost(*vhost, http_port));
    out
}

fn append_opt(out: &mut String, p: &Option<String>)
    ensures
        final(out)@ == old(out)@ + opt_text(*p),
{
    match p {
        Some(s) => out.append(s.as_str()),
        None => {
            assert(old(out)@ + opt_text(*p) =~= old(out)@);
        },
    }
}

pub fn build_https_vhost(vhost: &XamppVhostConfig, ssl_port: u16) -> (r: String)
    ensures
        r@ == https_vhost(*vhost, ssl_port),
{
    let mut out = String::new();
    append_vhost_open(&mut out, ssl_port);
    out.append("    ServerName ");
    out.append(vhost.name.as_str());
    out.append("\n    DocumentRoot \"");
    out.append(vhost.document_root.as_str());
    out.append("\"\n");
    out.append("    SSLEngine on\n    SSLCertificateFile \"");
    append_opt(&mut out, &vhost.cert_path);
    out.append("\"\n    SSLCertificateKeyFile \"");
    append_opt(&mut out, &vhost.key_path);
    out.append("\"\n");
    append_vhost_directory(&mut out, vhost.document_root.as_str());
    assert(out@ =~= https_vhost(*vhost, ssl_port));
    out
}

fn append_vhost_sites(out: &mut String, v: &XamppVhostConfig, http_port: u16, ssl_port: u16)
    ensures
        final(out)@ == old(out)@ + (if wants_http(v.protocol@) {
            http_vhost(*v, http_port)
        } else {
            seq![]
        }) + (if wants_https(v.protocol@) {
            https_vhost(*v, ssl_port)
        } else {
            seq![]
        }),
{
    let ghost before = out@;
    if protocol_wants_http(v.protocol.as_str()) {
        let b = build_http_vhost(v, http_port);
        out.append(b.as_str());
    }
    assert(out@ =~= before + (if wants_http(v.protocol@) {
        http_vhost(*v, http_port)
    } else {
        seq![]
    }));
    let ghost mid = out@;
    if protocol_wants_https(v.protocol.as_str()) {
        let b = build_https_vhost(v, ssl_port);
        out.append(b.as_str());
    }
    assert(out@ =~= mid + (if wants_https(v.protocol@) {
        https_vhost(*v, ssl_port)
    } else {
        seq![]
    }));
}

/// The new `httpd-vhosts.conf`: the user's part of `current`, then a fresh
/// managed block for `vhosts`.
pub fn build_vhosts_content(
    current: &str,
    vhosts: &[XamppVhostConfig],
    xampp_path: &str,
    http_port: u16,
    ssl_port: u16,
) -> (r: String)
    ensures
        r@ == vhosts_content(current@, vhosts@, xampp_path@, http_port, ssl_port),
{
    let mut result = strip_managed_block(current, VHOSTS_SENTINEL_START, VHOSTS_SENTINEL_END);
    if !result.as_str().is_empty() {
        result.append("\n");
    }
    assert(result@ == vhosts_user_part(current@));
    if vhosts.len() > 0 {
        let ghost head = result@;
        result.append("\n");
        result.append(VHOSTS_SENTINEL_START);
        result.append("\n");
        let l = build_localhost_vhost(xampp_path, http_port);
        result.append(l.as_str());
        let ghost lead = result@;
        let mut i: usize = 0;
        while i < vhosts.len()
            invariant
                i <= vhosts.len(),
                result@ == lead + vhost_sites(vhosts@.take(i as int), http_port, ssl_port),
            decreases vhosts.len() - i,
        {
            append_vhost_sites(&mut result, &vhosts[i], http_port, ssl_port);
            assert(vhosts@.take(i + 1).drop_last() =~= vhosts@.take(i as int));
            assert(vhosts@.take(i + 1).last() == vhosts@[i as int]);
            i = i + 1;
        }
        assert(vhosts@.take(i as int) =~= vhosts@);
        result.append(VHOSTS_SENTINEL_END);
        result.append("\n");
        assert(result@ =~= head + vhosts_block(vhosts@, xampp_path@, http_port, ssl_port));
    }
    result
}



/// The virtual-host text inside a managed block.
pub open spec fn vhosts_body(
    vs: Seq<XamppVhostConfig>,
    xampp_path: Seq<char>,
    http_port: u16,
    ssl_port: u16,
) -> Seq<char> {
    localhost_vhost(xampp_path, http_port) + vhost_sites(vs, http_port, ssl_port)
}

/// No line of the generated virtual hosts reads as a sentinel (a name or
/// path could smuggle one in only with a line break).
pub open spec fn body_has_no_sentinel(body: Seq<char>) -> bool {
    forall|k: int|
        0 <= k < lines(body).len() ==> trim(#[trigger] lines(body)[k]) != VHOSTS_SENTINEL_START@
            && trim(lines(body)[k]) != VHOSTS_SENTINEL_END@
}

proof fn lemma_directory_ends_with_newline(root: Seq<char>)
    ensures
        vhost_directory(root).len() > 0 && vhost_directory(root).last() == '\n',
{
    reveal_strlit(
        "\">\n        Options Indexes FollowSymLinks\n        AllowOverride All\n        Require all granted\n    </Directory>\n</VirtualHost>\n\n",
    );
}

proof fn lemma_sites_end_with_newline(vs: Seq<XamppVhostConfig>, http_port: u16, ssl_port: u16)
    ensures
        vhost_sites(vs, http_port, ssl_port).len() == 0 || vhost_sites(vs, http_port, ssl_port).last()
            == '\n',
    decreases vs.len(),
{
    if vs.len() > 0 {
        let v = vs.last();
        lemma_sites_end_with_newline(vs.drop_last(), http_port, ssl_port);
        lemma_directory_ends_with_newline(v.document_root@);
        let a = vhost_sites(vs.drop_last(), http_port, ssl_port);
        let h = if wants_http(v.protocol@) {
            http_vhost(v, http_port)
        } else {
            seq![]
        };
        let t = if wants_https(v.protocol@) {
            https_vhost(v, ssl_port)
        } else {
            seq![]
        };
        let d = vhost_directory(v.document_root@);
        if t.len() > 0 {
            assert(t.last() == d.last());
            assert((a + h + t).last() == t.last());
        } else if h.len() > 0 {
            assert(h.last() == d.last());
            assert(a + h + t =~= a + h);
            assert((a + h).last() == h.last());
        } else {
            assert(a + h + t =~= a);
        }
    }
}

proof fn lemma_vhosts_sentinels()
    ensures
        sentinels_ok(VHOSTS_SENTINEL_START@, VHOSTS_SENTINEL_END@),
        is_plain_line(VHOSTS_SENTINEL_START@),
        is_plain_line(VHOSTS_SENTINEL_END@),
{
    reveal_strlit("# BEGIN LOCALDOMAIN MANAGED VHOSTS");
    reveal_strlit("# END LOCALDOMAIN MANAGED VHOSTS");
    let s = VHOSTS_SENTINEL_START@;
    let e = VHOSTS_SENTINEL_END@;
    assert(trim_start(s) == s);
    assert(trim_end(s) == s);
    assert(trim_start(e) == e);
    assert(trim_end(e) == e);
    assert(s.len() != e.len());
    assert(!s.contains('\n')) by {
        if s.contains('\n') {
            let m = choose|m: int| 0 <= m < s.len() && s[m] == '\n';
        }
    }
    assert(!e.contains('\n')) by {
        if e.contains('\n') {
            let m = choose|m: int| 0 <= m < e.len() && e[m] == '\n';
        }
    }
}

proof fn lemma_vhosts_block_is_fresh(
    vs: Seq<XamppVhostConfig>,
    xampp_path: Seq<char>,
    http_port: u16,
    ssl_port: u16,
)
    requires
        body_has_no_sentinel(vhosts_body(vs, xampp_path, http_port, ssl_port)),
    ensures
        is_fresh_block(
            vhosts_block(vs, xampp_path, http_port, ssl_port),
            lines(vhosts_body(vs, xampp_path, http_port, ssl_port)),
            VHOSTS_SENTINEL_START@,
            VHOSTS_SENTINEL_END@,
        ),
{
    lemma_vhosts_sentinels();
    let s = VHOSTS_SENTINEL_START@;
    let e = VHOSTS_SENTINEL_END@;
    let body = vhosts_body(vs, xampp_path, http_port, ssl_port);
    let b = vhosts_block(vs, xampp_path, http_port, ssl_port);
    if vs.len() > 0 {
        reveal_strlit("\n");
        reveal_strlit("/htdocs\"\n</VirtualHost>\n\n");
        let l = localhost_vhost(xampp_path, http_port);
        let sites = vhost_sites(vs, http_port, ssl_port);
        lemma_sites_end_with_newline(vs, http_port, ssl_port);
        if sites.len() > 0 {
            assert(body.last() == sites.last());
        } else {
            assert(body =~= l);
        }
        let empty = Seq::<char>::empty();
        let tail = e + seq!['\n'] + empty;
        let mid = body + tail;
        let after_start = s + seq!['\n'] + mid;
        assert(b =~= empty + seq!['\n'] + after_start);
        lemma_lines_cons(empty, after_start);
        lemma_lines_cons(s, mid);
        lemma_lines_append(body, tail);
        lemma_lines_cons(e, empty);
        assert(lines(empty) =~= Seq::<Seq<char>>::empty());
        assert(seq![empty] + (seq![s] + (lines(body) + (seq![e] + Seq::<Seq<char>>::empty())))
            =~= seq![empty, s] + lines(body) + seq![e]);
    }
}

/// A sync leaves the user's part of the file as it was: stripping the
/// managed block from the new file gives what stripping it from the old
/// file gave.
pub proof fn lemma_vhosts_sync_preserves_user_part(
    current: Seq<char>,
    vs: Seq<XamppVhostConfig>,
    xampp_path: Seq<char>,
    http_port: u16,
    ssl_port: u16,
)
    requires
        no_cr_line_ends(current),
        body_has_no_sentinel(vhosts_body(vs, xampp_path, http_port, ssl_port)),
    ensures
        outside_text(
            vhosts_content(current, vs, xampp_path, http_port, ssl_port),
            VHOSTS_SENTINEL_START@,
            VHOSTS_SENTINEL_END@,
        ) == outside_text(current, VHOSTS_SENTINEL_START@, VHOSTS_SENTINEL_END@),
{
    reveal_strlit("\n");
    let s = VHOSTS_SENTINEL_START@;
    let e = VHOSTS_SENTINEL_END@;
    let b = vhosts_block(vs, xampp_path, http_port, ssl_port);
    lemma_vhosts_block_is_fresh(vs, xampp_path, http_port, ssl_port);
    lemma_vhosts_sentinels();
    lemma_outside_after_block(current, b, lines(vhosts_body(vs, xampp_path, http_port, ssl_port)), s, e);
    let o = outside_text(current, s, e);
    if o.len() > 0 {
        assert(vhosts_content(current, vs, xampp_path, http_port, ssl_port) =~= o + seq!['\n'] + b);
    } else {
        assert(vhosts_content(current, vs, xampp_path, http_port, ssl_port) =~= b);
    }
}

/// Syncing one list after another gives the file that syncing the second
/// list alone gives: the managed block is replaced whole, in the order of
/// the list, and the user's part stays. In particular a sync repeated with
/// the same list changes nothing.
pub proof fn lemma_vhosts_sync_replaces_block(
    current: Seq<char>,
    first: Seq<XamppVhostConfig>,
    second: Seq<XamppVhostConfig>,
    xampp_path: Seq<char>,
    http_port: u16,
    ssl_port: u16,
)
    requires
        no_cr_line_ends(current),
        body_has_no_sentinel(vhosts_body(first, xampp_path, http_port, ssl_port)),
    ensures
        vhosts_content(
            vhosts_content(current, first, xampp_path, http_port, ssl_port),
            second,
            xampp_path,
            http_port,
            ssl_port,
        ) == vhosts_content(current, second, xampp_path, http_port, ssl_port),
{
    lemma_vhosts_sync_preserves_user_part(current, first, xampp_path, http_port, ssl_port);
}

/// Whether any virtual host selects HTTPS, so that the SSL module must be on.
pub fn any_wants_https(vhosts: &[XamppVhostConfig]) -> (r: bool)
    ensures
        r == exists|k: int| 0 <= k < vhosts@.len() && wants_https((#[trigger] vhosts@[k]).protocol@),
{
    let mut i: usize = 0;
    while i < vhosts.len()
        invariant
            i <= vhosts.len(),
            forall|k: int| 0 <= k < i ==> !wants_https((#[trigger] vhosts@[k]).protocol@),
        decreases vhosts.len() - i,
    {
        if protocol_wants_https(vhosts[i].protocol.as_str()) {
            return true;
        }
        i = i + 1;
    }
    false
}

} // verus!

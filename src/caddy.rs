//! Caddyfile generation for the reverse proxy.
use vstd::prelude::*;

use crate::domain::{protocol_wants_http, protocol_wants_https, wants_http, wants_https, CaddyDomainConfig};
use crate::paths::{access_log_path, LOGS_DIR};
use crate::text::{contains, decimal, occurs_at, push_decimal, starts_with};

verus! {

/// The global options block; a port directive appears only for a
/// non-standard port.
pub open spec fn caddy_global(http_port: u16, https_port: u16) -> Seq<char> {
    "{\n"@ + "\tadmin off\n"@ + (if http_port != 80 {
        "\thttp_port "@ + decimal(http_port as nat) + "\n"@
    } else {
        seq![]
    }) + (if https_port != 443 {
        "\thttps_port "@ + decimal(https_port as nat) + "\n"@
    } else {
        seq![]
    }) + "}\n\n"@
}

/// The site served when no domain is configured.
pub open spec fn caddy_placeholder() -> Seq<char> {
    ":65535 {\n"@ + "\trespond \"LocalDomain placeholder\" 200\n"@ + "}\n"@
}

/// The JSON access-log directive of a site block.
pub open spec fn log_directive(name: Seq<char>) -> Seq<char> {
    "\tlog {\n"@ + "\t\toutput file "@ + access_log_path(name) + " {\n"@
        + "\t\t\troll_size 10mb\n"@ + "\t\t\troll_keep 1\n"@ + "\t\t}\n"@ + "\t\tformat json\n"@
        + "\t}\n"@
}

/// The body shared by both kinds of site block, after the address line.
pub open spec fn site_body(d: CaddyDomainConfig) -> Seq<char> {
    "\treverse_proxy "@ + d.target_host@ + ":"@ + decimal(d.target_port as nat)
        + " {\n\t\theader_up Host {host}\n\t}\n"@ + "\tbind 127.0.0.1\n"@ + (if d.access_log {
        log_directive(d.name@)
    } else {
        seq![]
    }) + "}\n\n"@
}

/// The address line of a site block: the port is written only when it is
/// not the scheme's standard one.
pub open spec fn site_address(scheme: Seq<char>, name: Seq<char>, port: u16, standard: u16) -> Seq<
    char,
> {
    if port != standard {
        scheme + name + ":"@ + decimal(port as nat) + " {\n"@
    } else {
        scheme + name + " {\n"@
    }
}

/// The HTTPS block of a domain; nothing unless HTTPS is selected and both
/// the certificate and the key path are given.
pub open spec fn https_site(d: CaddyDomainConfig, https_port: u16) -> Seq<char> {
    if wants_https(d.protocol@) && d.cert_path is Some && d.key_path is Some {
        site_address("https://"@, d.name@, https_port, 443) + "\ttls "@ + d.cert_path->0@ + " "@
            + d.key_path->0@ + "\n"@ + site_body(d)
    } else {
        seq![]
    }
}

/// The plain HTTP block of a domain; nothing unless HTTP is selected.
pub open spec fn http_site(d: CaddyDomainConfig, http_port: u16) -> Seq<char> {
    if wants_http(d.protocol@) {
        site_address("http://"@, d.name@, http_port, 80) + site_body(d)
    } else {
        seq![]
    }
}

/// The site blocks of the domains, in order: per domain HTTPS first, then HTTP.
pub open spec fn caddy_sites(ds: Seq<CaddyDomainConfig>, http_port: u16, https_port: u16) -> Seq<
    char,
>
    decreases ds.len(),
{
    if ds.len() == 0 {
        seq![]
    } else {
        caddy_sites(ds.drop_last(), http_port, https_port) + https_site(ds.last(), https_port)
            + http_site(ds.last(), http_port)
    }
}

/// The whole Caddyfile.
pub open spec fn caddyfile(ds: Seq<CaddyDomainConfig>, http_port: u16, https_port: u16) -> Seq<
    char,
> {
    caddy_global(http_port, https_port) + if ds.len() == 0 {
        caddy_placeholder()
    } else {
        caddy_sites(ds, http_port, https_port)
    }
}

/// Appends the JSON access-log directive for `domain_name`.
pub fn append_log_directive(out: &mut String, domain_name: &str)
    ensures
        final(out)@ == old(out)@ + log_directive(domain_name@),
{
    out.append("\tlog {\n");
    out.append("\t\toutput file ");
    out.append(LOGS_DIR);
    out.append("/");
    out.append(domain_name);
    out.append(".access.log");
    out.append(" {\n");
    out.append("\t\t\troll_size 10mb\n");
    out.append("\t\t\troll_keep 1\n");
    out.append("\t\t}\n");
    out.append("\t\tformat json\n");
    out.append("\t}\n");
    assert(final(out)@ =~= old(out)@ + log_directive(domain_name@));
}

fn append_site_body(out: &mut String, d: &CaddyDomainConfig)
    ensures
        final(out)@ == old(out)@ + site_body(*d),
{
    out.append("\treverse_proxy ");
    out.append(d.target_host.as_str());
    out.append(":");
    push_decimal(out, d.target_port as u64);
    out.append(" {\n\t\theader_up Host {host}\n\t}\n");
    out.append("\tbind 127.0.0.1\n");
    if d.access_log {
        append_log_directive(out, d.name.as_str());
    }
    out.append("}\n\n");
    assert(final(out)@ =~= old(out)@ + site_body(*d));
}

fn append_site_address(out: &mut String, scheme: &str, name: &str, port: u16, standard: u16)
    ensures
        final(out)@ == old(out)@ + site_address(scheme@, name@, port, standard),
{
    out.append(scheme);
    out.append(name);
    if port != standard {
        out.append(":");
        push_decimal(out, port as u64);
    }
    out.append(" {\n");
    assert(final(out)@ =~= old(out)@ + site_address(scheme@, name@, port, standard));
}

fn append_domain_sites(out: &mut String, d: &CaddyDomainConfig, http_port: u16, https_port: u16)
    ensures
        final(out)@ == old(out)@ + https_site(*d, https_port) + http_site(*d, http_port),
{
    let ghost before = out@;
    if protocol_wants_https(d.protocol.as_str()) {
        match (&d.cert_path, &d.key_path) {
            (Some(cert), Some(key)) => {
                append_site_address(out, "https://", d.name.as_str(), https_port, 443);
                out.append("\ttls ");
                out.append(cert.as_str());
                out.append(" ");
                out.append(key.as_str());
                out.append("\n");
                append_site_body(out, d);
            },
            _ => {},
        }
    }
    assert(out@ =~= before + https_site(*d, https_port));
    let ghost mid = out@;
    if protocol_wants_http(d.protocol.as_str()) {
        append_site_address(out, "http://", d.name.as_str(), http_port, 80);
        append_site_body(out, d);
    }
    assert(out@ =~= mid + http_site(*d, http_port));
    assert(out@ =~= old(out)@ + https_site(*d, https_port) + http_site(*d, http_port));
}

fn append_global_options(out: &mut String, http_port: u16, https_port: u16)
    ensures
        final(out)@ == old(out)@ + caddy_global(http_port, https_port),
{
    out.append("{\n");
    out.append("\tadmin off\n");
    if http_port != 80 {
        out.append("\thttp_port ");
        push_decimal(out, http_port as u64);
        out.append("\n");
    }
    if https_port != 443 {
        out.append("\thttps_port ");
        push_decimal(out, https_port as u64);
        out.append("\n");
    }
    out.append("}\n\n");
    assert(out@ =~= old(out)@ + caddy_global(http_port, https_port));
}

/// The Caddyfile for `domains`, served on `http_port` and `https_port`.
pub fn build_caddyfile(domains: &[CaddyDomainConfig], http_port: u16, https_port: u16) -> (r:
    String)
    ensures
        r@ == caddyfile(domains@, http_port, https_port),
{
    let mut out = String::new();
    append_global_options(&mut out, http_port, https_port);
    let ghost global = out@;
    if domains.len() == 0 {
        out.append(":65535 {\n");
        out.append("\trespond \"LocalDomain placeholder\" 200\n");
        out.append("}\n");
        assert(out@ =~= caddyfile(domains@, http_port, https_port));
        return out;
    }
    let mut i: usize = 0;
    while i < domains.len()
        invariant
            i <= domains.len(),
            out@ == global + caddy_sites(domains@.take(i as int), http_port, https_port),
        decreases domains.len() - i,
    {
        let d = &domains[i];
        append_domain_sites(&mut out, d, http_port, https_port);
        assert(domains@.take(i + 1).drop_last() =~= domains@.take(i as int));
        assert(domains@.take(i + 1).last() == *d);
        assert(out@ =~= global + caddy_sites(domains@.take(i + 1), http_port, https_port));
        i = i + 1;
    }
    assert(domains@.take(i as int) =~= domains@);
    out
}


/// With the standard ports the global block is exactly `admin off`: it
/// names neither `http_port` nor `https_port`, and no site address carries
/// a port.
pub proof fn lemma_standard_ports_omit_port_directives(name: Seq<char>)
    ensures
        caddy_global(80, 443) == "{\n"@ + "\tadmin off\n"@ + "}\n\n"@,
        !contains(caddy_global(80, 443), "http_port"@),
        !contains(caddy_global(80, 443), "https_port"@),
        site_address("https://"@, name, 443, 443) == "https://"@ + name + " {\n"@,
        site_address("http://"@, name, 80, 80) == "http://"@ + name + " {\n"@,
{
    let g = caddy_global(80, 443);
    assert(g =~= "{\n"@ + "\tadmin off\n"@ + "}\n\n"@);
    reveal_strlit("{\n");
    reveal_strlit("\tadmin off\n");
    reveal_strlit("}\n\n");
    reveal_strlit("http_port");
    reveal_strlit("https_port");
    assert forall|i: int| 0 <= i < g.len() implies g[i] != 'h' by {}
    assert forall|i: int| !occurs_at(g, "http_port"@, i) by {
        if occurs_at(g, "http_port"@, i) {
            assert(g.subrange(i, i + 9)[0] == g[i]);
        }
    }
    assert forall|i: int| !occurs_at(g, "https_port"@, i) by {
        if occurs_at(g, "https_port"@, i) {
            assert(g.subrange(i, i + 10)[0] == g[i]);
        }
    }
}

/// With no domains the Caddyfile is the global block and the `:65535`
/// placeholder site, and nothing else.
pub proof fn lemma_empty_domains_give_placeholder(http_port: u16, https_port: u16)
    ensures
        caddyfile(seq![], http_port, https_port) == caddy_global(http_port, https_port)
            + caddy_placeholder(),
        starts_with(caddy_placeholder(), ":65535 {"@),
{
    reveal_strlit(":65535 {\n");
    reveal_strlit(":65535 {");
    assert(caddy_placeholder().take(8) =~= ":65535 {"@);
}

/// A domain that asks for HTTPS only but lacks its certificate or its key
/// gets no site block at all.
pub proof fn lemma_https_without_material_emits_nothing(
    d: CaddyDomainConfig,
    http_port: u16,
    https_port: u16,
)
    requires
        d.protocol@ == "https"@,
        d.cert_path is None || d.key_path is None,
    ensures
        caddy_sites(seq![d], http_port, https_port) == Seq::<char>::empty(),
{
    reveal_strlit("https");
    reveal_strlit("http");
    reveal_strlit("both");
    assert(seq![d].drop_last() =~= Seq::<CaddyDomainConfig>::empty());
    assert(seq![d].last() == d);
    assert("https"@.len() == 5 && "http"@.len() == 4);
    assert("https"@[0] == 'h' && "both"@[0] == 'b');
    assert("https"@ != "both"@);
    assert(!wants_http(d.protocol@));
    assert(https_site(d, https_port) == Seq::<char>::empty());
    assert(http_site(d, http_port) == Seq::<char>::empty());
    assert(caddy_sites(Seq::<CaddyDomainConfig>::empty(), http_port, https_port) == Seq::<char>::empty());
    assert(caddy_sites(seq![d], http_port, https_port) == caddy_sites(seq![d].drop_last(), http_port, https_port)
        + https_site(d, https_port) + http_site(d, http_port));
    assert(caddy_sites(seq![d], http_port, https_port) =~= Seq::<char>::empty());
}

} // verus!

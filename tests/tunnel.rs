use localdomain::protocol::TunnelType;
use localdomain::registry::{new_tunnel_id, tunnel_status_of, TunnelProcess, TunnelRegistry};
use localdomain::tunnel::{
    build_named_config, build_named_hostname, cloudflared_download_url, parse_cloudflared_version, credentials_path, find_named_tunnel_url,
    find_quick_tunnel_url, named_config_path, named_fallback, named_log_path, named_tunnel_args,
    on_url_timeout, quick_log_path, quick_tunnel_args, uses_config_file, TimeoutAction, UrlPoll, UrlPollStep, sanitize_domain, ssh_public_url, ssh_tunnel_args,
};

fn process(domain: &str, url: &str, pid: u32) -> TunnelProcess {
    TunnelProcess {
        domain: domain.to_string(),
        public_url: url.to_string(),
        tunnel_type: TunnelType::QuickTunnel,
        pid,
    }
}

#[test]
fn quick_tunnel_url_from_log() {
    let log = "2024 INF Requesting new quick Tunnel on trycloudflare.com...\n\
               2024 INF |  https://calm-river-1234.trycloudflare.com                 |\n\
               2024 INF https://other.trycloudflare.com\n";
    assert_eq!(
        find_quick_tunnel_url(log).as_deref(),
        Some("https://calm-river-1234.trycloudflare.com")
    );
    assert_eq!(find_quick_tunnel_url("INF starting\nINF https://api.argotunnel.com\n"), None);
    assert_eq!(
        find_quick_tunnel_url("url=\"https://a-b.trycloudflare.com\" ok").as_deref(),
        Some("https://a-b.trycloudflare.com")
    );
}

#[test]
fn named_tunnel_url_from_log() {
    let log = "INF https://region1.argotunnel.com\nINF https://x.trycloudflare.com\nINF https://abc\nINF route https://app.example.com 'x'\n";
    assert_eq!(find_named_tunnel_url(log).as_deref(), Some("https://app.example.com"));
    assert_eq!(find_named_tunnel_url(""), None);
}

#[test]
fn tunnel_files_and_args() {
    assert_eq!(sanitize_domain("project.test"), "project_test");
    assert_eq!(quick_log_path("project.test"), "/var/lib/localdomain/tunnels/project_test.log");
    assert_eq!(named_log_path("a.b.test"), "/var/lib/localdomain/tunnels/a_b_test_named.log");
    assert_eq!(named_config_path("a.test"), "/var/lib/localdomain/tunnels/a_test_config.yml");
    assert_eq!(credentials_path("u-1"), "/var/lib/localdomain/tunnels/u-1.json");
    assert_eq!(
        quick_tunnel_args("project.test", 3000),
        vec!["tunnel", "--url", "http://project.test:3000", "--http-host-header", "project.test"]
    );
    assert_eq!(named_tunnel_args(None, "u", "tok"), vec!["tunnel", "run", "--token", "tok"]);
    assert_eq!(
        named_tunnel_args(Some("/c.yml"), "u", "tok"),
        vec!["tunnel", "--config", "/c.yml", "run", "u"]
    );
    assert_eq!(
        ssh_tunnel_args(3000, "host.example", 22, "me", "", 8080),
        vec!["-N", "-o", "StrictHostKeyChecking=no", "-o", "ExitOnForwardFailure=yes", "-p", "22", "-R", "8080:localhost:3000", "me@host.example"]
    );
    assert_eq!(
        ssh_tunnel_args(1, "h", 2222, "u", "/k", 9),
        vec!["-N", "-o", "StrictHostKeyChecking=no", "-o", "ExitOnForwardFailure=yes", "-p", "2222", "-R", "9:localhost:1", "-i", "/k", "u@h"]
    );
    assert_eq!(ssh_public_url("h.example", 8080), "http://h.example:8080");
}

#[test]
fn named_tunnel_config_and_fallback() {
    assert_eq!(build_named_hostname("app", "example.com"), "app.example.com");
    assert_eq!(build_named_hostname("", "example.com"), "");
    assert_eq!(named_fallback("app", "example.com"), "https://app.example.com");
    assert_eq!(named_fallback("app", ""), "https://tunnel-connecting...");
    assert_eq!(
        build_named_config("U", "/t/U.json", "app.example.com", "site.test", 8080),
        "tunnel: U\ncredentials-file: /t/U.json\ningress:\n  - hostname: app.example.com\n    service: http://site.test:8080\n    originRequest:\n      httpHostHeader: site.test\n  - service: http_status:404\n"
    );
}

#[test]
fn registry_keeps_one_tunnel_per_domain() {
    let mut reg = TunnelRegistry::new();
    assert!(reg.insert(process("project.test", "https://a.trycloudflare.com", 10)).is_none());
    assert!(reg.insert(process("other.test", "https://o.trycloudflare.com", 11)).is_none());
    let old = reg.insert(process("project.test", "https://b.trycloudflare.com", 12)).unwrap();
    assert_eq!(old.pid, 10);
    assert_eq!(reg.len(), 2);
    assert_eq!(reg.get("project.test").unwrap().pid, 12);
    let removed = reg.remove("project.test").unwrap();
    assert_eq!(removed.public_url, "https://b.trycloudflare.com");
    assert!(reg.remove("project.test").is_none());
    let all = reg.drain();
    assert_eq!(all.len(), 1);
    assert_eq!(reg.len(), 0);
}

#[test]
fn registry_drops_dead_agents() {
    let mut reg = TunnelRegistry::new();
    reg.insert(process("a.test", "u1", 1));
    reg.insert(process("b.test", "u2", 2));
    reg.insert(process("c.test", "u3", 3));
    let dead = reg.retain_alive(&vec![true, false, true]);
    assert_eq!(dead.len(), 1);
    assert_eq!(dead[0].domain, "b.test");
    assert_eq!(reg.len(), 2);
    assert!(reg.get("b.test").is_none());
    assert!(reg.get("c.test").is_some());
}

#[test]
fn tunnel_status_reports() {
    let p = process("a.test", "https://x.trycloudflare.com", 5);
    let live = tunnel_status_of(Some(&p), true);
    assert!(live.active);
    assert_eq!(live.public_url.as_deref(), Some("https://x.trycloudflare.com"));
    assert!(live.error.is_none());
    let dead = tunnel_status_of(Some(&p), false);
    assert!(!dead.active);
    assert_eq!(dead.error.as_deref(), Some("Tunnel process is no longer running"));
    let none = tunnel_status_of(None, true);
    assert!(!none.active && none.public_url.is_none() && none.error.is_none());
}

#[test]
fn tunnel_ids_are_prefixed_and_fresh() {
    let a = new_tunnel_id();
    let b = new_tunnel_id();
    assert!(a.starts_with("tunnel-"));
    assert_eq!(a.len(), 43);
    assert_ne!(a, b);
}

#[test]
fn registry_lists_pids_in_order() {
    let mut reg = TunnelRegistry::new();
    reg.insert(process("a.test", "u1", 4));
    reg.insert(process("b.test", "u2", 9));
    assert_eq!(reg.pids(), vec![4, 9]);
    assert_eq!(reg.records_ref()[1].domain, "b.test");
}

#[test]
fn cloudflared_version_and_url() {
    assert_eq!(
        parse_cloudflared_version("cloudflared version 2024.1.5 (built 2024-01-22)\n").as_deref(),
        Some("2024.1.5")
    );
    assert_eq!(parse_cloudflared_version("  cloudflared\tversion   9.9 "), Some("9.9".to_string()));
    assert_eq!(parse_cloudflared_version("cloudflared version"), None);
    assert_eq!(
        cloudflared_download_url(false, false),
        "https://github.com/cloudflare/cloudflared/releases/latest/download/cloudflared-linux-amd64"
    );
    assert!(cloudflared_download_url(true, true).ends_with("darwin-arm64.tgz"));
}

#[test]
fn url_poll_budget_and_timeout() {
    let mut poll = UrlPoll::new(false);
    for _ in 0..29 {
        assert!(matches!(poll.after_read(Some("INF starting\n")), UrlPollStep::Again));
    }
    assert!(matches!(poll.after_read(None), UrlPollStep::TimedOut));
    let mut poll = UrlPoll::new(false);
    match poll.after_read(Some("INF https://x-y.trycloudflare.com\n")) {
        UrlPollStep::Found(u) => assert_eq!(u, "https://x-y.trycloudflare.com"),
        other => panic!("unexpected {:?}", other),
    }
    match on_url_timeout(false, "", "") {
        TimeoutAction::StopAndFail(m) => assert_eq!(m, "Timed out waiting for cloudflared to provide a public URL"),
        other => panic!("unexpected {:?}", other),
    }
    match on_url_timeout(true, "app", "example.com") {
        TimeoutAction::Fallback(u) => assert_eq!(u, "https://app.example.com"),
        other => panic!("unexpected {:?}", other),
    }
    assert!(uses_config_file("{}", "u"));
    assert!(!uses_config_file("", "u"));
}

#[test]
fn tunnel_status_reports_the_recorded_type() {
    let p = TunnelProcess {
        domain: "s.test".to_string(),
        public_url: "http://h:9".to_string(),
        tunnel_type: TunnelType::SshTunnel { host: "h".to_string(), port: 22, user: "u".to_string(), key: String::new(), remote_port: 9 },
        pid: 1,
    };
    match tunnel_status_of(Some(&p), true).tunnel_type {
        Some(TunnelType::SshTunnel { host, remote_port, .. }) => {
            assert_eq!(host, "h");
            assert_eq!(remote_port, 9);
        }
        other => panic!("unexpected {:?}", other),
    }
}

use localdomain::caddy::build_caddyfile;
use localdomain::domain::CaddyDomainConfig;
use localdomain::paths::LOGS_DIR;

fn domain(name: &str, protocol: &str, cert: Option<&str>, key: Option<&str>, access_log: bool) -> CaddyDomainConfig {
    CaddyDomainConfig {
        name: name.to_string(),
        target_host: "127.0.0.1".to_string(),
        target_port: 3000,
        protocol: protocol.to_string(),
        cert_path: cert.map(|c| c.to_string()),
        key_path: key.map(|k| k.to_string()),
        access_log,
    }
}

#[test]
fn test_empty_caddyfile() {
    let result = build_caddyfile(&[], 8080, 8443);
    assert!(result.contains("admin off"));
    assert!(result.contains("http_port 8080"));
    assert!(result.contains("https_port 8443"));
    assert!(result.contains(":65535"));
}

#[test]
fn test_http_only_domain() {
    let domains = vec![domain("project.test", "http", None, None, false)];
    let result = build_caddyfile(&domains, 8080, 8443);
    assert!(result.contains("http://project.test:8080"));
    assert!(result.contains("reverse_proxy 127.0.0.1:3000"));
    assert!(result.contains("header_up Host {host}"));
    assert!(!result.contains("https://"));
}

#[test]
fn test_https_only_domain() {
    let domains = vec![domain(
        "secure.test",
        "https",
        Some("/var/lib/localdomain/certs/secure.test.crt"),
        Some("/var/lib/localdomain/certs/secure.test.key"),
        false,
    )];
    let result = build_caddyfile(&domains, 8080, 8443);
    assert!(result.contains("https://secure.test:8443"));
    assert!(result.contains("tls"));
    assert!(!result.contains("http://secure.test"));
}

#[test]
fn test_both_protocol_domain() {
    let domains = vec![domain(
        "both.test",
        "both",
        Some("/var/lib/localdomain/certs/both.test.crt"),
        Some("/var/lib/localdomain/certs/both.test.key"),
        false,
    )];
    let result = build_caddyfile(&domains, 8080, 8443);
    assert!(result.contains("https://both.test:8443"));
    assert!(result.contains("http://both.test:8080"));
    assert!(result.contains("tls"));
}

#[test]
fn test_access_log_directive() {
    let domains = vec![domain("logged.test", "http", None, None, true)];
    let result = build_caddyfile(&domains, 80, 443);
    assert!(result.contains("log {"));
    let expected_log_path = format!("{}/logged.test.access.log", LOGS_DIR);
    assert!(result.contains(&format!("output file {}", expected_log_path)));
    assert!(result.contains("format json"));
}

#[test]
fn test_no_access_log_by_default() {
    let domains = vec![domain("nolog.test", "http", None, None, false)];
    let result = build_caddyfile(&domains, 80, 443);
    assert!(!result.contains("log {"));
}

#[test]
fn test_standard_ports() {
    let domains = vec![domain(
        "project.test",
        "both",
        Some("/certs/project.test.crt"),
        Some("/certs/project.test.key"),
        false,
    )];
    let result = build_caddyfile(&domains, 80, 443);
    assert!(result.contains("http://project.test {"));
    assert!(result.contains("https://project.test {"));
    assert!(!result.contains("http_port"));
    assert!(!result.contains("https_port"));
}

#[test]
fn caddyfile_custom_ports_both_exact() {
    let domains = vec![domain("app.test", "both", Some("/c/app.test.crt"), Some("/c/app.test.key"), true)];
    let result = build_caddyfile(&domains, 8080, 8443);
    let log = "\tlog {\n\t\toutput file /var/lib/localdomain/logs/app.test.access.log {\n\t\t\troll_size 10mb\n\t\t\troll_keep 1\n\t\t}\n\t\tformat json\n\t}\n";
    let body = format!("\treverse_proxy 127.0.0.1:3000 {{\n\t\theader_up Host {{host}}\n\t}}\n\tbind 127.0.0.1\n{}}}\n\n", log);
    let expected = format!(
        "{{\n\tadmin off\n\thttp_port 8080\n\thttps_port 8443\n}}\n\nhttps://app.test:8443 {{\n\ttls /c/app.test.crt /c/app.test.key\n{}http://app.test:8080 {{\n{}",
        body, body
    );
    assert_eq!(result, expected);
    assert_eq!(result.matches(" {\n\ttls").count(), 1);
}

#[test]
fn caddyfile_standard_ports_have_no_port_directive() {
    let domains = vec![domain("a.test", "http", None, None, false), domain("b.test", "both", Some("/c"), Some("/k"), false)];
    let result = build_caddyfile(&domains, 80, 443);
    assert!(result.starts_with("{\n\tadmin off\n}\n\n"));
    assert!(!result.contains("http_port"));
    assert!(!result.contains("https_port"));
}

#[test]
fn caddyfile_empty_is_placeholder_only() {
    let result = build_caddyfile(&[], 80, 443);
    assert_eq!(result, "{\n\tadmin off\n}\n\n:65535 {\n\trespond \"LocalDomain placeholder\" 200\n}\n");
}

#[test]
fn caddyfile_https_without_key_emits_no_block() {
    let domains = vec![domain("nokey.test", "https", Some("/c.crt"), None, false)];
    let result = build_caddyfile(&domains, 80, 443);
    assert_eq!(result, "{\n\tadmin off\n}\n\n");
    assert!(!result.contains("nokey.test"));
}

#[test]
fn caddyfile_unknown_protocol_emits_nothing() {
    let domains = vec![domain("odd.test", "ftp", None, None, false)];
    let result = build_caddyfile(&domains, 80, 443);
    assert_eq!(result, "{\n\tadmin off\n}\n\n");
}

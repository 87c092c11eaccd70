use localdomain::domain::XamppVhostConfig;
use localdomain::httpd_conf::{ensure_ssl_module, ensure_vhosts_include, extract_port, parse_listen_port};
use localdomain::vhosts::{any_wants_https, build_vhosts_content, VHOSTS_SENTINEL_END, VHOSTS_SENTINEL_START};
use localdomain::xampp::get_xampp_ports;

const TEST_XAMPP_PATH: &str = "/opt/lampp";

fn vhost(name: &str, root: &str, protocol: &str, cert: Option<&str>, key: Option<&str>) -> XamppVhostConfig {
    XamppVhostConfig {
        name: name.to_string(),
        document_root: root.to_string(),
        protocol: protocol.to_string(),
        cert_path: cert.map(|c| c.to_string()),
        key_path: key.map(|k| k.to_string()),
    }
}

#[test]
fn test_build_vhosts_content_empty() {
    let result = build_vhosts_content("", &[], TEST_XAMPP_PATH, 80, 443);
    assert_eq!(result, "");
}

#[test]
fn test_build_vhosts_content_http_only() {
    let vhosts = vec![vhost("mysite.test", "/var/www/mysite", "http", None, None)];
    let result = build_vhosts_content("", &vhosts, TEST_XAMPP_PATH, 80, 443);
    assert!(result.contains(VHOSTS_SENTINEL_START));
    assert!(result.contains(VHOSTS_SENTINEL_END));
    assert!(result.contains("<VirtualHost *:80>"));
    assert!(result.contains("ServerName mysite.test"));
    assert!(result.contains("DocumentRoot \"/var/www/mysite\""));
    assert!(!result.contains("<VirtualHost *:443>"));
}

#[test]
fn test_build_vhosts_content_https_only() {
    let vhosts = vec![vhost("secure.test", "/var/www/secure", "https", Some("/certs/secure.crt"), Some("/certs/secure.key"))];
    let result = build_vhosts_content("", &vhosts, TEST_XAMPP_PATH, 80, 443);
    assert!(result.contains("<VirtualHost *:443>"));
    assert!(result.contains("SSLEngine on"));
    assert!(result.contains("SSLCertificateFile \"/certs/secure.crt\""));
    assert!(result.contains("SSLCertificateKeyFile \"/certs/secure.key\""));
    let http_count = result.matches("<VirtualHost *:80>").count();
    assert_eq!(http_count, 1);
}

#[test]
fn test_build_vhosts_content_both_protocols() {
    let vhosts = vec![vhost("both.test", "/var/www/both", "both", Some("/certs/both.crt"), Some("/certs/both.key"))];
    let result = build_vhosts_content("", &vhosts, TEST_XAMPP_PATH, 80, 443);
    let http_count = result.matches("<VirtualHost *:80>").count();
    let https_count = result.matches("<VirtualHost *:443>").count();
    assert_eq!(http_count, 2);
    assert_eq!(https_count, 1);
}

#[test]
fn test_build_vhosts_content_preserves_user_entries() {
    let existing = "# My custom vhost\n<VirtualHost *:80>\n    ServerName custom.local\n</VirtualHost>\n";
    let vhosts = vec![vhost("managed.test", "/var/www/managed", "http", None, None)];
    let result = build_vhosts_content(existing, &vhosts, TEST_XAMPP_PATH, 80, 443);
    assert!(result.contains("custom.local"));
    assert!(result.contains("managed.test"));
}

#[test]
fn test_build_vhosts_content_replaces_managed_block() {
    let existing = format!(
        "# User stuff\n\n{}\n<VirtualHost *:80>\n    ServerName old.test\n</VirtualHost>\n{}\n",
        VHOSTS_SENTINEL_START, VHOSTS_SENTINEL_END
    );
    let vhosts = vec![vhost("new.test", "/var/www/new", "http", None, None)];
    let result = build_vhosts_content(&existing, &vhosts, TEST_XAMPP_PATH, 80, 443);
    assert!(!result.contains("old.test"));
    assert!(result.contains("new.test"));
    assert!(result.contains("# User stuff"));
}

#[test]
fn test_build_vhosts_content_localhost_preservation() {
    let vhosts = vec![vhost("mysite.test", "/var/www/mysite", "http", None, None)];
    let result = build_vhosts_content("", &vhosts, TEST_XAMPP_PATH, 80, 443);
    assert!(result.contains("ServerName localhost"));
    assert!(result.contains(r#"DocumentRoot "/opt/lampp/htdocs""#));
}

#[test]
fn test_build_vhosts_content_localhost_uses_xampp_path() {
    let vhosts = vec![vhost("mysite.test", "/var/www/mysite", "http", None, None)];
    let result = build_vhosts_content("", &vhosts, "/Applications/XAMPP/xamppfiles", 80, 443);
    assert!(result.contains(r#"DocumentRoot "/Applications/XAMPP/xamppfiles/htdocs""#));
}

#[test]
fn test_build_vhosts_content_custom_ports() {
    let vhosts = vec![vhost("mysite.test", "/var/www/mysite", "both", Some("/certs/mysite.crt"), Some("/certs/mysite.key"))];
    let result = build_vhosts_content("", &vhosts, TEST_XAMPP_PATH, 8080, 4443);
    assert!(result.contains("<VirtualHost *:8080>"));
    assert!(result.contains("<VirtualHost *:4443>"));
    assert!(!result.contains("<VirtualHost *:80>"));
    assert!(!result.contains("<VirtualHost *:443>"));
}

#[test]
fn test_build_vhosts_content_uses_xampp_path_for_localhost() {
    let vhosts = vec![vhost("mysite.test", "/var/www/mysite", "http", None, None)];
    let result = build_vhosts_content("", &vhosts, "/Applications/XAMPP/xamppfiles", 80, 443);
    assert!(result.contains(r#"DocumentRoot "/Applications/XAMPP/xamppfiles/htdocs""#));
    assert!(!result.contains("/opt/lampp/htdocs"));
}

#[test]
fn test_build_vhosts_content_uses_custom_ports() {
    let vhosts = vec![vhost("mysite.test", "/var/www/mysite", "both", Some("/certs/mysite.crt"), Some("/certs/mysite.key"))];
    let result = build_vhosts_content("", &vhosts, "/opt/lampp", 8080, 4443);
    assert!(result.contains("<VirtualHost *:8080>"));
    assert!(result.contains("<VirtualHost *:4443>"));
    assert!(!result.contains("<VirtualHost *:80>"));
    assert!(!result.contains("<VirtualHost *:443>"));
}

#[test]
fn vhosts_sync_exact_order() {
    let vhosts = vec![vhost("mysite.test", "/var/www/mysite", "both", Some("/c/mysite.crt"), Some("/c/mysite.key"))];
    let result = build_vhosts_content("", &vhosts, "/opt/lampp", 80, 443);
    let dir = "    <Directory \"/var/www/mysite\">\n        Options Indexes FollowSymLinks\n        AllowOverride All\n        Require all granted\n    </Directory>\n</VirtualHost>\n\n";
    let expected = format!(
        "\n{}\n<VirtualHost *:80>\n    ServerName localhost\n    DocumentRoot \"/opt/lampp/htdocs\"\n</VirtualHost>\n\n<VirtualHost *:80>\n    ServerName mysite.test\n    DocumentRoot \"/var/www/mysite\"\n{}<VirtualHost *:443>\n    ServerName mysite.test\n    DocumentRoot \"/var/www/mysite\"\n    SSLEngine on\n    SSLCertificateFile \"/c/mysite.crt\"\n    SSLCertificateKeyFile \"/c/mysite.key\"\n{}{}\n",
        VHOSTS_SENTINEL_START, dir, dir, VHOSTS_SENTINEL_END
    );
    assert_eq!(result, expected);
}

#[test]
fn vhosts_same_list_same_block_whatever_the_prior_file() {
    let vhosts = vec![
        vhost("x.test", "/var/www/x", "http", None, None),
        vhost("y.test", "/var/www/y", "http", None, None),
    ];
    let first = build_vhosts_content("# mine\n", &vhosts, "/opt/lampp", 80, 443);
    let again = build_vhosts_content(&first, &vhosts, "/opt/lampp", 80, 443);
    assert_eq!(first, again);
    let reordered = vec![vhosts[1].clone(), vhosts[0].clone()];
    let other = build_vhosts_content(&first, &reordered, "/opt/lampp", 80, 443);
    assert_ne!(other, first);
    let back = build_vhosts_content(&other, &vhosts, "/opt/lampp", 80, 443);
    assert_eq!(back, first);
}

#[test]
fn test_ensure_vhosts_include_uncomments() {
    let input = "# Some config\n#Include conf/extra/httpd-vhosts.conf\n# More config\n";
    let new_content = ensure_vhosts_include(input).unwrap();
    assert!(new_content.contains("Include conf/extra/httpd-vhosts.conf"));
    assert!(!new_content.contains("#Include"));
}

#[test]
fn ensure_vhosts_include_leaves_active_line_alone() {
    let input = "Include conf/extra/httpd-vhosts.conf\n";
    assert!(ensure_vhosts_include(input).is_none());
    assert!(ensure_vhosts_include("# nothing here").is_none());
    assert_eq!(ensure_vhosts_include("# nothing here\n"), Some("# nothing here".to_string()));
}

#[test]
fn ensure_ssl_module_uncomments_load_line() {
    let input = "LoadModule a_module a.so\n  ## LoadModule ssl_module modules/mod_ssl.so\n";
    let out = ensure_ssl_module(input).unwrap();
    assert_eq!(out, "LoadModule a_module a.so\nLoadModule ssl_module modules/mod_ssl.so");
    assert!(ensure_ssl_module(&out).is_none());
}

#[test]
fn test_parse_listen_port_simple() {
    assert_eq!(parse_listen_port("# Comment\nListen 8080\n"), Some(8080));
}

#[test]
fn test_parse_listen_port_with_address() {
    assert_eq!(parse_listen_port("Listen 0.0.0.0:9090\n"), Some(9090));
}

#[test]
fn test_parse_listen_port_skips_comments() {
    assert_eq!(parse_listen_port("#Listen 80\nListen 3000\n"), Some(3000));
}

#[test]
fn listen_parser_forms() {
    assert_eq!(parse_listen_port("Listen 80"), Some(80));
    assert_eq!(parse_listen_port("Listen 0.0.0.0:80"), Some(80));
    assert_eq!(parse_listen_port("Listen [::]:80"), Some(80));
    assert_eq!(parse_listen_port("  # Listen 81\n"), None);
    assert_eq!(parse_listen_port("Listen\nListen 99999\nListen 7\n"), Some(7));
    assert_eq!(parse_listen_port(""), None);
}

#[test]
fn xampp_ports_default_when_missing() {
    assert_eq!(get_xampp_ports(None, None), (80, 443));
    assert_eq!(get_xampp_ports(Some("Listen 8080\n"), Some("Listen 4443\n")), (8080, 4443));
    assert_eq!(get_xampp_ports(Some("nothing"), None), (80, 443));
}

#[test]
fn test_extract_port() {
    assert_eq!(extract_port("<VirtualHost *:80>"), 80);
    assert_eq!(extract_port("<VirtualHost *:443>"), 443);
    assert_eq!(extract_port("<VirtualHost _default_:8080>"), 8080);
    assert_eq!(extract_port("<VirtualHost *>"), 80);
}

#[test]
fn ssl_module_needed_only_for_https() {
    let http = vhost("a.test", "/a", "http", None, None);
    let both = vhost("b.test", "/b", "both", None, None);
    assert!(!any_wants_https(&[http.clone()]));
    assert!(any_wants_https(&[http, both]));
    assert!(!any_wants_https(&[]));
}

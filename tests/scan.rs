use localdomain::vhost_scan::parse_vhosts_outside_managed;
use localdomain::vhosts::{VHOSTS_SENTINEL_END, VHOSTS_SENTINEL_START};

#[test]
fn test_scan_vhosts_outside_managed() {
    let content = format!(
        r#"# User vhost
<VirtualHost *:80>
    ServerName myproject.local
    DocumentRoot "/Users/me/projects/myproject"
</VirtualHost>

{}
<VirtualHost *:80>
    ServerName localhost
    DocumentRoot "/Applications/XAMPP/xamppfiles/htdocs"
</VirtualHost>
<VirtualHost *:80>
    ServerName managed.test
    DocumentRoot "/var/www/managed"
</VirtualHost>
{}

<VirtualHost *:443>
    ServerName secure.local
    DocumentRoot "/Users/me/secure"
</VirtualHost>
"#,
        VHOSTS_SENTINEL_START, VHOSTS_SENTINEL_END
    );

    let existing = vec!["secure.local".to_string()];
    let results = parse_vhosts_outside_managed(&content, &existing);
    assert_eq!(results.len(), 2);
    assert_eq!(results[0].server_name, "myproject.local");
    assert_eq!(results[0].document_root, "/Users/me/projects/myproject");
    assert_eq!(results[0].port, 80);
    assert!(!results[0].already_exists);
    assert_eq!(results[1].server_name, "secure.local");
    assert_eq!(results[1].port, 443);
    assert!(results[1].already_exists);
}

#[test]
fn test_scan_skips_localhost() {
    let content = r#"<VirtualHost *:80>
    ServerName localhost
    DocumentRoot "/opt/htdocs"
</VirtualHost>
"#;
    let results = parse_vhosts_outside_managed(content, &[]);
    assert!(results.is_empty());
}

#[test]
fn scan_keeps_first_of_duplicate_names_and_ignores_case() {
    let content = "<VirtualHost *:8080>\nServerName dup.local\nDocumentRoot /a\n</VirtualHost>\n<VirtualHost *:80>\nServerName dup.local\nDocumentRoot /b\n</VirtualHost>\n<VirtualHost *:81>\n</VirtualHost>\n";
    let results = parse_vhosts_outside_managed(content, &["DUP.Local".to_string()]);
    assert_eq!(results.len(), 1);
    assert_eq!(results[0].document_root, "/a");
    assert_eq!(results[0].port, 8080);
    assert!(results[0].already_exists);
}

use localdomain::domain::{validate_document_root, validate_domain_name, validate_port, Protocol};

#[test]
fn test_valid_domain_names() {
    assert!(validate_domain_name("project.test").is_ok());
    assert!(validate_domain_name("my-app.test").is_ok());
    assert!(validate_domain_name("sub.domain.test").is_ok());
    assert!(validate_domain_name("a.dev").is_ok());
}

#[test]
fn test_invalid_domain_names() {
    assert!(validate_domain_name("").is_err());
    assert!(validate_domain_name("project").is_err());
    assert!(validate_domain_name("-project.test").is_err());
    assert!(validate_domain_name("project-.test").is_err());
    assert!(validate_domain_name("project.t").is_err());
    assert!(validate_domain_name(".test").is_err());
}

#[test]
fn test_port_validation() {
    assert!(validate_port(3000).is_ok());
    assert!(validate_port(80).is_ok());
    assert!(validate_port(0).is_err());
}

#[test]
fn domain_name_error_messages() {
    assert_eq!(validate_domain_name("").unwrap_err(), "Domain name cannot be empty");
    let long = format!("{}.test", "a".repeat(250));
    assert_eq!(validate_domain_name(&long).unwrap_err(), "Domain name too long (max 253 characters)");
    assert_eq!(
        validate_domain_name("bad_name.test").unwrap_err(),
        "Invalid domain name 'bad_name.test'. Use format like 'project.test'"
    );
    assert!(validate_domain_name("x.test.").is_err());
    assert!(validate_domain_name("a..test").is_err());
    assert!(validate_domain_name("a.te5t").is_err());
    assert!(validate_domain_name("A-1.B2.Test").is_ok());
}

#[test]
fn document_root_validation() {
    assert_eq!(validate_document_root("").unwrap_err(), "Document root cannot be empty");
    assert_eq!(validate_document_root("var/www").unwrap_err(), "Document root must be an absolute path");
    assert!(validate_document_root("/var/www").is_ok());
    assert_eq!(validate_port(0).unwrap_err(), "Port cannot be 0");
}

#[test]
fn protocol_names_round_trip() {
    for p in [Protocol::Http, Protocol::Https, Protocol::Both] {
        assert_eq!(Protocol::from_str(p.as_str()), Some(p));
    }
    assert_eq!(Protocol::Https.as_str(), "https");
    assert_eq!(Protocol::from_str("HTTP"), None);
}

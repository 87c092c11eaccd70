use localdomain::domain::HostsEntry;
use localdomain::hosts::{build_hosts_content, HOSTS_SENTINEL_END, HOSTS_SENTINEL_START};

fn entry(domain: &str, ip: &str) -> HostsEntry {
    HostsEntry { domain: domain.to_string(), ip: ip.to_string() }
}

#[test]
fn test_build_hosts_content_empty_entries() {
    let current = "127.0.0.1\tlocalhost\n";
    let result = build_hosts_content(current, &[]);
    assert_eq!(result, "127.0.0.1\tlocalhost\n");
}

#[test]
fn test_build_hosts_content_with_entries() {
    let current = "127.0.0.1\tlocalhost\n";
    let entries = vec![entry("project.test", "127.0.0.1")];
    let result = build_hosts_content(current, &entries);
    assert!(result.contains(HOSTS_SENTINEL_START));
    assert!(result.contains("127.0.0.1\tproject.test"));
    assert!(result.contains(HOSTS_SENTINEL_END));
}

#[test]
fn test_build_hosts_content_replaces_existing_block() {
    let current = format!(
        "127.0.0.1\tlocalhost\n\n{}\n127.0.0.1\told.test\n{}\n",
        HOSTS_SENTINEL_START, HOSTS_SENTINEL_END
    );
    let entries = vec![entry("new.test", "127.0.0.1")];
    let result = build_hosts_content(&current, &entries);
    assert!(!result.contains("old.test"));
    assert!(result.contains("new.test"));
}

#[test]
fn hosts_sync_exact_content() {
    let entries = vec![entry("project.test", "127.0.0.1")];
    let result = build_hosts_content("127.0.0.1\tlocalhost\n", &entries);
    assert_eq!(
        result,
        "127.0.0.1\tlocalhost\n\n# LocalDomain Start\n127.0.0.1\tproject.test\n# LocalDomain End\n"
    );
    assert_eq!(result.matches(HOSTS_SENTINEL_START).count(), 1);
    assert_eq!(result.matches(HOSTS_SENTINEL_END).count(), 1);
}

#[test]
fn hosts_sync_twice_is_identical() {
    let entries = vec![entry("a.test", "127.0.0.1"), entry("b.test", "::1")];
    let once = build_hosts_content("127.0.0.1\tlocalhost\n# comment\n\n\n", &entries);
    let twice = build_hosts_content(&once, &entries);
    assert_eq!(once, twice);
}

#[test]
fn hosts_sync_keeps_outside_bytes() {
    let current = "# top\n127.0.0.1\tlocalhost\n\n# LocalDomain Start\n1.1.1.1\tx.test\n# LocalDomain End\n::1\tlocalhost6\n\n";
    let result = build_hosts_content(current, &[entry("y.test", "127.0.0.1")]);
    assert!(result.starts_with("# top\n127.0.0.1\tlocalhost\n\n::1\tlocalhost6\n\n# LocalDomain Start\n"));
    assert!(!result.contains("x.test"));
}

#[test]
fn hosts_sentinel_matched_after_trimming() {
    let current = "a\n   # LocalDomain Start  \nold\n\t# LocalDomain End\nb\n";
    let result = build_hosts_content(current, &[]);
    assert_eq!(result, "a\nb\n");
}

#[test]
fn hosts_unterminated_block_drops_rest() {
    let current = "a\n# LocalDomain Start\nb\nc\n";
    let result = build_hosts_content(current, &[]);
    assert_eq!(result, "a\n");
}

#[test]
fn hosts_empty_file_and_entries() {
    assert_eq!(build_hosts_content("", &[]), "\n");
    let result = build_hosts_content("", &[entry("p.test", "127.0.0.1")]);
    assert_eq!(result, "\n\n# LocalDomain Start\n127.0.0.1\tp.test\n# LocalDomain End\n");
}

#[test]
fn hosts_crlf_lines_are_normalized() {
    let result = build_hosts_content("a\r\nb\r\n", &[]);
    assert_eq!(result, "a\nb\n");
}

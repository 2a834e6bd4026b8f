//! The files under the resolver directory.

use splitway::backend::macos::resolver::{
    is_managed, is_valid_domain, push_nameservers, resolver_contents, resolver_path, MANAGED_MARKER,
};

#[test]
fn contents_have_marker_then_nameservers() {
    let body = resolver_contents(&vec!["10.0.0.1".to_string(), "10.0.0.2".to_string()]);
    assert_eq!(
        body,
        format!("{MANAGED_MARKER}\nnameserver 10.0.0.1\nnameserver 10.0.0.2\n")
    );
}

#[test]
fn contents_with_no_servers_are_just_the_marker() {
    assert_eq!(resolver_contents(&Vec::new()), format!("{MANAGED_MARKER}\n"));
}

#[test]
fn is_managed_only_for_our_marker() {
    assert!(is_managed(&resolver_contents(&vec!["1.1.1.1".to_string()])));
    assert!(is_managed(MANAGED_MARKER));
    // A file the user wrote by hand must not be claimed.
    assert!(!is_managed("nameserver 1.1.1.1\n"));
    assert!(!is_managed("# some other tool\nnameserver 1.1.1.1\n"));
    assert!(!is_managed(""));
    // The marker must be the *first* line, not buried later.
    assert!(!is_managed(&format!(
        "nameserver 1.1.1.1\n{MANAGED_MARKER}\n"
    )));
}

#[test]
fn valid_domain_accepts_hostnames_rejects_traversal() {
    assert!(is_valid_domain("corp.example.com"));
    assert!(is_valid_domain("internal"));
    // Path-traversal / escape attempts and control chars are rejected.
    assert!(!is_valid_domain(""));
    assert!(!is_valid_domain("."));
    assert!(!is_valid_domain(".."));
    assert!(!is_valid_domain("a/b"));
    assert!(!is_valid_domain("../etc/passwd"));
    assert!(!is_valid_domain("a\\b"));
    assert!(!is_valid_domain("a\nb"));
    assert!(!is_valid_domain("a\0b"));
}

#[test]
fn resolver_path_joins_domain() {
    assert_eq!(
        resolver_path("/etc/resolver", "corp.example.com"),
        "/etc/resolver/corp.example.com"
    );
}


#[test]
fn a_file_reads_back_the_servers_it_was_written_with() {
    let mut servers = Vec::new();
    push_nameservers(
        &resolver_contents(&vec!["10.0.0.1".to_string(), "10.0.0.2".to_string()]),
        &mut servers,
    );
    assert_eq!(servers, vec!["10.0.0.1", "10.0.0.2"]);
    // A second file adds only what is new.
    push_nameservers(
        &resolver_contents(&vec!["10.0.0.2".to_string(), "10.0.0.3".to_string()]),
        &mut servers,
    );
    assert_eq!(servers, vec!["10.0.0.1", "10.0.0.2", "10.0.0.3"]);
}

#[test]
fn resolver_path_keeps_a_trailing_slash() {
    assert_eq!(resolver_path("/etc/resolver/", "a.example"), "/etc/resolver/a.example");
}

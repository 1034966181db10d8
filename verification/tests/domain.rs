use rustbox::domain::{domain_matches, matches_lowercased};

#[test]
fn exact_match() {
    assert!(domain_matches("example.com", "example.com"));
}

#[test]
fn no_match() {
    assert!(!domain_matches("example.com", "other.com"));
}

#[test]
fn wildcard_match() {
    assert!(domain_matches("*.example.com", "sub.example.com"));
}

#[test]
fn wildcard_rejects_bare() {
    assert!(!domain_matches("*.example.com", "example.com"));
}

#[test]
fn nested_subdomain() {
    assert!(domain_matches("*.example.com", "a.b.example.com"));
}

#[test]
fn case_insensitive() {
    assert!(domain_matches("*.Example.COM", "Sub.EXAMPLE.com"));
}

#[test]
fn wildcard_needs_a_dot_boundary() {
    assert!(!domain_matches("*.example.com", "badexample.com"));
    assert!(domain_matches("*.example.com", ".example.com"));
    assert!(matches_lowercased("*.example.com", "SUB.example.com"));
    assert!(!matches_lowercased("Example.com", "example.com"));
}

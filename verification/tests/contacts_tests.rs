use aeromessage::contacts::{ContactResolver, normalize_phone};

#[test]
fn test_normalize_phone() {
    assert_eq!(normalize_phone("+1 (555) 123-4567"), "+15551234567");
    assert_eq!(normalize_phone("555.123.4567"), "5551234567");
}

#[test]
fn test_resolver_direct() {
    let mut resolver = ContactResolver::new();
    resolver.add("+15551234567", "John Doe");

    assert_eq!(resolver.resolve("+15551234567"), Some("John Doe"));
    assert_eq!(resolver.resolve("+15559999999"), None);
}

#[test]
fn test_resolver_normalized() {
    let mut resolver = ContactResolver::new();
    resolver.add("+15551234567", "Jane Doe");

    assert_eq!(resolver.resolve("+1 (555) 123-4567"), Some("Jane Doe"));
}

#[test]
fn test_resolver_without_country_code() {
    let mut resolver = ContactResolver::new();
    resolver.add("5551234567", "Bob Smith");

    assert_eq!(resolver.resolve("+15551234567"), Some("Bob Smith"));
}

#[test]
fn test_resolver_email() {
    let mut resolver = ContactResolver::new();
    resolver.add("john@example.com", "John Doe");

    assert_eq!(resolver.resolve("john@example.com"), Some("John Doe"));
    assert_eq!(resolver.resolve("other@example.com"), None);
}

#[test]
fn test_resolver_empty_values() {
    let mut resolver = ContactResolver::new();
    resolver.add("", "No ID");
    resolver.add("+15551234567", "");
    resolver.add("", "");

    assert_eq!(resolver.resolve(""), None);
    assert_eq!(resolver.resolve("+15551234567"), None);
}

#[test]
fn test_resolver_default() {
    let resolver = ContactResolver::default();
    assert_eq!(resolver.resolve("+15551234567"), None);
}

#[test]
fn test_normalize_phone_edge_cases() {
    assert_eq!(normalize_phone(""), "");
    assert_eq!(normalize_phone("abc"), "");
    assert_eq!(normalize_phone("+++123"), "+++123");
    assert_eq!(normalize_phone("  +1  555  "), "+1555");
}

#[test]
fn test_resolver_overwrites_prior_mapping() {
    let mut resolver = ContactResolver::new();
    resolver.add("+15551234567", "Old Name");
    resolver.add("+15551234567", "New Name");
    assert_eq!(resolver.resolve("+15551234567"), Some("New Name"));
}

#[test]
fn test_resolver_does_not_match_unrelated() {
    let mut resolver = ContactResolver::new();
    resolver.add("+15551234567", "Jane");
    assert_eq!(resolver.resolve("+1 (555) 765-4321"), None);
}

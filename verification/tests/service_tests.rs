use perry_container_compose::service::{generate_name, name_with_suffix, service_container_name, ServiceState};
use perry_container_compose::types::ComposeService;

#[test]
fn test_service_container_name_format() {
    let svc = ComposeService {
        image: Some("redis:7".to_string()),
        ..Default::default()
    };
    let name = service_container_name(&svc, "cache", None);

    // Format: {md5_8chars}-{random_hex8}
    let parts: Vec<&str> = name.split('-').collect();
    assert_eq!(parts.len(), 2);
    assert_eq!(parts[0].len(), 8);
    assert_eq!(parts[1].len(), 8);
}

#[test]
fn test_service_container_name_stability() {
    let svc = ComposeService {
        image: Some("postgres:16".to_string()),
        ..Default::default()
    };

    let n1 = service_container_name(&svc, "db", None);
    let n2 = service_container_name(&svc, "db", None);

    let parts1: Vec<&str> = n1.split('-').collect();
    let parts2: Vec<&str> = n2.split('-').collect();

    // Image hash (part 0) should be stable for the same image
    assert_eq!(parts1[0], parts2[0]);
    // Random suffix (part 1) should vary
    assert_ne!(parts1[1], parts2[1]);
}

#[test]
fn test_service_container_name_override() {
    let svc = ComposeService {
        container_name: Some("my-custom-name".to_string()),
        ..Default::default()
    };
    let name = service_container_name(&svc, "ignored", None);
    assert_eq!(name, "my-custom-name");
}

#[test]
fn generated_name_prefix_is_md5_of_input() {
    // md5("abc") = 900150983cd24fb0d6963f7d28e17f72
    let n = generate_name("abc");
    assert!(n.starts_with("90015098-"));
    assert_eq!(n.len(), 17);
    assert!(n[9..].chars().all(|c| c.is_ascii_hexdigit() && !c.is_ascii_uppercase()));
}

#[test]
fn container_name_hashes_rendered_definition_first() {
    let svc = ComposeService {
        image: Some("redis:7".to_string()),
        ..Default::default()
    };
    // md5("") = d41d8cd98f00b204e9800998ecf8427e
    let n = service_container_name(&svc, "cache", Some(""));
    assert!(n.starts_with("d41d8cd9-"));
    // Without an image, the service name is hashed: md5("abc") starts 90015098.
    let bare = ComposeService::default();
    assert!(service_container_name(&bare, "abc", None).starts_with("90015098-"));
}

#[test]
fn service_state_holds_its_fields() {
    let s = ServiceState { id: "id1".to_string(), name: "web".to_string(), running: true };
    assert!(s.running);
    assert_eq!(s.name, "web");
}

#[test]
fn name_from_digest_and_drawn_value() {
    assert_eq!(name_with_suffix("abc", 0xdeadbeef), "90015098-deadbeef");
    assert_eq!(name_with_suffix("", 1), "d41d8cd9-00000001");
}

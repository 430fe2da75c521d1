use perry_container_compose::entities::compose::Compose;
use perry_container_compose::entities::service::{DependsOn, DependsOnCondition, Service};
use perry_container_compose::error::ComposeError;
use perry_container_compose::orchestrate::deps::topological_order;
use perry_container_compose::strmap::StrMap;

fn make_compose(edges: &[(&str, &[&str])]) -> Compose {
    let mut services = StrMap::new();
    for (name, deps) in edges {
        let mut svc = Service::default();
        if !deps.is_empty() {
            svc.depends_on = Some(DependsOn::List(deps.iter().map(|s| s.to_string()).collect()));
        }
        services.insert(name.to_string(), svc);
    }
    Compose {
        services,
        ..Default::default()
    }
}

#[test]
fn test_simple_chain() {
    // db → web → proxy
    let compose = make_compose(&[("web", &["db"]), ("db", &[]), ("proxy", &["web"])]);
    let order = topological_order(&compose).unwrap();
    let pos = |name: &str| order.iter().position(|s| s == name).unwrap();
    assert!(pos("db") < pos("web"), "db must precede web");
    assert!(pos("web") < pos("proxy"), "web must precede proxy");
}

#[test]
fn test_no_deps() {
    let compose = make_compose(&[("a", &[]), ("b", &[]), ("c", &[])]);
    let order = topological_order(&compose).unwrap();
    assert_eq!(order.len(), 3);
}

#[test]
fn test_cycle_detected() {
    let compose = make_compose(&[("a", &["b"]), ("b", &["a"])]);
    let result = topological_order(&compose);
    assert!(result.is_err());
    assert!(matches!(result.unwrap_err(), ComposeError::CircularDependency { .. }));
}

#[test]
fn depth_first_order_is_exact() {
    let compose = make_compose(&[("web", &["db", "cache"]), ("db", &[]), ("cache", &[]), ("proxy", &["web"])]);
    let order = topological_order(&compose).unwrap();
    assert_eq!(order, vec!["cache", "db", "web", "proxy"]);
}

#[test]
fn cycle_names_the_closing_edge() {
    let compose = make_compose(&[("a", &["b"]), ("b", &["a"])]);
    match topological_order(&compose) {
        Err(ComposeError::CircularDependency { cycle }) => assert_eq!(cycle, "b -> a"),
        _ => panic!("expected a cycle"),
    }
}

#[test]
fn self_dependency_is_a_cycle() {
    let compose = make_compose(&[("a", &["a"])]);
    match topological_order(&compose) {
        Err(ComposeError::CircularDependency { cycle }) => assert_eq!(cycle, "a -> a"),
        _ => panic!("expected a cycle"),
    }
}

#[test]
fn undefined_dependency_is_a_validation_error() {
    let compose = make_compose(&[("web", &["db"])]);
    match topological_order(&compose) {
        Err(ComposeError::ValidationError { message }) => assert_eq!(
            message,
            "Service 'web' depends on 'db', which is not defined in the compose file"
        ),
        _ => panic!("expected a validation error"),
    }
}

#[test]
fn mapping_dependencies_are_followed() {
    let mut conds = StrMap::new();
    conds.insert(
        "db".to_string(),
        DependsOnCondition { condition: Some("service_healthy".to_string()), required: None, restart: None },
    );
    let mut web = Service::default();
    web.depends_on = Some(DependsOn::Mapping(conds));
    let mut services = StrMap::new();
    services.insert("web".to_string(), web);
    services.insert("db".to_string(), Service::default());
    let compose = Compose { services, ..Default::default() };
    assert_eq!(topological_order(&compose).unwrap(), vec!["db", "web"]);
}

#[test]
fn empty_document_has_empty_order() {
    let compose = Compose::default();
    assert!(topological_order(&compose).unwrap().is_empty());
}

#[test]
fn depth_first_order_from_names_in_ascending_order() {
    let compose = make_compose(&[("b", &["c"]), ("a", &[]), ("c", &[])]);
    assert_eq!(topological_order(&compose).unwrap(), vec!["a", "c", "b"]);
    let compose = make_compose(&[("web", &["db", "cache"]), ("db", &[]), ("cache", &[])]);
    assert_eq!(topological_order(&compose).unwrap(), vec!["cache", "db", "web"]);
}

#[test]
fn cycle_edge_is_the_first_found_from_the_smallest_name() {
    let compose = make_compose(&[("y", &["x"]), ("x", &["y"]), ("a", &[])]);
    match topological_order(&compose) {
        Err(ComposeError::CircularDependency { cycle }) => assert_eq!(cycle, "y -> x"),
        other => panic!("unexpected {:?}", other),
    }
}

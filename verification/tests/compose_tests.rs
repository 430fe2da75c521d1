use perry_container_compose::compose::{
    compose_handle, container_spec_for, containers_of_service, engine_env, find_labeled, format_logs,
    missing_external, require_service, resolve_container_name, resolve_startup_order, resource_action,
    start_action, startup_failed, with_compose_labels, ResourceAction, Session, StartAction,
};
use perry_container_compose::entities::service::DictValue;
use perry_container_compose::error::ComposeError;
use perry_container_compose::strmap::StrMap;
use perry_container_compose::types::{
    CommandValue, ComposeService, ComposeSpec, ContainerInfo, DependsOnSpec, ListOrDict,
};

fn spec_of(edges: &[(&str, &[&str])]) -> ComposeSpec {
    let mut services = StrMap::new();
    for (name, deps) in edges {
        let mut svc = ComposeService::default();
        if !deps.is_empty() {
            svc.depends_on = Some(DependsOnSpec::List(deps.iter().map(|s| s.to_string()).collect()));
        }
        services.insert(name.to_string(), svc);
    }
    ComposeSpec { services, ..Default::default() }
}

fn info(id: &str, labels: &[(&str, &str)]) -> ContainerInfo {
    let mut m = StrMap::new();
    for (k, v) in labels {
        m.insert(k.to_string(), v.to_string());
    }
    ContainerInfo {
        id: id.to_string(),
        name: id.to_string(),
        image: String::new(),
        status: String::new(),
        ports: vec![],
        labels: m,
        created: String::new(),
    }
}

#[test]
fn startup_order_follows_dependencies() {
    let spec = spec_of(&[("web", &["db"]), ("db", &[]), ("proxy", &["web"])]);
    assert_eq!(resolve_startup_order(&spec).unwrap(), vec!["db", "web", "proxy"]);
}

#[test]
fn startup_order_takes_smallest_ready_name_first() {
    let spec = spec_of(&[("c", &[]), ("a", &["z"]), ("b", &[]), ("z", &[])]);
    assert_eq!(resolve_startup_order(&spec).unwrap(), vec!["b", "c", "z", "a"]);
}

#[test]
fn startup_order_counts_repeated_dependencies_once() {
    let spec = spec_of(&[("a", &["b", "b"]), ("b", &[])]);
    assert_eq!(resolve_startup_order(&spec).unwrap(), vec!["b", "a"]);
}

#[test]
fn startup_cycle_lists_blocked_services() {
    let spec = spec_of(&[("a", &["b"]), ("b", &["a"]), ("c", &[]), ("d", &["a"])]);
    match resolve_startup_order(&spec) {
        Err(ComposeError::DependencyCycle { services }) => assert_eq!(services, vec!["a", "b", "d"]),
        _ => panic!("expected a dependency cycle"),
    }
}

#[test]
fn startup_undefined_dependency() {
    let spec = spec_of(&[("a", &["missing"])]);
    match resolve_startup_order(&spec) {
        Err(ComposeError::ValidationError { message }) => {
            assert_eq!(message, "Service 'a' depends on 'missing' which is not defined")
        }
        _ => panic!("expected a validation error"),
    }
}

#[test]
fn resource_actions() {
    assert_eq!(resource_action(true, true), ResourceAction::Keep);
    assert_eq!(resource_action(false, true), ResourceAction::Keep);
    assert_eq!(resource_action(true, false), ResourceAction::Fail);
    assert_eq!(resource_action(false, false), ResourceAction::Create);
    match missing_external("network", "front") {
        ComposeError::ValidationError { message } => assert_eq!(message, "External network 'front' not found"),
        _ => panic!("expected a validation error"),
    }
}

#[test]
fn labeled_containers_are_found() {
    let list = vec![
        info("x", &[("perry.compose.project", "other"), ("perry.compose.service", "web")]),
        info("y", &[("perry.compose.project", "p"), ("perry.compose.service", "web")]),
        info("z", &[("perry.compose.project", "p"), ("perry.compose.service", "web")]),
        info("w", &[("perry.compose.project", "p")]),
    ];
    assert_eq!(find_labeled(&list, "p", "web"), Some(1));
    assert_eq!(find_labeled(&list, "p", "db"), None);
    assert_eq!(containers_of_service(&list, "p", "web"), vec!["y", "z"]);
    assert!(containers_of_service(&list, "q", "web").is_empty());
}

#[test]
fn container_name_resolution() {
    assert_eq!(resolve_container_name(Some("cached".to_string()), None, "web", None), "cached");
    assert_eq!(resolve_container_name(None, None, "web", None), "web-unknown");
    let svc = ComposeService { container_name: Some("fixed".to_string()), ..Default::default() };
    assert_eq!(resolve_container_name(None, Some(&svc), "web", None), "fixed");
    let plain = ComposeService::default();
    assert!(resolve_container_name(None, Some(&plain), "abc", None).starts_with("90015098-"));
}

#[test]
fn container_spec_from_service() {
    let mut env = StrMap::new();
    env.insert("A".to_string(), Some(DictValue::Str("1".to_string())));
    env.insert("B".to_string(), None);
    let svc = ComposeService {
        image: Some("nginx".to_string()),
        ports: Some(vec!["80:80".to_string()]),
        networks: Some(vec!["front".to_string(), "back".to_string()]),
        environment: Some(ListOrDict::Dict(env)),
        command: Some(CommandValue::Text("nginx -g daemon".to_string())),
        ..Default::default()
    };
    let labels = with_compose_labels(StrMap::new(), "proj", "web");
    let spec = container_spec_for(&svc, &"web-1".to_string(), labels);
    assert_eq!(spec.image, "nginx");
    assert_eq!(spec.name.as_deref(), Some("web-1"));
    assert_eq!(spec.ports.unwrap(), vec!["80:80"]);
    assert!(spec.volumes.unwrap().is_empty());
    assert_eq!(spec.network.as_deref(), Some("front"));
    assert_eq!(spec.cmd.unwrap(), vec!["nginx -g daemon"]);
    let e = spec.env.unwrap();
    assert_eq!(e.get("A").unwrap(), "1");
    assert_eq!(e.get("B").unwrap(), "");
    let l = spec.labels.unwrap();
    assert_eq!(l.get("perry.compose.project").unwrap(), "proj");
    assert_eq!(l.get("perry.compose.service").unwrap(), "web");
}

#[test]
fn engine_environment_of_list() {
    let e = engine_env(&Some(ListOrDict::List(vec!["A=1=2".to_string(), "NOVALUE".to_string()])));
    assert_eq!(e.len(), 1);
    assert_eq!(e.get("A").unwrap(), "1=2");
}

#[test]
fn item_commands_keep_non_strings_as_empty_words() {
    let svc = ComposeService {
        command: Some(CommandValue::Items(vec![Some("echo".to_string()), None, Some("hi".to_string())])),
        ..Default::default()
    };
    let spec = container_spec_for(&svc, &"n".to_string(), StrMap::new());
    assert_eq!(spec.cmd.unwrap(), vec!["echo", "", "hi"]);
    assert_eq!(spec.image, "");
    assert_eq!(spec.network, None);
}

#[test]
fn start_actions() {
    assert_eq!(start_action(Some("running")), StartAction::Skip);
    assert_eq!(start_action(Some("exited")), StartAction::StartExisting);
    assert_eq!(start_action(None), StartAction::Run);
}

#[test]
fn startup_failure_carries_cause_text() {
    match startup_failed("web", &ComposeError::NotFound("img".to_string())) {
        ComposeError::ServiceStartupFailed { service, error } => {
            assert_eq!(service, "web");
            assert_eq!(error, "Not found: img");
        }
        _ => panic!("expected a startup failure"),
    }
}

#[test]
fn logs_are_framed() {
    assert_eq!(format_logs("out", "err"), "STDOUT:\nout\nSTDERR:\nerr");
}

#[test]
fn unknown_service_is_not_found() {
    let spec = spec_of(&[("web", &[])]);
    assert!(require_service(&spec, "web").is_ok());
    match require_service(&spec, "db") {
        Err(ComposeError::NotFound(s)) => assert_eq!(s, "db"),
        _ => panic!("expected NotFound"),
    }
}

#[test]
fn handle_lists_services() {
    let spec = spec_of(&[("web", &[]), ("db", &[])]);
    let h = compose_handle(7, "proj", &spec);
    assert_eq!(h.stack_id, 7);
    assert_eq!(h.project_name, "proj");
    assert_eq!(h.services, vec!["web", "db"]);
}

#[test]
fn startup_cycle_lists_blocked_services_in_document_order() {
    let spec = spec_of(&[("d", &["a"]), ("b", &["a"]), ("a", &["b"]), ("c", &[])]);
    match resolve_startup_order(&spec) {
        Err(ComposeError::DependencyCycle { services }) => assert_eq!(services, vec!["d", "b", "a"]),
        _ => panic!("expected a dependency cycle"),
    }
}

#[test]
fn startup_reports_first_undefined_dependency_in_document_order() {
    let spec = spec_of(&[("z", &["ok", "m1"]), ("ok", &[]), ("a", &["m2"])]);
    match resolve_startup_order(&spec) {
        Err(ComposeError::ValidationError { message }) => {
            assert_eq!(message, "Service 'z' depends on 'm1' which is not defined")
        }
        _ => panic!("expected a validation error"),
    }
    let spec = spec_of(&[("x", &["y"]), ("y", &["x"]), ("w", &["nope"])]);
    match resolve_startup_order(&spec) {
        Err(ComposeError::ValidationError { message }) => {
            assert_eq!(message, "Service 'w' depends on 'nope' which is not defined")
        }
        _ => panic!("expected a validation error"),
    }
}

#[test]
fn document_order_is_kept_and_start_order_is_by_dependency() {
    let spec = spec_of(&[("web", &["db"]), ("db", &[])]);
    assert_eq!(compose_handle(1, "p", &spec).services, vec!["web", "db"]);
    assert_eq!(resolve_startup_order(&spec).unwrap(), vec!["db", "web"]);
}

#[test]
fn session_rollback_and_down() {
    let mut s = Session::new();
    s.record_network("n1".to_string());
    s.record_container("c1".to_string());
    s.record_volume("v1".to_string());
    s.record_container("c2".to_string());
    s.record_volume("v2".to_string());
    let plan = s.down(false);
    assert_eq!(plan.containers, vec!["c2", "c1"]);
    assert_eq!(plan.networks, vec!["n1"]);
    assert!(plan.volumes.is_empty());
    assert_eq!(s.volumes, vec!["v1", "v2"]);
    assert!(s.containers.is_empty());
    let plan = s.down(true);
    assert_eq!(plan.volumes, vec!["v2", "v1"]);
    assert!(s.volumes.is_empty());
    s.record_container("c3".to_string());
    let plan = s.rollback();
    assert_eq!(plan.containers, vec!["c3"]);
    assert!(s.containers.is_empty());
}

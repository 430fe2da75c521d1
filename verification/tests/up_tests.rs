use perry_container_compose::compose::Session;
use perry_container_compose::error::ComposeError;
use perry_container_compose::strmap::StrMap;
use perry_container_compose::types::{
    ComposeNetwork, ComposeService, ComposeServiceBuild, ComposeSpec, ComposeVolume, ContainerInfo, ListOrDict,
};
use perry_container_compose::down::{down_next, DownAction, DownEvent, DownStage, DownState};
use perry_container_compose::up::{
    service_labels, up_container_name, up_needs_build, up_next, UpAction, UpEvent, UpStage, UpState,
};

fn info(name: &str, labels: &[(&str, &str)]) -> ContainerInfo {
    let mut m = StrMap::new();
    for (k, v) in labels {
        m.insert(k.to_string(), v.to_string());
    }
    ContainerInfo {
        id: format!("id-{}", name),
        name: name.to_string(),
        image: String::new(),
        status: String::new(),
        ports: vec![],
        labels: m,
        created: String::new(),
    }
}

fn built() -> ComposeService {
    ComposeService {
        build: Some(ComposeServiceBuild { context: Some(".".to_string()), dockerfile: None, args: None }),
        ..Default::default()
    }
}

fn image(i: &str) -> ComposeService {
    ComposeService { image: Some(i.to_string()), ..Default::default() }
}

fn spec_with(services: Vec<(&str, ComposeService)>, networks: &[(&str, bool)], volumes: &[(&str, bool)]) -> ComposeSpec {
    let mut s = StrMap::new();
    for (n, svc) in services {
        s.insert(n.to_string(), svc);
    }
    let mut nets = StrMap::new();
    for (n, ext) in networks {
        nets.insert(n.to_string(), Some(ComposeNetwork { external: Some(*ext), ..Default::default() }));
    }
    let mut vols = StrMap::new();
    for (n, ext) in volumes {
        vols.insert(n.to_string(), Some(ComposeVolume { external: Some(*ext), ..Default::default() }));
    }
    ComposeSpec {
        services: s,
        networks: if networks.is_empty() { None } else { Some(nets) },
        volumes: if volumes.is_empty() { None } else { Some(vols) },
        ..Default::default()
    }
}

fn targets(names: &[&str]) -> Result<Vec<String>, ComposeError> {
    Ok(names.iter().map(|s| s.to_string()).collect())
}

#[test]
fn build_only_for_services_that_build() {
    assert!(up_needs_build(&built(), true, true));
    assert!(up_needs_build(&built(), false, false));
    assert!(!up_needs_build(&built(), false, true));
    assert!(!up_needs_build(&image("nginx"), true, false));
    let both = ComposeService { image: Some("x".to_string()), ..built() };
    assert!(!up_needs_build(&both, true, false));
}

#[test]
fn container_name_prefers_cache_then_labels() {
    let listed = vec![
        info("other", &[("perry.compose.project", "p"), ("perry.compose.service", "db")]),
        info("found", &[("perry.compose.project", "p"), ("perry.compose.service", "web")]),
        info("second", &[("perry.compose.project", "p"), ("perry.compose.service", "web")]),
    ];
    let svc = ComposeService { container_name: Some("own".to_string()), ..Default::default() };
    assert_eq!(up_container_name(Some("cached".to_string()), &listed, "p", "web", &svc, None), "cached");
    assert_eq!(up_container_name(None, &listed, "p", "web", &svc, None), "found");
    assert_eq!(up_container_name(None, &listed, "q", "web", &svc, None), "own");
    let fresh = up_container_name(None, &Vec::new(), "p", "web", &image("nginx"), None);
    assert_eq!(fresh.len(), 17);
    assert_eq!(&fresh[8..9], "-");
}

#[test]
fn labels_add_project_and_service() {
    let mut d = StrMap::new();
    d.insert("tier".to_string(), Some(perry_container_compose::entities::service::DictValue::Str("front".to_string())));
    let svc = ComposeService { labels: Some(ListOrDict::Dict(d)), ..Default::default() };
    let l = service_labels(&svc, "proj", "web");
    assert_eq!(l.get("tier").map(|s| s.as_str()), Some("front"));
    assert_eq!(l.get("perry.compose.project").map(|s| s.as_str()), Some("proj"));
    assert_eq!(l.get("perry.compose.service").map(|s| s.as_str()), Some("web"));
}

#[test]
fn up_creates_missing_resources_then_runs_in_order() {
    let spec = spec_with(vec![("db", image("postgres")), ("web", image("nginx"))], &[("front", false)], &[("data", false)]);
    let mut st = UpState::new(spec, "p".to_string(), targets(&["db", "web"]), false, Session::new(), StrMap::new());
    assert!(matches!(up_next(&mut st, UpEvent::Begin), UpAction::InspectNetwork(n) if n == "front"));
    assert!(matches!(up_next(&mut st, UpEvent::Present(false)), UpAction::CreateNetwork(n) if n == "front"));
    assert!(matches!(up_next(&mut st, UpEvent::Done), UpAction::InspectVolume(n) if n == "data"));
    assert_eq!(st.session.networks, vec!["front".to_string()]);
    assert!(matches!(up_next(&mut st, UpEvent::Present(false)), UpAction::CreateVolume(n) if n == "data"));
    assert!(matches!(up_next(&mut st, UpEvent::Done), UpAction::ListContainers));
    assert_eq!(st.session.volumes, vec!["data".to_string()]);
    let listed = vec![info("db-old", &[("perry.compose.project", "p"), ("perry.compose.service", "db")])];
    assert!(matches!(up_next(&mut st, UpEvent::Listed(listed, None)), UpAction::Inspect(n) if n == "db-old"));
    assert_eq!(st.names.get("db").map(|s| s.as_str()), Some("db-old"));
    assert!(matches!(up_next(&mut st, UpEvent::Status(Some("exited".to_string()))), UpAction::Start(n) if n == "db-old"));
    assert!(matches!(up_next(&mut st, UpEvent::Done), UpAction::ListContainers));
    match up_next(&mut st, UpEvent::Listed(vec![], None)) {
        UpAction::Inspect(n) => assert_eq!(n.len(), 17),
        _ => panic!("expected an inspection"),
    }
    match up_next(&mut st, UpEvent::Status(None)) {
        UpAction::Run(cs) => {
            assert_eq!(cs.image, "nginx");
            assert_eq!(cs.name.as_deref(), Some(st.current.as_str()));
            let labels = cs.labels.unwrap();
            assert_eq!(labels.get("perry.compose.service").map(|s| s.as_str()), Some("web"));
        }
        _ => panic!("expected a run"),
    }
    assert!(matches!(up_next(&mut st, UpEvent::Ran("c1".to_string())), UpAction::Finish));
    assert_eq!(st.session.containers, vec!["c1".to_string()]);
    assert_eq!(st.stage, UpStage::Finished);
}

#[test]
fn up_stops_on_missing_external_network() {
    let spec = spec_with(vec![("web", image("nginx"))], &[("shared", true)], &[]);
    let mut st = UpState::new(spec, "p".to_string(), targets(&["web"]), false, Session::new(), StrMap::new());
    up_next(&mut st, UpEvent::Begin);
    match up_next(&mut st, UpEvent::Present(false)) {
        UpAction::Fail(ComposeError::ValidationError { message }) => {
            assert_eq!(message, "External network 'shared' not found")
        }
        _ => panic!("expected the missing network"),
    }
    assert_eq!(st.stage, UpStage::Stopped);
}

#[test]
fn failed_run_rolls_back_newest_first() {
    let spec = spec_with(vec![("a", image("x")), ("b", image("y"))], &[("n1", false), ("n2", false)], &[]);
    let mut names = StrMap::new();
    names.insert("a".to_string(), "ca".to_string());
    names.insert("b".to_string(), "cb".to_string());
    let mut st = UpState::new(spec, "p".to_string(), targets(&["a", "b"]), false, Session::new(), names);
    up_next(&mut st, UpEvent::Begin);
    up_next(&mut st, UpEvent::Present(false));
    up_next(&mut st, UpEvent::Done);
    up_next(&mut st, UpEvent::Present(false));
    assert!(matches!(up_next(&mut st, UpEvent::Done), UpAction::Inspect(n) if n == "ca"));
    assert!(matches!(up_next(&mut st, UpEvent::Status(None)), UpAction::Run(_)));
    assert!(matches!(up_next(&mut st, UpEvent::Ran("c-a".to_string())), UpAction::Inspect(n) if n == "cb"));
    assert!(matches!(up_next(&mut st, UpEvent::Status(None)), UpAction::Run(_)));
    match up_next(&mut st, UpEvent::Failed(ComposeError::Other("boom".to_string()))) {
        UpAction::Rollback(plan, ComposeError::ServiceStartupFailed { service, error }) => {
            assert_eq!(plan.containers, vec!["c-a".to_string()]);
            assert_eq!(plan.networks, vec!["n2".to_string(), "n1".to_string()]);
            assert!(plan.volumes.is_empty());
            assert_eq!(service, "b");
            assert_eq!(error, "Other error: boom");
        }
        _ => panic!("expected a rollback"),
    }
    assert!(st.session.containers.is_empty() && st.session.networks.is_empty());
}

#[test]
fn second_up_of_running_stack_creates_nothing() {
    let spec = spec_with(vec![("web", built())], &[("front", false)], &[]);
    let mut names = StrMap::new();
    names.insert("web".to_string(), "web-c".to_string());
    let mut st = UpState::new(spec, "p".to_string(), targets(&["web"]), false, Session::new(), names);
    assert!(matches!(up_next(&mut st, UpEvent::Begin), UpAction::InspectNetwork(_)));
    assert!(matches!(up_next(&mut st, UpEvent::Present(true)), UpAction::InspectImage(r) if r == "web"));
    assert!(matches!(up_next(&mut st, UpEvent::Present(true)), UpAction::Inspect(n) if n == "web-c"));
    assert!(matches!(up_next(&mut st, UpEvent::Status(Some("running".to_string()))), UpAction::Finish));
    assert!(st.session.containers.is_empty() && st.session.networks.is_empty());
}

#[test]
fn forced_build_and_order_error() {
    let spec = spec_with(vec![("web", built())], &[], &[]);
    let mut st = UpState::new(spec, "p".to_string(), targets(&["web"]), true, Session::new(), StrMap::new());
    assert!(matches!(up_next(&mut st, UpEvent::Begin), UpAction::Build(s, r) if s == "web" && r == "web"));
    assert!(matches!(up_next(&mut st, UpEvent::Failed(ComposeError::Other("no".to_string()))), UpAction::Fail(ComposeError::Other(m)) if m == "no"));

    let spec = spec_with(vec![("web", image("x"))], &[], &[("v", false)]);
    let err = Err(ComposeError::ValidationError { message: "bad".to_string() });
    let mut st = UpState::new(spec, "p".to_string(), err, false, Session::new(), StrMap::new());
    assert!(matches!(up_next(&mut st, UpEvent::Begin), UpAction::InspectVolume(_)));
    assert!(matches!(up_next(&mut st, UpEvent::Present(true)), UpAction::Fail(ComposeError::ValidationError { message }) if message == "bad"));
}

#[test]
fn down_undoes_session_then_removes_in_reverse_order() {
    let spec = spec_with(vec![("db", image("postgres")), ("web", image("nginx"))], &[("front", false), ("ext", true)], &[("data", false)]);
    let mut session = Session::new();
    session.record_network("front".to_string());
    session.record_volume("data".to_string());
    session.record_container("c1".to_string());
    session.record_container("c2".to_string());
    let mut names = StrMap::new();
    names.insert("db".to_string(), "db-c".to_string());
    names.insert("web".to_string(), "web-c".to_string());
    let mut st = DownState::new(spec, "p".to_string(), targets(&["db", "web"]), false, session, names);
    match down_next(&mut st, DownEvent::Begin) {
        DownAction::Teardown(plan) => {
            assert_eq!(plan.containers, vec!["c2".to_string(), "c1".to_string()]);
            assert_eq!(plan.networks, vec!["front".to_string()]);
            assert!(plan.volumes.is_empty());
        }
        _ => panic!("expected the session teardown"),
    }
    assert_eq!(st.session.volumes, vec!["data".to_string()]);
    assert!(matches!(down_next(&mut st, DownEvent::Done), DownAction::ListContainers));
    let listed = vec![
        info("w1", &[("perry.compose.project", "p"), ("perry.compose.service", "web")]),
        info("d1", &[("perry.compose.project", "p"), ("perry.compose.service", "db")]),
    ];
    match down_next(&mut st, DownEvent::Listed(listed.clone(), None)) {
        DownAction::RemoveContainers(ids) => assert_eq!(ids, vec!["id-w1".to_string(), "web-c".to_string()]),
        _ => panic!("expected the web containers first"),
    }
    assert!(matches!(down_next(&mut st, DownEvent::Failed(ComposeError::Other("ignored".to_string()))), DownAction::ListContainers));
    match down_next(&mut st, DownEvent::Listed(listed, None)) {
        DownAction::RemoveContainers(ids) => assert_eq!(ids, vec!["id-d1".to_string(), "db-c".to_string()]),
        _ => panic!("expected the db containers"),
    }
    match down_next(&mut st, DownEvent::Done) {
        DownAction::RemoveResources(networks, volumes) => {
            assert_eq!(networks, vec!["front".to_string()]);
            assert!(volumes.is_empty());
        }
        _ => panic!("expected the networks"),
    }
    assert!(matches!(down_next(&mut st, DownEvent::Done), DownAction::Finish));
    assert_eq!(st.stage, DownStage::Finished);
}

#[test]
fn down_with_volumes_and_failures() {
    let spec = spec_with(vec![("web", image("nginx"))], &[], &[("data", false), ("keep", true)]);
    let mut session = Session::new();
    session.record_volume("data".to_string());
    let mut st = DownState::new(spec, "p".to_string(), targets(&["web"]), true, session, StrMap::new());
    match down_next(&mut st, DownEvent::Begin) {
        DownAction::Teardown(plan) => assert_eq!(plan.volumes, vec!["data".to_string()]),
        _ => panic!("expected the session teardown"),
    }
    assert!(st.session.volumes.is_empty());
    down_next(&mut st, DownEvent::Done);
    match down_next(&mut st, DownEvent::Listed(vec![], None)) {
        DownAction::RemoveContainers(ids) => assert_eq!(ids.len(), 1),
        _ => panic!("expected the own container"),
    }
    match down_next(&mut st, DownEvent::Done) {
        DownAction::RemoveResources(networks, volumes) => {
            assert!(networks.is_empty());
            assert_eq!(volumes, vec!["data".to_string()]);
        }
        _ => panic!("expected the volumes"),
    }

    let spec = spec_with(vec![("web", image("nginx"))], &[], &[]);
    let mut st = DownState::new(spec, "p".to_string(), targets(&["web"]), false, Session::new(), StrMap::new());
    down_next(&mut st, DownEvent::Begin);
    down_next(&mut st, DownEvent::Done);
    assert!(matches!(down_next(&mut st, DownEvent::Failed(ComposeError::Other("x".to_string()))), DownAction::Fail(ComposeError::Other(m)) if m == "x"));

    let spec = spec_with(vec![("web", image("nginx"))], &[], &[]);
    let err = Err(ComposeError::ValidationError { message: "bad".to_string() });
    let mut st = DownState::new(spec, "p".to_string(), err, false, Session::new(), StrMap::new());
    down_next(&mut st, DownEvent::Begin);
    assert!(matches!(down_next(&mut st, DownEvent::Done), DownAction::Fail(ComposeError::ValidationError { message }) if message == "bad"));
}

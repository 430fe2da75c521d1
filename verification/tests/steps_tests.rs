use perry_container_compose::container_cli::ContainerStatus;
use perry_container_compose::entities::compose::{Compose, ComposeNetwork, ComposeVolume};
use perry_container_compose::entities::service::{Build, BuildEntry, ListOrDict, PortEntry, Service, StringOrList};
use perry_container_compose::error::ComposeError;
use perry_container_compose::orchestrate::steps::{
    down_step, exec_error, exec_gate, network_steps, reversed, run_request, select_targets, up_step, volume_steps,
    UpStep,
};
use perry_container_compose::strmap::StrMap;

fn strings(v: &[&str]) -> Vec<String> {
    v.iter().map(|s| s.to_string()).collect()
}

#[test]
fn targets_follow_start_order() {
    let order = strings(&["db", "web", "proxy"]);
    assert_eq!(select_targets(&order, &vec![]), order);
    assert_eq!(select_targets(&order, &strings(&["proxy", "db"])), strings(&["db", "proxy"]));
    assert!(select_targets(&order, &strings(&["none"])).is_empty());
    assert_eq!(reversed(&order), strings(&["proxy", "web", "db"]));
}

#[test]
fn network_and_volume_steps() {
    let mut nets = StrMap::new();
    nets.insert("ext".to_string(), ComposeNetwork { external: Some(true), ..Default::default() });
    nets.insert(
        "front".to_string(),
        ComposeNetwork {
            name: Some("proj_front".to_string()),
            driver: Some("bridge".to_string()),
            labels: Some(ListOrDict::List(vec!["a=b".to_string()])),
            ..Default::default()
        },
    );
    let mut vols = StrMap::new();
    vols.insert("data".to_string(), ComposeVolume { labels: Some(ListOrDict::List(vec![])), ..Default::default() });
    let compose = Compose { networks: Some(nets), volumes: Some(vols), ..Default::default() };
    let n = network_steps(&compose);
    assert_eq!(n.len(), 2);
    assert!(n[0].skip);
    assert_eq!(n[0].name, "ext");
    assert!(!n[1].skip);
    assert_eq!(n[1].name, "proj_front");
    assert_eq!(n[1].driver.as_deref(), Some("bridge"));
    assert_eq!(n[1].labels.as_ref().unwrap().get("a").unwrap(), "b");
    let v = volume_steps(&compose);
    assert_eq!(v.len(), 1);
    assert_eq!(v[0].name, "data");
    assert!(v[0].labels.is_none());
    assert!(network_steps(&Compose::default()).is_empty());
}

#[test]
fn run_request_of_a_service() {
    let mut svc = Service::default();
    svc.image = Some("redis:7".to_string());
    svc.ports = Some(vec![PortEntry::Short("\"6379:6379\"".to_string())]);
    svc.command = Some(StringOrList::String("redis-server".to_string()));
    svc.labels = Some(ListOrDict::List(vec!["tier=cache".to_string()]));
    let r = run_request(&svc, "cache", "proj");
    assert_eq!(r.image, "redis:7");
    assert_eq!(r.ports.unwrap(), vec!["6379:6379"]);
    assert!(r.volumes.is_none());
    assert!(r.env.is_none());
    assert_eq!(r.cmd.unwrap(), vec!["redis-server"]);
    assert!(r.build.is_none());
    assert_eq!(r.labels.get("tier").unwrap(), "cache");
    assert_eq!(r.labels.get("perry.compose.project").unwrap(), "proj");
    assert_eq!(r.labels.get("perry.compose.service").unwrap(), "cache");
    assert_eq!(r.labels.len(), 3);
    assert!(r.container_name.starts_with("cache_"));
}

#[test]
fn run_request_of_a_built_service() {
    let mut svc = Service::default();
    svc.build = Some(BuildEntry::String("./app".to_string()));
    svc.name = Some("app-1".to_string());
    let r = run_request(&svc, "app", "proj");
    assert_eq!(r.container_name, "app-1");
    assert_eq!(r.image, "app-image");
    let b = r.build.unwrap();
    assert_eq!(b.context, "./app");
    assert_eq!(b.tag, "app-image");
    assert!(b.dockerfile.is_none());
    let mut obj = Service::default();
    obj.build = Some(BuildEntry::Object(Build {
        context: None,
        dockerfile: Some("D".to_string()),
        dockerfile_inline: None,
        args: None,
        labels: None,
        cache_from: None,
        cache_to: None,
        no_cache: None,
        network: None,
        target: Some("t".to_string()),
        extra_hosts: None,
        isolation: None,
        privileged: None,
        tags: None,
        platforms: None,
        pull: None,
        entitlements: None,
    }));
    let b2 = run_request(&obj, "x", "p").build.unwrap();
    assert_eq!(b2.context, ".");
    assert_eq!(b2.dockerfile.as_deref(), Some("D"));
    assert_eq!(b2.target.as_deref(), Some("t"));
}

#[test]
fn status_steps() {
    assert_eq!(up_step(ContainerStatus::Running), UpStep::Keep);
    assert_eq!(up_step(ContainerStatus::Stopped), UpStep::Start);
    assert_eq!(up_step(ContainerStatus::NotFound), UpStep::Create);
    assert_eq!(down_step(ContainerStatus::Running), (true, true));
    assert_eq!(down_step(ContainerStatus::Stopped), (false, true));
    assert_eq!(down_step(ContainerStatus::NotFound), (false, false));
}

#[test]
fn exec_needs_a_running_container() {
    assert!(exec_gate(ContainerStatus::Running, "web", "c").is_ok());
    match exec_gate(ContainerStatus::Stopped, "web", "c1") {
        Err(ComposeError::ExecError { service, message }) => {
            assert_eq!(service, "web");
            assert_eq!(message, "container 'c1' is not running");
        }
        _ => panic!("expected an exec error"),
    }
    match exec_error("db", &ComposeError::Other("x".to_string())) {
        ComposeError::ExecError { service, message } => {
            assert_eq!(service, "db");
            assert_eq!(message, "Other error: x");
        }
        _ => panic!("expected an exec error"),
    }
}

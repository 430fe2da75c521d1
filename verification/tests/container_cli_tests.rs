use perry_container_compose::container_cli::{
    apple_exec_args, build_args, check_output, create_resource_args, docker_create_args, docker_exec_args,
    docker_inspect_status, docker_run_args, docker_stop_args, inspect_status, is_not_found, list_args,
    logs_args, reports_missing, run_args, teardown_result, AppleContainerBackend, ContainerStatus,
    DockerBackend, ExecResult, InspectState, get_backend, PlatformBackend,
};
use perry_container_compose::error::ComposeError;
use perry_container_compose::strmap::StrMap;
use perry_container_compose::types::ContainerSpec;

fn map(pairs: &[(&str, &str)]) -> StrMap<String> {
    let mut m = StrMap::new();
    for (k, v) in pairs {
        m.insert(k.to_string(), v.to_string());
    }
    m
}

#[test]
fn status_predicates() {
    assert!(ContainerStatus::Running.is_running());
    assert!(!ContainerStatus::Stopped.is_running());
    assert!(ContainerStatus::Stopped.is_present());
    assert!(!ContainerStatus::NotFound.is_present());
}

#[test]
fn missing_object_messages() {
    assert!(is_not_found("Error: No such container: x"));
    assert!(is_not_found("image NOT FOUND"));
    assert!(!is_not_found("permission denied"));
    assert!(reports_missing("volume does not exist"));
    assert!(reports_missing("no such network"));
    assert!(!reports_missing("No Such network"));
}

#[test]
fn replies_of_commands() {
    assert_eq!(check_output(true, 0, "out".to_string(), "err".to_string()).unwrap(), "out");
    match check_output(false, 2, "out".to_string(), "bad".to_string()) {
        Err(ComposeError::BackendError { code, message }) => {
            assert_eq!(code, 2);
            assert_eq!(message, "bad");
        }
        _ => panic!("expected a backend error"),
    }
    assert!(teardown_result(false, 1, "gone".to_string(), true).is_ok());
    assert!(teardown_result(true, 0, String::new(), false).is_ok());
    assert!(matches!(
        teardown_result(false, 3, "boom".to_string(), false),
        Err(ComposeError::BackendError { code: 3, .. })
    ));
}

#[test]
fn apple_inspect_statuses() {
    let running = Some(Some(InspectState { status: None, running: Some(true) }));
    assert_eq!(inspect_status(true, 0, String::new(), running).unwrap(), ContainerStatus::Running);
    let by_status = Some(Some(InspectState { status: Some("running".to_string()), running: None }));
    assert_eq!(inspect_status(true, 0, String::new(), by_status).unwrap(), ContainerStatus::Running);
    let stopped = Some(Some(InspectState { status: Some("exited".to_string()), running: None }));
    assert_eq!(inspect_status(true, 0, String::new(), stopped).unwrap(), ContainerStatus::Stopped);
    assert_eq!(inspect_status(true, 0, String::new(), None).unwrap(), ContainerStatus::Stopped);
    assert_eq!(
        inspect_status(false, 1, "container not found".to_string(), None).unwrap(),
        ContainerStatus::NotFound
    );
    assert!(inspect_status(false, 1, "daemon down".to_string(), None).is_err());
}

#[test]
fn docker_inspect_statuses() {
    assert_eq!(docker_inspect_status(true, 0, String::new(), Some(Some(true))).unwrap(), ContainerStatus::Running);
    assert_eq!(docker_inspect_status(true, 0, String::new(), Some(None)).unwrap(), ContainerStatus::Stopped);
    assert_eq!(
        docker_inspect_status(false, 1, "Error: No such object".to_string(), None).unwrap(),
        ContainerStatus::NotFound
    );
}

#[test]
fn shared_build_and_run_args() {
    let args = map(&[("B", "2")]);
    assert_eq!(
        build_args(".", Some("Df"), "tag", Some(&args), Some("prod"), None),
        vec!["build", "-t", "tag", ".", "-f", "Df", "--build-arg", "B=2", "--target", "prod"]
    );
    let ports = vec!["80:80".to_string()];
    let labels = map(&[("x", "y")]);
    let cmd = vec!["sh".to_string()];
    assert_eq!(
        run_args("img", "n", Some(&ports), None, None, Some(&labels), Some(&cmd), true),
        vec!["run", "--name", "n", "-d", "-p", "80:80", "--label", "x=y", "img", "sh"]
    );
}

#[test]
fn exec_and_resource_args() {
    let env = map(&[("K", "V")]);
    let cmd = vec!["ls".to_string()];
    assert_eq!(
        apple_exec_args("c", &cmd, Some("root"), Some("/w"), Some(&env)),
        vec!["exec", "--user", "root", "--workdir", "/w", "-e", "K=V", "c", "ls"]
    );
    assert_eq!(docker_exec_args("c", &cmd, Some("/w"), Some(&env)), vec!["exec", "-e", "K=V", "-w", "/w", "c", "ls"]);
    assert_eq!(
        create_resource_args("network", "n", Some("bridge"), None),
        vec!["network", "create", "--driver", "bridge", "n"]
    );
    assert_eq!(logs_args("c", Some(5)), vec!["logs", "--tail", "5", "c"]);
    assert_eq!(list_args(Some("a=b")), vec!["ps", "--format", "json", "--all", "--filter", "label=a=b"]);
    assert_eq!(list_args(None), vec!["ps", "--format", "json", "--all"]);
}

#[test]
fn docker_spec_args() {
    let s = ContainerSpec {
        image: "img".to_string(),
        name: Some("n".to_string()),
        rm: Some(true),
        env: Some(map(&[("A", "1")])),
        ..Default::default()
    };
    assert_eq!(docker_run_args(&s), vec!["run", "--rm", "--name", "n", "-e", "A=1", "-d", "img"]);
    assert_eq!(docker_create_args(&s), vec!["create", "--name", "n", "-e", "A=1", "img"]);
    assert_eq!(docker_stop_args("n", Some(3)), vec!["stop", "--time", "3", "n"]);
}

#[test]
fn backends_and_exec_results() {
    assert_eq!(AppleContainerBackend::new().bin, "container");
    assert_eq!(AppleContainerBackend::new().name(), "apple-container");
    assert_eq!(DockerBackend::new().bin, "docker");
    assert_eq!(DockerBackend::new().name(), "docker");
    let r = ExecResult { stdout: "o".to_string(), stderr: String::new(), exit_code: 0 };
    assert_eq!(r.exit_code, 0);
}

#[test]
fn platform_backend_choice() {
    match get_backend("macos", false) {
        Ok(PlatformBackend::Apple(b)) => assert_eq!(b.name(), "apple-container"),
        other => panic!("unexpected {:?}", other),
    }
    match get_backend("linux", true) {
        Ok(PlatformBackend::Podman(b)) => {
            assert_eq!(b.bin, "podman");
            assert_eq!(b.name(), "podman");
        }
        other => panic!("unexpected {:?}", other),
    }
    match get_backend("linux", false) {
        Err(ComposeError::BackendNotAvailable { name, .. }) => assert_eq!(name, "podman"),
        other => panic!("unexpected {:?}", other),
    }
}

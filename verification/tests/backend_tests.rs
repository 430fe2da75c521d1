use perry_container_compose::backend::{
    platform_candidates, probe_plan, ProtocolChoice, AppleContainerProtocol, DockerProtocol, LimaProtocol, NetworkConfig, VolumeConfig,
};
use perry_container_compose::args::{decimal, decimal_i32, join, kv_string};
use perry_container_compose::error::ComposeError;
use perry_container_compose::strmap::StrMap;
use perry_container_compose::types::{ComposeNetwork, ComposeServiceBuild, ComposeVolume, ContainerSpec, ListOrDict};

fn map(pairs: &[(&str, &str)]) -> StrMap<String> {
    let mut m = StrMap::new();
    for (k, v) in pairs {
        m.insert(k.to_string(), v.to_string());
    }
    m
}

fn full_spec() -> ContainerSpec {
    ContainerSpec {
        image: "nginx:1".to_string(),
        name: Some("web".to_string()),
        ports: Some(vec!["80:80".to_string(), "443:443".to_string()]),
        volumes: Some(vec!["data:/data".to_string()]),
        env: Some(map(&[("B", "2"), ("A", "1")])),
        labels: None,
        cmd: Some(vec!["nginx".to_string(), "-g".to_string()]),
        entrypoint: Some(vec!["/bin/sh".to_string(), "-c".to_string()]),
        network: Some("front".to_string()),
        rm: Some(true),
    }
}

#[test]
fn docker_run_args_are_exact() {
    let a = DockerProtocol.run_args(&full_spec());
    assert_eq!(
        a,
        vec![
            "run", "--detach", "--rm", "--name", "web", "--network", "front", "-p", "80:80", "-p", "443:443",
            "-v", "data:/data", "-e", "A=1", "-e", "B=2", "--entrypoint", "/bin/sh -c", "nginx:1", "nginx", "-g"
        ]
    );
}

#[test]
fn docker_create_args_of_minimal_spec() {
    let s = ContainerSpec { image: "alpine".to_string(), ..Default::default() };
    assert_eq!(DockerProtocol.create_args(&s), vec!["create", "alpine"]);
}

#[test]
fn docker_simple_commands() {
    let p = DockerProtocol;
    assert_eq!(p.protocol_name(), "docker");
    assert_eq!(p.start_args("c1"), vec!["start", "c1"]);
    assert_eq!(p.stop_args("c1", Some(10)), vec!["stop", "-t", "10", "c1"]);
    assert_eq!(p.stop_args("c1", None), vec!["stop", "c1"]);
    assert_eq!(p.remove_args("c1", true), vec!["rm", "-f", "c1"]);
    assert_eq!(p.remove_args("c1", false), vec!["rm", "c1"]);
    assert_eq!(p.list_args(true), vec!["ps", "--format", "json", "--all"]);
    assert_eq!(p.list_args(false), vec!["ps", "--format", "json"]);
    assert_eq!(p.inspect_args("c1"), vec!["inspect", "--format", "json", "c1"]);
    assert_eq!(p.logs_args("c1", Some(0)), vec!["logs", "--tail", "0", "c1"]);
    assert_eq!(p.pull_image_args("r"), vec!["pull", "r"]);
    assert_eq!(p.list_images_args(), vec!["images", "--format", "json"]);
    assert_eq!(p.remove_image_args("r", true), vec!["rmi", "-f", "r"]);
    assert_eq!(p.inspect_image_args("r"), vec!["image", "inspect", "--format", "json", "r"]);
    assert_eq!(p.manifest_inspect_args("r"), vec!["manifest", "inspect", "r"]);
    assert_eq!(p.remove_network_args("n"), vec!["network", "rm", "n"]);
    assert_eq!(p.inspect_network_args("n"), vec!["network", "inspect", "n"]);
    assert_eq!(p.remove_volume_args("v"), vec!["volume", "rm", "v"]);
    assert_eq!(p.inspect_volume_args("v"), vec!["volume", "inspect", "v"]);
    assert_eq!(p.wait_args("c1"), vec!["wait", "c1"]);
    assert_eq!(p.parse_container_id("  abc123\n").unwrap(), "abc123");
}

#[test]
fn docker_exec_args_sorted_environment() {
    let env = map(&[("Z", "26"), ("A", "1")]);
    let cmd = vec!["ls".to_string(), "-l".to_string()];
    assert_eq!(
        DockerProtocol.exec_args("c1", &cmd, Some(&env), Some("/app")),
        vec!["exec", "--workdir", "/app", "-e", "A=1", "-e", "Z=26", "c1", "ls", "-l"]
    );
    assert_eq!(DockerProtocol.exec_args("c1", &vec![], None, None), vec!["exec", "c1"]);
}

#[test]
fn docker_build_args() {
    let b = ComposeServiceBuild {
        context: None,
        dockerfile: Some("Dockerfile.dev".to_string()),
        args: Some(ListOrDict::List(vec!["V=2".to_string(), "A=1".to_string(), "X".to_string()])),
    };
    assert_eq!(
        DockerProtocol.build_args(&b, "img"),
        vec!["build", "-t", "img", "-f", "Dockerfile.dev", "--build-arg", "A=1", "--build-arg", "V=2", "."]
    );
    let c = ComposeServiceBuild { context: Some("./app".to_string()), dockerfile: None, args: None };
    assert_eq!(DockerProtocol.build_args(&c, "img"), vec!["build", "-t", "img", "./app"]);
}

#[test]
fn docker_network_and_volume_creation() {
    let net = ComposeNetwork {
        driver: Some("bridge".to_string()),
        internal: Some(true),
        enable_ipv6: None,
        labels: Some(ListOrDict::List(vec!["team=core".to_string()])),
        ..Default::default()
    };
    let cfg = NetworkConfig::from_network(&net);
    assert!(cfg.internal);
    assert!(!cfg.enable_ipv6);
    assert_eq!(
        DockerProtocol.create_network_args("front", &cfg),
        vec!["network", "create", "--driver", "bridge", "--label", "team=core", "--internal", "front"]
    );
    let vol = ComposeVolume { driver: None, ..Default::default() };
    let vcfg = VolumeConfig::from_volume(&vol);
    assert_eq!(DockerProtocol.create_volume_args("data", &vcfg), vec!["volume", "create", "data"]);
    let d = NetworkConfig::default();
    assert_eq!(DockerProtocol.create_network_args("n", &d), vec!["network", "create", "n"]);
    assert!(VolumeConfig::default().labels.is_empty());
}

#[test]
fn apple_run_and_lima_prefix() {
    let a = AppleContainerProtocol;
    assert_eq!(a.protocol_name(), "apple/container");
    assert_eq!(a.run_args(&full_spec()), vec!["run", "--rm", "--name", "web", "nginx:1", "nginx", "-g"]);
    let l = LimaProtocol { instance: "default".to_string() };
    assert_eq!(l.protocol_name(), "lima");
    assert_eq!(l.subcommand_prefix().unwrap(), vec!["shell", "default", "nerdctl"]);
}

#[test]
fn argument_helpers() {
    assert_eq!(decimal(0), "0");
    assert_eq!(decimal(4294967295), "4294967295");
    assert_eq!(decimal_i32(-42), "-42");
    assert_eq!(decimal_i32(i32::MIN), "-2147483648");
    assert_eq!(kv_string("k", "v=w"), "k=v=w");
    assert_eq!(join(&vec!["a".to_string(), "b".to_string()], " "), "a b");
    assert_eq!(join(&vec![], ","), "");
}

#[test]
fn docker_list_output_is_read() {
    let out = r#" [{"ID":"a1","Names":"/web","Image":"nginx","Status":"Up"},{"Id":"b2","names":"db"}] "#;
    let v = DockerProtocol.parse_list_output(out).unwrap();
    assert_eq!(v.len(), 2);
    assert_eq!(v[0].id, "a1");
    assert_eq!(v[0].name, "web");
    assert_eq!(v[0].image, "nginx");
    assert_eq!(v[0].status, "Up");
    assert_eq!(v[1].id, "b2");
    assert_eq!(v[1].name, "db");
    assert_eq!(v[1].image, "");
    assert!(DockerProtocol.parse_list_output("not json").unwrap().is_empty());
}

#[test]
fn docker_inspect_output_is_read() {
    let out = r#"[{"Id":"x","Name":"/c","Config":{"Image":"img"},"State":{"Status":"running"},"Created":"t"}]"#;
    let c = DockerProtocol.parse_inspect_output(out).unwrap();
    assert_eq!(c.id, "x");
    assert_eq!(c.name, "c");
    assert_eq!(c.image, "img");
    assert_eq!(c.status, "running");
    assert_eq!(c.created, "t");
    let empty = DockerProtocol.parse_inspect_output("{}").unwrap();
    assert_eq!(empty.id, "");
    assert_eq!(DockerProtocol.parse_inspect_output("[]").unwrap().name, "");
}

#[test]
fn docker_image_outputs_are_read() {
    let out = r#"[{"ID":"i","Repository":"r","Tag":"t","Size":12,"CreatedSince":"2d"}]"#;
    let v = DockerProtocol.parse_list_images_output(out).unwrap();
    assert_eq!(v.len(), 1);
    assert_eq!(v[0].id, "i");
    assert_eq!(v[0].repository, "r");
    assert_eq!(v[0].tag, "t");
    assert_eq!(v[0].size, 12);
    assert_eq!(v[0].created, "2d");
    let m = DockerProtocol.parse_inspect_image_output(r#"{"Id":"sha","Size":5,"Created":"c"}"#).unwrap();
    assert_eq!(m.id, "sha");
    assert_eq!(m.size, 5);
    assert_eq!(m.created, "c");
    assert_eq!(m.repository, "");
}

#[test]
fn backend_choice() {
    assert_eq!(platform_candidates("linux"), vec!["podman", "nerdctl", "docker"]);
    assert_eq!(platform_candidates("windows"), vec!["podman", "docker"]);
    assert_eq!(platform_candidates("macos")[0], "apple/container");
    let p = probe_plan("orbstack").unwrap();
    assert_eq!(p.binaries, vec!["orb", "docker"]);
    assert!(matches!(p.protocol, ProtocolChoice::Docker));
    let l = probe_plan("lima").unwrap();
    assert!(matches!(l.protocol, ProtocolChoice::Lima(ref x) if x.instance == "default"));
    assert!(matches!(l.not_found, ComposeError::NotFound(ref m) if m == "limactl not found"));
    match probe_plan("nope") {
        Err(ComposeError::NotFound(m)) => assert_eq!(m, "Unknown backend: nope"),
        _ => panic!("expected an unknown backend"),
    }
}

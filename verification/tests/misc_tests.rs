use perry_container_compose::cli::{Cli, Commands, ConfigArgs, UpArgs};
use perry_container_compose::codegen::{
    check_module, default_target_triple, match_console_log_number, target_triple, CompileOptions, HirExpr, InitStmt,
    ModuleShape, NumberLiteral,
};
use perry_container_compose::commands::inspect::InspectCommand as InspectById;
use perry_container_compose::commands::InspectCommand;
use perry_container_compose::config::{
    check_files_exist, choose_project_name, compose_file_choice, compose_file_list, compose_file_separator,
    default_compose_file, find_default_compose_file, ComposeFileChoice,
    resolve_project_name, ProjectConfig,
};
use perry_container_compose::digest::{format_hex8, hash8};
use perry_container_compose::env::{expand_capture, interpolate as interpolate_braced};
use perry_container_compose::error::{BackendProbeResult, ComposeError, ErrorResponse};
use perry_container_compose::installer::BackendInstaller;
use perry_container_compose::strmap::StrMap;
use perry_container_compose::swift::escape_swift_string;
use perry_container_compose::testing::mock_backend::MockBackend as LineMock;
use perry_container_compose::testing::{MockBackend, RecordedCall};
use perry_container_compose::text::{split_whitespace, trim_str};
use perry_container_compose::workload::{translate, WorkloadEdge, WorkloadEnvValue, WorkloadGraph, WorkloadNode, WorkloadRef};
use std::path::PathBuf;

fn env_of(pairs: &[(&str, &str)]) -> StrMap<String> {
    let mut m = StrMap::new();
    for (k, v) in pairs {
        m.insert(k.to_string(), v.to_string());
    }
    m
}

#[test]
fn default_compose_files_in_priority_order() {
    assert_eq!(default_compose_file(0), "compose.yaml");
    assert_eq!(default_compose_file(3), "docker-compose.yml");
    assert_eq!(find_default_compose_file("d", &vec![true, true, true, true]).unwrap(), vec!["d/compose.yaml"]);
    assert_eq!(find_default_compose_file("d", &vec![false, true, true, false]).unwrap(), vec!["d/compose.yml"]);
    assert_eq!(find_default_compose_file("/p/", &vec![false, false, false, true]).unwrap(), vec!["/p/docker-compose.yml"]);
    match find_default_compose_file("/tmp/x", &vec![false; 4]) {
        Err(ComposeError::FileNotFound { path }) => assert_eq!(
            path,
            "No compose file found in '/tmp/x' (tried: compose.yaml, compose.yml, docker-compose.yaml, docker-compose.yml)"
        ),
        _ => panic!("expected FileNotFound"),
    }
}

#[test]
fn project_name_priority() {
    assert_eq!(resolve_project_name(Some("explicit-name"), Some("env"), Some("dir")), "explicit-name");
    assert_eq!(resolve_project_name(Some(""), Some("from-env"), Some("dir")), "from-env");
    assert_eq!(resolve_project_name(None, Some(""), Some("dir")), "dir");
    assert_eq!(resolve_project_name(None, None, None), "project");
    assert_eq!(choose_project_name(Some(""), Some("e"), "d"), "");
    assert_eq!(choose_project_name(None, Some("e"), "d"), "e");
    assert_eq!(choose_project_name(None, None, "d"), "d");
}

#[test]
fn compose_file_variable_and_existence() {
    assert_eq!(compose_file_list("a.yml::b.yml:", ':'), vec!["a.yml", "b.yml"]);
    assert!(compose_file_list("", ':').is_empty());
    let paths = vec!["a".to_string(), "/nonexistent/b".to_string()];
    assert!(check_files_exist(&paths, &vec![true, true]).is_ok());
    match check_files_exist(&paths, &vec![true, false]) {
        Err(ComposeError::FileNotFound { path }) => assert!(path.contains("nonexistent")),
        _ => panic!("expected FileNotFound"),
    }
}

#[test]
fn project_config_stores_raw_inputs() {
    let cfg = ProjectConfig::new(vec![PathBuf::from("compose.yaml")], Some("my-project".into()), vec![]);
    assert_eq!(cfg.project_name, Some("my-project".to_string()));
    assert_eq!(cfg.compose_files, vec![PathBuf::from("compose.yaml")]);
    assert!(cfg.env_files.is_empty());
}

#[test]
fn workload_translation() {
    let mut env = StrMap::new();
    env.insert("DB".to_string(), WorkloadEnvValue::Ref(WorkloadRef {
        node_id: "db".to_string(),
        projection: "endpoint".to_string(),
        port: Some("5432".to_string()),
    }));
    env.insert("MODE".to_string(), WorkloadEnvValue::Literal("prod".to_string()));
    let mut nodes = StrMap::new();
    nodes.insert("web".to_string(), WorkloadNode {
        id: "web".to_string(),
        name: "web".to_string(),
        image: Some("nginx".to_string()),
        ports: vec!["80:80".to_string()],
        env,
        depends_on: vec!["db".to_string()],
    });
    nodes.insert("db".to_string(), WorkloadNode {
        id: "db".to_string(),
        name: "db".to_string(),
        image: None,
        ports: vec![],
        env: StrMap::new(),
        depends_on: vec![],
    });
    let g = WorkloadGraph {
        name: "stack".to_string(),
        nodes,
        edges: vec![WorkloadEdge { from: "web".to_string(), to: "db".to_string() }],
    };
    let spec = translate(&g);
    assert_eq!(spec.name.as_deref(), Some("stack"));
    assert_eq!(spec.services.keys(), vec!["web", "db"]);
    let web = spec.services.get("web").unwrap();
    assert_eq!(web.image.as_deref(), Some("nginx"));
    assert_eq!(web.port_strings(), vec!["80:80"]);
    assert_eq!(web.depends_on.as_ref().unwrap().service_names(), vec!["db"]);
}

#[test]
fn recording_backends() {
    let mut m = MockBackend::new();
    m.record(RecordedCall::Start("c1".to_string()));
    m.record(RecordedCall::Stop("c1".to_string(), Some(3)));
    assert_eq!(m.calls.len(), 2);
    assert!(matches!(&m.calls[1], RecordedCall::Stop(id, Some(3)) if id == "c1"));
    let mut l = LineMock::new();
    l.record_op("run", "nginx");
    l.record("start: x".to_string());
    assert_eq!(l.calls, vec!["run: nginx", "start: x"]);
}

#[test]
fn target_triples() {
    assert_eq!(default_target_triple("macos", "aarch64"), "arm64-apple-macosx15.0.0");
    assert_eq!(default_target_triple("macos", "x86_64"), "x86_64-apple-macosx15.0.0");
    assert_eq!(default_target_triple("linux", "x86_64"), "x86_64-unknown-linux-gnu");
    assert_eq!(default_target_triple("linux", "aarch64"), "aarch64-unknown-linux-gnu");
    assert_eq!(default_target_triple("windows", "x86_64"), "arm64-apple-macosx15.0.0");
    let o = CompileOptions { target: Some("wasm32-unknown-unknown".to_string()), is_entry_module: true };
    assert_eq!(target_triple(&o, "linux", "x86_64"), "wasm32-unknown-unknown");
    assert_eq!(target_triple(&CompileOptions::default(), "linux", "x86_64"), "x86_64-unknown-linux-gnu");
}

#[test]
fn swift_escaping() {
    assert_eq!(escape_swift_string("a\"b\\c\nd\re\tf"), "a\\\"b\\\\c\\nd\\re\\tf");
    assert_eq!(escape_swift_string("plain"), "plain");
}

#[test]
fn error_messages_and_codes() {
    assert_eq!(ComposeError::NotFound("x".to_string()).to_string(), "Not found: x");
    assert_eq!(ComposeError::NotFound("x".to_string()).code(), 404);
    let be = ComposeError::BackendError { code: -1, message: "m".to_string() };
    assert_eq!(be.to_string(), "Backend error (code -1): m");
    assert_eq!(be.code(), -1);
    let dc = ComposeError::DependencyCycle { services: vec!["a".to_string(), "b".to_string()] };
    assert_eq!(dc.to_string(), "Dependency cycle detected: a, b");
    assert_eq!(dc.code(), 422);
    assert_eq!(ComposeError::InvalidConfig("c".to_string()).code(), 400);
    let nb = ComposeError::NoBackendFound { probed: vec![] };
    assert!(nb.to_string().starts_with("No container backend found. Probed: "));
    assert_eq!(nb.code(), 503);
    assert_eq!(ComposeError::PolicyViolation { node: "n".to_string(), reason: "r".to_string() }.code(), 403);
    let r = ErrorResponse { message: "m".to_string(), code: 500 };
    assert_eq!(r.code, 500);
    let p = BackendProbeResult {
        name: "docker".to_string(),
        available: false,
        reason: "missing".to_string(),
        version: None,
        mode: "local".to_string(),
    };
    assert!(!p.available);
    assert!(matches!(BackendInstaller::run(), Err(ComposeError::NoBackendFound { probed }) if probed.is_empty()));
}

#[test]
fn digests() {
    assert_eq!(hash8(""), "d41d8cd9");
    assert_eq!(hash8("abc"), "90015098");
    assert_eq!(format_hex8(0), "00000000");
    assert_eq!(format_hex8(0xdeadbeef), "deadbeef");
}

#[test]
fn map_operations() {
    let mut a = env_of(&[("b", "1"), ("a", "2")]);
    assert_eq!(a.keys(), vec!["b", "a"]);
    a.insert("b".to_string(), "7".to_string());
    assert_eq!(a.keys(), vec!["b", "a"]);
    a.extend(env_of(&[("c", "3"), ("b", "9")]));
    assert_eq!(a.get("b").unwrap(), "9");
    assert_eq!(a.keys(), vec!["b", "a", "c"]);
    a.extend_missing(env_of(&[("e", "5"), ("a", "x"), ("d", "4")]));
    assert_eq!(a.get("a").unwrap(), "2");
    assert_eq!(a.get("d").unwrap(), "4");
    assert_eq!(a.keys(), vec!["b", "a", "c", "e", "d"]);
    assert_eq!(a.len(), 5);
    let mut p = StrMap::new();
    p.push_new("b".to_string(), 1u32);
    p.push_new("a".to_string(), 2u32);
    assert_eq!(p.keys(), vec!["b", "a"]);
    assert_eq!(*p.get("a").unwrap(), 2);
    assert!(p.contains_key("b"));
}

#[test]
fn text_helpers() {
    assert_eq!(split_whitespace("  a \n b\t\tc "), vec!["a", "b", "c"]);
    assert!(split_whitespace("   ").is_empty());
    assert_eq!(trim_str("\t x y \n"), "x y");
}

#[test]
fn braced_interpolation() {
    let env = env_of(&[("NAME", "world"), ("SET", "yes")]);
    assert_eq!(interpolate_braced("Hello ${NAME}!", &env), "Hello world!");
    assert_eq!(interpolate_braced("${MISSING:-fallback}", &env), "fallback");
    assert_eq!(interpolate_braced("${SET:+value}|${UNSET:+value}", &env), "value|");
    assert_eq!(interpolate_braced("${lower} $NAME", &env), "${lower} $NAME");
    assert_eq!(expand_capture("SET", Some("-"), "d", &env), "yes");
    assert_eq!(expand_capture("NOPE", None, "d", &env), "");
}

#[test]
fn plain_command_types() {
    let c = InspectCommand { container_id: "c1".to_string() };
    let d = InspectById { id: "c2".to_string() };
    assert_eq!(c.container_id, "c1");
    assert_eq!(d.id, "c2");
    let cli = Cli {
        files: vec![],
        project_name: None,
        env_files: vec![],
        command: Commands::Up(UpArgs { detach: true, build: false, remove_orphans: false, services: vec![] }),
    };
    assert!(matches!(cli.command, Commands::Up(UpArgs { detach: true, .. })));
    let _ = Commands::Config(ConfigArgs {});
}

fn console_log(object: HirExpr, property: &str, args: Vec<HirExpr>) -> HirExpr {
    HirExpr::Call {
        callee: Box::new(HirExpr::PropertyGet { object: Box::new(object), property: property.to_string() }),
        args,
    }
}

fn log_number(i: i64) -> InitStmt {
    InitStmt::Expr(console_log(HirExpr::GlobalGet, "log", vec![HirExpr::Integer(i)]))
}

fn shape(imports: usize, classes: usize, functions: usize, init: usize) -> ModuleShape {
    ModuleShape { name: "main".to_string(), imports, classes, functions, init: (0..init).map(|i| log_number(i as i64)).collect() }
}

#[test]
fn only_simple_entry_modules_compile() {
    let entry = CompileOptions { target: None, is_entry_module: true };
    let other = CompileOptions { target: None, is_entry_module: false };
    assert_eq!(check_module(&shape(0, 0, 0, 2), &entry), Ok(vec![NumberLiteral::Integer(0), NumberLiteral::Integer(1)]));
    assert_eq!(
        check_module(&shape(0, 0, 0, 1), &other),
        Err("perry-codegen-llvm Phase 1 only supports the entry module; non-entry module 'main' is not yet supported".to_string())
    );
    assert_eq!(
        check_module(&shape(12, 1, 1, 0), &entry),
        Err("perry-codegen-llvm Phase 1 does not support imports; module 'main' has 12 imports".to_string())
    );
    assert_eq!(
        check_module(&shape(0, 0, 3, 1), &entry),
        Err("perry-codegen-llvm Phase 1 only supports top-level statements; module 'main' has 0 classes and 3 functions".to_string())
    );
    assert_eq!(
        check_module(&shape(0, 0, 0, 0), &entry),
        Err("perry-codegen-llvm Phase 1: module 'main' has no init statements to lower".to_string())
    );
}

#[test]
fn only_console_log_of_a_number_is_lowered() {
    let entry = CompileOptions { target: None, is_entry_module: true };
    let mut m = shape(0, 0, 0, 1);
    m.init.push(InitStmt::Expr(console_log(HirExpr::GlobalGet, "log", vec![HirExpr::String])));
    assert_eq!(
        check_module(&m, &entry),
        Err("lowering init statement #1 of module 'main': perry-codegen-llvm Phase 1: expected number literal, got String".to_string())
    );
    m.init[1] = InitStmt::Other;
    assert_eq!(
        check_module(&m, &entry),
        Err("lowering init statement #1 of module 'main': perry-codegen-llvm Phase 1: only Stmt::Expr is supported at top level; got <other>".to_string())
    );
    assert_eq!(
        match_console_log_number(&HirExpr::Binary),
        Err("Phase 1 only supports a top-level Call expression; got Binary".to_string())
    );
    assert_eq!(
        match_console_log_number(&console_log(HirExpr::LocalGet, "log", vec![])),
        Err("Phase 1 only supports console.log(<number>); callee.object is not a GlobalGet".to_string())
    );
    assert_eq!(
        match_console_log_number(&console_log(HirExpr::GlobalGet, "warn", vec![])),
        Err("Phase 1 only supports console.log(<number>); got console.warn".to_string())
    );
    assert_eq!(
        match_console_log_number(&console_log(HirExpr::GlobalGet, "log", vec![HirExpr::Integer(1), HirExpr::Integer(2)])),
        Err("Phase 1 only supports a single numeric argument to console.log; got 2".to_string())
    );
    assert_eq!(
        match_console_log_number(&HirExpr::Call { callee: Box::new(HirExpr::FuncRef), args: vec![] }),
        Err("Phase 1 only supports console.log(<number>); callee is not a PropertyGet".to_string())
    );
    assert_eq!(
        match_console_log_number(&console_log(HirExpr::GlobalGet, "log", vec![HirExpr::Number("4.2e0".to_string())])),
        Ok(NumberLiteral::Number("4.2e0".to_string()))
    );
}

#[test]
fn compose_file_priority_chain() {
    let cli = vec!["a.yml".to_string()];
    assert_eq!(compose_file_choice(&cli, Some("x.yml"), ':'), ComposeFileChoice::Listed(cli.clone()));
    assert_eq!(
        compose_file_choice(&vec![], Some("x.yml::y.yml"), ':'),
        ComposeFileChoice::Listed(vec!["x.yml".to_string(), "y.yml".to_string()])
    );
    assert_eq!(compose_file_choice(&vec![], Some(":"), ':'), ComposeFileChoice::SearchDefault);
    assert_eq!(compose_file_choice(&vec![], None, ':'), ComposeFileChoice::SearchDefault);
    assert_eq!(compose_file_separator("windows"), ';');
    assert_eq!(compose_file_separator("linux"), ':');
}

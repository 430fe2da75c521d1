//! The `container` (Apple) and `docker` command-line backends: the argument
//! lists of each operation, and what each reply from the CLI means.

use vstd::prelude::*;
use crate::strmap::StrMap;
use crate::text::{has_match, find_in};
use crate::strs::to_chars;
use crate::args::{
    views, flag_each, flag_kv, opt_flag, dec_text, decimal, push_arg, push_all, push_opt_flag,
    push_flag_each, push_flag_kv,
};
use crate::backend::{opt_each, opt_kv, opt_all, flag_if};
use crate::types::ContainerSpec;
use crate::error::ComposeError;

verus! {

// ============ container status ============

/// What inspecting a container found.
#[derive(Debug, Clone, Copy, PartialEq, Eq, Structural)]
pub enum ContainerStatus {
    Running,
    Stopped,
    NotFound,
}

impl ContainerStatus {
    /// Whether the container is running.
    pub fn is_running(&self) -> (b: bool)
        ensures
            b == (*self == ContainerStatus::Running),
    {
        match self {
            ContainerStatus::Running => true,
            _ => false,
        }
    }

    /// Whether the container exists, running or not.
    pub fn is_present(&self) -> (b: bool)
        ensures
            b == (*self != ContainerStatus::NotFound),
    {
        match self {
            ContainerStatus::NotFound => false,
            _ => true,
        }
    }
}

/// The output and exit code of a command run in a container.
#[derive(Debug, Clone)]
pub struct ExecResult {
    pub stdout: String,
    pub stderr: String,
    pub exit_code: i32,
}

// ============ reading CLI replies ============

/// `s` in lower case, as `str::to_lowercase` gives it.
pub uninterp spec fn lowercase_of(s: Seq<char>) -> Seq<char>;

/// `str::to_lowercase`; the contract names its result.
#[verifier::external_body]
fn to_lowercase(s: &str) -> (r: String)
    ensures
        r@ == lowercase_of(s@),
{
    s.to_lowercase()
}

fn contains(s: &str, pat: &str) -> (b: bool)
    ensures
        b == has_match(s@, pat@),
{
    let v = to_chars(s);
    let p = to_chars(pat);
    assert(v@.subrange(0, v@.len() as int) =~= v@);
    find_in(&v, 0, v.len(), &p).is_some()
}

/// Whether Docker's error output says that the object does not exist
/// (`not found` or `no such`, in any case).
pub fn is_not_found(stderr: &str) -> (b: bool)
    ensures
        b == (has_match(lowercase_of(stderr@), "not found"@) || has_match(
            lowercase_of(stderr@),
            "no such"@,
        )),
{
    let s = to_lowercase(stderr);
    contains(s.as_str(), "not found") || contains(s.as_str(), "no such")
}

/// Whether the `container` CLI's error output says that the object does
/// not exist (`not found`, `no such` or `does not exist`).
pub fn reports_missing(stderr: &str) -> (b: bool)
    ensures
        b == (has_match(stderr@, "not found"@) || has_match(stderr@, "no such"@) || has_match(
            stderr@,
            "does not exist"@,
        )),
{
    contains(stderr, "not found") || contains(stderr, "no such") || contains(stderr, "does not exist")
}

/// The reply of a command: its output when it succeeded, otherwise a
/// `BackendError` with its exit code and error output.
pub fn check_output(success: bool, code: i32, stdout: String, stderr: String) -> (r: Result<String, ComposeError>)
    ensures
        success ==> r == Ok::<String, ComposeError>(stdout),
        !success ==> r == Err::<String, ComposeError>(ComposeError::BackendError { code, message: stderr }),
{
    if success {
        Ok(stdout)
    } else {
        Err(ComposeError::BackendError { code, message: stderr })
    }
}

/// The reply to removing a network or volume, where an object that is
/// already gone counts as removed.
pub fn teardown_result(success: bool, code: i32, stderr: String, missing: bool) -> (r: Result<(), ComposeError>)
    ensures
        (success || missing) ==> r is Ok,
        (!success && !missing) ==> r == Err::<(), ComposeError>(ComposeError::BackendError { code, message: stderr }),
{
    if success || missing {
        Ok(())
    } else {
        Err(ComposeError::BackendError { code, message: stderr })
    }
}

/// The `State` of an inspect reply, as far as it was given.
#[derive(Debug, Clone)]
pub struct InspectState {
    pub status: Option<String>,
    pub running: Option<bool>,
}

/// Whether an inspected state is running: its `Running` flag, or when that
/// is absent, whether its `Status` is `running`.
pub open spec fn state_running(state: Option<InspectState>) -> bool {
    match state {
        Some(s) => match s.running {
            Some(b) => b,
            None => match s.status {
                Some(t) => t@ == "running"@,
                None => false,
            },
        },
        None => false,
    }
}

/// The status of a container from the `container` CLI's inspect reply:
/// a failure that reports a missing object is `NotFound`, any other
/// failure an error; a reply that could not be read counts as `Stopped`.
pub fn inspect_status(
    success: bool,
    code: i32,
    stderr: String,
    parsed: Option<Option<InspectState>>,
) -> (r: Result<ContainerStatus, ComposeError>)
    ensures
        !success && has_missing_words(stderr@) ==> r == Ok::<ContainerStatus, ComposeError>(ContainerStatus::NotFound),
        !success && !has_missing_words(stderr@) ==> r == Err::<ContainerStatus, ComposeError>(
            ComposeError::BackendError { code, message: stderr },
        ),
        success ==> r == Ok::<ContainerStatus, ComposeError>(
            match parsed {
                Some(state) => if state_running(state) {
                    ContainerStatus::Running
                } else {
                    ContainerStatus::Stopped
                },
                None => ContainerStatus::Stopped,
            },
        ),
{
    if !success {
        if reports_missing(stderr.as_str()) {
            return Ok(ContainerStatus::NotFound);
        }
        return Err(ComposeError::BackendError { code, message: stderr });
    }
    match parsed {
        Some(state) => {
            let running = match &state {
                Some(s) => match s.running {
                    Some(b) => b,
                    None => match &s.status {
                        Some(t) => crate::strs::str_eq(t.as_str(), "running"),
                        None => false,
                    },
                },
                None => false,
            };
            if running {
                Ok(ContainerStatus::Running)
            } else {
                Ok(ContainerStatus::Stopped)
            }
        },
        None => Ok(ContainerStatus::Stopped),
    }
}

/// The words by which the `container` CLI reports a missing object.
pub open spec fn has_missing_words(s: Seq<char>) -> bool {
    has_match(s, "not found"@) || has_match(s, "no such"@) || has_match(s, "does not exist"@)
}

/// The status of a container from Docker's inspect reply: a failure that
/// reports a missing object is `NotFound`, any other failure an error; a
/// reply is `Running` only when its state says so.
pub fn docker_inspect_status(
    success: bool,
    code: i32,
    stderr: String,
    running: Option<Option<bool>>,
) -> (r: Result<ContainerStatus, ComposeError>)
    ensures
        !success && (has_match(lowercase_of(stderr@), "not found"@) || has_match(lowercase_of(stderr@), "no such"@))
            ==> r == Ok::<ContainerStatus, ComposeError>(ContainerStatus::NotFound),
        !success && !(has_match(lowercase_of(stderr@), "not found"@) || has_match(lowercase_of(stderr@), "no such"@))
            ==> r == Err::<ContainerStatus, ComposeError>(ComposeError::BackendError { code, message: stderr }),
        success ==> r == Ok::<ContainerStatus, ComposeError>(
            if running == Some(Some(true)) {
                ContainerStatus::Running
            } else {
                ContainerStatus::Stopped
            },
        ),
{
    if !success {
        if is_not_found(stderr.as_str()) {
            return Ok(ContainerStatus::NotFound);
        }
        return Err(ComposeError::BackendError { code, message: stderr });
    }
    match running {
        Some(Some(true)) => Ok(ContainerStatus::Running),
        _ => Ok(ContainerStatus::Stopped),
    }
}

// ============ argument lists ============

/// `flag v` when a value is given.
pub open spec fn opt_word_flag(flag: Seq<char>, o: Option<&str>) -> Seq<Seq<char>> {
    match o {
        Some(v) => seq![flag, v@],
        None => Seq::empty(),
    }
}

/// `flag k=v` for each entry of an optional map.
pub open spec fn opt_ref_kv(flag: Seq<char>, o: Option<&StrMap<String>>) -> Seq<Seq<char>> {
    match o {
        Some(m) => flag_kv(flag, m@),
        None => Seq::empty(),
    }
}

/// `flag item` for each item of an optional list.
pub open spec fn opt_ref_each(flag: Seq<char>, o: Option<&Vec<String>>) -> Seq<Seq<char>> {
    match o {
        Some(v) => flag_each(flag, views(v@)),
        None => Seq::empty(),
    }
}

fn push_word_flag(a: &mut Vec<String>, flag: &str, o: Option<&str>)
    ensures
        views(final(a)@) == views(old(a)@) + opt_word_flag(flag@, o),
{
    match o {
        Some(v) => {
            push_arg(a, flag);
            push_arg(a, v);
        },
        None => {},
    }
}

fn push_ref_kv(a: &mut Vec<String>, flag: &str, o: Option<&StrMap<String>>)
    ensures
        views(final(a)@) == views(old(a)@) + opt_ref_kv(flag@, o),
{
    match o {
        Some(m) => push_flag_kv(a, flag, m),
        None => {},
    }
}

fn push_ref_each(a: &mut Vec<String>, flag: &str, o: Option<&Vec<String>>)
    ensures
        views(final(a)@) == views(old(a)@) + opt_ref_each(flag@, o),
{
    match o {
        Some(v) => push_flag_each(a, flag, v),
        None => {},
    }
}

/// The argument list of `build` for both CLIs: `build -t <tag> <context>
/// [-f <dockerfile>] [--build-arg k=v]... [--target <t>] [--network <n>]`.
pub open spec fn spec_build_args(
    context: Seq<char>,
    dockerfile: Option<&str>,
    tag: Seq<char>,
    args: Option<&StrMap<String>>,
    target: Option<&str>,
    network: Option<&str>,
) -> Seq<Seq<char>> {
    seq!["build"@, "-t"@, tag, context] + opt_word_flag("-f"@, dockerfile) + opt_ref_kv("--build-arg"@, args)
        + opt_word_flag("--target"@, target) + opt_word_flag("--network"@, network)
}

/// The argument list of `run` for both CLIs: `run --name <name> [-d]
/// [-p port]... [-e k=v]... [-v vol]... [--label k=v]... <image> <cmd...>`.
pub open spec fn spec_run_args(
    image: Seq<char>,
    name: Seq<char>,
    ports: Option<&Vec<String>>,
    env: Option<&StrMap<String>>,
    volumes: Option<&Vec<String>>,
    labels: Option<&StrMap<String>>,
    cmd: Option<&Vec<String>>,
    detach: bool,
) -> Seq<Seq<char>> {
    seq!["run"@, "--name"@, name] + flag_if(detach, "-d"@) + opt_ref_each("-p"@, ports) + opt_ref_kv("-e"@, env)
        + opt_ref_each("-v"@, volumes) + opt_ref_kv("--label"@, labels) + seq![image] + match cmd {
        Some(c) => views(c@),
        None => Seq::empty(),
    }
}

/// Builds the `build` argument list.
pub fn build_args(
    context: &str,
    dockerfile: Option<&str>,
    tag: &str,
    args: Option<&StrMap<String>>,
    target: Option<&str>,
    network: Option<&str>,
) -> (r: Vec<String>)
    ensures
        views(r@) == spec_build_args(context@, dockerfile, tag@, args, target, network),
{
    let mut a: Vec<String> = Vec::new();
    push_arg(&mut a, "build");
    push_arg(&mut a, "-t");
    push_arg(&mut a, tag);
    push_arg(&mut a, context);
    push_word_flag(&mut a, "-f", dockerfile);
    push_ref_kv(&mut a, "--build-arg", args);
    push_word_flag(&mut a, "--target", target);
    push_word_flag(&mut a, "--network", network);
    assert(views(a@) =~= spec_build_args(context@, dockerfile, tag@, args, target, network));
    a
}

/// Builds the `run` argument list.
pub fn run_args(
    image: &str,
    name: &str,
    ports: Option<&Vec<String>>,
    env: Option<&StrMap<String>>,
    volumes: Option<&Vec<String>>,
    labels: Option<&StrMap<String>>,
    cmd: Option<&Vec<String>>,
    detach: bool,
) -> (r: Vec<String>)
    ensures
        views(r@) == spec_run_args(image@, name@, ports, env, volumes, labels, cmd, detach),
{
    let mut a: Vec<String> = Vec::new();
    push_arg(&mut a, "run");
    push_arg(&mut a, "--name");
    push_arg(&mut a, name);
    if detach {
        push_arg(&mut a, "-d");
    }
    push_ref_each(&mut a, "-p", ports);
    push_ref_kv(&mut a, "-e", env);
    push_ref_each(&mut a, "-v", volumes);
    push_ref_kv(&mut a, "--label", labels);
    push_arg(&mut a, image);
    if let Some(c) = cmd {
        push_all(&mut a, c);
    }
    assert(views(a@) =~= spec_run_args(image@, name@, ports, env, volumes, labels, cmd, detach));
    a
}

/// The `container` CLI's `exec`: `exec [--user <u>] [--workdir <w>]
/// [-e k=v]... <name> <cmd...>`.
pub fn apple_exec_args(
    name: &str,
    cmd: &Vec<String>,
    user: Option<&str>,
    workdir: Option<&str>,
    env: Option<&StrMap<String>>,
) -> (r: Vec<String>)
    ensures
        views(r@) == seq!["exec"@] + opt_word_flag("--user"@, user) + opt_word_flag("--workdir"@, workdir)
            + opt_ref_kv("-e"@, env) + seq![name@] + views(cmd@),
{
    let mut a: Vec<String> = Vec::new();
    push_arg(&mut a, "exec");
    push_word_flag(&mut a, "--user", user);
    push_word_flag(&mut a, "--workdir", workdir);
    push_ref_kv(&mut a, "-e", env);
    push_arg(&mut a, name);
    push_all(&mut a, cmd);
    assert(views(a@) =~= seq!["exec"@] + opt_word_flag("--user"@, user) + opt_word_flag(
        "--workdir"@,
        workdir,
    ) + opt_ref_kv("-e"@, env) + seq![name@] + views(cmd@));
    a
}

/// Docker's `exec`: `exec [-e k=v]... [-w <workdir>] <name> <cmd...>`.
pub fn docker_exec_args(
    name: &str,
    cmd: &Vec<String>,
    workdir: Option<&str>,
    env: Option<&StrMap<String>>,
) -> (r: Vec<String>)
    ensures
        views(r@) == seq!["exec"@] + opt_ref_kv("-e"@, env) + opt_word_flag("-w"@, workdir) + seq![name@]
            + views(cmd@),
{
    let mut a: Vec<String> = Vec::new();
    push_arg(&mut a, "exec");
    push_ref_kv(&mut a, "-e", env);
    push_word_flag(&mut a, "-w", workdir);
    push_arg(&mut a, name);
    push_all(&mut a, cmd);
    assert(views(a@) =~= seq!["exec"@] + opt_ref_kv("-e"@, env) + opt_word_flag("-w"@, workdir) + seq![
        name@,
    ] + views(cmd@));
    a
}

/// `<kind> create [--driver <d>] [--label k=v]... <name>`, for networks
/// and volumes.
pub fn create_resource_args(
    kind: &str,
    name: &str,
    driver: Option<&str>,
    labels: Option<&StrMap<String>>,
) -> (r: Vec<String>)
    ensures
        views(r@) == seq![kind@, "create"@] + opt_word_flag("--driver"@, driver) + opt_ref_kv("--label"@, labels)
            + seq![name@],
{
    let mut a: Vec<String> = Vec::new();
    push_arg(&mut a, kind);
    push_arg(&mut a, "create");
    push_word_flag(&mut a, "--driver", driver);
    push_ref_kv(&mut a, "--label", labels);
    push_arg(&mut a, name);
    assert(views(a@) =~= seq![kind@, "create"@] + opt_word_flag("--driver"@, driver) + opt_ref_kv(
        "--label"@,
        labels,
    ) + seq![name@]);
    a
}

/// `logs [--tail <n>] <name>`.
pub fn logs_args(name: &str, tail: Option<u32>) -> (r: Vec<String>)
    ensures
        views(r@) == seq!["logs"@] + match tail {
            Some(t) => seq!["--tail"@, dec_text(t as nat)],
            None => Seq::<Seq<char>>::empty(),
        } + seq![name@],
{
    let mut a: Vec<String> = Vec::new();
    push_arg(&mut a, "logs");
    if let Some(t) = tail {
        push_arg(&mut a, "--tail");
        let d = decimal(t);
        push_arg(&mut a, d.as_str());
    }
    push_arg(&mut a, name);
    assert(views(a@) =~= seq!["logs"@] + match tail {
        Some(t) => seq!["--tail"@, dec_text(t as nat)],
        None => Seq::<Seq<char>>::empty(),
    } + seq![name@]);
    a
}

/// `ps --format json --all [--filter label=<filter>]`.
pub fn list_args(label_filter: Option<&str>) -> (r: Vec<String>)
    ensures
        views(r@) == seq!["ps"@, "--format"@, "json"@, "--all"@] + match label_filter {
            Some(f) => seq!["--filter"@, "label="@ + f@],
            None => Seq::<Seq<char>>::empty(),
        },
{
    let mut a: Vec<String> = Vec::new();
    push_arg(&mut a, "ps");
    push_arg(&mut a, "--format");
    push_arg(&mut a, "json");
    push_arg(&mut a, "--all");
    if let Some(f) = label_filter {
        push_arg(&mut a, "--filter");
        let mut t = "label=".to_owned();
        crate::strs::push_str(&mut t, f);
        push_arg(&mut a, t.as_str());
    }
    assert(views(a@) =~= seq!["ps"@, "--format"@, "json"@, "--all"@] + match label_filter {
        Some(f) => seq!["--filter"@, "label="@ + f@],
        None => Seq::<Seq<char>>::empty(),
    });
    a
}

/// Docker's `run` for a container spec: `run [--rm] [--name <n>]
/// [--network <net>] [-p port]... [-v vol]... [-e k=v]... -d <image> <cmd...>`.
pub fn docker_run_args(spec: &ContainerSpec) -> (r: Vec<String>)
    ensures
        views(r@) == seq!["run"@] + flag_if(spec.rm == Some(true), "--rm"@) + opt_flag("--name"@, spec.name)
            + opt_flag("--network"@, spec.network) + opt_each("-p"@, spec.ports) + opt_each("-v"@, spec.volumes)
            + opt_kv("-e"@, spec.env) + seq!["-d"@, spec.image@] + opt_all(spec.cmd),
{
    let mut a: Vec<String> = Vec::new();
    push_arg(&mut a, "run");
    if spec.rm == Some(true) {
        push_arg(&mut a, "--rm");
    }
    push_opt_flag(&mut a, "--name", &spec.name);
    push_opt_flag(&mut a, "--network", &spec.network);
    if let Some(p) = &spec.ports {
        push_flag_each(&mut a, "-p", p);
    }
    if let Some(v) = &spec.volumes {
        push_flag_each(&mut a, "-v", v);
    }
    if let Some(e) = &spec.env {
        push_flag_kv(&mut a, "-e", e);
    }
    push_arg(&mut a, "-d");
    push_arg(&mut a, spec.image.as_str());
    if let Some(c) = &spec.cmd {
        push_all(&mut a, c);
    }
    assert(views(a@) =~= seq!["run"@] + flag_if(spec.rm == Some(true), "--rm"@) + opt_flag("--name"@, spec.name)
        + opt_flag("--network"@, spec.network) + opt_each("-p"@, spec.ports) + opt_each("-v"@, spec.volumes)
        + opt_kv("-e"@, spec.env) + seq!["-d"@, spec.image@] + opt_all(spec.cmd));
    a
}

/// Docker's `create` for a container spec: `create [--name <n>]
/// [--network <net>] [-p port]... [-v vol]... [-e k=v]... <image> <cmd...>`.
pub fn docker_create_args(spec: &ContainerSpec) -> (r: Vec<String>)
    ensures
        views(r@) == seq!["create"@] + opt_flag("--name"@, spec.name) + opt_flag("--network"@, spec.network)
            + opt_each("-p"@, spec.ports) + opt_each("-v"@, spec.volumes) + opt_kv("-e"@, spec.env) + seq![
            spec.image@,
        ] + opt_all(spec.cmd),
{
    let mut a: Vec<String> = Vec::new();
    push_arg(&mut a, "create");
    push_opt_flag(&mut a, "--name", &spec.name);
    push_opt_flag(&mut a, "--network", &spec.network);
    if let Some(p) = &spec.ports {
        push_flag_each(&mut a, "-p", p);
    }
    if let Some(v) = &spec.volumes {
        push_flag_each(&mut a, "-v", v);
    }
    if let Some(e) = &spec.env {
        push_flag_kv(&mut a, "-e", e);
    }
    push_arg(&mut a, spec.image.as_str());
    if let Some(c) = &spec.cmd {
        push_all(&mut a, c);
    }
    assert(views(a@) =~= seq!["create"@] + opt_flag("--name"@, spec.name) + opt_flag("--network"@, spec.network)
        + opt_each("-p"@, spec.ports) + opt_each("-v"@, spec.volumes) + opt_kv("-e"@, spec.env) + seq![
        spec.image@,
    ] + opt_all(spec.cmd));
    a
}

/// Docker's `stop`: `stop [--time <t>] <id>`.
pub fn docker_stop_args(id: &str, timeout: Option<u32>) -> (r: Vec<String>)
    ensures
        views(r@) == seq!["stop"@] + match timeout {
            Some(t) => seq!["--time"@, dec_text(t as nat)],
            None => Seq::<Seq<char>>::empty(),
        } + seq![id@],
{
    let mut a: Vec<String> = Vec::new();
    push_arg(&mut a, "stop");
    if let Some(t) = timeout {
        push_arg(&mut a, "--time");
        let d = decimal(t);
        push_arg(&mut a, d.as_str());
    }
    push_arg(&mut a, id);
    assert(views(a@) =~= seq!["stop"@] + match timeout {
        Some(t) => seq!["--time"@, dec_text(t as nat)],
        None => Seq::<Seq<char>>::empty(),
    } + seq![id@]);
    a
}

// ============ the backends ============

/// The backend that runs Apple's `container` CLI.
#[derive(Debug, Clone)]
pub struct AppleContainerBackend {
    /// The binary that is run.
    pub bin: &'static str,
}

impl AppleContainerBackend {
    /// The backend running the `container` binary.
    pub fn new() -> (r: Self)
        ensures
            r.bin@ == "container"@,
    {
        AppleContainerBackend { bin: "container" }
    }

    /// The backend's name.
    pub fn name(&self) -> (r: &'static str)
        ensures
            r@ == "apple-container"@,
    {
        "apple-container"
    }
}

/// The backend that runs the `docker` CLI.
#[derive(Debug, Clone)]
pub struct DockerBackend {
    /// The binary that is run.
    pub bin: &'static str,
}

impl DockerBackend {
    /// The backend running the `docker` binary.
    pub fn new() -> (r: Self)
        ensures
            r.bin@ == "docker"@,
    {
        DockerBackend { bin: "docker" }
    }

    /// The backend's name.
    pub fn name(&self) -> (r: &'static str)
        ensures
            r@ == "docker"@,
    {
        "docker"
    }
}

/// The backend that runs the `podman` CLI, whose commands and replies are
/// those of `docker`.
#[derive(Debug, Clone)]
pub struct PodmanBackend {
    /// The binary that is run.
    pub bin: &'static str,
}

impl PodmanBackend {
    /// The backend running the `podman` binary.
    pub fn new() -> (r: Self)
        ensures
            r.bin@ == "podman"@,
    {
        PodmanBackend { bin: "podman" }
    }

    /// The backend's name.
    pub fn name(&self) -> (r: &'static str)
        ensures
            r@ == "podman"@,
    {
        "podman"
    }
}

/// The command-line backend chosen for a platform.
#[derive(Debug, Clone)]
pub enum PlatformBackend {
    Apple(AppleContainerBackend),
    Podman(PodmanBackend),
}

/// The backend for the operating system `os` (as `std::env::consts::OS`
/// names it): Apple's `container` on macOS; on any other, Podman when it
/// is available (`podman_available`), else `BackendNotAvailable`.
pub fn get_backend(os: &str, podman_available: bool) -> (r: Result<PlatformBackend, ComposeError>)
    ensures
        os@ == "macos"@ ==> (r matches Ok(b) && b matches PlatformBackend::Apple(a) && a.bin@ == "container"@),
        os@ != "macos"@ && podman_available ==> (r matches Ok(b) && b matches PlatformBackend::Podman(p)
            && p.bin@ == "podman"@),
        os@ != "macos"@ && !podman_available ==> (r matches Err(ComposeError::BackendNotAvailable { name, reason })
            && name@ == "podman"@ && reason@ == "podman was not found on this system"@),
{
    if crate::strs::str_eq(os, "macos") {
        Ok(PlatformBackend::Apple(AppleContainerBackend::new()))
    } else if podman_available {
        Ok(PlatformBackend::Podman(PodmanBackend::new()))
    } else {
        Err(ComposeError::BackendNotAvailable {
            name: "podman".to_owned(),
            reason: "podman was not found on this system".to_owned(),
        })
    }
}

} // verus!

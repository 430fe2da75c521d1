//! Container backends: the argument lists each CLI protocol takes, the
//! network and volume settings handed to them, and the choice of a backend.

use vstd::prelude::*;
use crate::strmap::{StrMap, sorted_pairs};
use crate::strs::{clone_opt, str_eq};
use crate::text::{trim, trim_str, trim_start_char, trim_start_matches_char};
use crate::json::{
    json_array_len, json_array_len_of, json_element_text, json_element_text_of, json_is_array,
    json_is_array_of, json_field_text, json_field_text_of, json_str, json_str_of, json_u64, json_u64_of,
};
use crate::args::{
    views, flag_each, flag_kv, opt_flag, join_with, dec_text, decimal, push_arg, push_all,
    push_opt_flag, push_flag_each, push_flag_kv, join,
};
use crate::types::{ComposeNetwork, ComposeVolume, ComposeServiceBuild, ContainerSpec, ContainerInfo, ImageInfo};
use crate::orchestrate::env::map_of_pairs;
use crate::error::ComposeError;

verus! {

// ============ network and volume settings ============

/// Settings of a network to create.
#[derive(Debug, Clone)]
pub struct NetworkConfig {
    pub driver: Option<String>,
    pub labels: StrMap<String>,
    pub internal: bool,
    pub enable_ipv6: bool,
}

/// Settings of a volume to create.
#[derive(Debug, Clone)]
pub struct VolumeConfig {
    pub driver: Option<String>,
    pub labels: StrMap<String>,
}

impl Default for NetworkConfig {
    fn default() -> (r: Self)
        ensures
            r.driver is None,
            r.labels.wf() && r.labels@.len() == 0,
            !r.internal,
            !r.enable_ipv6,
    {
        NetworkConfig { driver: None, labels: StrMap::new(), internal: false, enable_ipv6: false }
    }
}

impl Default for VolumeConfig {
    fn default() -> (r: Self)
        ensures
            r.driver is None,
            r.labels.wf() && r.labels@.len() == 0,
    {
        VolumeConfig { driver: None, labels: StrMap::new() }
    }
}

impl NetworkConfig {
    /// The settings of a compose network: its driver and labels, and its
    /// `internal` and `enable_ipv6` flags (false when absent).
    pub fn from_network(n: &ComposeNetwork) -> (r: Self)
        ensures
            r.driver == n.driver,
            match n.labels {
                Some(l) => map_of_pairs(r.labels, l.spec_pairs()),
                None => r.labels.wf() && r.labels@.len() == 0,
            },
            r.internal == (n.internal == Some(true)),
            r.enable_ipv6 == (n.enable_ipv6 == Some(true)),
    {
        NetworkConfig {
            driver: clone_opt(&n.driver),
            labels: match &n.labels {
                Some(l) => l.to_map(),
                None => StrMap::new(),
            },
            internal: match n.internal {
                Some(b) => b,
                None => false,
            },
            enable_ipv6: match n.enable_ipv6 {
                Some(b) => b,
                None => false,
            },
        }
    }
}

impl VolumeConfig {
    /// The settings of a compose volume: its driver and labels.
    pub fn from_volume(v: &ComposeVolume) -> (r: Self)
        ensures
            r.driver == v.driver,
            match v.labels {
                Some(l) => map_of_pairs(r.labels, l.spec_pairs()),
                None => r.labels.wf() && r.labels@.len() == 0,
            },
    {
        VolumeConfig {
            driver: clone_opt(&v.driver),
            labels: match &v.labels {
                Some(l) => l.to_map(),
                None => StrMap::new(),
            },
        }
    }
}

// ============ argument lists ============

/// `flag item` for each item of an optional list.
pub open spec fn opt_each(flag: Seq<char>, o: Option<Vec<String>>) -> Seq<Seq<char>> {
    match o {
        Some(v) => flag_each(flag, views(v@)),
        None => Seq::empty(),
    }
}

/// `flag k=v` for each entry of an optional map.
pub open spec fn opt_kv(flag: Seq<char>, o: Option<StrMap<String>>) -> Seq<Seq<char>> {
    match o {
        Some(m) => flag_kv(flag, m@),
        None => Seq::empty(),
    }
}

/// `flag k=v` for each entry of an optional map, by ascending key.
pub open spec fn opt_sorted_kv(flag: Seq<char>, o: Option<StrMap<String>>) -> Seq<Seq<char>> {
    match o {
        Some(m) => flag_kv(flag, sorted_pairs(m@)),
        None => Seq::empty(),
    }
}

/// The items of an optional list.
pub open spec fn opt_all(o: Option<Vec<String>>) -> Seq<Seq<char>> {
    match o {
        Some(v) => views(v@),
        None => Seq::empty(),
    }
}

/// `word` when `b` holds.
pub open spec fn flag_if(b: bool, word: Seq<char>) -> Seq<Seq<char>> {
    if b {
        seq![word]
    } else {
        Seq::empty()
    }
}

/// The options shared by `run` and `create`: `--rm`, name, network, ports,
/// volumes, environment (by ascending key) and entrypoint.
pub open spec fn spec_common(s: ContainerSpec) -> Seq<Seq<char>> {
    flag_if(s.rm == Some(true), "--rm"@) + opt_flag("--name"@, s.name) + opt_flag("--network"@, s.network)
        + opt_each("-p"@, s.ports) + opt_each("-v"@, s.volumes) + opt_sorted_kv("-e"@, s.env)
        + match s.entrypoint {
        Some(ep) => seq!["--entrypoint"@, join_with(views(ep@), " "@)],
        None => Seq::empty(),
    }
}

/// `flag n` for an optional count.
pub open spec fn opt_count(flag: Seq<char>, o: Option<u32>) -> Seq<Seq<char>> {
    match o {
        Some(v) => seq![flag, dec_text(v as nat)],
        None => Seq::empty(),
    }
}

fn push_opt_count(a: &mut Vec<String>, flag: &str, o: Option<u32>)
    ensures
        views(final(a)@) == views(old(a)@) + opt_count(flag@, o),
{
    match o {
        Some(v) => {
            push_arg(a, flag);
            let d = decimal(v);
            push_arg(a, d.as_str());
        },
        None => {},
    }
}

fn push_when(a: &mut Vec<String>, b: bool, word: &str)
    ensures
        views(final(a)@) == views(old(a)@) + flag_if(b, word@),
{
    if b {
        push_arg(a, word);
    } else {
        assert(views(a@) =~= views(a@) + flag_if(b, word@));
    }
}

fn args_of(words: &[&str]) -> (r: Vec<String>)
    ensures
        views(r@) == words@.map_values(|w: &str| w@),
{
    let mut r: Vec<String> = Vec::new();
    let mut i: usize = 0;
    while i < words.len()
        invariant
            i <= words@.len(),
            views(r@) == words@.take(i as int).map_values(|w: &str| w@),
        decreases words@.len() - i,
    {
        push_arg(&mut r, words[i]);
        assert(words@.take(i + 1).map_values(|w: &str| w@) =~= words@.take(i as int).map_values(
            |w: &str| w@,
        ).push(words@[i as int]@));
        i = i + 1;
    }
    assert(words@.take(words@.len() as int) =~= words@);
    r
}

/// The text of an optional string, empty when absent.
pub open spec fn or_empty(o: Option<Seq<char>>) -> Seq<char> {
    match o {
        Some(s) => s,
        None => Seq::empty(),
    }
}

/// `a` when present, else `b`.
pub open spec fn first_of(a: Option<Seq<char>>, b: Option<Seq<char>>) -> Option<Seq<char>> {
    if a is Some {
        a
    } else {
        b
    }
}

/// The value an inspect reply describes: its first element when it is an
/// array (`null` when that is empty), otherwise the reply itself.
pub open spec fn inspected_value(t: Seq<char>) -> Seq<char> {
    if json_is_array_of(t) {
        if json_array_len_of(t) > 0 {
            json_element_text_of(t, 0)
        } else {
            "null"@
        }
    } else {
        t
    }
}

/// `c` is the container listed as element `i` of the reply `t`.
pub open spec fn listed_container_ok(c: ContainerInfo, t: Seq<char>, i: int) -> bool {
    let e = json_element_text_of(t, i);
    &&& c.id@ == or_empty(first_of(json_str_of(e, "ID"@), json_str_of(e, "Id"@)))
    &&& c.name@ == trim_start_char(or_empty(first_of(json_str_of(e, "Names"@), json_str_of(e, "names"@))), '/')
    &&& c.image@ == or_empty(json_str_of(e, "Image"@))
    &&& c.status@ == or_empty(json_str_of(e, "Status"@))
    &&& c.ports@.len() == 0
    &&& c.labels.wf() && c.labels@.len() == 0
    &&& c.created@.len() == 0
}

/// `m` is the image listed as element `i` of the reply `t`.
pub open spec fn listed_image_ok(m: ImageInfo, t: Seq<char>, i: int) -> bool {
    let e = json_element_text_of(t, i);
    &&& m.id@ == or_empty(json_str_of(e, "ID"@))
    &&& m.repository@ == or_empty(json_str_of(e, "Repository"@))
    &&& m.tag@ == or_empty(json_str_of(e, "Tag"@))
    &&& m.size == match json_u64_of(e, "Size"@) {
        Some(n) => n,
        None => 0,
    }
    &&& m.created@ == or_empty(json_str_of(e, "CreatedSince"@))
}

fn str_field(text: &str, key: &str) -> (r: String)
    ensures
        r@ == or_empty(json_str_of(text@, key@)),
{
    match json_str(text, key) {
        Some(s) => s,
        None => String::new(),
    }
}

fn first_str_field(text: &str, key: &str, other: &str) -> (r: String)
    ensures
        r@ == or_empty(first_of(json_str_of(text@, key@), json_str_of(text@, other@))),
{
    match json_str(text, key) {
        Some(s) => s,
        None => str_field(text, other),
    }
}

fn u64_field(text: &str, key: &str) -> (r: u64)
    ensures
        r == match json_u64_of(text@, key@) {
            Some(n) => n,
            None => 0,
        },
{
    match json_u64(text, key) {
        Some(n) => n,
        None => 0,
    }
}

fn inspected(t: &str) -> (r: String)
    ensures
        r@ == inspected_value(t@),
{
    if json_is_array(t) {
        if json_array_len(t) > 0 {
            json_element_text(t, 0)
        } else {
            "null".to_owned()
        }
    } else {
        t.to_owned()
    }
}

/// The argument lists of the Docker CLI (also spoken by Podman, nerdctl and OrbStack).
#[derive(Debug, Clone, Copy)]
pub struct DockerProtocol;

impl DockerProtocol {
    /// The protocol's name.
    pub fn protocol_name(&self) -> (r: &'static str)
        ensures
            r@ == "docker"@,
    {
        "docker"
    }

    /// The options shared by `run` and `create`.
    pub fn common(&self, s: &ContainerSpec) -> (r: Vec<String>)
        ensures
            views(r@) == spec_common(*s),
    {
        let mut a: Vec<String> = Vec::new();
        let rm = match s.rm {
            Some(b) => b,
            None => false,
        };
        push_when(&mut a, rm, "--rm");
        push_opt_flag(&mut a, "--name", &s.name);
        push_opt_flag(&mut a, "--network", &s.network);
        if let Some(ps) = &s.ports {
            push_flag_each(&mut a, "-p", ps);
        }
        if let Some(vs) = &s.volumes {
            push_flag_each(&mut a, "-v", vs);
        }
        if let Some(e) = &s.env {
            let sm = e.sorted_by_key();
            push_flag_kv(&mut a, "-e", &sm);
        }
        if let Some(ep) = &s.entrypoint {
            push_arg(&mut a, "--entrypoint");
            let j = join(ep, " ");
            push_arg(&mut a, j.as_str());
        }
        assert(views(a@) =~= spec_common(*s));
        a
    }

    /// `run --detach <common> <image> <cmd...>`.
    pub fn run_args(&self, s: &ContainerSpec) -> (r: Vec<String>)
        ensures
            views(r@) == seq!["run"@, "--detach"@] + spec_common(*s) + seq![s.image@] + opt_all(s.cmd),
    {
        let mut a = args_of(&["run", "--detach"]);
        let c = self.common(s);
        push_all(&mut a, &c);
        push_arg(&mut a, s.image.as_str());
        if let Some(cmd) = &s.cmd {
            push_all(&mut a, cmd);
        }
        assert(views(a@) =~= seq!["run"@, "--detach"@] + spec_common(*s) + seq![s.image@] + opt_all(
            s.cmd,
        ));
        a
    }

    /// `create <common> <image> <cmd...>`.
    pub fn create_args(&self, s: &ContainerSpec) -> (r: Vec<String>)
        ensures
            views(r@) == seq!["create"@] + spec_common(*s) + seq![s.image@] + opt_all(s.cmd),
    {
        let mut a = args_of(&["create"]);
        let c = self.common(s);
        push_all(&mut a, &c);
        push_arg(&mut a, s.image.as_str());
        if let Some(cmd) = &s.cmd {
            push_all(&mut a, cmd);
        }
        assert(views(a@) =~= seq!["create"@] + spec_common(*s) + seq![s.image@] + opt_all(s.cmd));
        a
    }

    /// `start <id>`.
    pub fn start_args(&self, id: &str) -> (r: Vec<String>)
        ensures
            views(r@) == seq!["start"@, id@],
    {
        let mut a = args_of(&["start"]);
        push_arg(&mut a, id);
        a
    }

    /// `stop [-t <timeout>] <id>`.
    pub fn stop_args(&self, id: &str, timeout: Option<u32>) -> (r: Vec<String>)
        ensures
            views(r@) == seq!["stop"@] + opt_count("-t"@, timeout) + seq![id@],
    {
        let mut a = args_of(&["stop"]);
        push_opt_count(&mut a, "-t", timeout);
        push_arg(&mut a, id);
        a
    }

    /// `rm [-f] <id>`.
    pub fn remove_args(&self, id: &str, force: bool) -> (r: Vec<String>)
        ensures
            views(r@) == seq!["rm"@] + flag_if(force, "-f"@) + seq![id@],
    {
        let mut a = args_of(&["rm"]);
        push_when(&mut a, force, "-f");
        push_arg(&mut a, id);
        a
    }

    /// `ps --format json [--all]`.
    pub fn list_args(&self, all: bool) -> (r: Vec<String>)
        ensures
            views(r@) == seq!["ps"@, "--format"@, "json"@] + flag_if(all, "--all"@),
    {
        let mut a = args_of(&["ps", "--format", "json"]);
        push_when(&mut a, all, "--all");
        a
    }

    /// `inspect --format json <id>`.
    pub fn inspect_args(&self, id: &str) -> (r: Vec<String>)
        ensures
            views(r@) == seq!["inspect"@, "--format"@, "json"@, id@],
    {
        let mut a = args_of(&["inspect", "--format", "json"]);
        push_arg(&mut a, id);
        a
    }

    /// `logs [--tail <n>] <id>`.
    pub fn logs_args(&self, id: &str, tail: Option<u32>) -> (r: Vec<String>)
        ensures
            views(r@) == seq!["logs"@] + opt_count("--tail"@, tail) + seq![id@],
    {
        let mut a = args_of(&["logs"]);
        push_opt_count(&mut a, "--tail", tail);
        push_arg(&mut a, id);
        a
    }

    /// `exec [--workdir <dir>] [-e k=v]... <id> <cmd...>`, the environment by ascending key.
    pub fn exec_args(
        &self,
        id: &str,
        cmd: &Vec<String>,
        env: Option<&StrMap<String>>,
        workdir: Option<&str>,
    ) -> (r: Vec<String>)
        ensures
            views(r@) == seq!["exec"@] + match workdir {
                Some(w) => seq!["--workdir"@, w@],
                None => Seq::<Seq<char>>::empty(),
            } + match env {
                Some(e) => flag_kv("-e"@, sorted_pairs(e@)),
                None => Seq::<Seq<char>>::empty(),
            } + seq![id@] + views(cmd@),
    {
        let mut a = args_of(&["exec"]);
        if let Some(w) = workdir {
            push_arg(&mut a, "--workdir");
            push_arg(&mut a, w);
        }
        if let Some(e) = env {
            let sm = e.sorted_by_key();
            push_flag_kv(&mut a, "-e", &sm);
        }
        push_arg(&mut a, id);
        push_all(&mut a, cmd);
        assert(views(a@) =~= seq!["exec"@] + match workdir {
            Some(w) => seq!["--workdir"@, w@],
            None => Seq::<Seq<char>>::empty(),
        } + match env {
            Some(e) => flag_kv("-e"@, sorted_pairs(e@)),
            None => Seq::<Seq<char>>::empty(),
        } + seq![id@] + views(cmd@));
        a
    }

    /// `pull <reference>`.
    pub fn pull_image_args(&self, reference: &str) -> (r: Vec<String>)
        ensures
            views(r@) == seq!["pull"@, reference@],
    {
        let mut a = args_of(&["pull"]);
        push_arg(&mut a, reference);
        a
    }

    /// `images --format json`.
    pub fn list_images_args(&self) -> (r: Vec<String>)
        ensures
            views(r@) == seq!["images"@, "--format"@, "json"@],
    {
        args_of(&["images", "--format", "json"])
    }

    /// `rmi [-f] <reference>`.
    pub fn remove_image_args(&self, reference: &str, force: bool) -> (r: Vec<String>)
        ensures
            views(r@) == seq!["rmi"@] + flag_if(force, "-f"@) + seq![reference@],
    {
        let mut a = args_of(&["rmi"]);
        push_when(&mut a, force, "-f");
        push_arg(&mut a, reference);
        a
    }

    /// `image inspect --format json <reference>`.
    pub fn inspect_image_args(&self, reference: &str) -> (r: Vec<String>)
        ensures
            views(r@) == seq!["image"@, "inspect"@, "--format"@, "json"@, reference@],
    {
        let mut a = args_of(&["image", "inspect", "--format", "json"]);
        push_arg(&mut a, reference);
        a
    }

    /// `manifest inspect <reference>`.
    pub fn manifest_inspect_args(&self, reference: &str) -> (r: Vec<String>)
        ensures
            views(r@) == seq!["manifest"@, "inspect"@, reference@],
    {
        let mut a = args_of(&["manifest", "inspect"]);
        push_arg(&mut a, reference);
        a
    }

    /// `build -t <image> [-f <dockerfile>] [--build-arg k=v]... <context>`:
    /// the build arguments by ascending key, the context `.` when none is given.
    pub fn build_args(&self, spec: &ComposeServiceBuild, image_name: &str) -> (r: Vec<String>)
        ensures
            exists|m: StrMap<String>|
                {
                    &&& match spec.args {
                        Some(a) => map_of_pairs(m, a.spec_pairs()),
                        None => m@.len() == 0,
                    }
                    &&& views(r@) == seq!["build"@, "-t"@, image_name@] + opt_flag("-f"@, spec.dockerfile)
                        + flag_kv("--build-arg"@, sorted_pairs(m@)) + seq![
                        match spec.context {
                            Some(c) => c@,
                            None => "."@,
                        },
                    ]
                },
    {
        let mut a = args_of(&["build", "-t"]);
        push_arg(&mut a, image_name);
        push_opt_flag(&mut a, "-f", &spec.dockerfile);
        let m = match &spec.args {
            Some(args) => args.to_map(),
            None => StrMap::new(),
        };
        let sm = m.sorted_by_key();
        push_flag_kv(&mut a, "--build-arg", &sm);
        match &spec.context {
            Some(c) => push_arg(&mut a, c.as_str()),
            None => push_arg(&mut a, "."),
        }
        assert(views(a@) =~= seq!["build"@, "-t"@, image_name@] + opt_flag("-f"@, spec.dockerfile)
            + flag_kv("--build-arg"@, sorted_pairs(m@)) + seq![
            match spec.context {
                Some(c) => c@,
                None => "."@,
            },
        ]);
        a
    }

    /// `network create [--driver <d>] [--label k=v]... [--internal] [--ipv6] <name>`.
    pub fn create_network_args(&self, name: &str, config: &NetworkConfig) -> (r: Vec<String>)
        ensures
            views(r@) == seq!["network"@, "create"@] + opt_flag("--driver"@, config.driver) + flag_kv(
                "--label"@,
                sorted_pairs(config.labels@),
            ) + flag_if(config.internal, "--internal"@) + flag_if(config.enable_ipv6, "--ipv6"@) + seq![name@],
    {
        let mut a = args_of(&["network", "create"]);
        push_opt_flag(&mut a, "--driver", &config.driver);
        let sm = config.labels.sorted_by_key();
        push_flag_kv(&mut a, "--label", &sm);
        push_when(&mut a, config.internal, "--internal");
        push_when(&mut a, config.enable_ipv6, "--ipv6");
        push_arg(&mut a, name);
        a
    }

    /// `network rm <name>`.
    pub fn remove_network_args(&self, name: &str) -> (r: Vec<String>)
        ensures
            views(r@) == seq!["network"@, "rm"@, name@],
    {
        let mut a = args_of(&["network", "rm"]);
        push_arg(&mut a, name);
        a
    }

    /// `network inspect <name>`.
    pub fn inspect_network_args(&self, name: &str) -> (r: Vec<String>)
        ensures
            views(r@) == seq!["network"@, "inspect"@, name@],
    {
        let mut a = args_of(&["network", "inspect"]);
        push_arg(&mut a, name);
        a
    }

    /// `volume create [--driver <d>] [--label k=v]... <name>`.
    pub fn create_volume_args(&self, name: &str, config: &VolumeConfig) -> (r: Vec<String>)
        ensures
            views(r@) == seq!["volume"@, "create"@] + opt_flag("--driver"@, config.driver) + flag_kv(
                "--label"@,
                sorted_pairs(config.labels@),
            ) + seq![name@],
    {
        let mut a = args_of(&["volume", "create"]);
        push_opt_flag(&mut a, "--driver", &config.driver);
        let sm = config.labels.sorted_by_key();
        push_flag_kv(&mut a, "--label", &sm);
        push_arg(&mut a, name);
        a
    }

    /// `volume rm <name>`.
    pub fn remove_volume_args(&self, name: &str) -> (r: Vec<String>)
        ensures
            views(r@) == seq!["volume"@, "rm"@, name@],
    {
        let mut a = args_of(&["volume", "rm"]);
        push_arg(&mut a, name);
        a
    }

    /// `volume inspect <name>`.
    pub fn inspect_volume_args(&self, name: &str) -> (r: Vec<String>)
        ensures
            views(r@) == seq!["volume"@, "inspect"@, name@],
    {
        let mut a = args_of(&["volume", "inspect"]);
        push_arg(&mut a, name);
        a
    }

    /// `wait <id>`.
    pub fn wait_args(&self, id: &str) -> (r: Vec<String>)
        ensures
            views(r@) == seq!["wait"@, id@],
    {
        let mut a = args_of(&["wait"]);
        push_arg(&mut a, id);
        a
    }

    /// The containers of a `ps --format json` reply (trimmed): one per
    /// array element, with id, name (without leading `/`), image and status.
    pub fn parse_list_output(&self, stdout: &str) -> (r: Result<Vec<ContainerInfo>, ComposeError>)
        ensures
            r matches Ok(v) && v@.len() == json_array_len_of(trim(stdout@)) && forall|i: int|
                0 <= i < v@.len() ==> listed_container_ok(#[trigger] v@[i], trim(stdout@), i),
    {
        let t = trim_str(stdout);
        let n = json_array_len(t.as_str());
        let mut v: Vec<ContainerInfo> = Vec::new();
        let mut i: usize = 0;
        while i < n
            invariant
                n == json_array_len_of(t@),
                t@ == trim(stdout@),
                i <= n,
                v@.len() == i,
                forall|j: int| 0 <= j < i ==> listed_container_ok(#[trigger] v@[j], t@, j),
            decreases n - i,
        {
            let e = json_element_text(t.as_str(), i);
            let name = first_str_field(e.as_str(), "Names", "names");
            v.push(ContainerInfo {
                id: first_str_field(e.as_str(), "ID", "Id"),
                name: trim_start_matches_char(name.as_str(), '/'),
                image: str_field(e.as_str(), "Image"),
                status: str_field(e.as_str(), "Status"),
                ports: Vec::new(),
                labels: StrMap::new(),
                created: String::new(),
            });
            i = i + 1;
        }
        Ok(v)
    }

    /// The container of an `inspect --format json` reply (trimmed): id,
    /// name (without leading `/`), `Config.Image`, `State.Status` and creation time.
    pub fn parse_inspect_output(&self, stdout: &str) -> (r: Result<ContainerInfo, ComposeError>)
        ensures
            r matches Ok(c) && {
                let e = inspected_value(trim(stdout@));
                &&& c.id@ == or_empty(json_str_of(e, "Id"@))
                &&& c.name@ == trim_start_char(or_empty(json_str_of(e, "Name"@)), '/')
                &&& c.image@ == or_empty(json_str_of(json_field_text_of(e, "Config"@), "Image"@))
                &&& c.status@ == or_empty(json_str_of(json_field_text_of(e, "State"@), "Status"@))
                &&& c.ports@.len() == 0
                &&& c.labels.wf() && c.labels@.len() == 0
                &&& c.created@ == or_empty(json_str_of(e, "Created"@))
            },
    {
        let t = trim_str(stdout);
        let e = inspected(t.as_str());
        let name = str_field(e.as_str(), "Name");
        let config = json_field_text(e.as_str(), "Config");
        let state = json_field_text(e.as_str(), "State");
        Ok(ContainerInfo {
            id: str_field(e.as_str(), "Id"),
            name: trim_start_matches_char(name.as_str(), '/'),
            image: str_field(config.as_str(), "Image"),
            status: str_field(state.as_str(), "Status"),
            ports: Vec::new(),
            labels: StrMap::new(),
            created: str_field(e.as_str(), "Created"),
        })
    }

    /// The images of an `images --format json` reply (trimmed), one per
    /// array element.
    pub fn parse_list_images_output(&self, stdout: &str) -> (r: Result<Vec<ImageInfo>, ComposeError>)
        ensures
            r matches Ok(v) && v@.len() == json_array_len_of(trim(stdout@)) && forall|i: int|
                0 <= i < v@.len() ==> listed_image_ok(#[trigger] v@[i], trim(stdout@), i),
    {
        let t = trim_str(stdout);
        let n = json_array_len(t.as_str());
        let mut v: Vec<ImageInfo> = Vec::new();
        let mut i: usize = 0;
        while i < n
            invariant
                n == json_array_len_of(t@),
                t@ == trim(stdout@),
                i <= n,
                v@.len() == i,
                forall|j: int| 0 <= j < i ==> listed_image_ok(#[trigger] v@[j], t@, j),
            decreases n - i,
        {
            let e = json_element_text(t.as_str(), i);
            v.push(ImageInfo {
                id: str_field(e.as_str(), "ID"),
                repository: str_field(e.as_str(), "Repository"),
                tag: str_field(e.as_str(), "Tag"),
                size: u64_field(e.as_str(), "Size"),
                created: str_field(e.as_str(), "CreatedSince"),
            });
            i = i + 1;
        }
        Ok(v)
    }

    /// The image of an `image inspect --format json` reply (trimmed): id,
    /// size and creation time; repository and tag are left empty.
    pub fn parse_inspect_image_output(&self, stdout: &str) -> (r: Result<ImageInfo, ComposeError>)
        ensures
            r matches Ok(m) && {
                let e = inspected_value(trim(stdout@));
                &&& m.id@ == or_empty(json_str_of(e, "Id"@))
                &&& m.repository@.len() == 0 && m.tag@.len() == 0
                &&& m.size == match json_u64_of(e, "Size"@) {
                    Some(n) => n,
                    None => 0,
                }
                &&& m.created@ == or_empty(json_str_of(e, "Created"@))
            },
    {
        let t = trim_str(stdout);
        let e = inspected(t.as_str());
        Ok(ImageInfo {
            id: str_field(e.as_str(), "Id"),
            repository: String::new(),
            tag: String::new(),
            size: u64_field(e.as_str(), "Size"),
            created: str_field(e.as_str(), "Created"),
        })
    }

    /// The container id printed by `run` or `create`: the output trimmed.
    pub fn parse_container_id(&self, stdout: &str) -> (r: Result<String, ComposeError>)
        ensures
            r matches Ok(id) && id@ == trim(stdout@),
    {
        Ok(trim_str(stdout))
    }
}

/// The argument lists of Apple's `container` CLI: Docker's, but for `run`.
#[derive(Debug, Clone, Copy)]
pub struct AppleContainerProtocol;

impl AppleContainerProtocol {
    /// The protocol's name.
    pub fn protocol_name(&self) -> (r: &'static str)
        ensures
            r@ == "apple/container"@,
    {
        "apple/container"
    }

    /// `run [--rm] [--name <n>] <image> <cmd...>`.
    pub fn run_args(&self, s: &ContainerSpec) -> (r: Vec<String>)
        ensures
            views(r@) == seq!["run"@] + flag_if(s.rm == Some(true), "--rm"@) + opt_flag("--name"@, s.name)
                + seq![s.image@] + opt_all(s.cmd),
    {
        let mut a = args_of(&["run"]);
        let rm = match s.rm {
            Some(b) => b,
            None => false,
        };
        push_when(&mut a, rm, "--rm");
        push_opt_flag(&mut a, "--name", &s.name);
        push_arg(&mut a, s.image.as_str());
        if let Some(cmd) = &s.cmd {
            push_all(&mut a, cmd);
        }
        assert(views(a@) =~= seq!["run"@] + flag_if(s.rm == Some(true), "--rm"@) + opt_flag(
            "--name"@,
            s.name,
        ) + seq![s.image@] + opt_all(s.cmd));
        a
    }
}

/// The Docker argument lists run inside a Lima instance through `nerdctl`.
#[derive(Debug, Clone)]
pub struct LimaProtocol {
    pub instance: String,
}

impl LimaProtocol {
    /// The protocol's name.
    pub fn protocol_name(&self) -> (r: &'static str)
        ensures
            r@ == "lima"@,
    {
        "lima"
    }

    /// The words put before every command: `shell <instance> nerdctl`.
    pub fn subcommand_prefix(&self) -> (r: Option<Vec<String>>)
        ensures
            r matches Some(p) && views(p@) == seq!["shell"@, self.instance@, "nerdctl"@],
    {
        let mut a = args_of(&["shell"]);
        push_arg(&mut a, self.instance.as_str());
        push_arg(&mut a, "nerdctl");
        Some(a)
    }
}

// ============ choosing a backend ============

/// The backends tried, in order, on a host whose operating system is `os`
/// (as `std::env::consts::OS` names it).
pub open spec fn spec_platform_candidates(os: Seq<char>) -> Seq<Seq<char>> {
    if os == "macos"@ || os == "ios"@ {
        seq!["apple/container"@, "orbstack"@, "colima"@, "rancher-desktop"@, "lima"@, "podman"@, "docker"@]
    } else if os == "linux"@ {
        seq!["podman"@, "nerdctl"@, "docker"@]
    } else {
        seq!["podman"@, "docker"@]
    }
}

/// The backends tried on this kind of host, in order.
pub fn platform_candidates(os: &str) -> (r: Vec<String>)
    ensures
        views(r@) == spec_platform_candidates(os@),
{
    if str_eq(os, "macos") || str_eq(os, "ios") {
        args_of(&["apple/container", "orbstack", "colima", "rancher-desktop", "lima", "podman", "docker"])
    } else if str_eq(os, "linux") {
        args_of(&["podman", "nerdctl", "docker"])
    } else {
        args_of(&["podman", "docker"])
    }
}

/// The CLI protocol a backend speaks.
#[derive(Debug, Clone)]
pub enum ProtocolChoice {
    Docker,
    AppleContainer,
    Lima(LimaProtocol),
}

/// How to set up a named backend: the binaries to look for, in order, the
/// protocol it speaks, and the error when none of the binaries is found.
#[derive(Debug, Clone)]
pub struct ProbePlan {
    pub binaries: Vec<String>,
    pub protocol: ProtocolChoice,
    pub not_found: ComposeError,
}

/// The plan for backend `name`: `apple/container` runs `container`;
/// `orbstack` runs `orb`, else `docker`; `docker` and `podman` run their own
/// binaries; `lima` runs `limactl` with instance `default`. Any other name
/// is an unknown backend.
pub fn probe_plan(name: &str) -> (r: Result<ProbePlan, ComposeError>)
    ensures
        match r {
            Ok(p) => {
                ||| name@ == "apple/container"@ && views(p.binaries@) == seq!["container"@]
                    && p.protocol is AppleContainer && p.not_found == ComposeError::NotFound(
                    p.not_found->NotFound_0,
                ) && p.not_found->NotFound_0@ == "container not found"@
                ||| name@ == "orbstack"@ && views(p.binaries@) == seq!["orb"@, "docker"@] && p.protocol is Docker
                    && p.not_found == ComposeError::NotFound(p.not_found->NotFound_0)
                    && p.not_found->NotFound_0@ == "orbstack not found"@
                ||| name@ == "docker"@ && views(p.binaries@) == seq!["docker"@] && p.protocol is Docker
                    && p.not_found == ComposeError::NotFound(p.not_found->NotFound_0)
                    && p.not_found->NotFound_0@ == "docker not found"@
                ||| name@ == "podman"@ && views(p.binaries@) == seq!["podman"@] && p.protocol is Docker
                    && p.not_found == ComposeError::NotFound(p.not_found->NotFound_0)
                    && p.not_found->NotFound_0@ == "podman not found"@
                ||| name@ == "lima"@ && views(p.binaries@) == seq!["limactl"@] && (p.protocol matches ProtocolChoice::Lima(l)
                    && l.instance@ == "default"@) && p.not_found == ComposeError::NotFound(p.not_found->NotFound_0)
                    && p.not_found->NotFound_0@ == "limactl not found"@
            },
            Err(e) => name@ != "apple/container"@ && name@ != "orbstack"@ && name@ != "docker"@ && name@
                != "podman"@ && name@ != "lima"@ && (e matches ComposeError::NotFound(m) && m@ == "Unknown backend: "@
                + name@),
        },
{
    if str_eq(name, "apple/container") {
        Ok(ProbePlan {
            binaries: args_of(&["container"]),
            protocol: ProtocolChoice::AppleContainer,
            not_found: ComposeError::NotFound("container not found".to_owned()),
        })
    } else if str_eq(name, "orbstack") {
        Ok(ProbePlan {
            binaries: args_of(&["orb", "docker"]),
            protocol: ProtocolChoice::Docker,
            not_found: ComposeError::NotFound("orbstack not found".to_owned()),
        })
    } else if str_eq(name, "docker") {
        Ok(ProbePlan {
            binaries: args_of(&["docker"]),
            protocol: ProtocolChoice::Docker,
            not_found: ComposeError::NotFound("docker not found".to_owned()),
        })
    } else if str_eq(name, "podman") {
        Ok(ProbePlan {
            binaries: args_of(&["podman"]),
            protocol: ProtocolChoice::Docker,
            not_found: ComposeError::NotFound("podman not found".to_owned()),
        })
    } else if str_eq(name, "lima") {
        Ok(ProbePlan {
            binaries: args_of(&["limactl"]),
            protocol: ProtocolChoice::Lima(LimaProtocol { instance: "default".to_owned() }),
            not_found: ComposeError::NotFound("limactl not found".to_owned()),
        })
    } else {
        let mut m = "Unknown backend: ".to_owned();
        crate::strs::push_str(&mut m, name);
        Err(ComposeError::NotFound(m))
    }
}

} // verus!

//! The compose document as the engine reads it, and the container-level
//! values exchanged with a container backend.

use vstd::prelude::*;
use crate::strmap::StrMap;
use crate::strs::{to_chars, from_chars, clone_strings};
use crate::text::{has_match, find_in, lemma_first_match_unique, split_ws, split_whitespace};
use crate::entities::service::{DictValue, dict_text, split_entry, dict_value_text};
use crate::orchestrate::env::{map_of_pairs, lemma_map_push};

verus! {

// ============ ListOrDict ============

/// The assignments of a mapping: entries without a value are left out.
pub open spec fn dict_pairs(m: Seq<(Seq<char>, Option<DictValue>)>) -> Seq<(Seq<char>, Seq<char>)>
    decreases m.len(),
{
    if m.len() == 0 {
        Seq::empty()
    } else {
        let rest = dict_pairs(m.drop_last());
        match m.last().1 {
            Some(v) => rest.push((m.last().0, dict_text(Some(v)))),
            None => rest,
        }
    }
}

/// The assignments of a `KEY=VALUE` list: each entry split at its first
/// `=`; entries without `=` are left out.
pub open spec fn list_pairs(l: Seq<String>) -> Seq<(Seq<char>, Seq<char>)>
    decreases l.len(),
{
    if l.len() == 0 {
        Seq::empty()
    } else {
        let rest = list_pairs(l.drop_last());
        if has_match(l.last()@, seq!['=']) {
            rest.push(split_entry(l.last()@))
        } else {
            rest
        }
    }
}

/// `s` split at its first `=` (`str::split_once`), when it holds one.
fn split_once_eq(s: &String) -> (r: Option<(String, String)>)
    ensures
        r is Some <==> has_match(s@, seq!['=']),
        r matches Some((k, v)) ==> (k@, v@) == split_entry(s@),
{
    let v = to_chars(s.as_str());
    let n = v.len();
    let eq = vec!['='];
    assert(eq@ =~= seq!['=']);
    assert(v@.subrange(0, n as int) =~= v@);
    match find_in(&v, 0, n, &eq) {
        Some(p) => {
            proof {
                lemma_first_match_unique(v@, eq@, p as int);
            }
            Some((from_chars(&v, 0, p), from_chars(&v, p + 1, n)))
        },
        None => None,
    }
}

/// A `list_or_dict` value: a mapping, or a `KEY=VALUE` list.
#[derive(Debug, Clone)]
pub enum ListOrDict {
    Dict(StrMap<Option<DictValue>>),
    List(Vec<String>),
}

impl ListOrDict {
    /// The assignments this value makes, in order.
    pub open spec fn spec_pairs(&self) -> Seq<(Seq<char>, Seq<char>)> {
        match self {
            ListOrDict::Dict(m) => dict_pairs(m@),
            ListOrDict::List(l) => list_pairs(l@),
        }
    }

    /// The assignments as a flat map: mapping entries without a value and
    /// list entries without `=` are dropped; a later list entry for a key
    /// overrides an earlier one.
    pub fn to_map(&self) -> (r: StrMap<String>)
        ensures
            map_of_pairs(r, self.spec_pairs()),
    {
        let mut r: StrMap<String> = StrMap::new();
        match self {
            ListOrDict::Dict(m) => {
                let n = m.len();
                let mut i: usize = 0;
                assert(m@.take(0) =~= Seq::<(Seq<char>, Option<DictValue>)>::empty());
                while i < n
                    invariant
                        n == m@.len(),
                        i <= n,
                        map_of_pairs(r, dict_pairs(m@.take(i as int))),
                    decreases n - i,
                {
                    let ghost prev = dict_pairs(m@.take(i as int));
                    assert(m@.take(i + 1).drop_last() =~= m@.take(i as int));
                    assert(m@.take(i + 1).last() == m@[i as int]);
                    match m.value_at(i) {
                        Some(_) => {
                            let k = m.key_at(i).clone();
                            let t = dict_value_text(m.value_at(i));
                            let ghost old_r = r;
                            let ghost kv = k@;
                            let ghost tv = t@;
                            r.insert(k, t);
                            proof {
                                lemma_map_push(old_r, r, prev, kv, tv);
                            }
                        },
                        None => {},
                    }
                    i = i + 1;
                }
                assert(m@.take(n as int) =~= m@);
            },
            ListOrDict::List(l) => {
                let n = l.len();
                let mut i: usize = 0;
                assert(l@.take(0) =~= Seq::<String>::empty());
                while i < n
                    invariant
                        n == l@.len(),
                        i <= n,
                        map_of_pairs(r, list_pairs(l@.take(i as int))),
                    decreases n - i,
                {
                    let ghost prev = list_pairs(l@.take(i as int));
                    assert(l@.take(i + 1).drop_last() =~= l@.take(i as int));
                    assert(l@.take(i + 1).last() == l@[i as int]);
                    match split_once_eq(&l[i]) {
                        Some((k, v)) => {
                            let ghost old_r = r;
                            let ghost kv = k@;
                            let ghost vv = v@;
                            r.insert(k, v);
                            proof {
                                lemma_map_push(old_r, r, prev, kv, vv);
                            }
                        },
                        None => {},
                    }
                    i = i + 1;
                }
                assert(l@.take(n as int) =~= l@);
            },
        }
        r
    }
}

// ============ depends_on ============

/// `depends_on`: a list of service names, or a mapping from service name to
/// its condition (kept as JSON text).
#[derive(Debug, Clone)]
pub enum DependsOnSpec {
    List(Vec<String>),
    Mapping(StrMap<String>),
}

impl DependsOnSpec {
    /// The names of the services depended on.
    pub open spec fn spec_names(&self) -> Seq<Seq<char>> {
        match self {
            DependsOnSpec::List(l) => l@.map_values(|s: String| s@),
            DependsOnSpec::Mapping(m) => m@.map_values(|e: (Seq<char>, String)| e.0),
        }
    }

    /// The names of the services depended on (mapping keys in document order).
    pub fn service_names(&self) -> (r: Vec<String>)
        ensures
            r@.map_values(|s: String| s@) == self.spec_names(),
    {
        match self {
            DependsOnSpec::List(l) => {
                let r = clone_strings(l);
                assert(r@.map_values(|s: String| s@) =~= self.spec_names());
                r
            },
            DependsOnSpec::Mapping(m) => {
                let r = m.keys();
                assert(r@.map_values(|s: String| s@) =~= self.spec_names());
                r
            },
        }
    }
}

// ============ command ============

/// A `command` or `entrypoint` value: a string, a sequence (each item's
/// text when it is a string), or any other value.
#[derive(Debug, Clone)]
pub enum CommandValue {
    Text(String),
    Items(Vec<Option<String>>),
    Other,
}

/// The string items of a sequence, in order.
pub open spec fn string_items(v: Seq<Option<String>>) -> Seq<Seq<char>>
    decreases v.len(),
{
    if v.len() == 0 {
        Seq::empty()
    } else {
        let rest = string_items(v.drop_last());
        match v.last() {
            Some(s) => rest.push(s@),
            None => rest,
        }
    }
}

/// The argument list of a command: a string split at whitespace, the string
/// items of a sequence, nothing for any other value.
pub open spec fn spec_command_list(c: Option<CommandValue>) -> Option<Seq<Seq<char>>> {
    match c {
        Some(CommandValue::Text(s)) => Some(split_ws(s@)),
        Some(CommandValue::Items(v)) => Some(string_items(v@)),
        _ => None,
    }
}

fn collect_string_items(v: &Vec<Option<String>>) -> (r: Vec<String>)
    ensures
        r@.map_values(|s: String| s@) == string_items(v@),
{
    let mut r: Vec<String> = Vec::new();
    let mut i: usize = 0;
    assert(v@.take(0) =~= Seq::<Option<String>>::empty());
    assert(r@.map_values(|s: String| s@) =~= Seq::<Seq<char>>::empty());
    while i < v.len()
        invariant
            i <= v@.len(),
            r@.map_values(|s: String| s@) == string_items(v@.take(i as int)),
        decreases v@.len() - i,
    {
        assert(v@.take(i + 1).drop_last() =~= v@.take(i as int));
        assert(v@.take(i + 1).last() == v@[i as int]);
        match &v[i] {
            Some(s) => {
                let ghost before = r@;
                r.push(s.clone());
                assert(r@.map_values(|s: String| s@) =~= before.map_values(|s: String| s@).push(s@));
            },
            None => {},
        }
        i = i + 1;
    }
    assert(v@.take(v@.len() as int) =~= v@);
    r
}

// ============ compose document ============

/// Build settings of a service.
#[derive(Debug, Clone)]
pub struct ComposeServiceBuild {
    pub context: Option<String>,
    pub dockerfile: Option<String>,
    pub args: Option<ListOrDict>,
}

/// A service of the compose document.
#[derive(Debug, Clone, Default)]
pub struct ComposeService {
    pub image: Option<String>,
    pub build: Option<ComposeServiceBuild>,
    pub command: Option<CommandValue>,
    pub entrypoint: Option<CommandValue>,
    pub environment: Option<ListOrDict>,
    pub ports: Option<Vec<String>>,
    pub volumes: Option<Vec<String>>,
    pub networks: Option<Vec<String>>,
    pub depends_on: Option<DependsOnSpec>,
    pub container_name: Option<String>,
    pub labels: Option<ListOrDict>,
}

impl ComposeService {
    /// The image to run: `image`, or else the service name.
    pub fn image_ref(&self, svc_name: &str) -> (r: String)
        ensures
            r@ == match self.image {
                Some(i) => i@,
                None => svc_name@,
            },
    {
        match &self.image {
            Some(i) => i.clone(),
            None => svc_name.to_owned(),
        }
    }

    /// Whether the service builds its image: it has `build` and no `image`.
    pub fn needs_build(&self) -> (b: bool)
        ensures
            b == (self.build is Some && self.image is None),
    {
        self.build.is_some() && self.image.is_none()
    }

    /// The port mappings as written (none when absent).
    pub fn port_strings(&self) -> (r: Vec<String>)
        ensures
            r@ == match self.ports {
                Some(p) => p@,
                None => Seq::empty(),
            },
    {
        match &self.ports {
            Some(p) => clone_strings(p),
            None => Vec::new(),
        }
    }

    /// The volume mounts as written (none when absent).
    pub fn volume_strings(&self) -> (r: Vec<String>)
        ensures
            r@ == match self.volumes {
                Some(v) => v@,
                None => Seq::empty(),
            },
    {
        match &self.volumes {
            Some(v) => clone_strings(v),
            None => Vec::new(),
        }
    }

    /// The environment as a flat map (empty when none is given).
    pub fn resolved_env(&self) -> (r: StrMap<String>)
        ensures
            match self.environment {
                Some(e) => map_of_pairs(r, e.spec_pairs()),
                None => r.wf() && r@.len() == 0,
            },
    {
        match &self.environment {
            Some(e) => e.to_map(),
            None => StrMap::new(),
        }
    }

    /// The command as an argument list: a string command split at
    /// whitespace, the string items of a list; `None` for anything else.
    pub fn command_list(&self) -> (r: Option<Vec<String>>)
        ensures
            match r {
                Some(v) => spec_command_list(self.command) == Some(v@.map_values(|s: String| s@)),
                None => spec_command_list(self.command) is None,
            },
    {
        match &self.command {
            Some(CommandValue::Text(s)) => Some(split_whitespace(s.as_str())),
            Some(CommandValue::Items(v)) => Some(collect_string_items(v)),
            _ => None,
        }
    }
}

/// A network of the compose document.
#[derive(Debug, Clone, Default)]
pub struct ComposeNetwork {
    pub driver: Option<String>,
    pub external: Option<bool>,
    pub internal: Option<bool>,
    pub enable_ipv6: Option<bool>,
    pub name: Option<String>,
    pub labels: Option<ListOrDict>,
}

/// A volume of the compose document.
#[derive(Debug, Clone, Default)]
pub struct ComposeVolume {
    pub driver: Option<String>,
    pub external: Option<bool>,
    pub name: Option<String>,
    pub labels: Option<ListOrDict>,
}

/// A compose document: its services, networks and volumes by name.
#[derive(Debug, Clone, Default)]
pub struct ComposeSpec {
    pub version: Option<String>,
    pub name: Option<String>,
    pub services: StrMap<ComposeService>,
    pub networks: Option<StrMap<Option<ComposeNetwork>>>,
    pub volumes: Option<StrMap<Option<ComposeVolume>>>,
}

// ============ container-level values ============

/// What to run in one container.
#[derive(Debug, Clone, Default)]
pub struct ContainerSpec {
    pub image: String,
    pub name: Option<String>,
    pub ports: Option<Vec<String>>,
    pub volumes: Option<Vec<String>>,
    pub env: Option<StrMap<String>>,
    pub labels: Option<StrMap<String>>,
    pub cmd: Option<Vec<String>>,
    pub entrypoint: Option<Vec<String>>,
    pub network: Option<String>,
    pub rm: Option<bool>,
}

/// A container that was created.
#[derive(Debug, Clone)]
pub struct ContainerHandle {
    pub id: String,
    pub name: Option<String>,
}

/// What a backend reports of a container.
#[derive(Debug, Clone)]
pub struct ContainerInfo {
    pub id: String,
    pub name: String,
    pub image: String,
    pub status: String,
    pub ports: Vec<String>,
    pub labels: StrMap<String>,
    pub created: String,
}

/// The output of a container.
#[derive(Debug, Clone)]
pub struct ContainerLogs {
    pub stdout: String,
    pub stderr: String,
}

/// What a backend reports of an image.
#[derive(Debug, Clone)]
pub struct ImageInfo {
    pub id: String,
    pub repository: String,
    pub tag: String,
    pub size: u64,
    pub created: String,
}

/// A started stack: its id, project name and services.
#[derive(Debug, Clone)]
pub struct ComposeHandle {
    pub stack_id: u64,
    pub project_name: String,
    pub services: Vec<String>,
}

} // verus!

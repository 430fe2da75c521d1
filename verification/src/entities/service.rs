//! Service entity of the compose-spec: the parts of a service definition
//! that the orchestration logic reads, with their conversions to the flat
//! forms the container backends take.

use vstd::prelude::*;
use crate::strmap::StrMap;
use crate::strs::{to_chars, from_chars, push_char, push_str, clone_strings};
use crate::text::{has_match, first_match, find_in, lemma_first_match_unique, trim_char, trim_matches_char, is_alphanumeric, is_alphanumeric_char};
use crate::orchestrate::env::{map_of_pairs, lemma_map_push};
use crate::digest::{hash8, spec_hash8};
use crate::error::ComposeError;

verus! {

// ============ ListOrDict ============

/// A scalar value of a mapping entry, as written in the compose file.
#[derive(Debug, Clone)]
pub enum DictValue {
    Str(String),
    /// A number, in its textual form.
    Num(String),
    Bool(bool),
    Null,
    /// Any other value, as JSON text.
    Other(String),
}

/// compose-spec `list_or_dict`: either a mapping or a `KEY=VALUE` list.
#[derive(Debug, Clone)]
pub enum ListOrDict {
    Dict(StrMap<Option<DictValue>>),
    List(Vec<String>),
}

/// The text of a mapping value: strings as they are, numbers and other
/// values in their textual form, booleans as `true`/`false`, null as empty.
pub open spec fn dict_text(v: Option<DictValue>) -> Seq<char> {
    match v {
        Some(DictValue::Str(s)) => s@,
        Some(DictValue::Num(t)) => t@,
        Some(DictValue::Bool(b)) => if b {
            "true"@
        } else {
            "false"@
        },
        Some(DictValue::Other(t)) => t@,
        _ => Seq::empty(),
    }
}

/// A `KEY=VALUE` entry split at its first `=`; without `=` the value is empty.
pub open spec fn split_entry(s: Seq<char>) -> (Seq<char>, Seq<char>) {
    if has_match(s, seq!['=']) {
        let p = first_match(s, seq!['=']);
        (s.subrange(0, p), s.subrange(p + 1, s.len() as int))
    } else {
        (s, Seq::empty())
    }
}

pub(crate) fn dict_value_text(v: &Option<DictValue>) -> (r: String)
    ensures
        r@ == dict_text(*v),
{
    match v {
        Some(DictValue::Str(s)) => s.clone(),
        Some(DictValue::Num(t)) => t.clone(),
        Some(DictValue::Bool(b)) => if *b {
            "true".to_owned()
        } else {
            "false".to_owned()
        },
        Some(DictValue::Other(t)) => t.clone(),
        _ => String::new(),
    }
}

pub(crate) fn split_entry_exec(s: &String) -> (r: (String, String))
    ensures
        (r.0@, r.1@) == split_entry(s@),
{
    let v = to_chars(s.as_str());
    let n = v.len();
    let eq = vec!['='];
    assert(eq@ =~= seq!['=']);
    assert(v@.subrange(0, n as int) =~= v@);
    match find_in(&v, 0, n, &eq) {
        Some(p) => {
            proof {
                lemma_first_match_unique(v@, eq@, p as int);
            }
            (from_chars(&v, 0, p), from_chars(&v, p + 1, n))
        },
        None => (s.clone(), String::new()),
    }
}

impl ListOrDict {
    /// The `(key, value)` pairs this value assigns, in order.
    pub open spec fn spec_pairs(&self) -> Seq<(Seq<char>, Seq<char>)> {
        match self {
            ListOrDict::Dict(m) => m@.map_values(
                |e: (Seq<char>, Option<DictValue>)| (e.0, dict_text(e.1)),
            ),
            ListOrDict::List(l) => l@.map_values(|s: String| split_entry(s@)),
        }
    }

    /// The assignments as a flat map; a later `KEY=...` list entry overrides
    /// an earlier one.
    pub fn to_map(&self) -> (r: StrMap<String>)
        ensures
            map_of_pairs(r, self.spec_pairs()),
    {
        let mut r: StrMap<String> = StrMap::new();
        let ghost pairs = self.spec_pairs();
        match self {
            ListOrDict::Dict(m) => {
                let n = m.len();
                let mut i: usize = 0;
                while i < n
                    invariant
                        n == m@.len(),
                        pairs.len() == n,
                        pairs == self.spec_pairs(),
                        *self == ListOrDict::Dict(*m),
                        i <= n,
                        map_of_pairs(r, pairs.take(i as int)),
                    decreases n - i,
                {
                    let k = m.key_at(i).clone();
                    let val = dict_value_text(m.value_at(i));
                    let ghost old_r = r;
                    let ghost kv = k@;
                    let ghost vv = val@;
                    r.insert(k, val);
                    proof {
                        lemma_map_push(old_r, r, pairs.take(i as int), kv, vv);
                        assert(pairs.take(i as int).push((kv, vv)) =~= pairs.take(i + 1));
                    }
                    i = i + 1;
                }
                assert(pairs.take(n as int) =~= pairs);
            },
            ListOrDict::List(l) => {
                let n = l.len();
                let mut i: usize = 0;
                while i < n
                    invariant
                        n == l@.len(),
                        pairs.len() == n,
                        pairs == self.spec_pairs(),
                        *self == ListOrDict::List(*l),
                        i <= n,
                        map_of_pairs(r, pairs.take(i as int)),
                    decreases n - i,
                {
                    let (k, val) = split_entry_exec(&l[i]);
                    let ghost old_r = r;
                    let ghost kv = k@;
                    let ghost vv = val@;
                    r.insert(k, val);
                    proof {
                        lemma_map_push(old_r, r, pairs.take(i as int), kv, vv);
                        assert(pairs.take(i as int).push((kv, vv)) =~= pairs.take(i + 1));
                    }
                    i = i + 1;
                }
                assert(pairs.take(n as int) =~= pairs);
            },
        }
        r
    }
}

// ============ String | List ============

/// A string or a list of strings.
#[derive(Debug, Clone)]
pub enum StringOrList {
    String(String),
    List(Vec<String>),
}

impl StringOrList {
    /// The strings: the single string, or the list.
    pub open spec fn spec_list(&self) -> Seq<String> {
        match self {
            StringOrList::String(s) => seq![*s],
            StringOrList::List(l) => l@,
        }
    }

    /// The value as a list of strings.
    pub fn to_list(&self) -> (r: Vec<String>)
        ensures
            r@ == self.spec_list(),
    {
        match self {
            StringOrList::String(s) => {
                let mut v: Vec<String> = Vec::new();
                v.push(s.clone());
                assert(v@ =~= seq![*s]);
                v
            },
            StringOrList::List(l) => clone_strings(l),
        }
    }
}

// ============ DependsOn ============

/// Condition attached to a dependency in the long `depends_on` form.
#[derive(Debug, Clone)]
pub struct DependsOnCondition {
    /// `service_started`, `service_healthy` or `service_completed_successfully`.
    pub condition: Option<String>,
    pub required: Option<bool>,
    pub restart: Option<bool>,
}

/// `depends_on`: a list of service names or a map from name to condition.
#[derive(Debug, Clone)]
pub enum DependsOn {
    List(Vec<String>),
    Mapping(StrMap<DependsOnCondition>),
}

impl DependsOn {
    /// The names of the services depended on.
    pub open spec fn spec_names(&self) -> Seq<Seq<char>> {
        match self {
            DependsOn::List(l) => l@.map_values(|s: String| s@),
            DependsOn::Mapping(m) => m@.map_values(|e: (Seq<char>, DependsOnCondition)| e.0),
        }
    }

    /// The names of the services depended on (map keys in document order).
    pub fn service_names(&self) -> (r: Vec<String>)
        ensures
            r@.map_values(|s: String| s@) == self.spec_names(),
    {
        match self {
            DependsOn::List(l) => {
                let r = clone_strings(l);
                assert(r@.map_values(|s: String| s@) =~= self.spec_names());
                r
            },
            DependsOn::Mapping(m) => {
                let r = m.keys();
                assert(r@.map_values(|s: String| s@) =~= self.spec_names());
                r
            },
        }
    }
}

// ============ Build ============

/// Build configuration (the plain-valued part of compose-spec `build`).
#[derive(Debug, Clone)]
pub struct Build {
    pub context: Option<String>,
    pub dockerfile: Option<String>,
    pub dockerfile_inline: Option<String>,
    pub args: Option<ListOrDict>,
    pub labels: Option<ListOrDict>,
    pub cache_from: Option<Vec<String>>,
    pub cache_to: Option<Vec<String>>,
    pub no_cache: Option<bool>,
    pub network: Option<String>,
    pub target: Option<String>,
    pub extra_hosts: Option<ListOrDict>,
    pub isolation: Option<String>,
    pub privileged: Option<bool>,
    pub tags: Option<Vec<String>>,
    pub platforms: Option<Vec<String>>,
    pub pull: Option<bool>,
    pub entitlements: Option<Vec<String>>,
}

/// `build`: a context path, or a full object.
#[derive(Debug, Clone)]
pub enum BuildEntry {
    String(String),
    Object(Build),
}

impl BuildEntry {
    /// The build context, if one is given.
    pub fn context(&self) -> (r: Option<&str>)
        ensures
            match self {
                BuildEntry::String(s) => r is Some && r->0@ == s@,
                BuildEntry::Object(b) => match b.context {
                    Some(c) => r is Some && r->0@ == c@,
                    None => r is None,
                },
            },
    {
        match self {
            BuildEntry::String(s) => Some(s.as_str()),
            BuildEntry::Object(b) => match &b.context {
                Some(c) => Some(c.as_str()),
                None => None,
            },
        }
    }

    /// The full build object; the string form becomes an object with only a context.
    pub fn as_build(&self) -> (r: Build)
        ensures
            self matches BuildEntry::String(ctx) ==> r == (Build {
                context: Some(*ctx),
                dockerfile: None,
                dockerfile_inline: None,
                args: None,
                labels: None,
                cache_from: None,
                cache_to: None,
                no_cache: None,
                network: None,
                target: None,
                extra_hosts: None,
                isolation: None,
                privileged: None,
                tags: None,
                platforms: None,
                pull: None,
                entitlements: None,
            }),
    {
        match self {
            BuildEntry::String(ctx) => Build {
                context: Some(ctx.clone()),
                dockerfile: None,
                dockerfile_inline: None,
                args: None,
                labels: None,
                cache_from: None,
                cache_to: None,
                no_cache: None,
                network: None,
                target: None,
                extra_hosts: None,
                isolation: None,
                privileged: None,
                tags: None,
                platforms: None,
                pull: None,
                entitlements: None,
            },
            BuildEntry::Object(b) => b.clone(),
        }
    }
}

// ============ Port ============

/// Long form of a port mapping; `target` and `published` hold the values'
/// JSON text (a number, or a quoted string).
#[derive(Debug, Clone)]
pub struct ServicePort {
    pub name: Option<String>,
    pub mode: Option<String>,
    pub host_ip: Option<String>,
    pub target: String,
    pub published: Option<String>,
    pub protocol: Option<String>,
    pub app_protocol: Option<String>,
}

/// A port mapping: short form (the value's JSON text) or long form.
#[derive(Debug, Clone)]
pub enum PortEntry {
    Short(String),
    Long(ServicePort),
}

/// The `"host:container"` (or `"container"`) form of a port mapping.
pub open spec fn spec_port_string(p: PortEntry) -> Seq<char> {
    match p {
        PortEntry::Short(v) => trim_char(v@, '"'),
        PortEntry::Long(sp) => match sp.published {
            Some(h) => trim_char(h@, '"') + seq![':'] + trim_char(sp.target@, '"'),
            None => trim_char(sp.target@, '"'),
        },
    }
}

impl PortEntry {
    /// Converts to the `"host:container"` string form of backend CLI args.
    pub fn to_string_form(&self) -> (r: String)
        ensures
            r@ == spec_port_string(*self),
    {
        match self {
            PortEntry::Short(v) => trim_matches_char(v.as_str(), '"'),
            PortEntry::Long(p) => {
                let container = trim_matches_char(p.target.as_str(), '"');
                match &p.published {
                    Some(h) => {
                        let mut s = trim_matches_char(h.as_str(), '"');
                        push_char(&mut s, ':');
                        push_str(&mut s, container.as_str());
                        s
                    },
                    None => container,
                }
            },
        }
    }
}

// ============ Volume Mount ============

/// Long form of a volume mount.
#[derive(Debug, Clone)]
pub struct ServiceVolume {
    pub volume_type: String,
    pub source: Option<String>,
    pub target: Option<String>,
    pub read_only: Option<bool>,
    pub consistency: Option<String>,
}

/// A volume mount: short `src:dst[:mode]` string or long form.
#[derive(Debug, Clone)]
pub enum VolumeEntry {
    Short(String),
    Long(ServiceVolume),
}

/// The text of an optional string, empty when absent.
pub open spec fn opt_text(o: Option<String>) -> Seq<char> {
    match o {
        Some(s) => s@,
        None => Seq::empty(),
    }
}

/// The `"source:target[:ro]"` form of a volume mount.
pub open spec fn spec_volume_string(v: VolumeEntry) -> Seq<char> {
    match v {
        VolumeEntry::Short(s) => s@,
        VolumeEntry::Long(sv) => {
            let base = opt_text(sv.source) + seq![':'] + opt_text(sv.target);
            if sv.read_only == Some(true) {
                base + seq![':', 'r', 'o']
            } else {
                base
            }
        },
    }
}

/// A long-form mount is read-only only when `read_only` is `Some(true)`:
/// then its string is `source:target:ro`; with `Some(false)` or no
/// `read_only` it is exactly `source:target`.
pub proof fn lemma_long_volume_mode(sv: ServiceVolume)
    ensures
        sv.read_only != Some(true) ==> spec_volume_string(VolumeEntry::Long(sv)) == opt_text(sv.source) + ":"@
            + opt_text(sv.target),
        sv.read_only == Some(true) ==> spec_volume_string(VolumeEntry::Long(sv)) == opt_text(sv.source) + ":"@
            + opt_text(sv.target) + ":ro"@,
{
    reveal_strlit(":");
    reveal_strlit(":ro");
    assert(":"@ =~= seq![':']);
    assert(":ro"@ =~= seq![':', 'r', 'o']);
}

impl VolumeEntry {
    /// Converts to the `"source:target[:ro]"` string form of backend CLI args.
    pub fn to_string_form(&self) -> (r: String)
        ensures
            r@ == spec_volume_string(*self),
    {
        match self {
            VolumeEntry::Short(s) => s.clone(),
            VolumeEntry::Long(v) => {
                let mut s = String::new();
                match &v.source {
                    Some(x) => push_str(&mut s, x.as_str()),
                    None => {},
                }
                push_char(&mut s, ':');
                match &v.target {
                    Some(x) => push_str(&mut s, x.as_str()),
                    None => {},
                }
                let ro = match v.read_only {
                    Some(b) => b,
                    None => false,
                };
                if ro {
                    push_char(&mut s, ':');
                    push_char(&mut s, 'r');
                    push_char(&mut s, 'o');
                }
                assert(s@ =~= spec_volume_string(*self));
                s
            },
        }
    }
}

// ============ Networks on service ============

/// Per-network settings of a service.
#[derive(Debug, Clone)]
pub struct ServiceNetworkConfig {
    pub aliases: Option<Vec<String>>,
    pub ipv4_address: Option<String>,
    pub ipv6_address: Option<String>,
    pub priority: Option<i32>,
}

/// The networks of a service: a list of names, or a map from name to settings.
#[derive(Debug, Clone)]
pub enum ServiceNetworks {
    List(Vec<String>),
    Mapping(StrMap<Option<ServiceNetworkConfig>>),
}

impl ServiceNetworks {
    /// The network names.
    pub open spec fn spec_names(&self) -> Seq<Seq<char>> {
        match self {
            ServiceNetworks::List(l) => l@.map_values(|s: String| s@),
            ServiceNetworks::Mapping(m) => m@.map_values(|e: (Seq<char>, Option<ServiceNetworkConfig>)| e.0),
        }
    }

    /// The network names (map keys in document order).
    pub fn names(&self) -> (r: Vec<String>)
        ensures
            r@.map_values(|s: String| s@) == self.spec_names(),
    {
        match self {
            ServiceNetworks::List(l) => {
                let r = clone_strings(l);
                assert(r@.map_values(|s: String| s@) =~= self.spec_names());
                r
            },
            ServiceNetworks::Mapping(m) => {
                let r = m.keys();
                assert(r@.map_values(|s: String| s@) =~= self.spec_names());
                r
            },
        }
    }
}

// ============ Logging and restart ============

/// Logging configuration.
#[derive(Debug, Clone)]
pub struct Logging {
    pub driver: Option<String>,
    pub options: Option<StrMap<Option<String>>>,
}

/// Restart policy under `deploy`.
#[derive(Debug, Clone)]
pub struct DeployRestartPolicy {
    pub condition: Option<String>,
    pub delay: Option<String>,
    pub max_attempts: Option<u32>,
    pub window: Option<String>,
}

/// A container healthcheck. `test` is the JSON text of the check as the
/// document gives it (a command string or list).
#[derive(Debug, Clone)]
pub struct Healthcheck {
    pub test: String,
    pub interval: Option<String>,
    pub timeout: Option<String>,
    pub retries: Option<u32>,
    pub start_period: Option<String>,
    pub start_interval: Option<String>,
    pub disable: Option<bool>,
}

/// Resource amounts under `deploy.resources`; `cpus` is the JSON text of
/// the value as given (a number or a string).
#[derive(Debug, Clone, Default)]
pub struct DeployResourceSpec {
    pub cpus: Option<String>,
    pub memory: Option<String>,
    pub pids: Option<i64>,
}

/// Resource limits and reservations under `deploy`.
#[derive(Debug, Clone, Default)]
pub struct DeployResources {
    pub limits: Option<DeployResourceSpec>,
    pub reservations: Option<DeployResourceSpec>,
}

/// Update or rollback settings under `deploy`; `max_failure_ratio` is the
/// number as written.
#[derive(Debug, Clone, Default)]
pub struct DeployUpdateConfig {
    pub parallelism: Option<u32>,
    pub delay: Option<String>,
    pub failure_action: Option<String>,
    pub monitor: Option<String>,
    pub max_failure_ratio: Option<String>,
    pub order: Option<String>,
}

/// Deployment settings of a service; `placement` is the JSON text of the
/// value as given.
#[derive(Debug, Clone, Default)]
pub struct Deploy {
    pub mode: Option<String>,
    pub replicas: Option<u32>,
    pub labels: Option<ListOrDict>,
    pub resources: Option<DeployResources>,
    pub restart_policy: Option<DeployRestartPolicy>,
    pub update_config: Option<DeployUpdateConfig>,
    pub rollback_config: Option<DeployUpdateConfig>,
    pub placement: Option<String>,
}

/// Typed restart policy.
#[derive(Debug, Clone, Copy, PartialEq, Eq, Structural)]
pub enum RestartPolicy {
    No,
    Always,
    OnFailure,
    UnlessStopped,
}

impl Default for RestartPolicy {
    fn default() -> (r: Self)
        ensures
            r == RestartPolicy::No,
    {
        RestartPolicy::No
    }
}

// ============ Service ============

/// A compose-spec service definition (the fields the orchestration reads,
/// and the plain-valued settings).
#[derive(Debug, Clone, Default)]
pub struct Service {
    pub image: Option<String>,
    pub build: Option<BuildEntry>,
    pub command: Option<StringOrList>,
    pub entrypoint: Option<StringOrList>,
    pub environment: Option<ListOrDict>,
    pub ports: Option<Vec<PortEntry>>,
    pub networks: Option<ServiceNetworks>,
    pub network_mode: Option<String>,
    pub hostname: Option<String>,
    pub extra_hosts: Option<ListOrDict>,
    pub volumes: Option<Vec<VolumeEntry>>,
    pub depends_on: Option<DependsOn>,
    /// `container_name`.
    pub name: Option<String>,
    pub labels: Option<ListOrDict>,
    pub restart: Option<String>,
    pub stop_signal: Option<String>,
    pub stop_grace_period: Option<String>,
    pub privileged: Option<bool>,
    pub read_only: Option<bool>,
    pub user: Option<String>,
    pub cap_add: Option<Vec<String>>,
    pub cap_drop: Option<Vec<String>>,
    pub security_opt: Option<Vec<String>>,
    pub sysctls: Option<ListOrDict>,
    pub pid: Option<String>,
    pub stdin_open: Option<bool>,
    pub tty: Option<bool>,
    pub working_dir: Option<String>,
    pub cpu_shares: Option<i64>,
    pub scale: Option<u32>,
    pub logging: Option<Logging>,
    pub platform: Option<String>,
    pub pull_policy: Option<String>,
    pub profiles: Option<Vec<String>>,
    pub healthcheck: Option<Healthcheck>,
    pub deploy: Option<Deploy>,
}

/// A service-name character kept in container names: alphanumerics and `-`
/// stay, anything else becomes `_`.
pub open spec fn safe_char(c: char) -> char {
    if is_alphanumeric_char(c) || c == '-' {
        c
    } else {
        '_'
    }
}

/// The derived container name `{safe_service_name}_{md5(image)[..8]}`.
pub open spec fn spec_generated_name(service_name: Seq<char>, image: Seq<char>) -> Seq<char> {
    service_name.map_values(|c: char| safe_char(c)) + seq!['_'] + spec_hash8(image)
}

impl Service {
    /// The image named, or else the service name.
    pub open spec fn spec_image_or(&self, service_name: Seq<char>) -> Seq<char> {
        match self.image {
            Some(i) => i@,
            None => service_name,
        }
    }

    /// The container name: `container_name` when set, otherwise
    /// `{safe_service_name}_{md5(image)[..8]}`, where the image defaults to the
    /// service name.
    pub fn generate_name(&self, service_name: &str) -> (r: Result<String, ComposeError>)
        ensures
            r is Ok,
            match self.name {
                Some(n) => r->Ok_0@ == n@,
                None => r->Ok_0@ == spec_generated_name(service_name@, self.spec_image_or(service_name@)),
            },
    {
        if let Some(explicit) = &self.name {
            return Ok(explicit.clone());
        }
        let image: &str = match &self.image {
            Some(i) => i.as_str(),
            None => service_name,
        };
        let prefix = hash8(image);
        let v = to_chars(service_name);
        let mut out = String::new();
        let mut i: usize = 0;
        while i < v.len()
            invariant
                i <= v@.len(),
                v@ == service_name@,
                out@ == v@.subrange(0, i as int).map_values(|c: char| safe_char(c)),
            decreases v@.len() - i,
        {
            let c = v[i];
            let keep = is_alphanumeric(c) || c == '-';
            push_char(&mut out, if keep { c } else { '_' });
            i = i + 1;
            assert(out@ =~= v@.subrange(0, i as int).map_values(|c: char| safe_char(c)));
        }
        assert(v@.subrange(0, v@.len() as int) =~= v@);
        push_char(&mut out, '_');
        push_str(&mut out, prefix.as_str());
        Ok(out)
    }

    /// Whether the service builds its image: it has `build` and no `image`.
    pub fn needs_build(&self) -> (b: bool)
        ensures
            b == (self.build is Some && self.image is None),
    {
        self.build.is_some() && self.image.is_none()
    }

    /// The image tag of the service: its `image`, or `{service_name}-image`.
    pub fn image_ref(&self, service_name: &str) -> (r: String)
        ensures
            r@ == match self.image {
                Some(i) => i@,
                None => service_name@ + "-image"@,
            },
    {
        if let Some(image) = &self.image {
            return image.clone();
        }
        let mut s = service_name.to_owned();
        push_str(&mut s, "-image");
        s
    }

    /// The service environment as a flat map (empty when none is given).
    pub fn resolved_env(&self) -> (r: StrMap<String>)
        ensures
            match self.environment {
                Some(e) => map_of_pairs(r, e.spec_pairs()),
                None => r@.len() == 0 && r.wf(),
            },
    {
        match &self.environment {
            Some(e) => e.to_map(),
            None => StrMap::new(),
        }
    }

    /// The port mappings in `"host:container"` form.
    pub fn port_strings(&self) -> (r: Vec<String>)
        ensures
            r@.len() == match self.ports {
                Some(p) => p@.len(),
                None => 0,
            },
            self.ports matches Some(p) ==> forall|i: int| 0 <= i < p@.len() ==> #[trigger] r@[i]@ == spec_port_string(p@[i]),
    {
        let mut r: Vec<String> = Vec::new();
        match &self.ports {
            Some(p) => {
                let mut i: usize = 0;
                while i < p.len()
                    invariant
                        i <= p@.len(),
                        r@.len() == i,
                        forall|j: int| 0 <= j < i ==> #[trigger] r@[j]@ == spec_port_string(p@[j]),
                    decreases p@.len() - i,
                {
                    r.push(p[i].to_string_form());
                    i = i + 1;
                }
            },
            None => {},
        }
        r
    }

    /// The volume mounts in `"source:target[:ro]"` form.
    pub fn volume_strings(&self) -> (r: Vec<String>)
        ensures
            r@.len() == match self.volumes {
                Some(v) => v@.len(),
                None => 0,
            },
            self.volumes matches Some(v) ==> forall|i: int| 0 <= i < v@.len() ==> #[trigger] r@[i]@ == spec_volume_string(v@[i]),
    {
        let mut r: Vec<String> = Vec::new();
        match &self.volumes {
            Some(v) => {
                let mut i: usize = 0;
                while i < v.len()
                    invariant
                        i <= v@.len(),
                        r@.len() == i,
                        forall|j: int| 0 <= j < i ==> #[trigger] r@[j]@ == spec_volume_string(v@[j]),
                    decreases v@.len() - i,
                {
                    r.push(v[i].to_string_form());
                    i = i + 1;
                }
            },
            None => {},
        }
        r
    }
}

} // verus!

//! Root compose-spec document and its top-level network, volume, secret
//! and config definitions.

use vstd::prelude::*;
use crate::strmap::{StrMap, seq_get, merged_get};
use crate::entities::service::{ListOrDict, Service};

verus! {

/// One IPAM address pool of a network.
#[derive(Debug, Clone, Default)]
pub struct ComposeNetworkIpamConfig {
    pub subnet: Option<String>,
    pub ip_range: Option<String>,
    pub gateway: Option<String>,
    pub aux_addresses: Option<StrMap<String>>,
}

/// IPAM settings of a network.
#[derive(Debug, Clone, Default)]
pub struct ComposeNetworkIpam {
    pub driver: Option<String>,
    pub config: Option<Vec<ComposeNetworkIpamConfig>>,
    pub options: Option<StrMap<String>>,
}

/// A top-level network definition.
#[derive(Debug, Clone, Default)]
pub struct ComposeNetwork {
    pub name: Option<String>,
    pub driver: Option<String>,
    pub driver_opts: Option<StrMap<String>>,
    pub ipam: Option<ComposeNetworkIpam>,
    pub external: Option<bool>,
    pub internal: Option<bool>,
    pub enable_ipv4: Option<bool>,
    pub enable_ipv6: Option<bool>,
    pub attachable: Option<bool>,
    pub labels: Option<ListOrDict>,
}

/// A top-level volume definition.
#[derive(Debug, Clone, Default)]
pub struct ComposeVolume {
    pub name: Option<String>,
    pub driver: Option<String>,
    pub driver_opts: Option<StrMap<String>>,
    pub external: Option<bool>,
    pub labels: Option<ListOrDict>,
}

/// A top-level secret definition.
#[derive(Debug, Clone, Default)]
pub struct ComposeSecret {
    pub name: Option<String>,
    pub environment: Option<String>,
    pub file: Option<String>,
    pub external: Option<bool>,
    pub labels: Option<ListOrDict>,
    pub driver: Option<String>,
    pub driver_opts: Option<StrMap<String>>,
    pub template_driver: Option<String>,
}

/// A top-level config definition.
#[derive(Debug, Clone, Default)]
pub struct ComposeConfig {
    pub name: Option<String>,
    pub content: Option<String>,
    pub environment: Option<String>,
    pub file: Option<String>,
    pub external: Option<bool>,
    pub labels: Option<ListOrDict>,
    pub template_driver: Option<String>,
}

/// Root compose-spec document.
#[derive(Debug, Clone, Default)]
pub struct Compose {
    /// Stack name.
    pub name: Option<String>,
    /// Compose file version (kept for compatibility).
    pub version: Option<String>,
    /// Service definitions.
    pub services: StrMap<Service>,
    pub networks: Option<StrMap<ComposeNetwork>>,
    pub volumes: Option<StrMap<ComposeVolume>>,
    pub secrets: Option<StrMap<ComposeSecret>>,
    pub configs: Option<StrMap<ComposeConfig>>,
    /// Included compose files, each as its JSON text.
    pub includes: Option<Vec<String>>,
    /// Model definitions, each value as its JSON text.
    pub models: Option<StrMap<String>>,
}

/// The listing of an optional map, empty when absent.
pub open spec fn opt_listing<V>(m: Option<StrMap<V>>) -> Seq<(Seq<char>, V)> {
    match m {
        Some(m) => m@,
        None => Seq::empty(),
    }
}

/// `merged` is the optional map `older` with the entries of `newer` put in:
/// unchanged when `newer` is absent, otherwise present with `newer`'s entries
/// taking precedence.
pub open spec fn opt_merged<V>(
    merged: Option<StrMap<V>>,
    older: Option<StrMap<V>>,
    newer: Option<StrMap<V>>,
) -> bool {
    match newer {
        None => merged == older,
        Some(n) => merged is Some && merged->0.wf() && forall|k: Seq<char>|
            #[trigger] seq_get(merged->0@, k) == merged_get(opt_listing(older), n@, k),
    }
}

fn merge_opt<V>(target: &mut Option<StrMap<V>>, other: Option<StrMap<V>>)
    ensures
        opt_merged(*final(target), *old(target), other),
{
    match other {
        Some(o) => {
            let mut base = match target.take() {
                Some(m) => m,
                None => StrMap::new(),
            };
            base.extend(o);
            *target = Some(base);
        },
        None => {},
    }
}

impl Compose {
    /// Merges `other` into this document: its services, networks, volumes,
    /// secrets and configs replace same-named ones, and its name, version,
    /// includes and models replace these when given.
    pub fn merge(&mut self, other: Compose)
        ensures
            forall|k: Seq<char>|
                #[trigger] seq_get(final(self).services@, k) == merged_get(old(self).services@, other.services@, k),
            opt_merged(final(self).networks, old(self).networks, other.networks),
            opt_merged(final(self).volumes, old(self).volumes, other.volumes),
            opt_merged(final(self).secrets, old(self).secrets, other.secrets),
            opt_merged(final(self).configs, old(self).configs, other.configs),
            final(self).name == if other.name is Some { other.name } else { old(self).name },
            final(self).version == if other.version is Some { other.version } else { old(self).version },
            final(self).includes == if other.includes is Some { other.includes } else { old(self).includes },
            final(self).models == if other.models is Some { other.models } else { old(self).models },
    {
        let Compose { name, version, services, networks, volumes, secrets, configs, includes, models } = other;
        self.services.extend(services);
        merge_opt(&mut self.networks, networks);
        merge_opt(&mut self.volumes, volumes);
        merge_opt(&mut self.secrets, secrets);
        merge_opt(&mut self.configs, configs);
        if name.is_some() {
            self.name = name;
        }
        if version.is_some() {
            self.version = version;
        }
        if includes.is_some() {
            self.includes = includes;
        }
        if models.is_some() {
            self.models = models;
        }
    }
}

} // verus!

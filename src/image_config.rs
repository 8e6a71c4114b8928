//! Image configurations: the run configuration and the root filesystem
//! description of an image.

use vstd::prelude::*;
use crate::enums::{PlatformArchitecture, PlatformOS};
use crate::maps::{Duplicate, NestedMap, StringMap};

verus! {

/// The run configuration of an image.
#[derive(Debug)]
pub struct Config {
    pub user: Option<String>,
    pub exposed_ports: Option<NestedMap>,
    pub env: Option<Vec<String>>,
    pub entrypoint: Option<Vec<String>>,
    pub cmd: Option<Vec<String>>,
    pub volumes: Option<NestedMap>,
    pub working_dir: Option<String>,
    pub labels: Option<StringMap>,
    pub stop_signal: Option<String>,
    pub args_escaped: Option<bool>,
    pub memory: Option<i64>,
    pub memory_swap: Option<i64>,
    pub cpu_shares: Option<i64>,
    pub healthcheck: Option<StringMap>,
}

pub type StrMapModel = Map<Seq<char>, Seq<char>>;

pub type NestedMapModel = Map<Seq<char>, StrMapModel>;

/// The abstract value of a run configuration.
pub struct ConfigModel {
    pub user: Option<Seq<char>>,
    pub exposed_ports: Option<NestedMapModel>,
    pub env: Option<Seq<Seq<char>>>,
    pub entrypoint: Option<Seq<Seq<char>>>,
    pub cmd: Option<Seq<Seq<char>>>,
    pub volumes: Option<NestedMapModel>,
    pub working_dir: Option<Seq<char>>,
    pub labels: Option<StrMapModel>,
    pub stop_signal: Option<Seq<char>>,
    pub args_escaped: Option<bool>,
    pub memory: Option<i64>,
    pub memory_swap: Option<i64>,
    pub cpu_shares: Option<i64>,
    pub healthcheck: Option<StrMapModel>,
}

pub open spec fn opt_str(o: Option<String>) -> Option<Seq<char>> {
    match o {
        Some(s) => Some(s@),
        None => None,
    }
}

pub open spec fn opt_list(o: Option<Vec<String>>) -> Option<Seq<Seq<char>>> {
    match o {
        Some(v) => Some(v.deep_view()),
        None => None,
    }
}

pub open spec fn opt_map<V: View>(o: Option<crate::maps::KeyedMap<V>>) -> Option<Map<Seq<char>, V::V>> {
    match o {
        Some(m) => Some(m@),
        None => None,
    }
}

impl View for Config {
    type V = ConfigModel;

    open spec fn view(&self) -> ConfigModel {
        ConfigModel {
            user: opt_str(self.user),
            exposed_ports: opt_map(self.exposed_ports),
            env: opt_list(self.env),
            entrypoint: opt_list(self.entrypoint),
            cmd: opt_list(self.cmd),
            volumes: opt_map(self.volumes),
            working_dir: opt_str(self.working_dir),
            labels: opt_map(self.labels),
            stop_signal: opt_str(self.stop_signal),
            args_escaped: self.args_escaped,
            memory: self.memory,
            memory_swap: self.memory_swap,
            cpu_shares: self.cpu_shares,
            healthcheck: opt_map(self.healthcheck),
        }
    }
}

/// The first value if there is one, else the second.
pub open spec fn or_else<T>(first: Option<T>, second: Option<T>) -> Option<T> {
    if first is Some {
        first
    } else {
        second
    }
}

/// The union of two optional maps, `over` winning on shared keys.
pub open spec fn merge_opt_maps<V>(base: Option<Map<Seq<char>, V>>, over: Option<Map<Seq<char>, V>>) -> Option<Map<Seq<char>, V>> {
    match (base, over) {
        (Some(b), Some(o)) => Some(b.union_prefer_right(o)),
        (Some(b), None) => Some(b),
        (None, o) => o,
    }
}

/// A platform configuration laid over a plan-wide one: scalars and lists
/// from the platform when it sets them, maps merged key by key with the
/// platform winning.
pub open spec fn merge_config_models(top: ConfigModel, pl: ConfigModel) -> ConfigModel {
    ConfigModel {
        user: or_else(pl.user, top.user),
        exposed_ports: merge_opt_maps(top.exposed_ports, pl.exposed_ports),
        env: or_else(pl.env, top.env),
        entrypoint: or_else(pl.entrypoint, top.entrypoint),
        cmd: or_else(pl.cmd, top.cmd),
        volumes: merge_opt_maps(top.volumes, pl.volumes),
        working_dir: or_else(pl.working_dir, top.working_dir),
        labels: merge_opt_maps(top.labels, pl.labels),
        stop_signal: or_else(pl.stop_signal, top.stop_signal),
        args_escaped: or_else(pl.args_escaped, top.args_escaped),
        memory: or_else(pl.memory, top.memory),
        memory_swap: or_else(pl.memory_swap, top.memory_swap),
        cpu_shares: or_else(pl.cpu_shares, top.cpu_shares),
        healthcheck: merge_opt_maps(top.healthcheck, pl.healthcheck),
    }
}

/// Copies an optional string.
pub fn copy_opt_string(o: &Option<String>) -> (r: Option<String>)
    ensures
        opt_str(r) == opt_str(*o),
{
    match o {
        Some(s) => Some(s.clone()),
        None => None,
    }
}

/// Copies a list of strings.
pub fn copy_strings(v: &Vec<String>) -> (r: Vec<String>)
    ensures
        r.deep_view() == v.deep_view(),
{
    let mut r: Vec<String> = Vec::new();
    let mut i: usize = 0;
    while i < v.len()
        invariant
            i <= v@.len(),
            r@.len() == i,
            forall|j: int| 0 <= j < i ==> #[trigger] r@[j]@ == v@[j]@,
        decreases v@.len() - i,
    {
        r.push(v[i].clone());
        i = i + 1;
    }
    assert(r.deep_view() =~= v.deep_view());
    r
}

/// Copies an optional list of strings.
pub fn copy_opt_strings(o: &Option<Vec<String>>) -> (r: Option<Vec<String>>)
    ensures
        opt_list(r) == opt_list(*o),
{
    match o {
        Some(v) => Some(copy_strings(v)),
        None => None,
    }
}

/// Copies an optional map.
pub fn copy_opt_map<V: Duplicate>(o: &Option<crate::maps::KeyedMap<V>>) -> (r: Option<crate::maps::KeyedMap<V>>)
    ensures
        opt_map(r) == opt_map(*o),
{
    match o {
        Some(m) => Some(m.duplicate()),
        None => None,
    }
}

/// The value of `first` if it has one, else that of `second`.
pub fn or_else_string(first: &Option<String>, second: &Option<String>) -> (r: Option<String>)
    ensures
        opt_str(r) == or_else(opt_str(*first), opt_str(*second)),
{
    if first.is_some() {
        copy_opt_string(first)
    } else {
        copy_opt_string(second)
    }
}

/// The list of `first` if it has one, else that of `second`.
pub fn or_else_strings(first: &Option<Vec<String>>, second: &Option<Vec<String>>) -> (r: Option<Vec<String>>)
    ensures
        opt_list(r) == or_else(opt_list(*first), opt_list(*second)),
{
    if first.is_some() {
        copy_opt_strings(first)
    } else {
        copy_opt_strings(second)
    }
}

/// The union of two optional maps, `over` winning on shared keys.
pub fn merge_maps<V: Duplicate>(base: &Option<crate::maps::KeyedMap<V>>, over: &Option<crate::maps::KeyedMap<V>>) -> (r: Option<crate::maps::KeyedMap<V>>)
    ensures
        opt_map(r) == merge_opt_maps(opt_map(*base), opt_map(*over)),
{
    match (base, over) {
        (Some(b), Some(o)) => Some(b.merged_with(o)),
        (Some(b), None) => Some(b.duplicate()),
        (None, _) => copy_opt_map(over),
    }
}

/// The root filesystem of an image: the digests of its uncompressed layers.
#[derive(Debug)]
pub struct RootFs {
    pub fs_type: String,
    pub diff_ids: Vec<String>,
}

/// One history record of an image configuration.
#[derive(Debug)]
pub struct History {
    /// The creation time, as RFC 3339 text.
    pub created: Option<String>,
    pub author: Option<String>,
    pub created_by: Option<String>,
    pub comment: Option<String>,
    pub empty_layer: Option<bool>,
}

/// The configuration document of an image.
#[derive(Debug)]
pub struct ImageConfig {
    /// The creation time, as RFC 3339 text.
    pub created: Option<String>,
    pub author: Option<String>,
    pub architecture: PlatformArchitecture,
    pub os: PlatformOS,
    pub os_version: Option<String>,
    pub os_features: Option<Vec<String>>,
    pub variant: Option<String>,
    pub config: Option<Config>,
    pub rootfs: RootFs,
    pub history: Option<Vec<History>>,
}

} // verus!

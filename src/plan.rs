//! Build plans: the declarative description of a multi-platform image, and
//! how a plan-wide configuration combines with a platform's own.

use vstd::prelude::*;
use crate::enums::PlatformArchitecture;
use crate::image_config::{
    copy_opt_map, copy_opt_string, copy_opt_strings, merge_config_models, merge_maps,
    merge_opt_maps, opt_list, opt_map, opt_str, or_else_string, or_else_strings, Config,
    ConfigModel,
};
use crate::maps::{NestedMap, StringMap};

verus! {

/// A build plan.
#[derive(Debug)]
pub struct ImagePlan {
    pub name: String,
    pub tags: Vec<String>,
    pub platforms: Vec<ImagePlanPlatform>,
    pub config: Option<ImagePlanConfig>,
}

/// The run configuration as a plan writes it.
#[derive(Debug)]
pub struct ImagePlanConfig {
    pub user: Option<String>,
    pub exposed_ports: Option<NestedMap>,
    pub env: Option<Vec<String>>,
    pub entrypoint: Option<Vec<String>>,
    pub cmd: Option<Vec<String>>,
    pub volumes: Option<NestedMap>,
    pub working_dir: Option<String>,
    pub labels: Option<StringMap>,
    pub stop_signal: Option<String>,
    pub args_escaped: Option<bool>,
    pub memory: Option<i64>,
    pub memory_swap: Option<i64>,
    pub cpu_shares: Option<i64>,
    pub healthcheck: Option<StringMap>,
}

/// One platform of a plan.
#[derive(Debug)]
pub struct ImagePlanPlatform {
    pub architecture: PlatformArchitecture,
    pub variant: Option<String>,
    pub config: Option<ImagePlanConfig>,
    pub layers: Vec<ImagePlanLayer>,
}

/// Where a layer comes from.
#[derive(Debug, Clone, Copy, PartialEq, Eq, Structural)]
pub enum ImagePlanLayerType {
    /// A layer file taken as it is.
    Layer,
    /// A directory packed into a tar.
    Directory,
    /// The layers of another image.
    Image,
}

/// One layer of a platform.
#[derive(Debug)]
pub struct ImagePlanLayer {
    pub layer_type: ImagePlanLayerType,
    pub source: String,
    pub comment: String,
    pub whitelist: Option<Vec<String>>,
    pub blacklist: Option<Vec<String>>,
}

impl View for ImagePlanConfig {
    type V = ConfigModel;

    open spec fn view(&self) -> ConfigModel {
        ConfigModel {
            user: opt_str(self.user),
            exposed_ports: opt_map(self.exposed_ports),
            env: opt_list(self.env),
            entrypoint: opt_list(self.entrypoint),
            cmd: opt_list(self.cmd),
            volumes: opt_map(self.volumes),
            working_dir: opt_str(self.working_dir),
            labels: opt_map(self.labels),
            stop_signal: opt_str(self.stop_signal),
            args_escaped: self.args_escaped,
            memory: self.memory,
            memory_swap: self.memory_swap,
            cpu_shares: self.cpu_shares,
            healthcheck: opt_map(self.healthcheck),
        }
    }
}

pub open spec fn opt_config(o: Option<ImagePlanConfig>) -> Option<ConfigModel> {
    match o {
        Some(c) => Some(c@),
        None => None,
    }
}

pub open spec fn opt_run_config(o: Option<Config>) -> Option<ConfigModel> {
    match o {
        Some(c) => Some(c@),
        None => None,
    }
}

/// The run configuration of a platform given the plan-wide one.
pub open spec fn merged_plan_config(top: Option<ConfigModel>, pl: Option<ConfigModel>) -> Option<ConfigModel> {
    match (top, pl) {
        (Some(t), Some(p)) => Some(merge_config_models(t, p)),
        (Some(t), None) => Some(t),
        (None, p) => p,
    }
}

impl ImagePlanConfig {
    /// The same fields as a run configuration.
    pub fn to_config(self) -> (r: Config)
        ensures
            r@ == self@,
    {
        Config {
            user: self.user,
            exposed_ports: self.exposed_ports,
            env: self.env,
            entrypoint: self.entrypoint,
            cmd: self.cmd,
            volumes: self.volumes,
            working_dir: self.working_dir,
            labels: self.labels,
            stop_signal: self.stop_signal,
            args_escaped: self.args_escaped,
            memory: self.memory,
            memory_swap: self.memory_swap,
            cpu_shares: self.cpu_shares,
            healthcheck: self.healthcheck,
        }
    }

    /// A copy as a run configuration.
    pub fn copy_to_config(&self) -> (r: Config)
        ensures
            r@ == self@,
    {
        Config {
            user: copy_opt_string(&self.user),
            exposed_ports: copy_opt_map(&self.exposed_ports),
            env: copy_opt_strings(&self.env),
            entrypoint: copy_opt_strings(&self.entrypoint),
            cmd: copy_opt_strings(&self.cmd),
            volumes: copy_opt_map(&self.volumes),
            working_dir: copy_opt_string(&self.working_dir),
            labels: copy_opt_map(&self.labels),
            stop_signal: copy_opt_string(&self.stop_signal),
            args_escaped: self.args_escaped,
            memory: self.memory,
            memory_swap: self.memory_swap,
            cpu_shares: self.cpu_shares,
            healthcheck: copy_opt_map(&self.healthcheck),
        }
    }
}

/// The run configuration of a platform: the plan-wide `base_config` with
/// the platform's `config` laid over it.
pub fn merge_image_plan_configs(
    base_config: &Option<ImagePlanConfig>,
    config: &Option<ImagePlanConfig>,
) -> (r: Option<Config>)
    ensures
        opt_run_config(r) == merged_plan_config(opt_config(*base_config), opt_config(*config)),
{
    match (base_config, config) {
        (Some(plan), Some(original)) => {
            let c = Config {
                user: or_else_string(&original.user, &plan.user),
                exposed_ports: merge_maps(&plan.exposed_ports, &original.exposed_ports),
                env: or_else_strings(&original.env, &plan.env),
                entrypoint: or_else_strings(&original.entrypoint, &plan.entrypoint),
                cmd: or_else_strings(&original.cmd, &plan.cmd),
                volumes: merge_maps(&plan.volumes, &original.volumes),
                working_dir: or_else_string(&original.working_dir, &plan.working_dir),
                labels: merge_maps(&plan.labels, &original.labels),
                stop_signal: or_else_string(&original.stop_signal, &plan.stop_signal),
                args_escaped: if original.args_escaped.is_some() {
                    original.args_escaped
                } else {
                    plan.args_escaped
                },
                memory: if original.memory.is_some() {
                    original.memory
                } else {
                    plan.memory
                },
                memory_swap: if original.memory_swap.is_some() {
                    original.memory_swap
                } else {
                    plan.memory_swap
                },
                cpu_shares: if original.cpu_shares.is_some() {
                    original.cpu_shares
                } else {
                    plan.cpu_shares
                },
                healthcheck: merge_maps(&plan.healthcheck, &original.healthcheck),
            };
            Some(c)
        },
        (Some(plan), None) => Some(plan.copy_to_config()),
        (None, Some(original)) => Some(original.copy_to_config()),
        (None, None) => None,
    }
}

proof fn lemma_merge_maps_idempotent<V>(top: Option<Map<Seq<char>, V>>, pl: Option<Map<Seq<char>, V>>)
    ensures
        merge_opt_maps(top, merge_opt_maps(top, pl)) == merge_opt_maps(top, pl),
{
    match (top, pl) {
        (Some(t), Some(p)) => {
            assert(t.union_prefer_right(t.union_prefer_right(p)) =~= t.union_prefer_right(p));
        },
        (Some(t), None) => {
            assert(t.union_prefer_right(t) =~= t);
        },
        _ => {},
    }
}

/// Merging a platform configuration over a plan-wide one: a scalar or list
/// that the platform sets is kept, one that it leaves out comes from the
/// plan; every key of either map is present, with the platform's value where
/// both have it. Merging the result over the same plan-wide configuration
/// again changes nothing.
pub proof fn lemma_plan_config_merge(top: ConfigModel, pl: ConfigModel)
    ensures
        pl.user is Some ==> merge_config_models(top, pl).user == pl.user,
        pl.user is None ==> merge_config_models(top, pl).user == top.user,
        pl.memory is Some ==> merge_config_models(top, pl).memory == pl.memory,
        pl.memory is None ==> merge_config_models(top, pl).memory == top.memory,
        pl.env is Some ==> merge_config_models(top, pl).env == pl.env,
        pl.env is None ==> merge_config_models(top, pl).env == top.env,
        top.labels is Some && pl.labels is Some ==> forall|k: Seq<char>|
            #[trigger] merge_config_models(top, pl).labels->0.dom().contains(k) <==> (
            top.labels->0.dom().contains(k) || pl.labels->0.dom().contains(k)),
        top.labels is Some && pl.labels is Some ==> forall|k: Seq<char>|
            pl.labels->0.dom().contains(k) ==> #[trigger] merge_config_models(top, pl).labels->0[k]
                == pl.labels->0[k],
        merge_config_models(top, merge_config_models(top, pl)) == merge_config_models(top, pl),
{
    lemma_merge_maps_idempotent(top.exposed_ports, pl.exposed_ports);
    lemma_merge_maps_idempotent(top.volumes, pl.volumes);
    lemma_merge_maps_idempotent(top.labels, pl.labels);
    lemma_merge_maps_idempotent(top.healthcheck, pl.healthcheck);
}

/// The same law on the optional configurations of a plan and a platform.
pub proof fn lemma_merged_plan_config_idempotent(top: Option<ConfigModel>, pl: Option<ConfigModel>)
    ensures
        merged_plan_config(top, merged_plan_config(top, pl)) == merged_plan_config(top, pl),
{
    match (top, pl) {
        (Some(t), Some(p)) => {
            lemma_plan_config_merge(t, p);
        },
        (Some(t), None) => {
            lemma_merge_maps_idempotent(t.exposed_ports, None);
            lemma_merge_maps_idempotent(t.volumes, None);
            lemma_merge_maps_idempotent(t.labels, None);
            lemma_merge_maps_idempotent(t.healthcheck, None);
            assert(merge_config_models(t, t) == t);
        },
        _ => {},
    }
}

} // verus!

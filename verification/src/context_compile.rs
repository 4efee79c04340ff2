//! Settings of the optional context-pack build.

use vstd::prelude::*;
use vstd::string::StringExecFns;

verus! {

/// Token budget handed to the pack builder unless another is configured.
pub const DEFAULT_CONTEXT_TOKEN_BUDGET: u64 = 8_000;

/// Name of the pack builder's executable unless another is configured.
pub const DEFAULT_ASSEMBLY_PATH: &'static str = "assembly";

/// First glob left out of a pack by default.
pub const DEFAULT_EXCLUDE_GIT: &'static str = ".git/**";

/// Second glob left out of a pack by default.
pub const DEFAULT_EXCLUDE_RUNS: &'static str = ".ralph/**";

/// What a failed pack build means for the run.
#[derive(Debug, Copy, Clone, PartialEq, Eq, Structural)]
pub enum ContextFailurePolicy {
    BestEffort,
    Required,
}

impl Default for ContextFailurePolicy {
    fn default() -> (r: Self)
        ensures
            r == ContextFailurePolicy::BestEffort,
    {
        ContextFailurePolicy::BestEffort
    }
}

/// Settings of the context-pack build.
#[derive(Debug, Clone, PartialEq, Eq)]
pub struct ContextCompileConfig {
    pub enabled: bool,
    pub policy: ContextFailurePolicy,
    pub token_budget: u64,
    pub assembly_path: String,
    pub exclude_globs: Vec<String>,
    pub exclude_runtime_globs: Vec<String>,
}

/// The settings that hold when nothing is configured.
pub open spec fn is_default_config(c: ContextCompileConfig) -> bool {
    &&& !c.enabled
    &&& c.policy == ContextFailurePolicy::BestEffort
    &&& c.token_budget == DEFAULT_CONTEXT_TOKEN_BUDGET
    &&& c.assembly_path@ == DEFAULT_ASSEMBLY_PATH@
    &&& c.exclude_globs@.len() == 2
    &&& c.exclude_globs@[0]@ == DEFAULT_EXCLUDE_GIT@
    &&& c.exclude_globs@[1]@ == DEFAULT_EXCLUDE_RUNS@
    &&& c.exclude_runtime_globs@.len() == 0
}

/// The globs left out of a pack by default, in order.
pub fn default_exclude_globs() -> (globs: Vec<String>)
    ensures
        globs@.len() == 2,
        globs@[0]@ == DEFAULT_EXCLUDE_GIT@,
        globs@[1]@ == DEFAULT_EXCLUDE_RUNS@,
{
    let mut globs: Vec<String> = Vec::new();
    globs.push(String::from_str(DEFAULT_EXCLUDE_GIT));
    globs.push(String::from_str(DEFAULT_EXCLUDE_RUNS));
    globs
}

impl Default for ContextCompileConfig {
    fn default() -> (r: Self)
        ensures
            is_default_config(r),
    {
        ContextCompileConfig {
            enabled: false,
            policy: ContextFailurePolicy::BestEffort,
            token_budget: DEFAULT_CONTEXT_TOKEN_BUDGET,
            assembly_path: String::from_str(DEFAULT_ASSEMBLY_PATH),
            exclude_globs: default_exclude_globs(),
            exclude_runtime_globs: Vec::new(),
        }
    }
}

/// The settings chosen by the two switches and the policy option, with the
/// overrides to hand on to a downstream agent. The enabling switch wins over
/// the disabling one; without either, nothing is overridden.
pub fn resolve_context_compile_config(
    enable_flag: bool,
    disable_flag: bool,
    policy: Option<ContextFailurePolicy>,
) -> (r: (ContextCompileConfig, Option<bool>, Option<ContextFailurePolicy>))
    ensures
        r.0.enabled == enable_flag,
        r.0.policy == match policy {
            Some(p) => p,
            None => ContextFailurePolicy::BestEffort,
        },
        r.0.token_budget == DEFAULT_CONTEXT_TOKEN_BUDGET,
        r.0.assembly_path@ == DEFAULT_ASSEMBLY_PATH@,
        r.0.exclude_globs@.len() == 2,
        r.0.exclude_globs@[0]@ == DEFAULT_EXCLUDE_GIT@,
        r.0.exclude_globs@[1]@ == DEFAULT_EXCLUDE_RUNS@,
        r.0.exclude_runtime_globs@.len() == 0,
        r.1 == if enable_flag {
            Some(true)
        } else if disable_flag {
            Some(false)
        } else {
            None
        },
        r.2 == policy,
{
    let mut config = ContextCompileConfig::default();
    let mut override_flag: Option<bool> = None;
    if enable_flag {
        config.enabled = true;
        override_flag = Some(true);
    } else if disable_flag {
        config.enabled = false;
        override_flag = Some(false);
    }
    match policy {
        Some(p) => {
            config.policy = p;
        },
        None => {},
    }
    (config, override_flag, policy)
}

/// The word that names a policy on a command line.
pub fn context_failure_policy_arg(policy: ContextFailurePolicy) -> (word: &'static str)
    ensures
        word@ == match policy {
            ContextFailurePolicy::BestEffort => "best-effort"@,
            ContextFailurePolicy::Required => "required"@,
        },
{
    match policy {
        ContextFailurePolicy::BestEffort => "best-effort",
        ContextFailurePolicy::Required => "required",
    }
}

} // verus!

//! Per-project policy configuration.

use vstd::prelude::*;
use crate::pattern::{Pattern, regex_compiles};

verus! {

/// Reserved: a report artifact to extract from a CI job.
#[derive(Clone, Debug)]
pub struct ReportConfig {
    pub job_name: String,
    pub path: String,
    pub format: Option<String>,
}

/// Naming rules for merge requests.
#[derive(Clone, Debug)]
pub struct RepoMergeRequestConfig {
    pub title_pattern: Option<String>,
    pub title_error: Option<String>,
    pub branch_name_pattern: Option<String>,
    pub branch_name_error: Option<String>,
}

/// The pattern compiled from an optional source text: none when there is no
/// source text or when it does not compile.
pub open spec fn compiled_from(src: Option<String>, r: Option<Pattern>) -> bool {
    match src {
        None => r is None,
        Some(p) => (r is Some <==> regex_compiles(p@)) && (r matches Some(x) ==> x@ == p@),
    }
}

fn compile_optional(src: &Option<String>) -> (r: Option<Pattern>)
    ensures
        compiled_from(*src, r),
{
    match src {
        Some(p) => Pattern::compile(p.as_str()),
        None => None,
    }
}

impl RepoMergeRequestConfig {
    /// The compiled title rule, if one is configured and compiles.
    pub fn title_regex(&self) -> (r: Option<Pattern>)
        ensures
            compiled_from(self.title_pattern, r),
    {
        compile_optional(&self.title_pattern)
    }

    /// The compiled branch-name rule, if one is configured and compiles.
    pub fn branch_regex(&self) -> (r: Option<Pattern>)
        ensures
            compiled_from(self.branch_name_pattern, r),
    {
        compile_optional(&self.branch_name_pattern)
    }
}

/// Policy of one project, read from a file in its repository.
#[derive(Clone, Debug)]
pub struct RepoConfig {
    pub disabled: Option<bool>,
    pub merge_requests: Option<RepoMergeRequestConfig>,
    pub reports: Vec<ReportConfig>,
}

/// The policy used when the project has no readable policy file.
pub open spec fn is_default_config(c: RepoConfig) -> bool {
    &&& c.disabled is None
    &&& c.merge_requests is None
    &&& c.reports@.len() == 0
}

impl Default for RepoConfig {
    fn default() -> (r: RepoConfig)
        ensures
            is_default_config(r),
    {
        RepoConfig { disabled: None, merge_requests: None, reports: Vec::new() }
    }
}

impl RepoConfig {
    /// True when the bot must leave the project alone.
    pub fn is_disabled(&self) -> (r: bool)
        ensures
            r == (self.disabled == Some(true)),
    {
        match self.disabled {
            Some(d) => d,
            None => false,
        }
    }

    /// The policy that was read, or the default policy when reading or
    /// decoding it failed.
    pub fn or_default(loaded: Option<RepoConfig>) -> (r: RepoConfig)
        ensures
            loaded matches Some(c) ==> r == c,
            loaded is None ==> is_default_config(r),
    {
        match loaded {
            Some(c) => c,
            None => RepoConfig::default(),
        }
    }
}

} // verus!

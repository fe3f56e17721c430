//! The configuration of a repository: as it is written, and as it takes effect.

use crate::text::{concat3, decimal_string};
#[allow(unused_imports)]
use crate::text::decimal;
use crate::text_map::TextMap;
use vstd::prelude::*;

verus! {

/// Why a configuration was refused.
#[allow(inconsistent_fields)]
#[derive(Clone, Debug, PartialEq, Eq)]
pub enum ConfigError {
    Parse(String),
    UnsupportedVersion(u16),
    InvalidStep { step: String, message: String },
    Invalid(String),
    InvalidMatcher { pattern: String, message: String },
    Canonicalization(String),
}

/// What a `ConfigError` says. The wording of a parser's complaint is left out.
#[allow(inconsistent_fields)]
pub enum ConfigFault {
    Parse,
    UnsupportedVersion(u16),
    InvalidStep { step: Seq<char>, message: Seq<char> },
    Invalid(Seq<char>),
    InvalidMatcher { pattern: Seq<char>, message: Seq<char> },
    Canonicalization,
}

impl View for ConfigError {
    type V = ConfigFault;

    open spec fn view(&self) -> ConfigFault {
        match self {
            ConfigError::Parse(_) => ConfigFault::Parse,
            ConfigError::UnsupportedVersion(version) => ConfigFault::UnsupportedVersion(*version),
            ConfigError::InvalidStep { step, message } => ConfigFault::InvalidStep {
                step: step@,
                message: message@,
            },
            ConfigError::Invalid(message) => ConfigFault::Invalid(message@),
            ConfigError::InvalidMatcher { pattern, message } => ConfigFault::InvalidMatcher {
                pattern: pattern@,
                message: message@,
            },
            ConfigError::Canonicalization(_) => ConfigFault::Canonicalization,
        }
    }
}

impl ConfigError {
    /// The message shown for the error.
    pub open spec fn text(self) -> Seq<char> {
        match self {
            ConfigError::Parse(reason) => "configuration could not be parsed: "@ + reason@,
            ConfigError::UnsupportedVersion(version) => "unsupported configuration version "@
                + decimal(version as nat) + "; expected version 1"@,
            ConfigError::InvalidStep { step, message } => "invalid step `"@ + step@ + "`: "@
                + message@,
            ConfigError::Invalid(message) => "invalid configuration: "@ + message@,
            ConfigError::InvalidMatcher { pattern, message } => "matcher pattern `"@ + pattern@
                + "` is invalid: "@ + message@,
            ConfigError::Canonicalization(reason) =>
                "canonical configuration serialization failed: "@ + reason@,
        }
    }

    /// The message shown for the error.
    pub fn message(&self) -> (r: String)
        ensures
            r@ == self.text(),
    {
        match self {
            ConfigError::Parse(reason) => {
                "configuration could not be parsed: ".to_owned().concat(reason.as_str())
            },
            ConfigError::UnsupportedVersion(version) => concat3(
                "unsupported configuration version ",
                decimal_string(*version as u64).as_str(),
                "; expected version 1",
            ),
            ConfigError::InvalidStep { step, message } => concat3(
                "invalid step `",
                step.as_str(),
                "`: ",
            ).concat(message.as_str()),
            ConfigError::Invalid(message) => {
                "invalid configuration: ".to_owned().concat(message.as_str())
            },
            ConfigError::InvalidMatcher { pattern, message } => concat3(
                "matcher pattern `",
                pattern.as_str(),
                "` is invalid: ",
            ).concat(message.as_str()),
            ConfigError::Canonicalization(reason) => {
                "canonical configuration serialization failed: ".to_owned().concat(reason.as_str())
            },
        }
    }
}

/// A configuration file.
#[derive(Clone, Debug)]
pub struct ConfigFile {
    pub version: u16,
    pub runner: Option<Vec<String>>,
    pub allow_no_job: bool,
    pub allow_concurrent_roots: bool,
    pub sync_user_master: bool,
    pub step: Vec<StepFile>,
    pub resources: ResourceFile,
    pub remote: RemoteFile,
    pub cache: CacheFile,
}

/// The resources section of a configuration file. Zero stands for the default.
#[derive(Clone, Debug)]
pub struct ResourceFile {
    pub max_buildsets: u16,
    pub cpu_tokens: u16,
    pub memory_bytes: u64,
    pub repository_concurrency: u16,
    pub scheduler_weight: u16,
    pub volume_warning_bytes: u64,
    pub volume_critical_bytes: u64,
    pub volume_emergency_bytes: u64,
}

pub const DEFAULT_MAX_BUILDSETS: u16 = 4;

pub const DEFAULT_REPOSITORY_CONCURRENCY: u16 = 2;

pub const DEFAULT_SCHEDULER_WEIGHT: u16 = 1;

/// 15 GiB.
pub const DEFAULT_VOLUME_WARNING_BYTES: u64 = 16_106_127_360;

/// 10 GiB.
pub const DEFAULT_VOLUME_CRITICAL_BYTES: u64 = 10_737_418_240;

/// 512 MiB.
pub const DEFAULT_VOLUME_EMERGENCY_BYTES: u64 = 536_870_912;

pub const DEFAULT_RETENTION_DAYS: u16 = 30;

impl Default for ResourceFile {
    fn default() -> (r: ResourceFile)
        ensures
            r == (ResourceFile {
                max_buildsets: 0,
                cpu_tokens: 0,
                memory_bytes: 0,
                repository_concurrency: 0,
                scheduler_weight: 0,
                volume_warning_bytes: 0,
                volume_critical_bytes: 0,
                volume_emergency_bytes: 0,
            }),
    {
        ResourceFile {
            max_buildsets: 0,
            cpu_tokens: 0,
            memory_bytes: 0,
            repository_concurrency: 0,
            scheduler_weight: 0,
            volume_warning_bytes: 0,
            volume_critical_bytes: 0,
            volume_emergency_bytes: 0,
        }
    }
}

/// The remote section of a configuration file.
#[derive(Clone, Debug)]
pub struct RemoteFile {
    pub enabled: bool,
    pub name: String,
    pub branch: String,
}

impl Default for RemoteFile {
    fn default() -> (r: RemoteFile)
        ensures
            !r.enabled,
            r.name@ == "origin"@,
            r.branch@ == "master"@,
    {
        RemoteFile { enabled: false, name: "origin".to_owned(), branch: "master".to_owned() }
    }
}

/// The cache section of a configuration file.
#[derive(Clone, Debug)]
pub struct CacheFile {
    pub epoch: u64,
    pub paths: Vec<CachePathFile>,
}

impl Default for CacheFile {
    fn default() -> (r: CacheFile)
        ensures
            r.epoch == 0,
            r.paths@.len() == 0,
    {
        CacheFile { epoch: 0, paths: Vec::new() }
    }
}

/// One cached path of a configuration file.
#[derive(Clone, Debug)]
pub struct CachePathFile {
    pub path: String,
    pub policy: CachePolicy,
}

/// What becomes of a path between builds.
#[derive(Clone, Copy, Debug, PartialEq, Eq, Structural)]
pub enum CachePolicy {
    Preserve,
    Clone,
    Shared,
    Discard,
    Sensitive,
}

impl Default for CachePolicy {
    fn default() -> (r: CachePolicy)
        ensures
            r == CachePolicy::Clone,
    {
        CachePolicy::Clone
    }
}

impl CachePolicy {
    /// The policy as it is written.
    pub open spec fn wire_name(self) -> Seq<char> {
        match self {
            CachePolicy::Preserve => "preserve"@,
            CachePolicy::Clone => "clone"@,
            CachePolicy::Shared => "shared"@,
            CachePolicy::Discard => "discard"@,
            CachePolicy::Sensitive => "sensitive"@,
        }
    }

    /// The policy as it is written.
    pub fn as_str(self) -> (r: &'static str)
        ensures
            r@ == self.wire_name(),
    {
        match self {
            CachePolicy::Preserve => "preserve",
            CachePolicy::Clone => "clone",
            CachePolicy::Shared => "shared",
            CachePolicy::Discard => "discard",
            CachePolicy::Sensitive => "sensitive",
        }
    }

    /// Some policy is written so.
    pub open spec fn known(text: Seq<char>) -> bool {
        exists|policy: CachePolicy| #[trigger] policy.wire_name() == text
    }

    /// Reads what `as_str` writes.
    pub fn parse(text: &str) -> (r: Option<CachePolicy>)
        ensures
            r is Some <==> CachePolicy::known(text@),
            r matches Some(policy) ==> policy.wire_name() == text@,
    {
        if crate::text::str_equal(text, CachePolicy::Preserve.as_str()) {
            Some(CachePolicy::Preserve)
        } else if crate::text::str_equal(text, CachePolicy::Clone.as_str()) {
            Some(CachePolicy::Clone)
        } else if crate::text::str_equal(text, CachePolicy::Shared.as_str()) {
            Some(CachePolicy::Shared)
        } else if crate::text::str_equal(text, CachePolicy::Discard.as_str()) {
            Some(CachePolicy::Discard)
        } else if crate::text::str_equal(text, CachePolicy::Sensitive.as_str()) {
            Some(CachePolicy::Sensitive)
        } else {
            assert forall|policy: CachePolicy| #[trigger] policy.wire_name() != text@ by {
                match policy {
                    CachePolicy::Preserve => {},
                    CachePolicy::Clone => {},
                    CachePolicy::Shared => {},
                    CachePolicy::Discard => {},
                    CachePolicy::Sensitive => {},
                }
            }
            None
        }
    }
}

/// One step of a configuration file.
#[derive(Clone, Debug)]
pub struct StepFile {
    pub name: String,
    pub run: Option<String>,
    pub argv: Option<Vec<String>>,
    pub working_directory: String,
    pub needs: Vec<String>,
    pub soft_needs: Vec<String>,
    pub voting: bool,
    pub final_step: bool,
    pub timeout: String,
    pub cpu_tokens: u16,
    pub memory_bytes: u64,
    pub rss_limit_bytes: Option<u64>,
    pub semaphores: Vec<String>,
    pub includes: Vec<String>,
    pub excludes: Vec<String>,
    pub environment: TextMap<String>,
    pub remove_environment: Vec<String>,
    pub artifact: Vec<ArtifactFile>,
}

/// One artifact of a step of a configuration file.
#[derive(Clone, Debug)]
pub struct ArtifactFile {
    pub name: String,
    pub patterns: Vec<String>,
    pub required: bool,
    pub retention_days: u16,
}

/// A configuration in effect.
#[derive(Clone, Debug, PartialEq, Eq)]
pub struct EffectiveConfig {
    pub version: u16,
    pub runner: Vec<String>,
    pub allow_no_job: bool,
    pub allow_concurrent_roots: bool,
    pub sync_user_master: bool,
    pub steps: Vec<EffectiveStep>,
    pub resources: EffectiveResources,
    pub remote: EffectiveRemote,
    pub cache: EffectiveCache,
    pub digest: String,
    pub step_graph_digest: String,
}

/// The resources in effect.
#[derive(Clone, Copy, Debug, PartialEq, Eq, Structural)]
pub struct EffectiveResources {
    pub max_buildsets: u16,
    pub cpu_tokens: u16,
    pub memory_bytes: u64,
    pub repository_concurrency: u16,
    pub scheduler_weight: u16,
    pub volume_warning_bytes: u64,
    pub volume_critical_bytes: u64,
    pub volume_emergency_bytes: u64,
}

/// The remote in effect.
#[derive(Clone, Debug, PartialEq, Eq)]
pub struct EffectiveRemote {
    pub enabled: bool,
    pub name: String,
    pub branch: String,
}

/// The cache policy in effect.
#[derive(Clone, Debug, PartialEq, Eq)]
pub struct EffectiveCache {
    pub epoch: u64,
    pub paths: Vec<EffectiveCachePath>,
}

/// One cached path in effect.
#[derive(Clone, Debug, PartialEq, Eq)]
pub struct EffectiveCachePath {
    pub path: String,
    pub policy: CachePolicy,
}

/// A step in effect.
#[derive(Clone, Debug, PartialEq, Eq)]
pub struct EffectiveStep {
    pub name: String,
    pub command: EffectiveCommand,
    pub working_directory: String,
    pub needs: Vec<String>,
    pub soft_needs: Vec<String>,
    pub voting: bool,
    pub final_step: bool,
    pub timeout_ns: u64,
    pub cpu_tokens: u16,
    pub memory_bytes: u64,
    pub rss_limit_bytes: Option<u64>,
    pub semaphores: Vec<String>,
    pub includes: Vec<String>,
    pub excludes: Vec<String>,
    pub environment: TextMap<String>,
    pub remove_environment: Vec<String>,
    pub artifacts: Vec<EffectiveArtifact>,
}

/// The command of a step in effect.
#[derive(Clone, Debug, PartialEq, Eq)]
pub enum EffectiveCommand {
    Shell { script: String },
    Argv { argv: Vec<String> },
}

/// An artifact in effect.
#[derive(Clone, Debug, PartialEq, Eq)]
pub struct EffectiveArtifact {
    pub name: String,
    pub patterns: Vec<String>,
    pub required: bool,
    pub retention_days: u16,
}

} // verus!

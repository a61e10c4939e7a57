//! Source control provider detection from a remote URL, and the verdict on
//! whether the provider's CLI is ready.

use crate::text::{contains, lowercase, seq_contains, to_lowercase};
use vstd::prelude::*;

verus! {

/// A source control management provider.
#[derive(Debug, Clone, Copy, PartialEq, Eq, Structural)]
pub enum ScmProvider {
    GitHub,
    GitLab,
    Bitbucket,
    AzureDevOps,
    Unknown,
}

/// The provider named by an already lower-cased URL.
pub open spec fn provider_of_lower(lower: Seq<char>) -> ScmProvider {
    if seq_contains(lower, "github.com"@) {
        ScmProvider::GitHub
    } else if seq_contains(lower, "gitlab.com"@) || seq_contains(lower, "gitlab."@) {
        ScmProvider::GitLab
    } else if seq_contains(lower, "bitbucket.org"@) {
        ScmProvider::Bitbucket
    } else if seq_contains(lower, "dev.azure.com"@) || seq_contains(lower, "visualstudio.com"@) {
        ScmProvider::AzureDevOps
    } else {
        ScmProvider::Unknown
    }
}

/// The CLI tool a provider needs for PR creation.
pub open spec fn cli_tool_of(p: ScmProvider) -> Option<Seq<char>> {
    match p {
        ScmProvider::GitHub => Some("gh"@),
        ScmProvider::GitLab => Some("glab"@),
        _ => None,
    }
}

impl ScmProvider {
    /// Human-readable name for the provider.
    pub fn display_name(&self) -> (r: &'static str)
        ensures
            r@ == match *self {
                ScmProvider::GitHub => "GitHub"@,
                ScmProvider::GitLab => "GitLab"@,
                ScmProvider::Bitbucket => "Bitbucket"@,
                ScmProvider::AzureDevOps => "Azure DevOps"@,
                ScmProvider::Unknown => "Unknown"@,
            },
    {
        match self {
            ScmProvider::GitHub => "GitHub",
            ScmProvider::GitLab => "GitLab",
            ScmProvider::Bitbucket => "Bitbucket",
            ScmProvider::AzureDevOps => "Azure DevOps",
            ScmProvider::Unknown => "Unknown",
        }
    }

    /// CLI tool name required for PR creation, if any.
    pub fn cli_tool(&self) -> (r: Option<&'static str>)
        ensures
            r matches Some(t) ==> cli_tool_of(*self) == Some(t@),
            r is None <==> cli_tool_of(*self) is None,
    {
        match self {
            ScmProvider::GitHub => Some("gh"),
            ScmProvider::GitLab => Some("glab"),
            _ => None,
        }
    }

    /// Installation hint for the CLI tool.
    pub fn install_hint(&self) -> (r: Option<&'static str>)
        ensures
            *self == ScmProvider::GitHub ==> (r matches Some(t) && t@
                == "https://cli.github.com"@),
            *self == ScmProvider::GitLab ==> (r matches Some(t) && t@
                == "https://gitlab.com/gitlab-org/cli"@),
            *self != ScmProvider::GitHub && *self != ScmProvider::GitLab ==> r is None,
    {
        match self {
            ScmProvider::GitHub => Some("https://cli.github.com"),
            ScmProvider::GitLab => Some("https://gitlab.com/gitlab-org/cli"),
            _ => None,
        }
    }
}

/// Result of checking a provider's CLI setup.
#[derive(Debug, Clone)]
pub struct ProviderCheck {
    pub provider: ScmProvider,
    pub cli_installed: bool,
    pub cli_authenticated: bool,
    pub cli_name: Option<String>,
}

/// The provider named by an already lower-cased URL.
pub fn provider_from_lowercase(lower: &str) -> (r: ScmProvider)
    ensures
        r == provider_of_lower(lower@),
{
    if contains(lower, "github.com") {
        ScmProvider::GitHub
    } else if contains(lower, "gitlab.com") || contains(lower, "gitlab.") {
        ScmProvider::GitLab
    } else if contains(lower, "bitbucket.org") {
        ScmProvider::Bitbucket
    } else if contains(lower, "dev.azure.com") || contains(lower, "visualstudio.com") {
        ScmProvider::AzureDevOps
    } else {
        ScmProvider::Unknown
    }
}

/// Detect the SCM provider from a remote URL (case-insensitively).
pub fn detect_provider(url: &str) -> (r: ScmProvider)
    ensures
        r == provider_of_lower(lowercase(url@)),
{
    let lower = to_lowercase(url);
    provider_from_lowercase(lower.as_str())
}

/// The verdict on a provider's CLI setup, given the URL and what probing
/// the provider's CLI found: whether it is on PATH, and whether its auth
/// status command succeeded. The probe answers count only for a provider
/// that has a CLI, and authentication only when the CLI is installed.
pub fn check_provider_setup(url: &str, cli_available: bool, cli_auth_ok: bool) -> (r:
    ProviderCheck)
    ensures
        r.provider == provider_of_lower(lowercase(url@)),
        r.cli_name is Some <==> cli_tool_of(r.provider) is Some,
        r.cli_name matches Some(n) ==> cli_tool_of(r.provider) == Some(n@),
        r.cli_installed == (cli_tool_of(r.provider) is Some && cli_available),
        r.cli_authenticated == (r.cli_installed && cli_auth_ok),
{
    let provider = detect_provider(url);
    let cli_name = match provider.cli_tool() {
        Some(t) => Some(t.to_owned()),
        None => None,
    };
    let cli_installed = cli_name.is_some() && cli_available;
    let cli_authenticated = cli_installed && cli_auth_ok;
    ProviderCheck { provider, cli_installed, cli_authenticated, cli_name }
}

} // verus!

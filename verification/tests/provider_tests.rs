use airlock::provider::{check_provider_setup, detect_provider, ScmProvider};

#[test]
fn detect_github_https() {
    assert_eq!(detect_provider("https://github.com/user/repo.git"), ScmProvider::GitHub);
}

#[test]
fn detect_github_ssh() {
    assert_eq!(detect_provider("git@github.com:user/repo.git"), ScmProvider::GitHub);
}

#[test]
fn detect_gitlab_https() {
    assert_eq!(detect_provider("https://gitlab.com/user/repo.git"), ScmProvider::GitLab);
}

#[test]
fn detect_gitlab_selfhosted() {
    assert_eq!(detect_provider("https://gitlab.mycompany.com/user/repo"), ScmProvider::GitLab);
}

#[test]
fn detect_bitbucket() {
    assert_eq!(detect_provider("https://bitbucket.org/user/repo.git"), ScmProvider::Bitbucket);
}

#[test]
fn detect_azure_devops() {
    assert_eq!(
        detect_provider("https://dev.azure.com/org/project/_git/repo"),
        ScmProvider::AzureDevOps
    );
}

#[test]
fn detect_azure_visualstudio() {
    assert_eq!(
        detect_provider("https://org.visualstudio.com/project/_git/repo"),
        ScmProvider::AzureDevOps
    );
}

#[test]
fn detect_unknown() {
    assert_eq!(detect_provider("https://sr.ht/~user/repo"), ScmProvider::Unknown);
}

#[test]
fn detect_case_insensitive() {
    assert_eq!(detect_provider("https://GITHUB.COM/user/repo"), ScmProvider::GitHub);
}

#[test]
fn display_names() {
    assert_eq!(ScmProvider::GitHub.display_name(), "GitHub");
    assert_eq!(ScmProvider::GitLab.display_name(), "GitLab");
    assert_eq!(ScmProvider::Bitbucket.display_name(), "Bitbucket");
    assert_eq!(ScmProvider::AzureDevOps.display_name(), "Azure DevOps");
    assert_eq!(ScmProvider::Unknown.display_name(), "Unknown");
}

#[test]
fn cli_tools() {
    assert_eq!(ScmProvider::GitHub.cli_tool(), Some("gh"));
    assert_eq!(ScmProvider::GitLab.cli_tool(), Some("glab"));
    assert_eq!(ScmProvider::Bitbucket.cli_tool(), None);
    assert_eq!(ScmProvider::AzureDevOps.cli_tool(), None);
    assert_eq!(ScmProvider::Unknown.cli_tool(), None);
}

#[test]
fn install_hints() {
    assert_eq!(ScmProvider::GitHub.install_hint(), Some("https://cli.github.com"));
    assert_eq!(ScmProvider::GitLab.install_hint(), Some("https://gitlab.com/gitlab-org/cli"));
    assert_eq!(ScmProvider::Bitbucket.install_hint(), None);
}

#[test]
fn check_setup_unknown_provider() {
    let check = check_provider_setup("https://sr.ht/~user/repo", false, false);
    assert_eq!(check.provider, ScmProvider::Unknown);
    assert!(!check.cli_installed);
    assert!(!check.cli_authenticated);
    assert!(check.cli_name.is_none());
}

#[test]
fn check_setup_bitbucket_no_cli() {
    let check = check_provider_setup("https://bitbucket.org/user/repo", false, false);
    assert_eq!(check.provider, ScmProvider::Bitbucket);
    assert!(!check.cli_installed);
    assert!(!check.cli_authenticated);
    assert!(check.cli_name.is_none());
}

#[test]
fn check_setup_github_probe_answers() {
    let check = check_provider_setup("git@github.com:user/repo.git", true, false);
    assert_eq!(check.cli_name.as_deref(), Some("gh"));
    assert!(check.cli_installed);
    assert!(!check.cli_authenticated);
    let check = check_provider_setup("git@github.com:user/repo.git", false, true);
    assert!(!check.cli_installed);
    assert!(!check.cli_authenticated);
    // A provider without a CLI ignores the probe answers.
    let check = check_provider_setup("https://bitbucket.org/user/repo", true, true);
    assert!(!check.cli_installed);
}

use deploy_sc::cli::{AcquireMode, BuildToolArg, Cli, ProjectType};
use deploy_sc::config::{GitConfig, ProjectConfig};
use deploy_sc::context::RunContext;
use deploy_sc::error::DeployError;
use deploy_sc::git::{
    AcquireAction, AcquireEvent, AcquireState, build_git_auth, check_remote_parts, clone_command,
    credential_within_limits, git_auth_from_encoded, is_supported_http_scheme, local_branch_check_args,
    remote_branch_check_args, remote_url_from_output, short_sha_from_output, validate_git_remote, UrlParts,
};

fn git_config(base_url: &str) -> GitConfig {
    GitConfig { base_url: base_url.to_string(), username: "ci".to_string(), password: "pwd".to_string() }
}

#[test]
fn reject_non_http_url() {
    let config = git_config("https://git.example.com");
    assert!(validate_git_remote(&config, "ssh://git.example.com/demo/repo.git").is_err());
}

#[test]
fn build_auth_header_without_leaking_password() {
    let config = git_config("https://git.example.com/scm");
    let auth = build_git_auth(&config, "https://git.example.com/scm/demo/repo.git").expect("auth");
    assert!(auth.actual_header.contains("Basic "));
    assert_eq!(auth.redacted_header, "http.extraHeader=AUTHORIZATION: Basic ***");
}

#[test]
fn accept_http_url() {
    let config = git_config("http://git.example.com/scm");
    assert!(validate_git_remote(&config, "http://git.example.com/scm/demo/repo.git").is_ok());
}

#[test]
fn auth_header_carries_base64_credential() {
    let config = git_config("https://git.example.com/scm");
    let auth = build_git_auth(&config, "https://git.example.com/scm/demo/repo.git").expect("auth");
    assert_eq!(auth.actual_header, "http.extraHeader=AUTHORIZATION: Basic Y2k6cHdk");
    assert!(!auth.redacted_header.contains("Y2k6cHdk"));
    assert!(credential_within_limits(&config));
}

#[test]
fn auth_is_refused_for_another_service() {
    let config = git_config("https://git.example.com/scm");
    match build_git_auth(&config, "https://other.example.com/scm/demo/repo.git") {
        Err(DeployError::GitBaseUrlMismatch { url }) => assert_eq!(url, "https://other.example.com/scm/demo/repo.git"),
        other => panic!("unexpected result {other:?}"),
    }
}

#[test]
fn remote_checks_cover_scheme_host_port_and_path() {
    let config = git_config("https://git.example.com/scm/");
    assert!(validate_git_remote(&config, "https://git.example.com/scm/team/app.git").is_ok());
    assert!(validate_git_remote(&config, "https://git.example.com:443/scm/team/app.git").is_ok());
    assert!(matches!(
        validate_git_remote(&config, "http://git.example.com/scm/team/app.git"),
        Err(DeployError::UnsupportedGitUrl { .. })
    ));
    assert!(matches!(
        validate_git_remote(&config, "https://git.example.com:8443/scm/team/app.git"),
        Err(DeployError::GitBaseUrlMismatch { .. })
    ));
    assert!(matches!(
        validate_git_remote(&config, "https://git.example.com/other/team/app.git"),
        Err(DeployError::GitBaseUrlMismatch { .. })
    ));
    assert!(matches!(validate_git_remote(&config, "not a url"), Err(DeployError::UnsupportedGitUrl { .. })));
    let root = git_config("https://git.example.com/");
    assert!(validate_git_remote(&root, "https://git.example.com/any/app.git").is_ok());
    let broken = git_config("::");
    match validate_git_remote(&broken, "https://git.example.com/any/app.git") {
        Err(DeployError::CredentialFormat { message }) => assert_eq!(message, "git.base_url 不是合法 URL"),
        other => panic!("unexpected result {other:?}"),
    }
}

#[test]
fn parsed_parts_are_compared_field_by_field() {
    let base = UrlParts { scheme: "https".to_string(), host: Some("h".to_string()), port: Some(443), path: "/scm".to_string() };
    let good = UrlParts { scheme: "https".to_string(), host: Some("h".to_string()), port: Some(443), path: "/scm/x".to_string() };
    assert!(check_remote_parts(&good, &base, "raw").is_ok());
    let short = UrlParts { scheme: "https".to_string(), host: Some("h".to_string()), port: Some(443), path: "/sc".to_string() };
    assert!(matches!(check_remote_parts(&short, &base, "raw"), Err(DeployError::GitBaseUrlMismatch { .. })));
    let ftp = UrlParts { scheme: "ftp".to_string(), host: Some("h".to_string()), port: None, path: "/scm".to_string() };
    match check_remote_parts(&ftp, &base, "raw") {
        Err(DeployError::UnsupportedGitUrl { url }) => assert_eq!(url, "raw"),
        other => panic!("unexpected result {other:?}"),
    }
}

#[test]
fn supported_schemes() {
    assert!(is_supported_http_scheme("http"));
    assert!(is_supported_http_scheme("https"));
    assert!(!is_supported_http_scheme("ssh"));
    assert!(!is_supported_http_scheme("HTTPS"));
}

#[test]
fn encoded_header_forms() {
    let auth = git_auth_from_encoded("abc=");
    assert_eq!(auth.actual_header, "http.extraHeader=AUTHORIZATION: Basic abc=");
    assert_eq!(auth.redacted_header, "http.extraHeader=AUTHORIZATION: Basic ***");
}

#[test]
fn branch_queries() {
    assert_eq!(local_branch_check_args("dev"), vec!["show-ref", "--verify", "--quiet", "refs/heads/dev"]);
    assert_eq!(remote_branch_check_args("dev"), vec!["show-ref", "--verify", "--quiet", "refs/remotes/origin/dev"]);
}

#[test]
fn origin_and_sha_outputs() {
    assert_eq!(remote_url_from_output(true, "  https://h/r.git\n").expect("url"), "https://h/r.git");
    assert!(matches!(remote_url_from_output(true, " \n"), Err(DeployError::MissingGitRemoteUrl)));
    assert!(matches!(remote_url_from_output(false, "https://h/r.git"), Err(DeployError::MissingGitRemoteUrl)));
    assert_eq!(short_sha_from_output(true, Some(0), "abc1234\n", "").expect("sha"), "abc1234");
    match short_sha_from_output(false, Some(128), "", " fatal: not a git repository \n") {
        Err(DeployError::CommandFailed { stage, command, exit_code, stderr_tail }) => {
            assert_eq!(stage, "AcquireSource");
            assert_eq!(command, "git rev-parse --short HEAD");
            assert_eq!(exit_code, Some(128));
            assert_eq!(stderr_tail.as_deref(), Some("fatal: not a git repository"));
        }
        other => panic!("unexpected result {other:?}"),
    }
}

fn run_context(mode: AcquireMode, force_clean: bool) -> RunContext {
    let cli = Cli {
        git_url: Some("https://git.example.com/scm/team/app.git".to_string()),
        branch: "master".to_string(),
        project_type: Some(ProjectType::Web),
        java_layout: None,
        module: None,
        build_tool: BuildToolArg::Auto,
        java_home: None,
        image: "registry.example.com/team/app".to_string(),
        tag: None,
        build_args: vec![],
        mode,
        force_clean,
        workspace_dir: ".deploy-workspace".to_string(),
        skip_k8s: false,
        k8s_timeout: 300,
    };
    RunContext::from_cli(cli, "/srv/demo".to_string()).expect("context")
}

fn project_config() -> ProjectConfig {
    ProjectConfig { git: Some(git_config("https://git.example.com/scm")), registry: None, k8s: None }
}

#[test]
fn clone_command_hides_credential_in_display() {
    let ctx = run_context(AcquireMode::Clone, false);
    let auth = build_git_auth(&git_config("https://git.example.com/scm"), "https://git.example.com/scm/team/app.git")
        .expect("auth");
    let command = clone_command(&ctx, &auth, "https://git.example.com/scm/team/app.git");
    assert_eq!(command.program, "git");
    assert_eq!(command.args[1], "http.extraHeader=AUTHORIZATION: Basic Y2k6cHdk");
    assert_eq!(command.workdir.as_deref(), Some("/srv/demo"));
    assert_eq!(
        command.display_command(),
        "git -c http.extraHeader=AUTHORIZATION: Basic *** clone https://git.example.com/scm/team/app.git /srv/demo/.deploy-workspace/git_example_com_scm_team_app"
    );
}

#[test]
fn clone_run_walks_through_the_protocol() {
    let ctx = run_context(AcquireMode::Clone, false);
    let config = project_config();
    let ws = "/srv/demo/.deploy-workspace/git_example_com_scm_team_app".to_string();

    let (state, action) = AcquireState::Start.step(&ctx, &config, AcquireEvent::Start);
    assert!(matches!(action, AcquireAction::LocateTool(ref p) if p == "git"));
    let (state, action) = state.step(&ctx, &config, AcquireEvent::Answer(true));
    assert!(matches!(action, AcquireAction::ProbeDirectory(ref p) if p == "/srv/demo/.deploy-workspace/git_example_com_scm_team_app/.git"));
    let (state, action) = state.step(&ctx, &config, AcquireEvent::Answer(false));
    assert!(matches!(action, AcquireAction::ProbeContent(ref p) if *p == ws));
    let (state, action) = state.step(&ctx, &config, AcquireEvent::Answer(false));
    match action {
        AcquireAction::Run(ref c) => {
            assert_eq!(c.args[2], "clone");
            assert!(c.display_command().contains("Basic ***"));
        }
        other => panic!("unexpected action {other:?}"),
    }
    let (state, action) = state.step(&ctx, &config, AcquireEvent::Done);
    assert!(matches!(action, AcquireAction::ReadOrigin(ref p) if *p == ws));
    let (state, action) =
        state.step(&ctx, &config, AcquireEvent::Origin("https://git.example.com/scm/team/app.git".to_string()));
    match action {
        AcquireAction::Run(ref c) => {
            assert_eq!(c.args, vec!["-c", "http.extraHeader=AUTHORIZATION: Basic Y2k6cHdk", "fetch", "--all", "--prune"]);
            assert_eq!(c.display_command(), "git -c http.extraHeader=AUTHORIZATION: Basic *** fetch --all --prune");
        }
        other => panic!("unexpected action {other:?}"),
    }
    let (state, action) = state.step(&ctx, &config, AcquireEvent::Done);
    assert!(matches!(action, AcquireAction::QueryGit(ref a) if a[3] == "refs/heads/master"));
    let (state, action) = state.step(&ctx, &config, AcquireEvent::Answer(false));
    assert!(matches!(action, AcquireAction::QueryGit(ref a) if a[3] == "refs/remotes/origin/master"));
    let (state, action) = state.step(&ctx, &config, AcquireEvent::Answer(true));
    match action {
        AcquireAction::Run(ref c) => assert_eq!(c.args, vec!["checkout", "-B", "master", "origin/master"]),
        other => panic!("unexpected action {other:?}"),
    }
    let (state, action) = state.step(&ctx, &config, AcquireEvent::Done);
    assert!(matches!(action, AcquireAction::ProbeDirectory(_)));
    let (state, action) = state.step(&ctx, &config, AcquireEvent::Answer(true));
    assert!(matches!(state, AcquireState::Finished));
    assert!(matches!(action, AcquireAction::Finish(Ok(()))));
}

#[test]
fn non_empty_workspace_needs_force_clean() {
    let config = project_config();
    let ctx = run_context(AcquireMode::Clone, false);
    let (state, _) = AcquireState::ProbingMode.step(&ctx, &config, AcquireEvent::Answer(false));
    let (_, action) = state.step(&ctx, &config, AcquireEvent::Answer(true));
    assert!(matches!(action, AcquireAction::Finish(Err(DeployError::WorkspaceNotEmpty { .. }))));

    let forced = run_context(AcquireMode::Clone, true);
    let (state, _) = AcquireState::ProbingMode.step(&forced, &config, AcquireEvent::Answer(false));
    let (state, action) = state.step(&forced, &config, AcquireEvent::Answer(true));
    assert!(matches!(action, AcquireAction::CleanDirectory(ref p) if p == "/srv/demo/.deploy-workspace/git_example_com_scm_team_app"));
    let (_, action) = state.step(&forced, &config, AcquireEvent::Done);
    assert!(matches!(action, AcquireAction::Run(ref c) if c.args[2] == "clone"));
}

#[test]
fn pull_mode_fetches_twice_then_pulls() {
    let config = project_config();
    let ctx = run_context(AcquireMode::Pull, false);
    let origin = "https://git.example.com/scm/team/app.git".to_string();
    let (state, action) = AcquireState::ProbingMode.step(&ctx, &config, AcquireEvent::Answer(true));
    assert!(matches!(action, AcquireAction::ReadOrigin(_)));
    let (state, _) = state.step(&ctx, &config, AcquireEvent::Origin(origin.clone()));
    let (state, action) = state.step(&ctx, &config, AcquireEvent::Done);
    assert!(matches!(action, AcquireAction::ReadOrigin(_)));
    let (state, _) = state.step(&ctx, &config, AcquireEvent::Origin(origin.clone()));
    let (state, _) = state.step(&ctx, &config, AcquireEvent::Done);
    let (state, action) = state.step(&ctx, &config, AcquireEvent::Answer(true));
    assert!(matches!(action, AcquireAction::Run(ref c) if c.args == vec!["checkout", "master"]));
    let (state, _) = state.step(&ctx, &config, AcquireEvent::Done);
    let (state, action) = state.step(&ctx, &config, AcquireEvent::Answer(true));
    assert!(matches!(action, AcquireAction::ReadOrigin(_)));
    let (state, action) = state.step(&ctx, &config, AcquireEvent::Origin(origin));
    match action {
        AcquireAction::Run(ref c) => {
            assert_eq!(c.args[2], "pull");
            assert_eq!(c.display_command(), "git -c http.extraHeader=AUTHORIZATION: Basic *** pull origin master");
        }
        other => panic!("unexpected action {other:?}"),
    }
    let (_, action) = state.step(&ctx, &config, AcquireEvent::Done);
    assert!(matches!(action, AcquireAction::Finish(Ok(()))));
}

#[test]
fn protocol_failures() {
    let config = project_config();
    let ctx = run_context(AcquireMode::Pull, false);
    let (_, action) = AcquireState::ProbingMode.step(&ctx, &config, AcquireEvent::Answer(false));
    match action {
        AcquireAction::Finish(Err(DeployError::ProjectMismatch { message })) => {
            assert_eq!(message, "工作目录 `/srv/demo/.deploy-workspace/git_example_com_scm_team_app` 不是 Git 仓库，无法执行 pull")
        }
        other => panic!("unexpected action {other:?}"),
    }
    let (_, action) = AcquireState::LocatingGit.step(&ctx, &config, AcquireEvent::Answer(false));
    assert!(matches!(action, AcquireAction::Finish(Err(DeployError::MissingTool { ref program })) if program == "git"));
    let (_, action) = AcquireState::CheckingRemote.step(&ctx, &config, AcquireEvent::Answer(false));
    assert!(matches!(action, AcquireAction::Finish(Err(DeployError::BranchNotFound { ref branch })) if branch == "master"));
    let (state, action) =
        AcquireState::Cloning.step(&ctx, &config, AcquireEvent::Failed(DeployError::MissingGitRemoteUrl));
    assert!(matches!(state, AcquireState::Finished));
    assert!(matches!(action, AcquireAction::Finish(Err(DeployError::MissingGitRemoteUrl))));
    let (_, action) = AcquireState::Start.step(&ctx, &config, AcquireEvent::Done);
    assert!(matches!(action, AcquireAction::Finish(Err(DeployError::Context { .. }))));
    let no_git = ProjectConfig { git: None, registry: None, k8s: None };
    let (_, action) = AcquireState::ReadingOrigin { purpose: deploy_sc::git::OriginPurpose::Pull }
        .step(&ctx, &no_git, AcquireEvent::Origin("https://git.example.com/scm/x.git".to_string()));
    assert!(matches!(action, AcquireAction::Finish(Err(DeployError::MissingGitCredential))));
}

use deploy_sc::cli::{AcquireMode, BuildToolArg, Cli, ProjectType};
use deploy_sc::context::{
    ensure_within, join_path, normalize_path, repository_key, repository_key_of, validate_build_args, RunContext,
};
use deploy_sc::error::DeployError;

fn cli_with(workspace_dir: &str, build_args: Vec<String>) -> Cli {
    Cli {
        git_url: Some("https://git.example.com/team/app.git".to_string()),
        branch: "master".to_string(),
        project_type: Some(ProjectType::Web),
        java_layout: None,
        module: None,
        build_tool: BuildToolArg::Auto,
        java_home: None,
        image: "registry.example.com/demo/app".to_string(),
        tag: None,
        build_args,
        mode: AcquireMode::Auto,
        force_clean: false,
        workspace_dir: workspace_dir.to_string(),
        skip_k8s: false,
        k8s_timeout: 300,
    }
}

#[test]
fn normalize_windows_like_path() {
    let path = r"C:\workspace\demo\.\child\..\repo";
    assert_eq!(normalize_path(path), r"C:\workspace\demo\repo".to_string());
}

#[test]
fn validate_build_args_requires_equal_sign() {
    let result = validate_build_args(&["FOO".to_string()]);
    assert!(result.is_err());
}

#[test]
fn reject_path_outside_workspace() {
    let base = r"C:\workspace\demo";
    let target = r"C:\workspace\other";
    assert!(ensure_within(base, target).is_err());
}

#[test]
fn normalize_unix_path_keeps_root_and_drops_dots() {
    assert_eq!(normalize_path("/srv//app/./x/../y/"), "/srv/app/y".to_string());
    assert_eq!(normalize_path("a/../../b"), "b".to_string());
    assert_eq!(normalize_path(""), "".to_string());
    assert_eq!(normalize_path("/"), "/".to_string());
}

#[test]
fn normalize_is_idempotent_on_examples() {
    for p in ["/srv//app/./x/../y/", r"C:\a\.\b\..\c", "x/./y", "../a/b"] {
        let once = normalize_path(p);
        assert_eq!(normalize_path(&once), once);
    }
}

#[test]
fn validate_build_args_reports_first_bad_value() {
    assert!(validate_build_args(&["A=1".to_string(), "B=2".to_string()]).is_ok());
    let err = validate_build_args(&["A=1".to_string(), "BAD".to_string(), "WORSE".to_string()]).unwrap_err();
    match err {
        DeployError::InvalidArgument { message } => {
            assert_eq!(message, "--build-arg `BAD` 缺少 `=`，应为 KEY=VALUE");
        }
        other => panic!("unexpected error {other:?}"),
    }
}

#[test]
fn ensure_within_accepts_nested_and_same_paths() {
    assert!(ensure_within("/srv/app", "/srv/app/repo/Dockerfile").is_ok());
    assert!(ensure_within("/srv/app", "/srv/app").is_ok());
    assert!(ensure_within("/srv/app", "/srv/app/repo/../Dockerfile").is_ok());
    match ensure_within("/srv/app", "/srv/app/../other") {
        Err(DeployError::PathOutsideWorkspace { path }) => assert_eq!(path, "/srv/other"),
        other => panic!("unexpected result {other:?}"),
    }
    assert!(ensure_within("/srv/app", "relative/app").is_err());
}

#[test]
fn join_path_follows_path_join() {
    assert_eq!(join_path("/srv/app", "repo"), "/srv/app/repo");
    assert_eq!(join_path("/srv/app/", "repo"), "/srv/app/repo");
    assert_eq!(join_path("/srv/app", "/abs"), "/abs");
    assert_eq!(join_path("", "repo"), "repo");
}

#[test]
fn run_context_keeps_workspace_inside_base() {
    let ctx = RunContext::from_cli(cli_with(".deploy-workspace", vec![]), "/srv/demo".to_string()).expect("context");
    assert_eq!(ctx.base_dir, "/srv/demo");
    assert_eq!(ctx.workspace_dir, "/srv/demo/.deploy-workspace/git_example_com_team_app");
    assert_eq!(ctx.docker_config_dir, "/srv/demo/.deploy-workspace/git_example_com_team_app/.docker");
    assert_eq!(ctx.repo_dir(), "/srv/demo/.deploy-workspace/git_example_com_team_app");
    assert_eq!(ctx.git_dir(), "/srv/demo/.deploy-workspace/git_example_com_team_app/.git");
}

#[test]
fn run_context_rejects_escaping_workspace() {
    let err = RunContext::from_cli(cli_with("../elsewhere", vec![]), "/srv/demo".to_string()).unwrap_err();
    match err {
        DeployError::PathOutsideWorkspace { path } => assert_eq!(path, "/srv/elsewhere/git_example_com_team_app"),
        other => panic!("unexpected error {other:?}"),
    }
    let err = RunContext::from_cli(cli_with("/tmp/ws", vec![]), "/srv/demo".to_string()).unwrap_err();
    assert!(matches!(err, DeployError::PathOutsideWorkspace { .. }));
}

#[test]
fn run_context_checks_build_args_first() {
    let err = RunContext::from_cli(cli_with("../elsewhere", vec!["NOPE".to_string()]), "/srv/demo".to_string())
        .unwrap_err();
    assert!(matches!(err, DeployError::InvalidArgument { .. }));
}

#[test]
fn effective_mode_resolves_auto() {
    let mut cli = cli_with(".deploy-workspace", vec![]);
    let ctx = RunContext::from_cli(cli.clone(), "/srv/demo".to_string()).expect("context");
    assert_eq!(ctx.effective_mode(true), AcquireMode::Pull);
    assert_eq!(ctx.effective_mode(false), AcquireMode::Clone);
    cli.mode = AcquireMode::Clone;
    let ctx = RunContext::from_cli(cli, "/srv/demo".to_string()).expect("context");
    assert_eq!(ctx.effective_mode(true), AcquireMode::Clone);
}

#[test]
fn java_envs_put_jdk_first_on_path() {
    let mut cli = cli_with(".deploy-workspace", vec![]);
    let ctx = RunContext::from_cli(cli.clone(), "/srv/demo".to_string()).expect("context");
    assert!(ctx.java_envs(Some("/usr/bin"), ':').is_empty());
    cli.java_home = Some("/opt/jdk8".to_string());
    let ctx = RunContext::from_cli(cli, "/srv/demo".to_string()).expect("context");
    let envs = ctx.java_envs(Some("/usr/bin:/bin"), ':');
    assert_eq!(
        envs,
        vec![
            ("JAVA_HOME".to_string(), "/opt/jdk8".to_string()),
            ("PATH".to_string(), "/opt/jdk8/bin:/usr/bin:/bin".to_string()),
        ]
    );
    let envs = ctx.java_envs(None, ':');
    assert_eq!(envs[1], ("PATH".to_string(), "/opt/jdk8/bin".to_string()));
}

#[test]
fn run_context_needs_a_repository_address() {
    let mut cli = cli_with(".deploy-workspace", vec![]);
    cli.git_url = None;
    assert!(matches!(RunContext::from_cli(cli.clone(), "/srv/demo".to_string()), Err(DeployError::MissingGitUrl)));
    cli.git_url = Some("git@example.com:team/app.git".to_string());
    match RunContext::from_cli(cli, "/srv/demo".to_string()) {
        Err(DeployError::UnsupportedGitUrl { url }) => assert_eq!(url, "git@example.com:team/app.git"),
        other => panic!("unexpected result {other:?}"),
    }
}

#[test]
fn repository_keys_come_from_host_and_path() {
    assert_eq!(repository_key("git.example.com", "/team/app.git"), "git_example_com_team_app");
    assert_eq!(repository_key("h", "/a//b-c/"), "h_a_b_c");
    assert_eq!(repository_key("", "/"), "");
    assert_eq!(
        repository_key_of("https://git.example.com:8443/Team/App.git/").as_deref(),
        Some("git_example_com_Team_App")
    );
    assert_eq!(repository_key_of("not a url"), None);
    let mut cli = cli_with("ws", vec![]);
    cli.git_url = Some("http://10.0.0.2:10082/JAVA/sellRetail.git".to_string());
    let ctx = RunContext::from_cli(cli, "/srv/demo".to_string()).expect("context");
    assert_eq!(ctx.repo_dir(), "/srv/demo/ws/10_0_0_2_JAVA_sellRetail");
}

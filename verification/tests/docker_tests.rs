use deploy_sc::cli::{AcquireMode, BuildToolArg, Cli, ProjectType};
use deploy_sc::config::RegistryConfig;
use deploy_sc::context::{ImageMetadata, ProjectSpec, RunContext};
use deploy_sc::docker::{build_image_command, check_build_paths, login_command, push_image_command, remove_image_command};
use deploy_sc::error::DeployError;

fn test_cli(build_args: Vec<String>) -> Cli {
    Cli {
        git_url: Some("https://git.example.com/team/app.git".to_string()),
        branch: "release".to_string(),
        project_type: Some(ProjectType::Web),
        java_layout: None,
        module: None,
        build_tool: BuildToolArg::Auto,
        java_home: None,
        image: "registry.example.com/team/app".to_string(),
        tag: None,
        build_args,
        mode: AcquireMode::Auto,
        force_clean: false,
        workspace_dir: ".deploy-workspace".to_string(),
        skip_k8s: false,
        k8s_timeout: 300,
    }
}

fn test_image() -> ImageMetadata {
    ImageMetadata {
        image: "registry.example.com/team/app".to_string(),
        tag: "release-abc1234".to_string(),
        full_name: "registry.example.com/team/app:release-abc1234".to_string(),
        branch: "release".to_string(),
        short_sha: "abc1234".to_string(),
    }
}

fn test_context(build_args: Vec<String>) -> RunContext {
    RunContext::from_cli(test_cli(build_args), "/tmp/deploy-test".to_string()).expect("context")
}

fn web_spec(ctx: &RunContext) -> ProjectSpec {
    ProjectSpec {
        project_type: ProjectType::Web,
        java_layout: None,
        module_name: None,
        build_tool: None,
        build_tool_command: None,
        project_root: ctx.repo_dir().to_string(),
        dockerfile_path: format!("{}/Dockerfile", ctx.repo_dir()),
        build_context_dir: ctx.repo_dir().to_string(),
        artifact_search_dir: None,
    }
}

#[test]
fn build_image_uses_isolated_docker_config() {
    let ctx = test_context(vec![]);
    let spec = web_spec(&ctx);
    let command = build_image_command(&ctx, &spec, &test_image());
    assert_eq!(command.envs, vec![("DOCKER_CONFIG".to_string(), ctx.docker_config_dir.clone())]);
}

#[test]
fn login_uses_password_stdin_with_isolated_docker_config() {
    let ctx = test_context(vec![]);
    let registry = RegistryConfig {
        server: "registry.example.com".to_string(),
        username: "ci".to_string(),
        password: Some("secret".to_string()),
        token: None,
    };
    let command = login_command(&ctx, &registry);
    assert_eq!(command.stage, "DockerLogin");
    assert_eq!(command.stdin_text.as_deref(), Some("secret"));
    assert_eq!(command.display_command(), "docker login registry.example.com --username ci --password-stdin");
    assert_eq!(command.envs, vec![("DOCKER_CONFIG".to_string(), ctx.docker_config_dir.clone())]);
}

#[test]
fn login_prefers_token_and_never_shows_it() {
    let ctx = test_context(vec![]);
    let registry = RegistryConfig {
        server: "registry.example.com".to_string(),
        username: "ci".to_string(),
        password: None,
        token: Some("tok-123".to_string()),
    };
    let command = login_command(&ctx, &registry);
    assert_eq!(command.stdin_text.as_deref(), Some("tok-123"));
    assert!(!command.args.iter().any(|a| a.contains("tok-123")));
    assert!(!command.display_command().contains("tok-123"));
}

#[test]
fn build_image_arguments_in_order() {
    let ctx = test_context(vec!["A=1".to_string(), "B=2".to_string()]);
    let spec = web_spec(&ctx);
    let command = build_image_command(&ctx, &spec, &test_image());
    assert_eq!(command.program, "docker");
    assert_eq!(command.stage, "BuildImage");
    assert_eq!(
        command.args,
        vec![
            "build",
            "-f",
            "/tmp/deploy-test/.deploy-workspace/git_example_com_team_app/Dockerfile",
            "-t",
            "registry.example.com/team/app:release-abc1234",
            "--build-arg",
            "A=1",
            "--build-arg",
            "B=2",
            "/tmp/deploy-test/.deploy-workspace/git_example_com_team_app",
        ]
    );
    assert_eq!(command.workdir.as_deref(), Some("/tmp/deploy-test"));
    assert_eq!(command.stdin_text, None);
}

#[test]
fn push_and_remove_commands() {
    let ctx = test_context(vec![]);
    let push = push_image_command(&ctx, &test_image());
    assert_eq!(push.args, vec!["push", "registry.example.com/team/app:release-abc1234"]);
    assert_eq!(push.display_command(), "docker push registry.example.com/team/app:release-abc1234");
    let remove = remove_image_command(&ctx, &test_image());
    assert_eq!(remove.stage, "RemoveImage");
    assert_eq!(remove.args, vec!["rmi", "registry.example.com/team/app:release-abc1234"]);
    assert_eq!(remove.envs, vec![("DOCKER_CONFIG".to_string(), ctx.docker_config_dir.clone())]);
}

#[test]
fn build_paths_must_stay_inside_base() {
    let ctx = test_context(vec![]);
    let mut spec = web_spec(&ctx);
    assert!(check_build_paths(&ctx, &spec).is_ok());
    spec.build_context_dir = "/tmp/elsewhere".to_string();
    match check_build_paths(&ctx, &spec) {
        Err(DeployError::PathOutsideWorkspace { path }) => assert_eq!(path, "/tmp/elsewhere"),
        other => panic!("unexpected result {other:?}"),
    }
    spec.dockerfile_path = "/tmp/deploy-test/../x/Dockerfile".to_string();
    match check_build_paths(&ctx, &spec) {
        Err(DeployError::PathOutsideWorkspace { path }) => assert_eq!(path, "/tmp/x/Dockerfile"),
        other => panic!("unexpected result {other:?}"),
    }
}

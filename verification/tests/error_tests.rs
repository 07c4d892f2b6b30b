use deploy_sc::error::DeployError;

#[test]
fn suggestions_name_the_remedy() {
    assert_eq!(
        DeployError::WorkspaceNotEmpty { path: "/w".to_string() }.suggestion(),
        "如果确认可以重建部署工作目录，请追加 --force-clean 后重试。"
    );
    assert_eq!(
        DeployError::MissingTool { program: "docker".to_string() }.suggestion(),
        "请先在 PATH 中安装并验证 `docker` 可执行，再重新运行部署。"
    );
    let failed = DeployError::CommandFailed {
        stage: "BuildImage".to_string(),
        command: "docker build".to_string(),
        exit_code: Some(1),
        stderr_tail: None,
    };
    assert_eq!(failed.suggestion(), "请根据 `BuildImage` 阶段日志检查命令输出、环境依赖和凭证配置，再重新执行。");
    assert_eq!(
        DeployError::CredentialFormat { message: "x".to_string() }.suggestion(),
        "请检查 .deploy-sc.toml 字段名与值是否正确，password 与 token 二选一即可。"
    );
}

#[test]
fn every_business_error_has_a_remedy() {
    let errors = vec![
        DeployError::MissingGitUrl,
        DeployError::MissingGitCredential,
        DeployError::BranchNotFound { branch: "b".to_string() },
        DeployError::MissingGitRemoteUrl,
        DeployError::UnsupportedGitUrl { url: "u".to_string() },
        DeployError::GitBaseUrlMismatch { url: "u".to_string() },
        DeployError::ProjectMismatch { message: "m".to_string() },
        DeployError::MissingModuleName,
        DeployError::ModuleNotFound { module: "m".to_string() },
        DeployError::CredentialFileMissing { path: "p".to_string() },
        DeployError::PathOutsideWorkspace { path: "p".to_string() },
        DeployError::JarNotFound { path: "p".to_string() },
        DeployError::InvalidArgument { message: "m".to_string() },
        DeployError::K8sConfigError { message: "m".to_string() },
        DeployError::K8sRolloutTimeout { namespace: "n".to_string(), deployment: "d".to_string(), timeout: 1 },
    ];
    for e in errors {
        assert!(!e.suggestion().is_empty(), "{e:?}");
    }
    assert!(DeployError::Context { message: "m".to_string() }.suggestion().is_empty());
}

#[test]
fn remedies_point_at_the_flag_to_use() {
    assert!(DeployError::WorkspaceNotEmpty { path: "/a".to_string() }.suggestion().contains("--force-clean"));
    assert!(DeployError::MissingModuleName.suggestion().contains("--module"));
    assert_eq!(
        DeployError::MissingTool { program: "git".to_string() }.suggestion(),
        DeployError::MissingTool { program: "git".to_string() }.suggestion()
    );
    assert_ne!(
        DeployError::MissingTool { program: "git".to_string() }.suggestion(),
        DeployError::MissingTool { program: "docker".to_string() }.suggestion()
    );
}

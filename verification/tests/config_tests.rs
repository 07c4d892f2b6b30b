use deploy_sc::config::{GitConfig, K8sConfig, K8sDeploymentTarget, ProjectConfig, RegistryConfig};
use deploy_sc::error::DeployError;

fn format_message(r: Result<(), DeployError>) -> String {
    match r {
        Err(DeployError::CredentialFormat { message }) => message,
        other => panic!("unexpected result {other:?}"),
    }
}

fn registry(password: Option<&str>, token: Option<&str>) -> RegistryConfig {
    RegistryConfig {
        server: "registry.example.com".to_string(),
        username: "ci".to_string(),
        password: password.map(|s| s.to_string()),
        token: token.map(|s| s.to_string()),
    }
}

#[test]
fn reject_invalid_secret_combination() {
    let config = ProjectConfig { git: None, registry: Some(registry(Some("pwd"), Some("tok"))), k8s: None };
    assert!(config.validate_syntax().is_err());
}

#[test]
fn accept_git_and_registry_sections() {
    let config = ProjectConfig {
        git: Some(GitConfig {
            base_url: "https://git.example.com".to_string(),
            username: "git-user".to_string(),
            password: "git-password".to_string(),
        }),
        registry: Some(registry(Some("pwd"), None)),
        k8s: None,
    };
    assert!(config.validate_syntax().is_ok());
    assert_eq!(config.git().expect("git").username, "git-user");
    assert_eq!(config.registry().expect("registry").registry_secret(), "pwd");
}

#[test]
fn registry_needs_exactly_one_secret() {
    let neither = registry(None, Some("  "));
    assert_eq!(format_message(neither.validate()), "registry.password 与 registry.token 必须二选一");
    assert!(registry(None, Some("tok")).validate().is_ok());
    assert_eq!(registry(None, Some("tok")).registry_secret(), "tok");
    let mut blank_server = registry(Some("pwd"), None);
    blank_server.server = " ".to_string();
    assert_eq!(format_message(blank_server.validate()), "registry.server 不能为空");
    let mut blank_user = registry(Some("pwd"), None);
    blank_user.username = String::new();
    assert_eq!(format_message(blank_user.validate()), "registry.username 不能为空");
}

#[test]
fn git_section_fields_are_required() {
    let mut git = GitConfig {
        base_url: "https://git.example.com".to_string(),
        username: "u".to_string(),
        password: "p".to_string(),
    };
    assert!(git.validate().is_ok());
    git.password = "\t".to_string();
    assert_eq!(format_message(git.validate()), "git.password 不能为空");
    git.username = String::new();
    assert_eq!(format_message(git.validate()), "git.username 不能为空");
    git.base_url = " ".to_string();
    assert_eq!(format_message(git.validate()), "git.base_url 不能为空");
}

#[test]
fn missing_sections_are_reported() {
    let config = ProjectConfig { git: None, registry: None, k8s: None };
    assert!(config.validate_syntax().is_ok());
    assert!(matches!(config.git(), Err(DeployError::MissingGitCredential)));
    match config.registry() {
        Err(DeployError::CredentialFormat { message }) => assert_eq!(message, "缺少 [registry] 配置"),
        other => panic!("unexpected result {other:?}"),
    }
    assert!(config.k8s().is_none());
}

fn k8s_top(namespace: Option<&str>, deployment: Option<&str>) -> K8sConfig {
    K8sConfig {
        kubeconfig: Some("/etc/kube/config".to_string()),
        context: None,
        namespace: namespace.map(|s| s.to_string()),
        deployment: deployment.map(|s| s.to_string()),
        container: None,
        deployments: vec![],
    }
}

fn target(namespace: &str, deployment: &str) -> K8sDeploymentTarget {
    K8sDeploymentTarget { module: None, namespace: namespace.to_string(), deployment: deployment.to_string(), container: None }
}

#[test]
fn k8s_section_rules() {
    assert!(k8s_top(Some("prod"), Some("web")).validate().is_ok());
    let mut no_kubeconfig = k8s_top(Some("prod"), Some("web"));
    no_kubeconfig.kubeconfig = Some(" ".to_string());
    assert_eq!(format_message(no_kubeconfig.validate()), "k8s.kubeconfig 不能为空");
    assert_eq!(
        format_message(k8s_top(None, None).validate()),
        "k8s 配置至少需要一个部署目标：顶层 namespace/deployment 或数组 deployments"
    );
    assert_eq!(format_message(k8s_top(Some("prod"), None).validate()), "k8s.deployment 不能为空");
    let mut both = k8s_top(Some("prod"), Some("web"));
    both.deployments.push(target("prod", "svc"));
    assert_eq!(
        format_message(both.validate()),
        "k8s 配置不能同时使用顶层 namespace/deployment 与数组 deployments，请二选一"
    );
}

#[test]
fn k8s_deployments_are_checked_in_order() {
    let mut list = k8s_top(None, None);
    list.deployments = vec![target("prod", "a"), target("prod", " "), target("", "c")];
    assert_eq!(format_message(list.validate()), "k8s.deployments[1].deployment 不能为空");
    list.deployments = vec![target("prod", "a"), target("prod", "b"), target("", "c")];
    assert_eq!(format_message(list.validate()), "k8s.deployments[2].namespace 不能为空");
    list.deployments.truncate(2);
    assert!(list.validate().is_ok());
    let config = ProjectConfig { git: None, registry: None, k8s: Some(list) };
    assert!(config.validate_syntax().is_ok());
    assert!(config.k8s().is_some());
}

#[test]
fn blank_token_gives_way_to_the_password() {
    let config = registry(Some("pwd"), Some("  "));
    assert!(config.validate().is_ok());
    assert_eq!(config.registry_secret(), "pwd");
    assert_eq!(registry(Some("pwd"), Some("tok")).registry_secret(), "tok");
    assert_eq!(registry(None, Some(" ")).registry_secret(), " ");
}

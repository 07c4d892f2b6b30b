use deploy_sc::cli::{JavaLayout, ProjectType};
use deploy_sc::config::{K8sConfig, K8sDeploymentTarget, ProjectConfig};
use deploy_sc::context::{EffectiveBuildTool, ProjectSpec};
use deploy_sc::error::DeployError;
use deploy_sc::k8s::{
    DeployPlan, RolloutProgress, check_kubeconfig_file, rollout_progress, check_rollout, container_name, plan_deployment, resolve_targets,
    rollout_timeout,
};

fn make_deployments() -> K8sConfig {
    K8sConfig {
        kubeconfig: Some("/tmp/kubeconfig".to_string()),
        context: None,
        namespace: None,
        deployment: None,
        container: None,
        deployments: vec![
            K8sDeploymentTarget {
                module: Some("module-a".to_string()),
                namespace: "prod".to_string(),
                deployment: "svc-a".to_string(),
                container: None,
            },
            K8sDeploymentTarget {
                module: Some("module-b".to_string()),
                namespace: "prod".to_string(),
                deployment: "svc-b".to_string(),
                container: Some("app".to_string()),
            },
            K8sDeploymentTarget {
                module: None,
                namespace: "staging".to_string(),
                deployment: "default-svc".to_string(),
                container: None,
            },
        ],
    }
}

fn make_project_spec(module: Option<&str>) -> ProjectSpec {
    ProjectSpec {
        project_type: ProjectType::Java,
        java_layout: if module.is_some() { Some(JavaLayout::Multi) } else { Some(JavaLayout::Single) },
        module_name: module.map(|s| s.to_string()),
        build_tool: Some(EffectiveBuildTool::Maven),
        build_tool_command: None,
        project_root: "/tmp/repo".to_string(),
        dockerfile_path: "/tmp/repo/Dockerfile".to_string(),
        build_context_dir: "/tmp/repo".to_string(),
        artifact_search_dir: None,
    }
}

#[test]
fn resolve_module_a_targets() {
    let config = make_deployments();
    let spec = make_project_spec(Some("module-a"));
    let targets = resolve_targets(&config, &spec);
    assert_eq!(targets.len(), 1);
    assert_eq!(targets[0].deployment, "svc-a");
}

#[test]
fn resolve_module_b_targets() {
    let config = make_deployments();
    let spec = make_project_spec(Some("module-b"));
    let targets = resolve_targets(&config, &spec);
    assert_eq!(targets.len(), 1);
    assert_eq!(targets[0].deployment, "svc-b");
    assert_eq!(targets[0].container.as_deref(), Some("app"));
}

#[test]
fn resolve_non_module_targets() {
    let config = make_deployments();
    let spec = make_project_spec(None);
    let targets = resolve_targets(&config, &spec);
    assert_eq!(targets.len(), 1);
    assert_eq!(targets[0].deployment, "default-svc");
}

#[test]
fn resolve_unknown_module_returns_empty() {
    let config = make_deployments();
    let spec = make_project_spec(Some("unknown-module"));
    let targets = resolve_targets(&config, &spec);
    assert!(targets.is_empty());
}

#[test]
fn resolve_top_level_target() {
    let config = K8sConfig {
        kubeconfig: Some("/tmp/kubeconfig".to_string()),
        context: None,
        namespace: Some("prod".to_string()),
        deployment: Some("web".to_string()),
        container: None,
        deployments: vec![],
    };
    let targets = resolve_targets(&config, &make_project_spec(Some("ignored")));
    assert_eq!(targets.len(), 1);
    assert_eq!(targets[0].module, None);
    assert_eq!(targets[0].namespace, "prod");
    assert_eq!(container_name(&targets[0]), "web");
    let mut partial = config.clone();
    partial.namespace = None;
    assert!(resolve_targets(&partial, &make_project_spec(None)).is_empty());
}

#[test]
fn container_defaults_to_deployment_name() {
    let config = make_deployments();
    assert_eq!(container_name(&config.deployments[0]), "svc-a");
    assert_eq!(container_name(&config.deployments[1]), "app");
}

#[test]
fn plan_skips_without_section_or_when_asked() {
    let spec = make_project_spec(Some("module-a"));
    let none = ProjectConfig { git: None, registry: None, k8s: None };
    match plan_deployment(&none, false, &spec).expect("plan") {
        DeployPlan::Skip(reason) => assert_eq!(reason, "未配置 [k8s]，跳过 K8s 部署"),
        other => panic!("unexpected plan {other:?}"),
    }
    let some = ProjectConfig { git: None, registry: None, k8s: Some(make_deployments()) };
    match plan_deployment(&some, true, &spec).expect("plan") {
        DeployPlan::Skip(reason) => assert_eq!(reason, "--skip-k8s 已设置，跳过 K8s 部署"),
        other => panic!("unexpected plan {other:?}"),
    }
    match plan_deployment(&some, false, &make_project_spec(Some("unknown"))).expect("plan") {
        DeployPlan::Skip(reason) => assert_eq!(reason, "未匹配到部署目标，跳过 K8s 部署"),
        other => panic!("unexpected plan {other:?}"),
    }
}

#[test]
fn plan_updates_matching_targets() {
    let some = ProjectConfig { git: None, registry: None, k8s: Some(make_deployments()) };
    match plan_deployment(&some, false, &make_project_spec(Some("module-b"))).expect("plan") {
        DeployPlan::Update { kubeconfig, context, targets } => {
            assert_eq!(kubeconfig, "/tmp/kubeconfig");
            assert_eq!(context, None);
            assert_eq!(targets.len(), 1);
            assert_eq!(targets[0].deployment, "svc-b");
        }
        other => panic!("unexpected plan {other:?}"),
    }
    let mut k = make_deployments();
    k.kubeconfig = None;
    let missing = ProjectConfig { git: None, registry: None, k8s: Some(k) };
    match plan_deployment(&missing, false, &make_project_spec(None)) {
        Err(DeployError::Context { message }) => assert_eq!(message, "k8s.kubeconfig 未配置"),
        other => panic!("unexpected result {other:?}"),
    }
}

#[test]
fn kubeconfig_must_be_a_file() {
    assert!(check_kubeconfig_file("/etc/kube/config", true).is_ok());
    match check_kubeconfig_file("/etc/kube/config", false) {
        Err(DeployError::K8sConfigError { message }) => assert_eq!(message, "kubeconfig 文件不存在：/etc/kube/config"),
        other => panic!("unexpected result {other:?}"),
    }
}

#[test]
fn rollout_readiness_follows_counters() {
    let ready = check_rollout(Some(3), Some(3), Some(2), Some(2), Some(2));
    assert!(ready.ready);
    let behind = check_rollout(Some(4), Some(3), Some(2), Some(2), Some(2));
    assert!(!behind.ready);
    let updating = check_rollout(Some(3), Some(3), Some(2), Some(1), Some(2));
    assert!(!updating.ready);
    assert_eq!(updating.updated, 1);
    let defaults = check_rollout(None, None, None, None, None);
    assert!(!defaults.ready);
    assert_eq!(defaults.replicas, 1);
    assert_eq!(defaults.available, 0);
    let single = check_rollout(None, None, None, Some(1), Some(1));
    assert!(single.ready);
}

#[test]
fn rollout_timeout_names_the_deployment() {
    let config = make_deployments();
    match rollout_timeout(&config.deployments[0], 300) {
        DeployError::K8sRolloutTimeout { namespace, deployment, timeout } => {
            assert_eq!(namespace, "prod");
            assert_eq!(deployment, "svc-a");
            assert_eq!(timeout, 300);
        }
        other => panic!("unexpected error {other:?}"),
    }
}

#[test]
fn rollout_progress_per_poll() {
    assert!(matches!(rollout_progress(false, Some(1), Some(1), Some(1), Some(1), Some(1)), RolloutProgress::AwaitingStatus));
    assert!(matches!(rollout_progress(true, Some(2), Some(2), Some(3), Some(3), Some(3)), RolloutProgress::Ready));
    match rollout_progress(true, Some(2), Some(2), Some(3), Some(1), None) {
        RolloutProgress::Updating(c) => {
            assert!(!c.ready);
            assert_eq!((c.replicas, c.updated, c.available), (3, 1, 0));
        }
        _ => panic!("expected an update in progress"),
    }
}

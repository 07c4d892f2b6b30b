use deploy_sc::cli::{AcquireMode, BuildToolArg, Cli};
use deploy_sc::context::RunContext;
use deploy_sc::error::DeployError;
use deploy_sc::workflow::{build_image_metadata, sanitize_tag_part};

fn cli(branch: &str, tag: Option<&str>) -> Cli {
    Cli {
        git_url: Some("https://git.example.com/team/app.git".to_string()),
        branch: branch.to_string(),
        project_type: None,
        java_layout: None,
        module: None,
        build_tool: BuildToolArg::Auto,
        java_home: None,
        image: "registry.example.com/demo/app".to_string(),
        tag: tag.map(|t| t.to_string()),
        build_args: vec![],
        mode: AcquireMode::Auto,
        force_clean: false,
        workspace_dir: ".deploy-workspace".to_string(),
        skip_k8s: false,
        k8s_timeout: 300,
    }
}

#[test]
fn auto_tag_contains_sha() {
    let ctx = RunContext::from_cli(cli("feature/demo", None), "/tmp/deploy-test".to_string()).expect("context");
    let image = build_image_metadata(&ctx.cli, "abc1234", "20240102030405").expect("metadata");
    assert!(image.tag.contains("abc1234"));
    assert!(image.full_name.starts_with("registry.example.com/demo/app:"));
}

#[test]
fn auto_tag_is_branch_sha_timestamp() {
    let image = build_image_metadata(&cli("feature/demo", None), "abc1234", "20240102030405").expect("metadata");
    assert_eq!(image.tag, "feature-demo-abc1234-20240102030405");
    assert_eq!(image.full_name, "registry.example.com/demo/app:feature-demo-abc1234-20240102030405");
    assert_eq!(image.branch, "feature/demo");
    assert_eq!(image.short_sha, "abc1234");
    assert_eq!(image.image, "registry.example.com/demo/app");
}

#[test]
fn explicit_tag_wins_and_blank_tag_is_refused() {
    let image = build_image_metadata(&cli("main", Some("v1.2.3")), "abc1234", "20240102030405").expect("metadata");
    assert_eq!(image.full_name, "registry.example.com/demo/app:v1.2.3");
    match build_image_metadata(&cli("main", Some("  ")), "abc1234", "20240102030405") {
        Err(DeployError::Context { message }) => assert_eq!(message, "镜像 tag 不能为空"),
        other => panic!("unexpected result {other:?}"),
    }
}

#[test]
fn sanitize_replaces_and_trims() {
    assert_eq!(sanitize_tag_part("feature/demo"), "feature-demo");
    assert_eq!(sanitize_tag_part("/release/1.0_x/"), "release-1.0_x");
    assert_eq!(sanitize_tag_part("--"), "");
    assert_eq!(sanitize_tag_part("分支"), "");
    assert_eq!(sanitize_tag_part("a b"), "a-b");
}

#[test]
fn sanitize_is_idempotent_on_examples() {
    for s in ["feature/demo", "-x-", "ü.b", "already-clean"] {
        let once = sanitize_tag_part(s);
        assert_eq!(sanitize_tag_part(&once), once);
        assert!(!once.starts_with('-') && !once.ends_with('-'));
    }
}

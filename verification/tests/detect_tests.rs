use deploy_sc::cli::{AcquireMode, BuildToolArg, Cli, JavaLayout, ProjectType};
use deploy_sc::context::{EffectiveBuildTool, RunContext, join_path};
use deploy_sc::detect::{
    FsFacts, detect_project, eq_ignore_ascii_case, find_java_module_candidates, image_name_hint, sort_names,
};
use deploy_sc::error::DeployError;

const BASE: &str = "/tmp/deploy-test";

fn context(project_type: Option<ProjectType>, image: &str, module: Option<&str>) -> RunContext {
    let cli = Cli {
        git_url: Some("https://git.example.com/team/java.git".to_string()),
        branch: "master".to_string(),
        project_type,
        java_layout: None,
        module: module.map(|m| m.to_string()),
        build_tool: BuildToolArg::Auto,
        java_home: None,
        image: image.to_string(),
        tag: None,
        build_args: vec![],
        mode: AcquireMode::Auto,
        force_clean: false,
        workspace_dir: ".deploy-workspace".to_string(),
        skip_k8s: false,
        k8s_timeout: 300,
    };
    RunContext::from_cli(cli, BASE.to_string()).expect("context")
}

/// Facts of a repository holding `root_files` at its root and, for each
/// module, a directory with the given files.
fn facts(repo: &str, root_files: &[&str], modules: &[(&str, &[&str])]) -> FsFacts {
    let mut files = vec![];
    let mut dirs = vec![repo.to_string()];
    let mut entries = vec![];
    for f in root_files {
        files.push(join_path(repo, f));
        entries.push(f.to_string());
    }
    for (m, module_files) in modules {
        let dir = join_path(repo, m);
        dirs.push(dir.clone());
        entries.push(m.to_string());
        for f in module_files.iter() {
            files.push(join_path(&dir, f));
        }
    }
    FsFacts { files, dirs, others: vec![], repo_entries: Some(entries) }
}

#[test]
fn detect_web_project_from_explicit_type() {
    let ctx = context(Some(ProjectType::Web), "repo/app", None);
    let f = facts(ctx.repo_dir(), &["Dockerfile"], &[]);
    let spec = detect_project(&ctx, &f).expect("detect project");
    assert_eq!(spec.project_type, ProjectType::Web);
    assert_eq!(spec.dockerfile_path, "/tmp/deploy-test/.deploy-workspace/git_example_com_team_java/Dockerfile");
    assert_eq!(spec.build_context_dir, ctx.repo_dir());
}

#[test]
fn detect_java_multi_module_from_unique_child_dockerfile() {
    let ctx = context(Some(ProjectType::Java), "repo/sellretail-enterprise-admin", None);
    let repo_dir = ctx.repo_dir().to_string();
    let f = facts(&repo_dir, &["pom.xml", "mvnw"], &[("sellretail-enterprise-admin", &["Dockerfile"])]);
    let spec = detect_project(&ctx, &f).expect("detect project");
    assert_eq!(spec.project_type, ProjectType::Java);
    assert_eq!(spec.java_layout, Some(JavaLayout::Multi));
    assert_eq!(spec.module_name.as_deref(), Some("sellretail-enterprise-admin"));
    let module_dir = join_path(&repo_dir, "sellretail-enterprise-admin");
    assert_eq!(spec.dockerfile_path, join_path(&module_dir, "Dockerfile"));
    assert_eq!(spec.build_context_dir, module_dir);
}

#[test]
fn detect_java_multi_module_by_image_name_when_multiple_candidates_exist() {
    let ctx = context(Some(ProjectType::Java), "registry.example.com/team/sellretail-enterprise-admin", None);
    let repo_dir = ctx.repo_dir().to_string();
    let f = facts(
        &repo_dir,
        &["pom.xml", "mvnw"],
        &[("sellretail-appuser-api", &["Dockerfile"]), ("sellretail-enterprise-admin", &["Dockerfile"])],
    );
    let spec = detect_project(&ctx, &f).expect("detect project");
    assert_eq!(spec.module_name.as_deref(), Some("sellretail-enterprise-admin"));
}

#[test]
fn reject_ambiguous_java_multi_module_without_module_hint() {
    let ctx = context(Some(ProjectType::Java), "registry.example.com/team/java-app", None);
    let repo_dir = ctx.repo_dir().to_string();
    let f = facts(&repo_dir, &["pom.xml", "mvnw"], &[("module-a", &["Dockerfile"]), ("module-b", &["Dockerfile"])]);
    let err = detect_project(&ctx, &f).expect_err("should reject ambiguous module");
    match err {
        DeployError::ProjectMismatch { message } => {
            assert!(message.contains("--module"));
            assert!(message.contains("module-a"));
            assert!(message.contains("module-b"));
        }
        other => panic!("unexpected error {other:?}"),
    }
}

#[test]
fn java_single_module_with_maven_wrapper() {
    let ctx = context(None, "registry.example.com/team/service", None);
    let repo_dir = ctx.repo_dir().to_string();
    let f = facts(&repo_dir, &["pom.xml", "mvnw", "Dockerfile"], &[]);
    let spec = detect_project(&ctx, &f).expect("detect project");
    assert_eq!(spec.project_type, ProjectType::Java);
    assert_eq!(spec.java_layout, Some(JavaLayout::Single));
    assert_eq!(spec.build_tool, Some(EffectiveBuildTool::Maven));
    assert_eq!(spec.build_tool_command.as_deref(), Some("/tmp/deploy-test/.deploy-workspace/git_example_com_team_java/mvnw"));
    assert_eq!(spec.artifact_search_dir.as_deref(), Some("/tmp/deploy-test/.deploy-workspace/git_example_com_team_java/target"));
}

#[test]
fn java_gradle_module_named_on_command_line() {
    let ctx = context(Some(ProjectType::Java), "registry.example.com/team/x", Some("api"));
    let repo_dir = ctx.repo_dir().to_string();
    let f = facts(&repo_dir, &["build.gradle", "gradlew"], &[("api", &["Dockerfile", "build.gradle"])]);
    let spec = detect_project(&ctx, &f).expect("detect project");
    assert_eq!(spec.java_layout, Some(JavaLayout::Multi));
    assert_eq!(spec.build_tool, Some(EffectiveBuildTool::Gradle));
    assert_eq!(spec.module_name.as_deref(), Some("api"));
    assert_eq!(spec.artifact_search_dir.as_deref(), Some("/tmp/deploy-test/.deploy-workspace/git_example_com_team_java/api/build/libs"));
}

#[test]
fn detection_failures() {
    let ctx = context(None, "repo/app", None);
    let empty = facts(ctx.repo_dir(), &[], &[]);
    match detect_project(&ctx, &empty) {
        Err(DeployError::ProjectMismatch { message }) => {
            assert_eq!(message, "无法自动识别项目类型，请显式传入 --project-type")
        }
        other => panic!("unexpected result {other:?}"),
    }
    let web = context(Some(ProjectType::Web), "repo/app", None);
    match detect_project(&web, &empty) {
        Err(DeployError::Context { message }) => {
            assert_eq!(message, "读取 Dockerfile 失败：/tmp/deploy-test/.deploy-workspace/git_example_com_team_java/Dockerfile")
        }
        other => panic!("unexpected result {other:?}"),
    }
    let named = context(Some(ProjectType::Java), "repo/app", Some("missing"));
    let f = facts(named.repo_dir(), &["pom.xml", "mvnw"], &[]);
    match detect_project(&named, &f) {
        Err(DeployError::ModuleNotFound { module }) => assert_eq!(module, "missing"),
        other => panic!("unexpected result {other:?}"),
    }
    let none = context(Some(ProjectType::Java), "repo/app", None);
    let f = facts(none.repo_dir(), &["pom.xml", "mvnw"], &[("lib", &["pom.xml"])]);
    match detect_project(&none, &f) {
        Err(DeployError::Context { message }) => {
            assert_eq!(message, "读取 Dockerfile 失败：/tmp/deploy-test/.deploy-workspace/git_example_com_team_java/Dockerfile")
        }
        other => panic!("unexpected result {other:?}"),
    }
}

#[test]
fn module_candidates_are_sorted_directories_with_dockerfile() {
    let repo = "/r";
    let f = facts(repo, &["pom.xml"], &[("zeta", &["Dockerfile"]), ("alpha", &["Dockerfile"]), ("lib", &["pom.xml"])]);
    assert_eq!(find_java_module_candidates(&f, repo).expect("candidates"), vec!["alpha", "zeta"]);
    let unreadable = FsFacts { files: vec![], dirs: vec![], others: vec![], repo_entries: None };
    match find_java_module_candidates(&unreadable, repo) {
        Err(DeployError::Context { message }) => assert_eq!(message, "读取目录失败：/r"),
        other => panic!("unexpected result {other:?}"),
    }
}

#[test]
fn name_helpers() {
    assert_eq!(image_name_hint("registry.example.com/team/app").as_deref(), Some("app"));
    assert_eq!(image_name_hint("registry.example.com/team/"), None);
    assert!(eq_ignore_ascii_case("Module-A", "module-a"));
    assert!(!eq_ignore_ascii_case("module-a", "module-b"));
    assert_eq!(
        sort_names(vec!["b".to_string(), "a".to_string(), "B".to_string()]),
        vec!["B".to_string(), "a".to_string(), "b".to_string()]
    );
}

#[test]
fn dockerfile_that_is_not_a_regular_file() {
    let ctx = context(Some(ProjectType::Web), "repo/app", None);
    let dockerfile = join_path(ctx.repo_dir(), "Dockerfile");
    let f = FsFacts { files: vec![], dirs: vec![], others: vec![dockerfile.clone()], repo_entries: Some(vec![]) };
    match detect_project(&ctx, &f) {
        Err(DeployError::ProjectMismatch { message }) => assert_eq!(message, format!("Dockerfile 不存在：{dockerfile}")),
        other => panic!("unexpected result {other:?}"),
    }
}

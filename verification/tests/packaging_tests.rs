use deploy_sc::cli::{AcquireMode, BuildToolArg, Cli, JavaLayout, ProjectType};
use deploy_sc::context::{EffectiveBuildTool, ProjectSpec, RunContext, join_path};
use deploy_sc::detect::FsFacts;
use deploy_sc::error::DeployError;
use deploy_sc::packaging::{JarEntry, build_java_command_spec, find_executable_jar};

fn entry(name: &str, is_file: bool, size: u64) -> JarEntry {
    JarEntry { name: name.to_string(), is_file, size }
}

#[test]
fn choose_non_sources_jar() {
    let dir = "/tmp/artifacts";
    let entries = vec![entry("demo-sources.jar", true, 5), entry("demo.jar", true, 10)];
    let jar = find_executable_jar(dir, true, &entries).expect("jar");
    assert_eq!(jar, "/tmp/artifacts/demo.jar");
}

#[test]
fn largest_runnable_jar_wins_first_among_equals() {
    let dir = "/tmp/artifacts";
    let entries = vec![
        entry("app-1.0.jar", true, 100),
        entry("app-1.0-JAVADOC.jar", true, 900),
        entry("app-1.0-tests.jar", true, 800),
        entry("app-1.0.jar.original", true, 700),
        entry("app-1.0-original.jar", true, 700),
        entry("classes", false, 999),
        entry("big.JAR", true, 600),
        entry(".jar", true, 500),
        entry("other.jar", true, 300),
        entry("same.jar", true, 300),
    ];
    assert_eq!(find_executable_jar(dir, true, &entries).expect("jar"), "/tmp/artifacts/other.jar");
}

#[test]
fn missing_jar_is_reported() {
    match find_executable_jar("/tmp/none", false, &[entry("a.jar", true, 1)]) {
        Err(DeployError::JarNotFound { path }) => assert_eq!(path, "/tmp/none"),
        other => panic!("unexpected result {other:?}"),
    }
    match find_executable_jar("/tmp/empty", true, &[entry("a-sources.jar", true, 1)]) {
        Err(DeployError::JarNotFound { path }) => assert_eq!(path, "/tmp/empty"),
        other => panic!("unexpected result {other:?}"),
    }
}

fn cli(java_home: Option<&str>) -> Cli {
    Cli {
        git_url: Some("https://git.example.com/team/app.git".to_string()),
        branch: "master".to_string(),
        project_type: Some(ProjectType::Java),
        java_layout: Some(JavaLayout::Single),
        module: None,
        build_tool: BuildToolArg::Maven,
        java_home: java_home.map(|h| h.to_string()),
        image: "registry.example.com/demo/app".to_string(),
        tag: None,
        build_args: vec![],
        mode: AcquireMode::Auto,
        force_clean: false,
        workspace_dir: ".deploy-workspace".to_string(),
        skip_k8s: false,
        k8s_timeout: 300,
    }
}

fn java_spec(repo: &str, layout: Option<JavaLayout>, tool: EffectiveBuildTool, module: Option<&str>) -> ProjectSpec {
    let context = match module {
        Some(m) => join_path(repo, m),
        None => repo.to_string(),
    };
    ProjectSpec {
        project_type: ProjectType::Java,
        java_layout: layout,
        module_name: module.map(|m| m.to_string()),
        build_tool: Some(tool),
        build_tool_command: Some("/opt/tools/bin/build".to_string()),
        project_root: repo.to_string(),
        dockerfile_path: join_path(&context, "Dockerfile"),
        build_context_dir: context.clone(),
        artifact_search_dir: Some(join_path(&context, "target")),
    }
}

fn no_facts() -> FsFacts {
    FsFacts { files: vec![], dirs: vec![], others: vec![], repo_entries: None }
}

#[test]
fn java_home_is_injected_into_maven_command_env() {
    let base = "/tmp/deploy-test";
    let java_home = "/tmp/deploy-test/jdk8";
    let ctx = RunContext::from_cli(cli(Some(java_home)), base.to_string()).expect("context");
    let repo_dir = ctx.repo_dir().to_string();
    let mut spec = java_spec(&repo_dir, Some(JavaLayout::Single), EffectiveBuildTool::Maven, None);
    spec.build_tool_command = Some(join_path(&join_path(java_home, "bin"), "mvn"));
    let command = build_java_command_spec(&ctx, &spec, &no_facts(), Some("/usr/bin:/bin"), ':').expect("command");
    let java_bin = join_path(java_home, "bin");
    assert!(command.envs.iter().any(|(key, value)| key == "JAVA_HOME" && value == java_home));
    assert!(command.envs.iter().any(|(key, value)| key == "PATH" && value.starts_with(&java_bin)));
}

#[test]
fn single_module_commands() {
    let ctx = RunContext::from_cli(cli(None), "/tmp/deploy-test".to_string()).expect("context");
    let repo = ctx.repo_dir().to_string();
    let maven = build_java_command_spec(
        &ctx,
        &java_spec(&repo, Some(JavaLayout::Single), EffectiveBuildTool::Maven, None),
        &no_facts(),
        None,
        ':',
    )
    .expect("maven");
    assert_eq!(maven.stage, "PackageJava");
    assert_eq!(maven.program, "/opt/tools/bin/build");
    assert_eq!(maven.args, vec!["clean", "package", "-DskipTests"]);
    assert_eq!(maven.workdir.as_deref(), Some(repo.as_str()));
    assert!(maven.envs.is_empty());
    let gradle = build_java_command_spec(
        &ctx,
        &java_spec(&repo, Some(JavaLayout::Single), EffectiveBuildTool::Gradle, None),
        &no_facts(),
        None,
        ':',
    )
    .expect("gradle");
    assert_eq!(gradle.args, vec!["build", "-x", "test"]);
    match build_java_command_spec(&ctx, &java_spec(&repo, None, EffectiveBuildTool::Maven, None), &no_facts(), None, ':') {
        Err(DeployError::ProjectMismatch { message }) => assert_eq!(message, "Java 项目缺少可执行的构建布局信息"),
        other => panic!("unexpected result {other:?}"),
    }
}

#[test]
fn multi_module_maven_commands() {
    let ctx = RunContext::from_cli(cli(None), "/tmp/deploy-test".to_string()).expect("context");
    let repo = ctx.repo_dir().to_string();
    let spec = java_spec(&repo, Some(JavaLayout::Multi), EffectiveBuildTool::Maven, Some("api"));
    let root_pom = FsFacts { files: vec![join_path(&repo, "pom.xml")], dirs: vec![], others: vec![], repo_entries: None };
    let c = build_java_command_spec(&ctx, &spec, &root_pom, None, ':').expect("root build");
    assert_eq!(c.args, vec!["clean", "package", "-pl", "api", "-am", "-DskipTests"]);
    assert_eq!(c.workdir.as_deref(), Some(repo.as_str()));
    let module_dir = join_path(&repo, "api");
    let module_pom = FsFacts { files: vec![join_path(&module_dir, "pom.xml")], dirs: vec![], others: vec![], repo_entries: None };
    let c = build_java_command_spec(&ctx, &spec, &module_pom, None, ':').expect("module build");
    assert_eq!(c.args, vec!["-f", "pom.xml", "clean", "package", "-DskipTests"]);
    assert_eq!(c.workdir.as_deref(), Some(module_dir.as_str()));
    match build_java_command_spec(&ctx, &spec, &no_facts(), None, ':') {
        Err(DeployError::ProjectMismatch { message }) => {
            assert_eq!(message, "多模块 Maven 项目缺少根 pom.xml 或模块 pom.xml")
        }
        other => panic!("unexpected result {other:?}"),
    }
}

#[test]
fn multi_module_gradle_commands() {
    let ctx = RunContext::from_cli(cli(None), "/tmp/deploy-test".to_string()).expect("context");
    let repo = ctx.repo_dir().to_string();
    let spec = java_spec(&repo, Some(JavaLayout::Multi), EffectiveBuildTool::Gradle, Some("api"));
    let kts = FsFacts { files: vec![join_path(&repo, "build.gradle.kts")], dirs: vec![], others: vec![], repo_entries: None };
    let c = build_java_command_spec(&ctx, &spec, &kts, None, ':').expect("root build");
    assert_eq!(c.args, vec![":api:build", "-x", "test"]);
    assert_eq!(c.workdir.as_deref(), Some(repo.as_str()));
    let c = build_java_command_spec(&ctx, &spec, &no_facts(), None, ':').expect("module build");
    assert_eq!(c.args, vec!["build", "-x", "test"]);
    assert_eq!(c.workdir.as_deref(), Some(join_path(&repo, "api").as_str()));
}

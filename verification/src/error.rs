//! Business errors of the deployment flow, each carrying enough context to
//! print a concrete remedy.
use vstd::prelude::*;
use crate::text::{concat3, has_infix, occurs_at};

verus! {

/// Errors raised along the deployment flow.
///
/// Paths are carried as strings. `Context` stands for a failure that carries
/// only a message (an I/O step that failed, or a plain refusal).
#[derive(Debug, Clone)]
pub enum DeployError {
    WorkspaceNotEmpty { path: String },
    MissingGitUrl,
    MissingGitCredential,
    BranchNotFound { branch: String },
    MissingGitRemoteUrl,
    UnsupportedGitUrl { url: String },
    GitBaseUrlMismatch { url: String },
    MissingTool { program: String },
    ProjectMismatch { message: String },
    MissingModuleName,
    ModuleNotFound { module: String },
    CredentialFileMissing { path: String },
    CredentialFormat { message: String },
    PathOutsideWorkspace { path: String },
    JarNotFound { path: String },
    CommandFailed {
        stage: String,
        command: String,
        exit_code: Option<i32>,
        stderr_tail: Option<String>,
    },
    InvalidArgument { message: String },
    K8sConfigError { message: String },
    K8sRolloutTimeout { namespace: String, deployment: String, timeout: u64 },
    Context { message: String },
}

/// Mathematical model of [`DeployError`]: every text is a character sequence.
pub enum ErrorView {
    WorkspaceNotEmpty { path: Seq<char> },
    MissingGitUrl,
    MissingGitCredential,
    BranchNotFound { branch: Seq<char> },
    MissingGitRemoteUrl,
    UnsupportedGitUrl { url: Seq<char> },
    GitBaseUrlMismatch { url: Seq<char> },
    MissingTool { program: Seq<char> },
    ProjectMismatch { message: Seq<char> },
    MissingModuleName,
    ModuleNotFound { module: Seq<char> },
    CredentialFileMissing { path: Seq<char> },
    CredentialFormat { message: Seq<char> },
    PathOutsideWorkspace { path: Seq<char> },
    JarNotFound { path: Seq<char> },
    CommandFailed {
        stage: Seq<char>,
        command: Seq<char>,
        exit_code: Option<i32>,
        stderr_tail: Option<Seq<char>>,
    },
    InvalidArgument { message: Seq<char> },
    K8sConfigError { message: Seq<char> },
    K8sRolloutTimeout { namespace: Seq<char>, deployment: Seq<char>, timeout: u64 },
    Context { message: Seq<char> },
}

impl View for DeployError {
    type V = ErrorView;

    open spec fn view(&self) -> ErrorView {
        match self {
            DeployError::WorkspaceNotEmpty { path } => ErrorView::WorkspaceNotEmpty { path: path@ },
            DeployError::MissingGitUrl => ErrorView::MissingGitUrl,
            DeployError::MissingGitCredential => ErrorView::MissingGitCredential,
            DeployError::BranchNotFound { branch } => ErrorView::BranchNotFound { branch: branch@ },
            DeployError::MissingGitRemoteUrl => ErrorView::MissingGitRemoteUrl,
            DeployError::UnsupportedGitUrl { url } => ErrorView::UnsupportedGitUrl { url: url@ },
            DeployError::GitBaseUrlMismatch { url } => ErrorView::GitBaseUrlMismatch { url: url@ },
            DeployError::MissingTool { program } => ErrorView::MissingTool { program: program@ },
            DeployError::ProjectMismatch { message } => ErrorView::ProjectMismatch { message: message@ },
            DeployError::MissingModuleName => ErrorView::MissingModuleName,
            DeployError::ModuleNotFound { module } => ErrorView::ModuleNotFound { module: module@ },
            DeployError::CredentialFileMissing { path } => ErrorView::CredentialFileMissing { path: path@ },
            DeployError::CredentialFormat { message } => ErrorView::CredentialFormat { message: message@ },
            DeployError::PathOutsideWorkspace { path } => ErrorView::PathOutsideWorkspace { path: path@ },
            DeployError::JarNotFound { path } => ErrorView::JarNotFound { path: path@ },
            DeployError::CommandFailed { stage, command, exit_code, stderr_tail } => ErrorView::CommandFailed {
                stage: stage@,
                command: command@,
                exit_code: *exit_code,
                stderr_tail: stderr_tail.deep_view(),
            },
            DeployError::InvalidArgument { message } => ErrorView::InvalidArgument { message: message@ },
            DeployError::K8sConfigError { message } => ErrorView::K8sConfigError { message: message@ },
            DeployError::K8sRolloutTimeout { namespace, deployment, timeout } => ErrorView::K8sRolloutTimeout {
                namespace: namespace@,
                deployment: deployment@,
                timeout: *timeout,
            },
            DeployError::Context { message } => ErrorView::Context { message: message@ },
        }
    }
}

/// The model of a `Result` whose error is a [`DeployError`].
pub open spec fn outcome<T: View>(r: Result<T, DeployError>) -> Result<T::V, ErrorView> {
    match r {
        Ok(v) => Ok(v@),
        Err(e) => Err(e@),
    }
}

/// The model of a `Result<(), DeployError>`.
pub open spec fn unit_outcome(r: Result<(), DeployError>) -> Result<(), ErrorView> {
    match r {
        Ok(_) => Ok(()),
        Err(e) => Err(e@),
    }
}

/// The remedy printed under each kind of error.
pub open spec fn suggestion_text(e: ErrorView) -> Seq<char> {
    match e {
        ErrorView::WorkspaceNotEmpty { .. } => "如果确认可以重建部署工作目录，请追加 --force-clean 后重试。"@,
        ErrorView::MissingGitUrl => "首次克隆时请提供 --git-url；如果工作目录里已有仓库，可改用 --mode pull。"@,
        ErrorView::MissingGitCredential => "请在当前执行目录的 .deploy-sc.toml 中配置 [git] 的 base_url、username、password。"@,
        ErrorView::BranchNotFound { .. } => "请确认目标分支在远程 origin 上存在，或检查分支名是否输入错误。"@,
        ErrorView::MissingGitRemoteUrl => "请确认仓库已配置 origin 远程地址，或在 clone 模式下显式传入 --git-url。"@,
        ErrorView::UnsupportedGitUrl { .. } => "当前版本只支持 HTTP/HTTPS 协议的 Git 仓库地址，请改用 http://... 或 https://... 形式的仓库 URL。"@,
        ErrorView::GitBaseUrlMismatch { .. } => "请确认 --git-url 或 origin 地址与 .deploy-sc.toml 中的 git.base_url 属于同一 Git 服务。"@,
        ErrorView::MissingTool { program } => "请先在 PATH 中安装并验证 `"@ + program + "` 可执行，再重新运行部署。"@,
        ErrorView::ProjectMismatch { .. } => "请检查项目类型、Dockerfile、构建文件以及模块路径是否与参数一致。"@,
        ErrorView::MissingModuleName => "多模块 Java 项目必须通过 --module 指定要部署的模块。"@,
        ErrorView::ModuleNotFound { .. } => "请确认模块目录存在，且模块内包含 Dockerfile 与对应构建文件。"@,
        ErrorView::CredentialFileMissing { .. } => "请在执行命令的当前目录放置 .deploy-sc.toml，并配置 [git] 与 [registry] 所需字段。"@,
        ErrorView::CredentialFormat { .. } => "请检查 .deploy-sc.toml 字段名与值是否正确，password 与 token 二选一即可。"@,
        ErrorView::PathOutsideWorkspace { .. } => "请将 Dockerfile、模块目录和工作目录都限制在当前项目目录内。"@,
        ErrorView::JarNotFound { .. } => "请确认构建命令成功完成，且 Dockerfile 所需的可执行 JAR 已输出到 target/ 或 build/libs/。"@,
        ErrorView::CommandFailed { stage, .. } => "请根据 `"@ + stage + "` 阶段日志检查命令输出、环境依赖和凭证配置，再重新执行。"@,
        ErrorView::InvalidArgument { .. } => "请修正命令行参数后重试，可先使用 --help 查看完整参数说明。"@,
        ErrorView::K8sConfigError { .. } => "请检查 .deploy-sc.toml 中的 [k8s] 配置以及 kubeconfig 文件内容与集群可达性。"@,
        ErrorView::K8sRolloutTimeout { .. } => "请检查 Deployment 的 Pod 事件与日志，确认镜像可拉取、容器可启动，必要时调大 --k8s-timeout。"@,
        ErrorView::Context { .. } => Seq::empty(),
    }
}

/// Every business error comes with a remedy: only a bare `Context` failure
/// has an empty suggestion.
pub proof fn lemma_every_error_has_remedy(e: ErrorView)
    requires
        !(e is Context),
    ensures
        suggestion_text(e).len() > 0,
{
    match e {
        ErrorView::WorkspaceNotEmpty { .. } => { reveal_strlit("如果确认可以重建部署工作目录，请追加 --force-clean 后重试。"); },
        ErrorView::MissingGitUrl => { reveal_strlit("首次克隆时请提供 --git-url；如果工作目录里已有仓库，可改用 --mode pull。"); },
        ErrorView::MissingGitCredential => { reveal_strlit("请在当前执行目录的 .deploy-sc.toml 中配置 [git] 的 base_url、username、password。"); },
        ErrorView::BranchNotFound { .. } => { reveal_strlit("请确认目标分支在远程 origin 上存在，或检查分支名是否输入错误。"); },
        ErrorView::MissingGitRemoteUrl => { reveal_strlit("请确认仓库已配置 origin 远程地址，或在 clone 模式下显式传入 --git-url。"); },
        ErrorView::UnsupportedGitUrl { .. } => { reveal_strlit("当前版本只支持 HTTP/HTTPS 协议的 Git 仓库地址，请改用 http://... 或 https://... 形式的仓库 URL。"); },
        ErrorView::GitBaseUrlMismatch { .. } => { reveal_strlit("请确认 --git-url 或 origin 地址与 .deploy-sc.toml 中的 git.base_url 属于同一 Git 服务。"); },
        ErrorView::MissingTool { .. } => { reveal_strlit("请先在 PATH 中安装并验证 `"); },
        ErrorView::ProjectMismatch { .. } => { reveal_strlit("请检查项目类型、Dockerfile、构建文件以及模块路径是否与参数一致。"); },
        ErrorView::MissingModuleName => { reveal_strlit("多模块 Java 项目必须通过 --module 指定要部署的模块。"); },
        ErrorView::ModuleNotFound { .. } => { reveal_strlit("请确认模块目录存在，且模块内包含 Dockerfile 与对应构建文件。"); },
        ErrorView::CredentialFileMissing { .. } => { reveal_strlit("请在执行命令的当前目录放置 .deploy-sc.toml，并配置 [git] 与 [registry] 所需字段。"); },
        ErrorView::CredentialFormat { .. } => { reveal_strlit("请检查 .deploy-sc.toml 字段名与值是否正确，password 与 token 二选一即可。"); },
        ErrorView::PathOutsideWorkspace { .. } => { reveal_strlit("请将 Dockerfile、模块目录和工作目录都限制在当前项目目录内。"); },
        ErrorView::JarNotFound { .. } => { reveal_strlit("请确认构建命令成功完成，且 Dockerfile 所需的可执行 JAR 已输出到 target/ 或 build/libs/。"); },
        ErrorView::CommandFailed { .. } => { reveal_strlit("请根据 `"); },
        ErrorView::InvalidArgument { .. } => { reveal_strlit("请修正命令行参数后重试，可先使用 --help 查看完整参数说明。"); },
        ErrorView::K8sConfigError { .. } => { reveal_strlit("请检查 .deploy-sc.toml 中的 [k8s] 配置以及 kubeconfig 文件内容与集群可达性。"); },
        ErrorView::K8sRolloutTimeout { .. } => { reveal_strlit("请检查 Deployment 的 Pod 事件与日志，确认镜像可拉取、容器可启动，必要时调大 --k8s-timeout。"); },
        ErrorView::Context { .. } => {},
    }
}

/// What a remedy depends on: the kind of error, and for a missing tool the
/// program, for a failed command the stage.
pub open spec fn remedy_key(e: ErrorView) -> (int, Seq<char>) {
    match e {
        ErrorView::WorkspaceNotEmpty { .. } => (0, Seq::empty()),
        ErrorView::MissingGitUrl => (1, Seq::empty()),
        ErrorView::MissingGitCredential => (2, Seq::empty()),
        ErrorView::BranchNotFound { .. } => (3, Seq::empty()),
        ErrorView::MissingGitRemoteUrl => (4, Seq::empty()),
        ErrorView::UnsupportedGitUrl { .. } => (5, Seq::empty()),
        ErrorView::GitBaseUrlMismatch { .. } => (6, Seq::empty()),
        ErrorView::MissingTool { program } => (7, program),
        ErrorView::ProjectMismatch { .. } => (8, Seq::empty()),
        ErrorView::MissingModuleName => (9, Seq::empty()),
        ErrorView::ModuleNotFound { .. } => (10, Seq::empty()),
        ErrorView::CredentialFileMissing { .. } => (11, Seq::empty()),
        ErrorView::CredentialFormat { .. } => (12, Seq::empty()),
        ErrorView::PathOutsideWorkspace { .. } => (13, Seq::empty()),
        ErrorView::JarNotFound { .. } => (14, Seq::empty()),
        ErrorView::CommandFailed { stage, .. } => (15, stage),
        ErrorView::InvalidArgument { .. } => (16, Seq::empty()),
        ErrorView::K8sConfigError { .. } => (17, Seq::empty()),
        ErrorView::K8sRolloutTimeout { .. } => (18, Seq::empty()),
        ErrorView::Context { .. } => (19, Seq::empty()),
    }
}

/// Two errors of the same kind (with the same program, or the same stage,
/// where the remedy names one) get the same remedy, and that remedy is not
/// empty unless the error is a bare `Context` failure.
pub proof fn lemma_remedy_follows_kind(e1: ErrorView, e2: ErrorView)
    requires
        remedy_key(e1) == remedy_key(e2),
    ensures
        suggestion_text(e1) == suggestion_text(e2),
        !(e1 is Context) ==> suggestion_text(e1).len() > 0,
{
    if !(e1 is Context) {
        lemma_every_error_has_remedy(e1);
    }
}

/// The remedies name what to do: a non-empty work directory points at
/// `--force-clean`, a missing module at `--module`, and a failed command at
/// the log of its stage.
pub proof fn lemma_remedy_names_the_fix(path: Seq<char>, stage: Seq<char>, command: Seq<char>, exit_code: Option<i32>, stderr_tail: Option<Seq<char>>)
    ensures
        has_infix(suggestion_text(ErrorView::WorkspaceNotEmpty { path }), "--force-clean"@),
        has_infix(suggestion_text(ErrorView::MissingModuleName), "--module"@),
        suggestion_text(ErrorView::CommandFailed { stage, command, exit_code, stderr_tail })
            == "请根据 `"@ + stage + "` 阶段日志检查命令输出、环境依赖和凭证配置，再重新执行。"@,
{
    reveal_strlit("如果确认可以重建部署工作目录，请追加 --force-clean 后重试。");
    reveal_strlit("--force-clean");
    reveal_strlit("多模块 Java 项目必须通过 --module 指定要部署的模块。");
    reveal_strlit("--module");
    let w = suggestion_text(ErrorView::WorkspaceNotEmpty { path });
    assert(w.subrange(19, 32) =~= "--force-clean"@);
    assert(occurs_at(w, "--force-clean"@, 19));
    let m = suggestion_text(ErrorView::MissingModuleName);
    assert(m.subrange(16, 24) =~= "--module"@);
    assert(occurs_at(m, "--module"@, 16));
}

impl DeployError {
    /// The concrete remedy for this error; empty for a bare `Context` failure.
    pub fn suggestion(&self) -> (s: String)
        ensures
            s@ == suggestion_text(self@),
    {
        match self {
            DeployError::WorkspaceNotEmpty { .. } => String::from_str("如果确认可以重建部署工作目录，请追加 --force-clean 后重试。"),
            DeployError::MissingGitUrl => String::from_str("首次克隆时请提供 --git-url；如果工作目录里已有仓库，可改用 --mode pull。"),
            DeployError::MissingGitCredential => String::from_str("请在当前执行目录的 .deploy-sc.toml 中配置 [git] 的 base_url、username、password。"),
            DeployError::BranchNotFound { .. } => String::from_str("请确认目标分支在远程 origin 上存在，或检查分支名是否输入错误。"),
            DeployError::MissingGitRemoteUrl => String::from_str("请确认仓库已配置 origin 远程地址，或在 clone 模式下显式传入 --git-url。"),
            DeployError::UnsupportedGitUrl { .. } => String::from_str("当前版本只支持 HTTP/HTTPS 协议的 Git 仓库地址，请改用 http://... 或 https://... 形式的仓库 URL。"),
            DeployError::GitBaseUrlMismatch { .. } => String::from_str("请确认 --git-url 或 origin 地址与 .deploy-sc.toml 中的 git.base_url 属于同一 Git 服务。"),
            DeployError::MissingTool { program } => concat3("请先在 PATH 中安装并验证 `", program.as_str(), "` 可执行，再重新运行部署。"),
            DeployError::ProjectMismatch { .. } => String::from_str("请检查项目类型、Dockerfile、构建文件以及模块路径是否与参数一致。"),
            DeployError::MissingModuleName => String::from_str("多模块 Java 项目必须通过 --module 指定要部署的模块。"),
            DeployError::ModuleNotFound { .. } => String::from_str("请确认模块目录存在，且模块内包含 Dockerfile 与对应构建文件。"),
            DeployError::CredentialFileMissing { .. } => String::from_str("请在执行命令的当前目录放置 .deploy-sc.toml，并配置 [git] 与 [registry] 所需字段。"),
            DeployError::CredentialFormat { .. } => String::from_str("请检查 .deploy-sc.toml 字段名与值是否正确，password 与 token 二选一即可。"),
            DeployError::PathOutsideWorkspace { .. } => String::from_str("请将 Dockerfile、模块目录和工作目录都限制在当前项目目录内。"),
            DeployError::JarNotFound { .. } => String::from_str("请确认构建命令成功完成，且 Dockerfile 所需的可执行 JAR 已输出到 target/ 或 build/libs/。"),
            DeployError::CommandFailed { stage, .. } => concat3("请根据 `", stage.as_str(), "` 阶段日志检查命令输出、环境依赖和凭证配置，再重新执行。"),
            DeployError::InvalidArgument { .. } => String::from_str("请修正命令行参数后重试，可先使用 --help 查看完整参数说明。"),
            DeployError::K8sConfigError { .. } => String::from_str("请检查 .deploy-sc.toml 中的 [k8s] 配置以及 kubeconfig 文件内容与集群可达性。"),
            DeployError::K8sRolloutTimeout { .. } => String::from_str("请检查 Deployment 的 Pod 事件与日志，确认镜像可拉取、容器可启动，必要时调大 --k8s-timeout。"),
            DeployError::Context { .. } => String::new(),
        }
    }
}

} // verus!

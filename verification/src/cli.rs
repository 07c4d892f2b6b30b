//! The deployment request as given on the command line.
use vstd::prelude::*;

verus! {

/// Command-line arguments of one deployment run.
///
/// Every intent of the deployment is an explicit argument, so that nothing
/// has to be guessed while the run proceeds. Paths are plain strings.
#[derive(Debug, Clone)]
pub struct Cli {
    /// Git repository address, used to locate the deployed project.
    pub git_url: Option<String>,
    /// Target branch.
    pub branch: String,
    /// Project type; when given it wins over detection.
    pub project_type: Option<ProjectType>,
    /// Java project layout, single or multi module.
    pub java_layout: Option<JavaLayout>,
    /// Target module of a multi-module deployment.
    pub module: Option<String>,
    /// Java build tool.
    pub build_tool: BuildToolArg,
    /// JDK home used for Java packaging.
    pub java_home: Option<String>,
    /// Image repository, e.g. `registry.example.com/team/app`.
    pub image: String,
    /// Image tag; generated from branch, short commit and time when absent.
    pub tag: Option<String>,
    /// `--build-arg` values passed through to `docker build`.
    pub build_args: Vec<String>,
    /// How the source is obtained.
    pub mode: AcquireMode,
    /// Allow emptying a non-empty work directory before cloning.
    pub force_clean: bool,
    /// Root of the deployment workspace.
    pub workspace_dir: String,
    /// Skip the Kubernetes stage.
    pub skip_k8s: bool,
    /// Seconds to wait for a rollout to become ready.
    pub k8s_timeout: u64,
}

/// Supported project types.
#[derive(Debug, Clone, Copy, PartialEq, Eq, Structural)]
pub enum ProjectType {
    Web,
    Java,
}

/// Java project layout.
#[derive(Debug, Clone, Copy, PartialEq, Eq, Structural)]
pub enum JavaLayout {
    Single,
    Multi,
}

/// Java build tool choice.
#[derive(Debug, Clone, Copy, PartialEq, Eq, Structural)]
pub enum BuildToolArg {
    Auto,
    Maven,
    Gradle,
}

/// How the source code is obtained.
#[derive(Debug, Clone, Copy, PartialEq, Eq, Structural)]
pub enum AcquireMode {
    Auto,
    Clone,
    Pull,
}

} // verus!

//! The project configuration (`.deploy-sc.toml`) and its validation.
use vstd::prelude::*;
use crate::error::{DeployError, ErrorView, unit_outcome};
use crate::text::{blank, concat3, decimal, decimal_string, is_blank};

verus! {

/// Root of the project configuration.
#[derive(Debug, Clone)]
pub struct ProjectConfig {
    pub git: Option<GitConfig>,
    pub registry: Option<RegistryConfig>,
    pub k8s: Option<K8sConfig>,
}

/// Login settings of the Git service.
#[derive(Debug, Clone)]
pub struct GitConfig {
    pub base_url: String,
    pub username: String,
    pub password: String,
}

/// Login settings of the Docker registry.
#[derive(Debug, Clone)]
pub struct RegistryConfig {
    pub server: String,
    pub username: String,
    pub password: Option<String>,
    pub token: Option<String>,
}

/// Kubernetes deployment settings.
///
/// Two styles, one or the other: top-level `namespace` / `deployment` /
/// `container` for a single Deployment, or a `deployments` array whose
/// entries may name the module of a multi-module project.
#[derive(Debug, Clone)]
pub struct K8sConfig {
    pub kubeconfig: Option<String>,
    pub context: Option<String>,
    pub namespace: Option<String>,
    pub deployment: Option<String>,
    pub container: Option<String>,
    pub deployments: Vec<K8sDeploymentTarget>,
}

/// One Deployment to update.
#[derive(Debug, Clone)]
pub struct K8sDeploymentTarget {
    /// Module it belongs to (multi-module Java projects); none for other projects.
    pub module: Option<String>,
    pub namespace: String,
    pub deployment: String,
    /// Container name; the deployment name when absent.
    pub container: Option<String>,
}

pub struct GitConfigView {
    pub base_url: Seq<char>,
    pub username: Seq<char>,
    pub password: Seq<char>,
}

pub struct RegistryConfigView {
    pub server: Seq<char>,
    pub username: Seq<char>,
    pub password: Option<Seq<char>>,
    pub token: Option<Seq<char>>,
}

pub struct TargetView {
    pub module: Option<Seq<char>>,
    pub namespace: Seq<char>,
    pub deployment: Seq<char>,
    pub container: Option<Seq<char>>,
}

pub struct K8sConfigView {
    pub kubeconfig: Option<Seq<char>>,
    pub context: Option<Seq<char>>,
    pub namespace: Option<Seq<char>>,
    pub deployment: Option<Seq<char>>,
    pub container: Option<Seq<char>>,
    pub deployments: Seq<TargetView>,
}

pub struct ProjectConfigView {
    pub git: Option<GitConfigView>,
    pub registry: Option<RegistryConfigView>,
    pub k8s: Option<K8sConfigView>,
}

impl View for GitConfig {
    type V = GitConfigView;

    open spec fn view(&self) -> GitConfigView {
        GitConfigView { base_url: self.base_url@, username: self.username@, password: self.password@ }
    }
}

impl View for RegistryConfig {
    type V = RegistryConfigView;

    open spec fn view(&self) -> RegistryConfigView {
        RegistryConfigView {
            server: self.server@,
            username: self.username@,
            password: self.password.deep_view(),
            token: self.token.deep_view(),
        }
    }
}

impl View for K8sDeploymentTarget {
    type V = TargetView;

    open spec fn view(&self) -> TargetView {
        TargetView {
            module: self.module.deep_view(),
            namespace: self.namespace@,
            deployment: self.deployment@,
            container: self.container.deep_view(),
        }
    }
}

impl View for K8sConfig {
    type V = K8sConfigView;

    open spec fn view(&self) -> K8sConfigView {
        K8sConfigView {
            kubeconfig: self.kubeconfig.deep_view(),
            context: self.context.deep_view(),
            namespace: self.namespace.deep_view(),
            deployment: self.deployment.deep_view(),
            container: self.container.deep_view(),
            deployments: self.deployments@.map_values(|t: K8sDeploymentTarget| t@),
        }
    }
}

impl View for ProjectConfig {
    type V = ProjectConfigView;

    open spec fn view(&self) -> ProjectConfigView {
        ProjectConfigView {
            git: match self.git { Some(g) => Some(g@), None => None },
            registry: match self.registry { Some(r) => Some(r@), None => None },
            k8s: match self.k8s { Some(k) => Some(k@), None => None },
        }
    }
}

pub open spec fn format_error(message: Seq<char>) -> Result<(), ErrorView> {
    Err(ErrorView::CredentialFormat { message })
}

/// What validating a Git section gives: every field must hold a non-blank value.
pub open spec fn git_check(c: GitConfigView) -> Result<(), ErrorView> {
    if blank(c.base_url) {
        format_error("git.base_url 不能为空"@)
    } else if blank(c.username) {
        format_error("git.username 不能为空"@)
    } else if blank(c.password) {
        format_error("git.password 不能为空"@)
    } else {
        Ok(())
    }
}

/// A secret field is present when it is given and not blank.
pub open spec fn present(v: Option<Seq<char>>) -> bool {
    v is Some && !blank(v->0)
}

/// What validating a registry section gives: server and username must be
/// non-blank, and exactly one of password and token must be present.
pub open spec fn registry_check(c: RegistryConfigView) -> Result<(), ErrorView> {
    if blank(c.server) {
        format_error("registry.server 不能为空"@)
    } else if blank(c.username) {
        format_error("registry.username 不能为空"@)
    } else if present(c.password) == present(c.token) {
        format_error("registry.password 与 registry.token 必须二选一"@)
    } else {
        Ok(())
    }
}

/// The secret used to log in to the registry: a present token, else the
/// password, else whatever token is written.
pub open spec fn secret_of(r: RegistryConfigView) -> Seq<char> {
    if present(r.token) {
        r.token->0
    } else if r.password is Some {
        r.password->0
    } else {
        r.token->0
    }
}

/// The check of the `i`-th entry of `deployments`.
pub open spec fn target_check(t: TargetView, i: nat) -> Result<(), ErrorView> {
    if blank(t.namespace) {
        format_error("k8s.deployments["@ + decimal(i) + "].namespace 不能为空"@)
    } else if blank(t.deployment) {
        format_error("k8s.deployments["@ + decimal(i) + "].deployment 不能为空"@)
    } else {
        Ok(())
    }
}

/// The entries are checked in order; the first failing entry decides.
pub open spec fn targets_check(ts: Seq<TargetView>) -> Result<(), ErrorView>
    decreases ts.len(),
{
    if ts.len() == 0 {
        Ok(())
    } else {
        match targets_check(ts.drop_last()) {
            Ok(_) => target_check(ts.last(), (ts.len() - 1) as nat),
            Err(e) => Err(e),
        }
    }
}

pub open spec fn uses_top_level(c: K8sConfigView) -> bool {
    c.namespace is Some || c.deployment is Some
}

/// What validating a `[k8s]` section gives.
pub open spec fn k8s_check(c: K8sConfigView) -> Result<(), ErrorView> {
    let top = uses_top_level(c);
    let array = c.deployments.len() > 0;
    if c.kubeconfig is None || blank(c.kubeconfig->0) {
        format_error("k8s.kubeconfig 不能为空"@)
    } else if top && array {
        format_error("k8s 配置不能同时使用顶层 namespace/deployment 与数组 deployments，请二选一"@)
    } else if !top && !array {
        format_error("k8s 配置至少需要一个部署目标：顶层 namespace/deployment 或数组 deployments"@)
    } else if top && (c.deployment is None || blank(c.deployment->0)) {
        format_error("k8s.deployment 不能为空"@)
    } else {
        targets_check(c.deployments)
    }
}

/// Validation of a whole configuration: each present section in turn.
pub open spec fn project_check(c: ProjectConfigView) -> Result<(), ErrorView> {
    match (if c.git is Some { git_check(c.git->0) } else { Ok(()) }) {
        Err(e) => Err(e),
        Ok(_) => match (if c.registry is Some { registry_check(c.registry->0) } else { Ok(()) }) {
            Err(e) => Err(e),
            Ok(_) => if c.k8s is Some { k8s_check(c.k8s->0) } else { Ok(()) },
        },
    }
}

fn format_failure(message: &str) -> (e: DeployError)
    ensures
        e@ == (ErrorView::CredentialFormat { message: message@ }),
{
    DeployError::CredentialFormat { message: String::from_str(message) }
}

fn opt_blank(v: &Option<String>) -> (b: bool)
    ensures
        b == (v is None || blank(v->0@)),
{
    match v {
        Some(s) => is_blank(s.as_str()),
        None => true,
    }
}

fn opt_present(v: &Option<String>) -> (b: bool)
    ensures
        b == present(v.deep_view()),
{
    !opt_blank(v)
}

impl ProjectConfig {
    /// Checks the format of every present section; no section is required here.
    pub fn validate_syntax(&self) -> (r: Result<(), DeployError>)
        ensures
            unit_outcome(r) == project_check(self@),
    {
        if let Some(git) = &self.git {
            git.validate()?;
        }
        if let Some(registry) = &self.registry {
            registry.validate()?;
        }
        if let Some(k8s) = &self.k8s {
            k8s.validate()?;
        }
        Ok(())
    }

    /// The Git section, needed by stages that authenticate against Git.
    pub fn git(&self) -> (r: Result<&GitConfig, DeployError>)
        ensures
            match r {
                Ok(g) => self.git == Some(*g),
                Err(e) => self.git is None && e@ == ErrorView::MissingGitCredential,
            },
    {
        match &self.git {
            Some(g) => Ok(g),
            None => Err(DeployError::MissingGitCredential),
        }
    }

    /// The registry section, needed by the Docker push stage.
    pub fn registry(&self) -> (r: Result<&RegistryConfig, DeployError>)
        ensures
            match r {
                Ok(c) => self.registry == Some(*c),
                Err(e) => self.registry is None
                    && e@ == (ErrorView::CredentialFormat { message: "缺少 [registry] 配置"@ }),
            },
    {
        match &self.registry {
            Some(c) => Ok(c),
            None => Err(format_failure("缺少 [registry] 配置")),
        }
    }

    /// The Kubernetes section; absent means the Kubernetes stage is skipped.
    pub fn k8s(&self) -> (r: Option<&K8sConfig>)
        ensures
            match r {
                Some(k) => self.k8s == Some(*k),
                None => self.k8s is None,
            },
    {
        match &self.k8s {
            Some(k) => Some(k),
            None => None,
        }
    }
}

impl GitConfig {
    /// Checks the required Git fields.
    pub fn validate(&self) -> (r: Result<(), DeployError>)
        ensures
            unit_outcome(r) == git_check(self@),
    {
        if is_blank(self.base_url.as_str()) {
            return Err(format_failure("git.base_url 不能为空"));
        }
        if is_blank(self.username.as_str()) {
            return Err(format_failure("git.username 不能为空"));
        }
        if is_blank(self.password.as_str()) {
            return Err(format_failure("git.password 不能为空"));
        }
        Ok(())
    }
}

impl RegistryConfig {
    /// Checks the Docker login settings.
    pub fn validate(&self) -> (r: Result<(), DeployError>)
        ensures
            unit_outcome(r) == registry_check(self@),
    {
        if is_blank(self.server.as_str()) {
            return Err(format_failure("registry.server 不能为空"));
        }
        if is_blank(self.username.as_str()) {
            return Err(format_failure("registry.username 不能为空"));
        }
        let has_password = opt_present(&self.password);
        let has_token = opt_present(&self.token);
        if has_password == has_token {
            return Err(format_failure("registry.password 与 registry.token 必须二选一"));
        }
        Ok(())
    }

    /// The secret written to `docker login --password-stdin`: the token when
    /// it is present (given and not blank), else the password; a blank token
    /// is handed on only when no password is given at all.
    pub fn registry_secret(&self) -> (s: &str)
        requires
            self.token is Some || self.password is Some,
        ensures
            s@ == secret_of(self@),
    {
        if opt_present(&self.token) {
            match &self.token {
                Some(t) => t.as_str(),
                None => { proof { assert(false); } "" },
            }
        } else {
            match &self.password {
                Some(p) => p.as_str(),
                None => match &self.token {
                    Some(t) => t.as_str(),
                    None => { proof { assert(false); } "" },
                },
            }
        }
    }
}

impl K8sConfig {
    /// Checks the Kubernetes settings: a kubeconfig, and one style of target.
    pub fn validate(&self) -> (r: Result<(), DeployError>)
        ensures
            unit_outcome(r) == k8s_check(self@),
    {
        if opt_blank(&self.kubeconfig) {
            return Err(format_failure("k8s.kubeconfig 不能为空"));
        }
        let has_top_level = self.namespace.is_some() || self.deployment.is_some();
        let has_array = self.deployments.len() > 0;
        if has_top_level && has_array {
            return Err(format_failure("k8s 配置不能同时使用顶层 namespace/deployment 与数组 deployments，请二选一"));
        }
        if !has_top_level && !has_array {
            return Err(format_failure("k8s 配置至少需要一个部署目标：顶层 namespace/deployment 或数组 deployments"));
        }
        if has_top_level && opt_blank(&self.deployment) {
            return Err(format_failure("k8s.deployment 不能为空"));
        }
        let ghost ts = self@.deployments;
        let mut i: usize = 0;
        while i < self.deployments.len()
            invariant
                i <= self.deployments.len(),
                ts == self@.deployments,
                ts.len() == self.deployments.len(),
                k8s_check(self@) == targets_check(ts),
                targets_check(ts.take(i as int)) == Ok::<(), ErrorView>(()),
            decreases self.deployments.len() - i,
        {
            let target = &self.deployments[i];
            proof {
                assert(ts.take(i + 1).drop_last() =~= ts.take(i as int));
                assert(ts[i as int] == target@);
            }
            if is_blank(target.namespace.as_str()) {
                let index = decimal_string(i as u64);
                let message = concat3("k8s.deployments[", index.as_str(), "].namespace 不能为空");
                proof { lemma_first_failure(ts, i as nat); }
                return Err(DeployError::CredentialFormat { message });
            }
            if is_blank(target.deployment.as_str()) {
                let index = decimal_string(i as u64);
                let message = concat3("k8s.deployments[", index.as_str(), "].deployment 不能为空");
                proof { lemma_first_failure(ts, i as nat); }
                return Err(DeployError::CredentialFormat { message });
            }
            i = i + 1;
        }
        proof { assert(ts.take(ts.len() as int) =~= ts); }
        Ok(())
    }
}

/// When all entries before `i` pass and entry `i` fails, the whole list fails
/// with the error of entry `i`.
proof fn lemma_first_failure(ts: Seq<TargetView>, i: nat)
    requires
        i < ts.len(),
        targets_check(ts.take(i as int)) == Ok::<(), ErrorView>(()),
        target_check(ts[i as int], i) is Err,
    ensures
        targets_check(ts) == target_check(ts[i as int], i),
    decreases ts.len() - i,
{
    let n = ts.len();
    if i + 1 == n {
        assert(ts.drop_last() =~= ts.take(i as int));
    } else {
        let shorter = ts.drop_last();
        assert(shorter.take(i as int) =~= ts.take(i as int));
        lemma_first_failure(shorter, i);
        assert(shorter[i as int] == ts[i as int]);
    }
}

} // verus!

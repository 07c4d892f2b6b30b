//! Kubernetes stage: which Deployments to update, and when a rollout is done.
use vstd::prelude::*;
use crate::config::{K8sConfig, K8sConfigView, K8sDeploymentTarget, ProjectConfig, ProjectConfigView, TargetView, k8s_check, target_check, targets_check};
use crate::text::blank;
use crate::context::{ProjectSpec, ProjectSpecView};
use crate::error::{DeployError, ErrorView, unit_outcome};
use crate::text::concat2;

verus! {

fn copy_text(s: &Option<String>) -> (r: Option<String>)
    ensures
        r.deep_view() == s.deep_view(),
{
    match s {
        Some(t) => Some(t.clone()),
        None => None,
    }
}

impl K8sDeploymentTarget {
    /// A copy of this target.
    pub fn duplicate(&self) -> (t: K8sDeploymentTarget)
        ensures
            t@ == self@,
    {
        K8sDeploymentTarget {
            module: copy_text(&self.module),
            namespace: self.namespace.clone(),
            deployment: self.deployment.clone(),
            container: copy_text(&self.container),
        }
    }
}

/// Whether a `deployments` entry belongs to the project: a multi-module
/// project takes the entries of its module, any other project the entries
/// without a module.
pub open spec fn target_matches(t: TargetView, module: Option<Seq<char>>) -> bool {
    match module {
        Some(m) => t.module == Some(m),
        None => t.module is None,
    }
}

/// The entries of `ts` that belong to the project, in order.
pub open spec fn matching_targets(ts: Seq<TargetView>, module: Option<Seq<char>>) -> Seq<TargetView>
    decreases ts.len(),
{
    if ts.len() == 0 {
        Seq::empty()
    } else {
        let p = matching_targets(ts.drop_last(), module);
        if target_matches(ts.last(), module) { p.push(ts.last()) } else { p }
    }
}

/// The Deployments to update: the matching `deployments` entries when that
/// list is used, else the top-level target when namespace and deployment are
/// both given, else none.
pub open spec fn targets_for(c: K8sConfigView, module: Option<Seq<char>>) -> Seq<TargetView> {
    if c.deployments.len() > 0 {
        matching_targets(c.deployments, module)
    } else if c.namespace is Some && c.deployment is Some {
        seq![TargetView {
            module: None,
            namespace: c.namespace->0,
            deployment: c.deployment->0,
            container: c.container,
        }]
    } else {
        Seq::empty()
    }
}

pub open spec fn target_views(v: Seq<K8sDeploymentTarget>) -> Seq<TargetView> {
    v.map_values(|t: K8sDeploymentTarget| t@)
}

/// Works out the Deployments to update for the project.
pub fn resolve_targets(config: &K8sConfig, project_spec: &ProjectSpec) -> (r: Vec<K8sDeploymentTarget>)
    ensures
        target_views(r@) == targets_for(config@, project_spec@.module_name),
{
    let ghost module = project_spec@.module_name;
    if config.deployments.len() > 0 {
        let ghost ts = config@.deployments;
        let mut out: Vec<K8sDeploymentTarget> = Vec::new();
        let mut i: usize = 0;
        assert(ts.take(0) =~= Seq::<TargetView>::empty());
        while i < config.deployments.len()
            invariant
                ts == config@.deployments,
                ts.len() == config.deployments.len(),
                module == project_spec@.module_name,
                i <= config.deployments.len(),
                target_views(out@) == matching_targets(ts.take(i as int), module),
            decreases config.deployments.len() - i,
        {
            let target = &config.deployments[i];
            proof {
                assert(ts.take(i + 1).drop_last() =~= ts.take(i as int));
                assert(ts[i as int] == target@);
            }
            let matches = match &project_spec.module_name {
                Some(m) => match &target.module {
                    Some(tm) => *tm == *m,
                    None => false,
                },
                None => target.module.is_none(),
            };
            if matches {
                let ghost before = target_views(out@);
                out.push(target.duplicate());
                assert(target_views(out@) =~= before.push(target@));
            }
            i = i + 1;
        }
        assert(ts.take(config.deployments.len() as int) =~= ts);
        return out;
    }
    let mut targets: Vec<K8sDeploymentTarget> = Vec::new();
    if let (Some(namespace), Some(deployment)) = (&config.namespace, &config.deployment) {
        targets.push(K8sDeploymentTarget {
            module: None,
            namespace: namespace.clone(),
            deployment: deployment.clone(),
            container: copy_text(&config.container),
        });
    }
    assert(target_views(targets@) =~= targets_for(config@, module));
    targets
}

/// The container whose image is replaced: the named one, else the one named
/// like the Deployment.
pub open spec fn container_of(t: TargetView) -> Seq<char> {
    match t.container {
        Some(c) => c,
        None => t.deployment,
    }
}

/// The container to update in a target.
pub fn container_name(target: &K8sDeploymentTarget) -> (s: String)
    ensures
        s@ == container_of(target@),
{
    match &target.container {
        Some(c) => c.clone(),
        None => target.deployment.clone(),
    }
}

/// What the Kubernetes stage will do.
#[derive(Debug)]
pub enum DeployPlan {
    /// Nothing to update, for the reason given.
    Skip(String),
    /// Update each target's container with the image, using this kubeconfig.
    Update { kubeconfig: String, context: Option<String>, targets: Vec<K8sDeploymentTarget> },
}

pub enum DeployPlanView {
    Skip(Seq<char>),
    Update { kubeconfig: Seq<char>, context: Option<Seq<char>>, targets: Seq<TargetView> },
}

impl View for DeployPlan {
    type V = DeployPlanView;

    open spec fn view(&self) -> DeployPlanView {
        match self {
            DeployPlan::Skip(r) => DeployPlanView::Skip(r@),
            DeployPlan::Update { kubeconfig, context, targets } => DeployPlanView::Update {
                kubeconfig: kubeconfig@,
                context: context.deep_view(),
                targets: target_views(targets@),
            },
        }
    }
}

/// The Kubernetes stage: skipped without a `[k8s]` section, with
/// `--skip-k8s`, or when no target matches; otherwise every matching target
/// is updated through the configured kubeconfig.
pub open spec fn deploy_plan(config: ProjectConfigView, skip_k8s: bool, spec: ProjectSpecView) -> Result<DeployPlanView, ErrorView> {
    match config.k8s {
        None => Ok(DeployPlanView::Skip("未配置 [k8s]，跳过 K8s 部署"@)),
        Some(k) => if skip_k8s {
            Ok(DeployPlanView::Skip("--skip-k8s 已设置，跳过 K8s 部署"@))
        } else if targets_for(k, spec.module_name).len() == 0 {
            Ok(DeployPlanView::Skip("未匹配到部署目标，跳过 K8s 部署"@))
        } else {
            match k.kubeconfig {
                None => Err(ErrorView::Context { message: "k8s.kubeconfig 未配置"@ }),
                Some(path) => Ok(DeployPlanView::Update {
                    kubeconfig: path,
                    context: k.context,
                    targets: targets_for(k, spec.module_name),
                }),
            }
        },
    }
}

pub open spec fn plan_outcome(r: Result<DeployPlan, DeployError>) -> Result<DeployPlanView, ErrorView> {
    match r {
        Ok(p) => Ok(p@),
        Err(e) => Err(e@),
    }
}

/// Decides what the Kubernetes stage does for this project.
pub fn plan_deployment(project_config: &ProjectConfig, skip_k8s: bool, project_spec: &ProjectSpec) -> (r: Result<DeployPlan, DeployError>)
    ensures
        plan_outcome(r) == deploy_plan(project_config@, skip_k8s, project_spec@),
{
    let k8s_config = match project_config.k8s() {
        Some(cfg) => cfg,
        None => return Ok(DeployPlan::Skip(String::from_str("未配置 [k8s]，跳过 K8s 部署"))),
    };
    if skip_k8s {
        return Ok(DeployPlan::Skip(String::from_str("--skip-k8s 已设置，跳过 K8s 部署")));
    }
    let targets = resolve_targets(k8s_config, project_spec);
    if targets.len() == 0 {
        return Ok(DeployPlan::Skip(String::from_str("未匹配到部署目标，跳过 K8s 部署")));
    }
    match &k8s_config.kubeconfig {
        None => Err(DeployError::Context { message: String::from_str("k8s.kubeconfig 未配置") }),
        Some(path) => Ok(DeployPlan::Update { kubeconfig: path.clone(), context: copy_text(&k8s_config.context), targets }),
    }
}

/// The kubeconfig file must exist before a client is built from it.
pub open spec fn kubeconfig_check(path: Seq<char>, is_file: bool) -> Result<(), ErrorView> {
    if is_file {
        Ok(())
    } else {
        Err(ErrorView::K8sConfigError { message: "kubeconfig 文件不存在："@ + path })
    }
}

/// Checks that the kubeconfig file exists.
pub fn check_kubeconfig_file(path: &str, is_file: bool) -> (r: Result<(), DeployError>)
    ensures
        unit_outcome(r) == kubeconfig_check(path@, is_file),
{
    if is_file {
        Ok(())
    } else {
        Err(DeployError::K8sConfigError { message: concat2("kubeconfig 文件不存在：", path) })
    }
}

/// A Deployment's rollout state, read from its metadata, spec and status.
pub struct RolloutCheck {
    pub ready: bool,
    pub replicas: i32,
    pub updated: i32,
    pub available: i32,
}

/// A rollout is ready, as `kubectl rollout status` judges it, when the
/// controller has observed the latest generation and the updated and
/// available replicas both reach the desired count (one when unset; missing
/// counters are zero).
pub open spec fn rollout_ready(
    generation: Option<i64>,
    observed: Option<i64>,
    replicas: Option<i32>,
    updated: Option<i32>,
    available: Option<i32>,
) -> bool {
    let g = match generation { Some(x) => x, None => 0 };
    let o = match observed { Some(x) => x, None => 0 };
    let r = match replicas { Some(x) => x, None => 1 };
    let u = match updated { Some(x) => x, None => 0 };
    let a = match available { Some(x) => x, None => 0 };
    o >= g && u >= r && a >= r
}

/// Evaluates a Deployment's rollout from its counters.
pub fn check_rollout(
    generation: Option<i64>,
    observed: Option<i64>,
    replicas: Option<i32>,
    updated: Option<i32>,
    available: Option<i32>,
) -> (c: RolloutCheck)
    ensures
        c.ready == rollout_ready(generation, observed, replicas, updated, available),
        c.replicas == (match replicas { Some(x) => x, None => 1 }),
        c.updated == (match updated { Some(x) => x, None => 0 }),
        c.available == (match available { Some(x) => x, None => 0 }),
{
    let g = match generation { Some(x) => x, None => 0 };
    let o = match observed { Some(x) => x, None => 0 };
    let r = match replicas { Some(x) => x, None => 1 };
    let u = match updated { Some(x) => x, None => 0 };
    let a = match available { Some(x) => x, None => 0 };
    RolloutCheck { ready: o >= g && u >= r && a >= r, replicas: r, updated: u, available: a }
}

/// Where a rollout stands at one poll.
pub enum RolloutProgress {
    /// The Deployment reports no status yet: poll again.
    AwaitingStatus,
    /// Not ready yet: poll again, reporting these counters.
    Updating(RolloutCheck),
    /// The rollout is done.
    Ready,
}

/// Judges one poll of a rollout: without a status keep waiting; with one,
/// done when [`rollout_ready`] holds, else still updating with the counters
/// to report.
pub fn rollout_progress(
    has_status: bool,
    generation: Option<i64>,
    observed: Option<i64>,
    replicas: Option<i32>,
    updated: Option<i32>,
    available: Option<i32>,
) -> (p: RolloutProgress)
    ensures
        !has_status ==> p is AwaitingStatus,
        has_status && rollout_ready(generation, observed, replicas, updated, available) ==> p is Ready,
        has_status && !rollout_ready(generation, observed, replicas, updated, available) ==> (p matches RolloutProgress::Updating(c)
            && !c.ready
            && c.replicas == (match replicas { Some(x) => x, None => 1 })
            && c.updated == (match updated { Some(x) => x, None => 0 })
            && c.available == (match available { Some(x) => x, None => 0 })),
{
    if !has_status {
        return RolloutProgress::AwaitingStatus;
    }
    let check = check_rollout(generation, observed, replicas, updated, available);
    if check.ready {
        RolloutProgress::Ready
    } else {
        RolloutProgress::Updating(check)
    }
}

/// The failure of a rollout that did not become ready in time.
pub fn rollout_timeout(target: &K8sDeploymentTarget, timeout_secs: u64) -> (e: DeployError)
    ensures
        e@ == (ErrorView::K8sRolloutTimeout {
            namespace: target@.namespace,
            deployment: target@.deployment,
            timeout: timeout_secs,
        }),
{
    DeployError::K8sRolloutTimeout {
        namespace: target.namespace.clone(),
        deployment: target.deployment.clone(),
        timeout: timeout_secs,
    }
}

// ---------------------------------------------------------------------------
// Laws of target resolution
// ---------------------------------------------------------------------------

/// Resolution from a `deployments` list keeps exactly the entries of the
/// project, in their order: each kept entry matches, and each matching entry
/// is kept.
pub proof fn lemma_matching_targets_filter(ts: Seq<TargetView>, module: Option<Seq<char>>)
    ensures
        matching_targets(ts, module).len() <= ts.len(),
        forall|i: int| 0 <= i < matching_targets(ts, module).len()
            ==> target_matches(#[trigger] matching_targets(ts, module)[i], module) && ts.contains(matching_targets(ts, module)[i]),
        forall|i: int| 0 <= i < ts.len() && target_matches(#[trigger] ts[i], module)
            ==> matching_targets(ts, module).contains(ts[i]),
    decreases ts.len(),
{
    if ts.len() > 0 {
        let init = ts.drop_last();
        lemma_matching_targets_filter(init, module);
        let p = matching_targets(init, module);
        let r = matching_targets(ts, module);
        assert forall|i: int| 0 <= i < r.len() implies target_matches(#[trigger] r[i], module) && ts.contains(r[i]) by {
            if i < p.len() {
                assert(r[i] == p[i]);
                let j = choose|j: int| 0 <= j < init.len() && init[j] == p[i];
                assert(ts[j] == init[j]);
            } else {
                assert(r[i] == ts.last());
                assert(ts[ts.len() - 1] == ts.last());
            }
        }
        assert forall|i: int| 0 <= i < ts.len() && target_matches(#[trigger] ts[i], module) implies r.contains(ts[i]) by {
            if i < ts.len() - 1 {
                assert(init[i] == ts[i]);
                let j = choose|j: int| 0 <= j < p.len() && p[j] == init[i];
                if target_matches(ts.last(), module) {
                    assert(r[j] == p[j]);
                }
            } else {
                assert(r[r.len() - 1] == ts.last());
            }
        }
    }
}

proof fn lemma_checked_targets_named(ts: Seq<TargetView>)
    requires
        targets_check(ts) is Ok,
    ensures
        forall|i: int| 0 <= i < ts.len() ==> !blank(#[trigger] ts[i].namespace) && !blank(ts[i].deployment),
    decreases ts.len(),
{
    if ts.len() > 0 {
        lemma_checked_targets_named(ts.drop_last());
        assert(target_check(ts.last(), (ts.len() - 1) as nat) is Ok);
        assert forall|i: int| 0 <= i < ts.len() implies !blank(#[trigger] ts[i].namespace) && !blank(ts[i].deployment) by {
            if i < ts.len() - 1 {
                assert(ts.drop_last()[i] == ts[i]);
            }
        }
    }
}

/// Every Deployment resolved from a validated `[k8s]` section is named (its
/// deployment is not blank), and an entry of a `deployments` list also has a
/// namespace that is not blank.
pub proof fn lemma_validated_targets_named(c: K8sConfigView, module: Option<Seq<char>>)
    requires
        k8s_check(c) is Ok,
    ensures
        forall|i: int| 0 <= i < targets_for(c, module).len() ==> !blank(#[trigger] targets_for(c, module)[i].deployment),
        c.deployments.len() > 0 ==> forall|i: int| 0 <= i < targets_for(c, module).len()
            ==> !blank(#[trigger] targets_for(c, module)[i].namespace),
{
    let r = targets_for(c, module);
    if c.deployments.len() > 0 {
        lemma_checked_targets_named(c.deployments);
        lemma_matching_targets_filter(c.deployments, module);
        assert forall|i: int| 0 <= i < r.len() implies !blank(#[trigger] r[i].deployment) && !blank(r[i].namespace) by {
            assert(c.deployments.contains(r[i]));
            let j = choose|j: int| 0 <= j < c.deployments.len() && c.deployments[j] == r[i];
            assert(!blank(c.deployments[j].namespace));
        }
    }
}

/// A rollout is judged ready exactly when the controller has caught up with
/// the latest generation and the desired number of replicas (one when unset)
/// is both updated and available (missing counters count as zero): in
/// particular, never while fewer replicas are available than desired.
pub proof fn lemma_rollout_ready_iff_caught_up(
    generation: Option<i64>,
    observed: Option<i64>,
    replicas: Option<i32>,
    updated: Option<i32>,
    available: Option<i32>,
)
    ensures
        rollout_ready(generation, observed, replicas, updated, available) <==> {
            let want: int = if replicas is Some { replicas->0 as int } else { 1 };
            &&& (if observed is Some { observed->0 as int } else { 0 }) >= (if generation is Some { generation->0 as int } else { 0 })
            &&& (if updated is Some { updated->0 as int } else { 0 }) >= want
            &&& (if available is Some { available->0 as int } else { 0 }) >= want
        },
        rollout_ready(generation, observed, replicas, updated, available)
            ==> (if available is Some { available->0 as int } else { 0 }) >= (if replicas is Some { replicas->0 as int } else { 1 }),
{
}

/// Resolution takes, from a `deployments` list, exactly the entries whose
/// module is the project's module (no module for a project without one);
/// without a list, the one top-level target when both namespace and
/// deployment are given, carrying no module.
pub proof fn lemma_targets_of_the_module(c: K8sConfigView, module: Option<Seq<char>>)
    ensures
        c.deployments.len() > 0 ==> {
            &&& forall|i: int| 0 <= i < targets_for(c, module).len() ==> (#[trigger] targets_for(c, module)[i]).module == module
            &&& forall|i: int| 0 <= i < c.deployments.len() && (#[trigger] c.deployments[i]).module == module
                ==> targets_for(c, module).contains(c.deployments[i])
        },
        c.deployments.len() == 0 ==> (
            if c.namespace is Some && c.deployment is Some {
                targets_for(c, module).len() == 1
                    && targets_for(c, module)[0].module is None
                    && targets_for(c, module)[0].namespace == c.namespace->0
                    && targets_for(c, module)[0].deployment == c.deployment->0
                    && targets_for(c, module)[0].container == c.container
            } else {
                targets_for(c, module).len() == 0
            }
        ),
{
    if c.deployments.len() > 0 {
        lemma_matching_targets_filter(c.deployments, module);
        let r = targets_for(c, module);
        assert forall|i: int| 0 <= i < r.len() implies (#[trigger] r[i]).module == module by {
            assert(target_matches(r[i], module));
        }
        assert forall|i: int| 0 <= i < c.deployments.len() && (#[trigger] c.deployments[i]).module == module
            implies r.contains(c.deployments[i]) by {
            assert(target_matches(c.deployments[i], module));
        }
    }
}

} // verus!

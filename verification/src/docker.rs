//! Docker commands: build, login, push and removal of the image, all with
//! the Docker client configuration kept inside the work directory.
use vstd::prelude::*;
use crate::config::{RegistryConfig, RegistryConfigView, registry_check, secret_of};
use crate::text::blank;
use crate::context::{ImageMetadata, ProjectSpec, RunContext, ensure_within, within_check};
use crate::error::{DeployError, ErrorView, unit_outcome};
use crate::process::{CommandSpec, CommandView, path_to_string};
use crate::text::{concat5, views};

verus! {

/// A `docker` command run from the start directory with the isolated
/// client configuration.
pub open spec fn docker_view(ctx: RunContext, stage: Seq<char>, args: Seq<Seq<char>>, display: Option<Seq<char>>, stdin_text: Option<Seq<char>>) -> CommandView {
    CommandView {
        stage,
        program: "docker"@,
        args,
        display_override: display,
        workdir: Some(ctx.base_dir@),
        envs: seq![("DOCKER_CONFIG"@, ctx.docker_config_dir@)],
        stdin_text,
    }
}

fn docker_command(ctx: &RunContext, stage: &'static str, args: Vec<String>, display: Option<String>, stdin_text: Option<String>) -> (c: CommandSpec)
    ensures
        c@ == docker_view(*ctx, stage@, views(args@), display.deep_view(), stdin_text.deep_view()),
{
    let envs = vec![(String::from_str("DOCKER_CONFIG"), path_to_string(ctx.docker_config_dir.as_str()))];
    let c = CommandSpec {
        stage,
        program: String::from_str("docker"),
        args,
        display_override: display,
        workdir: Some(ctx.base_dir.clone()),
        envs,
        stdin_text,
    };
    assert(c@.envs =~= seq![("DOCKER_CONFIG"@, ctx.docker_config_dir@)]);
    c
}

/// `--build-arg <value>` for each value, in order.
pub open spec fn build_arg_flags(values: Seq<Seq<char>>) -> Seq<Seq<char>>
    decreases values.len(),
{
    if values.len() == 0 {
        Seq::empty()
    } else {
        build_arg_flags(values.drop_last()) + seq!["--build-arg"@, values.last()]
    }
}

/// `docker build -f <Dockerfile> -t <image> [--build-arg ...] <context>`.
pub open spec fn build_image_view(ctx: RunContext, dockerfile: Seq<char>, context_dir: Seq<char>, full_name: Seq<char>) -> CommandView {
    docker_view(
        ctx,
        "BuildImage"@,
        seq!["build"@, "-f"@, dockerfile, "-t"@, full_name] + build_arg_flags(views(ctx.cli.build_args@)) + seq![context_dir],
        None,
        None,
    )
}

/// The `docker build` command of the image.
pub fn build_image_command(ctx: &RunContext, spec: &ProjectSpec, image: &ImageMetadata) -> (c: CommandSpec)
    ensures
        c@ == build_image_view(*ctx, spec.dockerfile_path@, spec.build_context_dir@, image.full_name@),
{
    let mut args = vec![
        String::from_str("build"),
        String::from_str("-f"),
        path_to_string(spec.dockerfile_path.as_str()),
        String::from_str("-t"),
        image.full_name.clone(),
    ];
    let ghost head = views(args@);
    assert(head =~= seq!["build"@, "-f"@, spec.dockerfile_path@, "-t"@, image.full_name@]);
    let ghost values = views(ctx.cli.build_args@);
    let mut i: usize = 0;
    assert(values.take(0) =~= Seq::<Seq<char>>::empty());
    assert(head + build_arg_flags(values.take(0)) =~= head);
    while i < ctx.cli.build_args.len()
        invariant
            values == views(ctx.cli.build_args@),
            i <= ctx.cli.build_args.len(),
            views(args@) == head + build_arg_flags(values.take(i as int)),
        decreases ctx.cli.build_args.len() - i,
    {
        proof {
            assert(values.take(i + 1).drop_last() =~= values.take(i as int));
            assert(values[i as int] == ctx.cli.build_args@[i as int]@);
        }
        let ghost before = views(args@);
        args.push(String::from_str("--build-arg"));
        args.push(ctx.cli.build_args[i].clone());
        assert(views(args@) =~= before + seq!["--build-arg"@, values[i as int]]);
        i = i + 1;
    }
    assert(values.take(ctx.cli.build_args.len() as int) =~= values);
    let ghost before = views(args@);
    args.push(path_to_string(spec.build_context_dir.as_str()));
    assert(views(args@) =~= before + seq![spec.build_context_dir@]);
    docker_command(ctx, "BuildImage", args, None, None)
}

/// Before building, the Dockerfile and the build context must both lie
/// inside the start directory.
pub open spec fn build_paths_check(ctx: RunContext, spec: crate::context::ProjectSpecView) -> Result<(), ErrorView> {
    match within_check(ctx.base_dir@, spec.dockerfile_path) {
        Err(e) => Err(e),
        Ok(_) => within_check(ctx.base_dir@, spec.build_context_dir),
    }
}

/// Checks that the Dockerfile and the build context stay inside the start directory.
pub fn check_build_paths(ctx: &RunContext, spec: &ProjectSpec) -> (r: Result<(), DeployError>)
    ensures
        unit_outcome(r) == build_paths_check(*ctx, spec@),
{
    ensure_within(ctx.base_dir.as_str(), spec.dockerfile_path.as_str())?;
    ensure_within(ctx.base_dir.as_str(), spec.build_context_dir.as_str())
}

/// `docker login <server> --username <user> --password-stdin`, the secret
/// written to its standard input and never shown.
pub open spec fn login_view(ctx: RunContext, r: RegistryConfigView) -> CommandView {
    docker_view(
        ctx,
        "DockerLogin"@,
        seq!["login"@, r.server, "--username"@, r.username, "--password-stdin"@],
        Some("docker login "@ + r.server + " --username "@ + r.username + " --password-stdin"@),
        Some(secret_of(r)),
    )
}

/// The `docker login` command for the registry.
pub fn login_command(ctx: &RunContext, registry: &RegistryConfig) -> (c: CommandSpec)
    requires
        registry.token is Some || registry.password is Some,
    ensures
        c@ == login_view(*ctx, registry@),
{
    let args = vec![
        String::from_str("login"),
        registry.server.clone(),
        String::from_str("--username"),
        registry.username.clone(),
        String::from_str("--password-stdin"),
    ];
    assert(views(args@) =~= seq!["login"@, registry@.server, "--username"@, registry@.username, "--password-stdin"@]);
    let display = concat5("docker login ", registry.server.as_str(), " --username ", registry.username.as_str(), " --password-stdin");
    let secret = String::from_str(registry.registry_secret());
    docker_command(ctx, "DockerLogin", args, Some(display), Some(secret))
}

/// `docker push <image>`.
pub open spec fn push_view(ctx: RunContext, full_name: Seq<char>) -> CommandView {
    docker_view(ctx, "PushImage"@, seq!["push"@, full_name], None, None)
}

/// The command pushing the image to its registry.
pub fn push_image_command(ctx: &RunContext, image: &ImageMetadata) -> (c: CommandSpec)
    ensures
        c@ == push_view(*ctx, image.full_name@),
{
    let args = vec![String::from_str("push"), image.full_name.clone()];
    assert(views(args@) =~= seq!["push"@, image.full_name@]);
    docker_command(ctx, "PushImage", args, None, None)
}

/// `docker rmi <image>`.
pub open spec fn remove_view(ctx: RunContext, full_name: Seq<char>) -> CommandView {
    docker_view(ctx, "RemoveImage"@, seq!["rmi"@, full_name], None, None)
}

/// The command removing the local image to free disk space.
pub fn remove_image_command(ctx: &RunContext, image: &ImageMetadata) -> (c: CommandSpec)
    ensures
        c@ == remove_view(*ctx, image.full_name@),
{
    let args = vec![String::from_str("rmi"), image.full_name.clone()];
    assert(views(args@) =~= seq!["rmi"@, image.full_name@]);
    docker_command(ctx, "RemoveImage", args, None, None)
}

// ---------------------------------------------------------------------------
// Laws of the Docker commands
// ---------------------------------------------------------------------------

/// A registry section that passes validation always names a secret, so the
/// login command can be built for it, and that secret is not blank.
pub proof fn lemma_validated_registry_has_secret(r: RegistryConfigView)
    requires
        registry_check(r) is Ok,
    ensures
        r.token is Some || r.password is Some,
        !blank(secret_of(r)),
{
}

/// The registry secret reaches `docker login` only through its standard
/// input: the arguments and the shown form are the same whatever the secret.
pub proof fn lemma_login_hides_secret(ctx: RunContext, r1: RegistryConfigView, r2: RegistryConfigView)
    requires
        r1.server == r2.server,
        r1.username == r2.username,
    ensures
        login_view(ctx, r1).args == login_view(ctx, r2).args,
        login_view(ctx, r1).display_override == login_view(ctx, r2).display_override,
        login_view(ctx, r1).stdin_text == Some(secret_of(r1)),
{
}

/// Every Docker command of a run uses the client configuration kept in the
/// run's own directory.
pub proof fn lemma_docker_config_isolated(ctx: RunContext, r: RegistryConfigView, dockerfile: Seq<char>, context_dir: Seq<char>, full_name: Seq<char>)
    ensures
        login_view(ctx, r).envs == seq![("DOCKER_CONFIG"@, ctx.docker_config_dir@)],
        build_image_view(ctx, dockerfile, context_dir, full_name).envs == seq![("DOCKER_CONFIG"@, ctx.docker_config_dir@)],
        push_view(ctx, full_name).envs == seq![("DOCKER_CONFIG"@, ctx.docker_config_dir@)],
        remove_view(ctx, full_name).envs == seq![("DOCKER_CONFIG"@, ctx.docker_config_dir@)],
{
}

} // verus!

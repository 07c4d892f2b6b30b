//! Git access: credentials, remote address checks, the commands that fetch
//! the source, and the protocol that drives them.
use base64::Engine as _;
use vstd::prelude::*;
use vstd::utf8::encode_utf8;
use crate::cli::AcquireMode;
use crate::config::{GitConfig, GitConfigView, ProjectConfig, ProjectConfigView};
use crate::context::joined;
use crate::error::{DeployError, ErrorView, outcome, unit_outcome};
use crate::context::RunContext;
use crate::process::{CommandSpec, CommandView, displayed};
use crate::text::{chars_of, concat2, concat3, concat5, trim, trim_text, views};

verus! {

/// The character of the standard Base64 alphabet (`A-Z`, `a-z`, `0-9`, `+`,
/// `/`) for a six-bit value.
pub open spec fn b64_char(v: int) -> char {
    if v < 26 {
        (65 + v) as char
    } else if v < 52 {
        (97 + v - 26) as char
    } else if v < 62 {
        (48 + v - 52) as char
    } else if v == 62 {
        '+'
    } else {
        '/'
    }
}

/// The standard Base64 text (RFC 4648 alphabet, `=` padding) of `bytes`:
/// every three bytes become four characters of six bits each, and a last
/// group of one or two bytes is padded with `=`.
pub open spec fn base64_standard(bytes: Seq<u8>) -> Seq<char>
    decreases bytes.len(),
{
    if bytes.len() == 0 {
        Seq::empty()
    } else if bytes.len() == 1 {
        let a = bytes[0] as int;
        seq![b64_char(a / 4), b64_char((a % 4) * 16), '=', '=']
    } else if bytes.len() == 2 {
        let a = bytes[0] as int;
        let b = bytes[1] as int;
        seq![b64_char(a / 4), b64_char((a % 4) * 16 + b / 16), b64_char((b % 16) * 4), '=']
    } else {
        let a = bytes[0] as int;
        let b = bytes[1] as int;
        let c = bytes[2] as int;
        seq![b64_char(a / 4), b64_char((a % 4) * 16 + b / 16), b64_char((b % 16) * 4 + c / 64), b64_char(c % 64)]
            + base64_standard(bytes.subrange(3, bytes.len() as int))
    }
}

/// Encodes bytes with `base64::engine::general_purpose::STANDARD.encode`.
///
/// Claimed: the result is the standard Base64 text of the bytes, as
/// [`base64_standard`] spells it out. The length
/// bound keeps the crate's size computation from overflowing (it panics then).
#[verifier::external_body]
fn encode_base64(data: &[u8]) -> (s: String)
    requires
        data@.len() <= usize::MAX / 2,
    ensures
        s@ == base64_standard(data@),
{
    base64::engine::general_purpose::STANDARD.encode(data)
}

/// The text `username:password` sent in HTTP Basic authentication.
pub open spec fn credential(c: GitConfigView) -> Seq<char> {
    c.username + seq![':'] + c.password
}

/// The credential is short enough to be encoded (its UTF-8 form fits in half
/// the address space).
pub open spec fn credential_fits(c: GitConfigView) -> bool {
    encode_utf8(credential(c)).len() <= usize::MAX / 2
}

/// An HTTP authorization header for Git, with the form shown in logs.
#[derive(Debug, Clone)]
pub struct GitAuth {
    pub actual_header: String,
    pub redacted_header: String,
}

pub open spec fn header_prefix() -> Seq<char> {
    "http.extraHeader=AUTHORIZATION: Basic "@
}

pub open spec fn redacted_header() -> Seq<char> {
    "http.extraHeader=AUTHORIZATION: Basic ***"@
}

/// The Git configuration setting carrying an encoded credential.
pub fn git_auth_from_encoded(encoded: &str) -> (a: GitAuth)
    ensures
        a.actual_header@ == header_prefix() + encoded@,
        a.redacted_header@ == redacted_header(),
{
    let mut actual_header = String::from_str("http.extraHeader=AUTHORIZATION: Basic ");
    actual_header.append(encoded);
    GitAuth { actual_header, redacted_header: String::from_str("http.extraHeader=AUTHORIZATION: Basic ***") }
}

/// The pieces of a parsed URL that remote checks compare.
#[derive(Debug, Clone)]
pub struct UrlParts {
    pub scheme: String,
    pub host: Option<String>,
    pub port: Option<u16>,
    pub path: String,
}

pub struct UrlPartsView {
    pub scheme: Seq<char>,
    pub host: Option<Seq<char>>,
    pub port: Option<u16>,
    pub path: Seq<char>,
}

impl View for UrlParts {
    type V = UrlPartsView;

    open spec fn view(&self) -> UrlPartsView {
        UrlPartsView { scheme: self.scheme@, host: self.host.deep_view(), port: self.port, path: self.path@ }
    }
}

/// What `url::Url::parse` makes of `input`: nothing when it is not an
/// absolute URL, else its scheme, host, port (or the scheme's known default)
/// and path.
pub uninterp spec fn url_parse(input: Seq<char>) -> Option<(Seq<char>, Option<Seq<char>>, Option<u16>, Seq<char>)>;

pub open spec fn parts_of(p: Option<UrlParts>) -> Option<(Seq<char>, Option<Seq<char>>, Option<u16>, Seq<char>)> {
    match p {
        Some(u) => Some((u.scheme@, u.host.deep_view(), u.port, u.path@)),
        None => None,
    }
}

/// Parses an absolute URL with `url::Url::parse` and reads its `scheme`,
/// `host_str`, `port_or_known_default` and `path`.
///
/// Claimed: the result is the named parse of the input.
#[verifier::external_body]
pub(crate) fn parse_url(input: &str) -> (r: Option<UrlParts>)
    ensures
        parts_of(r) == url_parse(input@),
{
    match url::Url::parse(input) {
        Ok(u) => Some(UrlParts {
            scheme: u.scheme().to_string(),
            host: match u.host_str() { Some(h) => Some(h.to_string()), None => None },
            port: u.port_or_known_default(),
            path: u.path().to_string(),
        }),
        Err(_) => None,
    }
}

/// Only plain HTTP and HTTPS remotes are supported.
pub open spec fn http_scheme(s: Seq<char>) -> bool {
    s == "http"@ || s == "https"@
}

/// Whether a URL scheme is `http` or `https`.
pub fn is_supported_http_scheme(scheme: &str) -> (b: bool)
    ensures
        b == http_scheme(scheme@),
{
    let s = String::from_str(scheme);
    s == String::from_str("http") || s == String::from_str("https")
}

/// `s` without its trailing `/` characters.
pub open spec fn trim_slashes(s: Seq<char>) -> Seq<char>
    decreases s.len(),
{
    if s.len() > 0 && s.last() == '/' { trim_slashes(s.drop_last()) } else { s }
}

/// The check of a remote against the configured Git service, once both
/// addresses are parsed: same HTTP(S) scheme, same host and port, and the
/// remote path starts with the service's base path.
pub open spec fn remote_check(target: UrlPartsView, base: UrlPartsView, raw_url: Seq<char>) -> Result<(), ErrorView> {
    let base_path = trim_slashes(base.path);
    if !http_scheme(target.scheme) || !http_scheme(base.scheme) || target.scheme != base.scheme {
        Err(ErrorView::UnsupportedGitUrl { url: raw_url })
    } else if target.host != base.host || target.port != base.port {
        Err(ErrorView::GitBaseUrlMismatch { url: raw_url })
    } else if base_path.len() != 0 && base_path != "/"@ && !(base_path.len() <= target.path.len()
        && target.path.take(base_path.len() as int) == base_path) {
        Err(ErrorView::GitBaseUrlMismatch { url: raw_url })
    } else {
        Ok(())
    }
}

fn text_eq(a: &str, b: &str) -> (r: bool)
    ensures
        r == (a@ == b@),
{
    String::from_str(a) == String::from_str(b)
}

fn opt_text_eq(a: &Option<String>, b: &Option<String>) -> (r: bool)
    ensures
        r == (a.deep_view() == b.deep_view()),
{
    match (a, b) {
        (Some(x), Some(y)) => *x == *y,
        (None, None) => true,
        _ => false,
    }
}

pub(crate) fn trimmed_slashes(s: &str) -> (v: Vec<char>)
    ensures
        v@ == trim_slashes(s@),
{
    let mut v = chars_of(s);
    while v.len() > 0 && v[v.len() - 1] == '/'
        invariant
            trim_slashes(s@) == trim_slashes(v@),
        decreases v.len(),
    {
        let ghost before = v@;
        v.pop();
        assert(v@ =~= before.drop_last());
    }
    v
}

/// Checks parsed remote and base addresses against each other.
pub fn check_remote_parts(target: &UrlParts, base: &UrlParts, raw_url: &str) -> (r: Result<(), DeployError>)
    ensures
        unit_outcome(r) == remote_check(target@, base@, raw_url@),
{
    if !is_supported_http_scheme(target.scheme.as_str()) || !is_supported_http_scheme(base.scheme.as_str())
        || !text_eq(target.scheme.as_str(), base.scheme.as_str()) {
        return Err(DeployError::UnsupportedGitUrl { url: String::from_str(raw_url) });
    }
    if !opt_text_eq(&target.host, &base.host) || target.port != base.port {
        return Err(DeployError::GitBaseUrlMismatch { url: String::from_str(raw_url) });
    }
    let base_path = trimmed_slashes(base.path.as_str());
    let path = chars_of(target.path.as_str());
    let is_root = base_path.len() == 1 && base_path[0] == '/';
    proof {
        reveal_strlit("/");
        if is_root { assert(base_path@ =~= "/"@); }
        if base_path@ == "/"@ { assert(base_path@.len() == 1); }
    }
    if base_path.len() != 0 && !is_root {
        let mut prefix = base_path.len() <= path.len();
        let mut i: usize = 0;
        while prefix && i < base_path.len()
            invariant
                base_path.len() <= path.len() || !prefix,
                i <= base_path.len(),
                prefix ==> forall|j: int| 0 <= j < i ==> path@[j] == base_path@[j],
                !prefix ==> !(base_path@.len() <= path@.len() && path@.take(base_path@.len() as int) == base_path@),
            decreases base_path.len() - i,
        {
            if path[i] != base_path[i] {
                assert(path@.take(base_path@.len() as int)[i as int] == path@[i as int]);
                prefix = false;
            }
            i = i + 1;
        }
        if prefix {
            assert(path@.take(base_path@.len() as int) =~= base_path@);
        }
        if !prefix {
            return Err(DeployError::GitBaseUrlMismatch { url: String::from_str(raw_url) });
        }
    }
    Ok(())
}

/// What checking a remote address against the Git configuration gives.
pub open spec fn git_remote_check(c: GitConfigView, raw_url: Seq<char>) -> Result<(), ErrorView> {
    match url_parse(raw_url) {
        None => Err(ErrorView::UnsupportedGitUrl { url: raw_url }),
        Some((ts, th, tp, tpath)) => match url_parse(c.base_url) {
            None => Err(ErrorView::CredentialFormat { message: "git.base_url 不是合法 URL"@ }),
            Some((bs, bh, bp, bpath)) => remote_check(
                UrlPartsView { scheme: ts, host: th, port: tp, path: tpath },
                UrlPartsView { scheme: bs, host: bh, port: bp, path: bpath },
                raw_url,
            ),
        },
    }
}

/// Checks that a remote belongs to the configured Git service.
pub fn validate_git_remote(config: &GitConfig, raw_url: &str) -> (r: Result<(), DeployError>)
    ensures
        unit_outcome(r) == git_remote_check(config@, raw_url@),
{
    let target = match parse_url(raw_url) {
        Some(t) => t,
        None => return Err(DeployError::UnsupportedGitUrl { url: String::from_str(raw_url) }),
    };
    let base = match parse_url(config.base_url.as_str()) {
        Some(b) => b,
        None => return Err(DeployError::CredentialFormat { message: String::from_str("git.base_url 不是合法 URL") }),
    };
    check_remote_parts(&target, &base, raw_url)
}

/// What building the authorization for a remote gives: the remote is checked
/// first, then the credential is encoded.
pub open spec fn auth_check(c: GitConfigView, raw_url: Seq<char>) -> Result<Seq<char>, ErrorView> {
    match git_remote_check(c, raw_url) {
        Err(e) => Err(e),
        Ok(_) => Ok(header_prefix() + base64_standard(encode_utf8(credential(c)))),
    }
}

/// Builds the HTTP authorization used with a remote of the configured service.
pub fn build_git_auth(config: &GitConfig, raw_url: &str) -> (r: Result<GitAuth, DeployError>)
    requires
        credential_fits(config@),
    ensures
        match r {
            Ok(a) => auth_check(config@, raw_url@) == Ok::<Seq<char>, ErrorView>(a.actual_header@)
                && a.redacted_header@ == redacted_header(),
            Err(e) => auth_check(config@, raw_url@) == Err::<Seq<char>, ErrorView>(e@),
        },
{
    validate_git_remote(config, raw_url)?;
    let cred = concat3(config.username.as_str(), ":", config.password.as_str());
    proof {
        reveal_strlit(":");
        assert(cred@ =~= credential(config@));
    }
    let bytes = cred.as_str().as_bytes();
    let encoded = encode_base64(bytes);
    Ok(git_auth_from_encoded(encoded.as_str()))
}

/// Whether the credential of `config` can be encoded; when it cannot, the
/// `base64` crate would panic on the size computation.
pub fn credential_within_limits(config: &GitConfig) -> (b: bool)
    ensures
        b == credential_fits(config@),
{
    let cred = concat3(config.username.as_str(), ":", config.password.as_str());
    proof {
        reveal_strlit(":");
        assert(cred@ =~= credential(config@));
    }
    cred.as_str().as_bytes().len() <= usize::MAX / 2
}

// ---------------------------------------------------------------------------
// Git commands
// ---------------------------------------------------------------------------

pub open spec fn git_command(args: Seq<Seq<char>>, display: Option<Seq<char>>, workdir: Seq<char>) -> CommandView {
    CommandView {
        stage: "AcquireSource"@,
        program: "git"@,
        args,
        display_override: display,
        workdir: Some(workdir),
        envs: Seq::empty(),
        stdin_text: None,
    }
}

fn git_spec(args: Vec<String>, display: Option<String>, workdir: &str) -> (c: CommandSpec)
    ensures
        c@ == git_command(views(args@), display.deep_view(), workdir@),
{
    let c = CommandSpec {
        stage: "AcquireSource",
        program: String::from_str("git"),
        args,
        display_override: display,
        workdir: Some(String::from_str(workdir)),
        envs: Vec::new(),
        stdin_text: None,
    };
    assert(c@.envs =~= Seq::<(Seq<char>, Seq<char>)>::empty());
    c
}

/// The clone of `git_url` into the work directory, authenticated by header.
pub open spec fn clone_view(base_dir: Seq<char>, workspace: Seq<char>, actual: Seq<char>, url: Seq<char>) -> CommandView {
    git_command(
        seq!["-c"@, actual, "clone"@, url, workspace],
        Some("git -c "@ + redacted_header() + " clone "@ + url + " "@ + workspace),
        base_dir,
    )
}

/// `git -c <auth> clone <url> <work dir>`, run from the start directory.
pub fn clone_command(ctx: &RunContext, auth: &GitAuth, git_url: &str) -> (c: CommandSpec)
    requires
        auth.redacted_header@ == redacted_header(),
    ensures
        c@ == clone_view(ctx.base_dir@, ctx.workspace_dir@, auth.actual_header@, git_url@),
{
    let args = vec![
        String::from_str("-c"),
        auth.actual_header.clone(),
        String::from_str("clone"),
        String::from_str(git_url),
        String::from_str(ctx.workspace_dir.as_str()),
    ];
    assert(views(args@) =~= seq!["-c"@, auth.actual_header@, "clone"@, git_url@, ctx.workspace_dir@]);
    let display = concat5("git -c ", auth.redacted_header.as_str(), " clone ", git_url, " ");
    let display = concat2(display.as_str(), ctx.workspace_dir.as_str());
    git_spec(args, Some(display), ctx.base_dir.as_str())
}

/// Fetching every remote, run in the work directory.
pub open spec fn fetch_view(workspace: Seq<char>, actual: Seq<char>) -> CommandView {
    git_command(
        seq!["-c"@, actual, "fetch"@, "--all"@, "--prune"@],
        Some("git -c "@ + redacted_header() + " fetch --all --prune"@),
        workspace,
    )
}

/// `git -c <auth> fetch --all --prune` in the work directory.
pub fn fetch_command(ctx: &RunContext, auth: &GitAuth) -> (c: CommandSpec)
    requires
        auth.redacted_header@ == redacted_header(),
    ensures
        c@ == fetch_view(ctx.workspace_dir@, auth.actual_header@),
{
    let args = vec![
        String::from_str("-c"),
        auth.actual_header.clone(),
        String::from_str("fetch"),
        String::from_str("--all"),
        String::from_str("--prune"),
    ];
    assert(views(args@) =~= seq!["-c"@, auth.actual_header@, "fetch"@, "--all"@, "--prune"@]);
    let display = concat3("git -c ", auth.redacted_header.as_str(), " fetch --all --prune");
    git_spec(args, Some(display), ctx.workspace_dir.as_str())
}

/// Pulling the target branch from `origin`, run in the work directory.
pub open spec fn pull_view(workspace: Seq<char>, actual: Seq<char>, branch: Seq<char>) -> CommandView {
    git_command(
        seq!["-c"@, actual, "pull"@, "origin"@, branch],
        Some("git -c "@ + redacted_header() + " pull origin "@ + branch),
        workspace,
    )
}

/// `git -c <auth> pull origin <branch>` in the work directory.
pub fn pull_command(ctx: &RunContext, auth: &GitAuth) -> (c: CommandSpec)
    requires
        auth.redacted_header@ == redacted_header(),
    ensures
        c@ == pull_view(ctx.workspace_dir@, auth.actual_header@, ctx.cli.branch@),
{
    let args = vec![
        String::from_str("-c"),
        auth.actual_header.clone(),
        String::from_str("pull"),
        String::from_str("origin"),
        ctx.cli.branch.clone(),
    ];
    assert(views(args@) =~= seq!["-c"@, auth.actual_header@, "pull"@, "origin"@, ctx.cli.branch@]);
    let display = concat3("git -c ", auth.redacted_header.as_str(), " pull origin ");
    let display = concat2(display.as_str(), ctx.cli.branch.as_str());
    git_spec(args, Some(display), ctx.workspace_dir.as_str())
}

/// Switching to an existing local branch.
pub open spec fn checkout_view(workspace: Seq<char>, branch: Seq<char>) -> CommandView {
    git_command(seq!["checkout"@, branch], None, workspace)
}

/// `git checkout <branch>` in the work directory.
pub fn checkout_command(ctx: &RunContext) -> (c: CommandSpec)
    ensures
        c@ == checkout_view(ctx.workspace_dir@, ctx.cli.branch@),
{
    let args = vec![String::from_str("checkout"), ctx.cli.branch.clone()];
    assert(views(args@) =~= seq!["checkout"@, ctx.cli.branch@]);
    git_spec(args, None, ctx.workspace_dir.as_str())
}

/// Creating (or resetting) a local branch that tracks `origin/<branch>`.
pub open spec fn tracking_view(workspace: Seq<char>, branch: Seq<char>) -> CommandView {
    git_command(seq!["checkout"@, "-B"@, branch, "origin/"@ + branch], None, workspace)
}

/// `git checkout -B <branch> origin/<branch>` in the work directory.
pub fn checkout_tracking_command(ctx: &RunContext) -> (c: CommandSpec)
    ensures
        c@ == tracking_view(ctx.workspace_dir@, ctx.cli.branch@),
{
    let args = vec![
        String::from_str("checkout"),
        String::from_str("-B"),
        ctx.cli.branch.clone(),
        concat2("origin/", ctx.cli.branch.as_str()),
    ];
    assert(views(args@) =~= seq!["checkout"@, "-B"@, ctx.cli.branch@, "origin/"@ + ctx.cli.branch@]);
    git_spec(args, None, ctx.workspace_dir.as_str())
}

/// The arguments of `git show-ref --verify --quiet <reference>`.
pub open spec fn show_ref_args(reference: Seq<char>) -> Seq<Seq<char>> {
    seq!["show-ref"@, "--verify"@, "--quiet"@, reference]
}

fn show_ref(reference: String) -> (v: Vec<String>)
    ensures
        views(v@) == show_ref_args(reference@),
{
    let ghost r = reference@;
    let v = vec![String::from_str("show-ref"), String::from_str("--verify"), String::from_str("--quiet"), reference];
    assert(views(v@) =~= show_ref_args(r));
    v
}

/// Arguments of the Git query that succeeds when the local branch exists.
pub fn local_branch_check_args(branch: &str) -> (v: Vec<String>)
    ensures
        views(v@) == show_ref_args("refs/heads/"@ + branch@),
{
    show_ref(concat2("refs/heads/", branch))
}

/// Arguments of the Git query that succeeds when `origin` has the branch.
pub fn remote_branch_check_args(branch: &str) -> (v: Vec<String>)
    ensures
        views(v@) == show_ref_args("refs/remotes/origin/"@ + branch@),
{
    show_ref(concat2("refs/remotes/origin/", branch))
}

/// What reading the `origin` address gives: the trimmed output of
/// `git remote get-url origin`, which must have succeeded and be non-empty.
pub open spec fn origin_check(success: bool, stdout: Seq<char>) -> Result<Seq<char>, ErrorView> {
    if !success || trim(stdout).len() == 0 {
        Err(ErrorView::MissingGitRemoteUrl)
    } else {
        Ok(trim(stdout))
    }
}

pub open spec fn text_result(r: Result<String, DeployError>) -> Result<Seq<char>, ErrorView> {
    match r {
        Ok(s) => Ok(s@),
        Err(e) => Err(e@),
    }
}

/// Interprets the output of `git remote get-url origin`.
pub fn remote_url_from_output(success: bool, stdout: &str) -> (r: Result<String, DeployError>)
    ensures
        text_result(r) == origin_check(success, stdout@),
{
    if !success {
        return Err(DeployError::MissingGitRemoteUrl);
    }
    let remote = trim_text(stdout);
    if remote.as_str().unicode_len() == 0 {
        return Err(DeployError::MissingGitRemoteUrl);
    }
    Ok(remote)
}

/// What reading the short commit hash gives: the trimmed output of
/// `git rev-parse --short HEAD`, or a failure carrying its trimmed errors.
pub open spec fn short_sha_check(success: bool, exit_code: Option<i32>, stdout: Seq<char>, stderr: Seq<char>) -> Result<Seq<char>, ErrorView> {
    if success {
        Ok(trim(stdout))
    } else {
        Err(ErrorView::CommandFailed {
            stage: "AcquireSource"@,
            command: "git rev-parse --short HEAD"@,
            exit_code,
            stderr_tail: Some(trim(stderr)),
        })
    }
}

/// Interprets the output of `git rev-parse --short HEAD`.
pub fn short_sha_from_output(success: bool, exit_code: Option<i32>, stdout: &str, stderr: &str) -> (r: Result<String, DeployError>)
    ensures
        text_result(r) == short_sha_check(success, exit_code, stdout@, stderr@),
{
    if !success {
        return Err(DeployError::CommandFailed {
            stage: String::from_str("AcquireSource"),
            command: String::from_str("git rev-parse --short HEAD"),
            exit_code,
            stderr_tail: Some(trim_text(stderr)),
        });
    }
    Ok(trim_text(stdout))
}

/// The shown form of an authenticated Git command carries the redacted header
/// and never depends on the credential inside the real one.
pub proof fn lemma_shown_git_commands_hide_credential(
    base_dir: Seq<char>,
    workspace: Seq<char>,
    url: Seq<char>,
    branch: Seq<char>,
    header1: Seq<char>,
    header2: Seq<char>,
)
    ensures
        displayed(clone_view(base_dir, workspace, header1, url)) == "git -c "@ + redacted_header() + " clone "@ + url + " "@ + workspace,
        displayed(clone_view(base_dir, workspace, header1, url)) == displayed(clone_view(base_dir, workspace, header2, url)),
        displayed(fetch_view(workspace, header1)) == "git -c "@ + redacted_header() + " fetch --all --prune"@,
        displayed(fetch_view(workspace, header1)) == displayed(fetch_view(workspace, header2)),
        displayed(pull_view(workspace, header1, branch)) == "git -c "@ + redacted_header() + " pull origin "@ + branch,
        displayed(pull_view(workspace, header1, branch)) == displayed(pull_view(workspace, header2, branch)),
{
}

// ---------------------------------------------------------------------------
// The source acquisition protocol
// ---------------------------------------------------------------------------

/// Why the `origin` address is being read.
#[derive(Debug, Clone, Copy, PartialEq, Eq, Structural)]
pub enum OriginPurpose {
    /// Fetch before checking out, in `pull` mode.
    PullFetch,
    /// Fetch at the start of the branch checkout.
    CheckoutFetch,
    /// Pull the branch after it was checked out.
    Pull,
}

/// Where source acquisition stands.
#[derive(Debug, Clone)]
pub enum AcquireState {
    Start,
    LocatingGit,
    ProbingMode,
    ProbingWorkspace { clone: CommandSpec },
    Cleaning { clone: CommandSpec },
    Cloning,
    ReadingOrigin { purpose: OriginPurpose },
    Fetching { purpose: OriginPurpose },
    CheckingLocal,
    CheckingRemote,
    CheckingOut,
    ProbingPull,
    Pulling,
    Finished,
}

/// What the driver must do next.
#[derive(Debug)]
pub enum AcquireAction {
    /// Look the program up on the search path; answer whether it was found.
    LocateTool(String),
    /// Answer whether the path is a directory.
    ProbeDirectory(String),
    /// Answer whether the path exists and has entries.
    ProbeContent(String),
    /// Report and remove the directory; answer `Done`.
    CleanDirectory(String),
    /// Run the command; answer `Done`, or `Failed` with its error.
    Run(CommandSpec),
    /// Read `git remote get-url origin` in the directory; answer `Origin`.
    ReadOrigin(String),
    /// Run `git` with these arguments in the work directory; answer whether it succeeded.
    QueryGit(Vec<String>),
    /// Acquisition is over, with this result.
    Finish(Result<(), DeployError>),
}

/// What the driver reports back.
#[derive(Debug, Clone)]
pub enum AcquireEvent {
    Start,
    Answer(bool),
    Origin(String),
    Done,
    Failed(DeployError),
}

pub enum AcquireStateView {
    Start,
    LocatingGit,
    ProbingMode,
    ProbingWorkspace { clone: CommandView },
    Cleaning { clone: CommandView },
    Cloning,
    ReadingOrigin { purpose: OriginPurpose },
    Fetching { purpose: OriginPurpose },
    CheckingLocal,
    CheckingRemote,
    CheckingOut,
    ProbingPull,
    Pulling,
    Finished,
}

pub enum AcquireActionView {
    LocateTool(Seq<char>),
    ProbeDirectory(Seq<char>),
    ProbeContent(Seq<char>),
    CleanDirectory(Seq<char>),
    Run(CommandView),
    ReadOrigin(Seq<char>),
    QueryGit(Seq<Seq<char>>),
    Finish(Result<(), ErrorView>),
}

pub enum AcquireEventView {
    Start,
    Answer(bool),
    Origin(Seq<char>),
    Done,
    Failed(ErrorView),
}

impl View for AcquireState {
    type V = AcquireStateView;

    open spec fn view(&self) -> AcquireStateView {
        match self {
            AcquireState::Start => AcquireStateView::Start,
            AcquireState::LocatingGit => AcquireStateView::LocatingGit,
            AcquireState::ProbingMode => AcquireStateView::ProbingMode,
            AcquireState::ProbingWorkspace { clone } => AcquireStateView::ProbingWorkspace { clone: clone@ },
            AcquireState::Cleaning { clone } => AcquireStateView::Cleaning { clone: clone@ },
            AcquireState::Cloning => AcquireStateView::Cloning,
            AcquireState::ReadingOrigin { purpose } => AcquireStateView::ReadingOrigin { purpose: *purpose },
            AcquireState::Fetching { purpose } => AcquireStateView::Fetching { purpose: *purpose },
            AcquireState::CheckingLocal => AcquireStateView::CheckingLocal,
            AcquireState::CheckingRemote => AcquireStateView::CheckingRemote,
            AcquireState::CheckingOut => AcquireStateView::CheckingOut,
            AcquireState::ProbingPull => AcquireStateView::ProbingPull,
            AcquireState::Pulling => AcquireStateView::Pulling,
            AcquireState::Finished => AcquireStateView::Finished,
        }
    }
}

impl View for AcquireAction {
    type V = AcquireActionView;

    open spec fn view(&self) -> AcquireActionView {
        match self {
            AcquireAction::LocateTool(p) => AcquireActionView::LocateTool(p@),
            AcquireAction::ProbeDirectory(p) => AcquireActionView::ProbeDirectory(p@),
            AcquireAction::ProbeContent(p) => AcquireActionView::ProbeContent(p@),
            AcquireAction::CleanDirectory(p) => AcquireActionView::CleanDirectory(p@),
            AcquireAction::Run(c) => AcquireActionView::Run(c@),
            AcquireAction::ReadOrigin(p) => AcquireActionView::ReadOrigin(p@),
            AcquireAction::QueryGit(a) => AcquireActionView::QueryGit(views(a@)),
            AcquireAction::Finish(r) => AcquireActionView::Finish(unit_outcome(*r)),
        }
    }
}

impl View for AcquireEvent {
    type V = AcquireEventView;

    open spec fn view(&self) -> AcquireEventView {
        match self {
            AcquireEvent::Start => AcquireEventView::Start,
            AcquireEvent::Answer(b) => AcquireEventView::Answer(*b),
            AcquireEvent::Origin(u) => AcquireEventView::Origin(u@),
            AcquireEvent::Done => AcquireEventView::Done,
            AcquireEvent::Failed(e) => AcquireEventView::Failed(e@),
        }
    }
}

/// The authorization header for a remote: the Git section is required.
pub open spec fn auth_for(config: ProjectConfigView, url: Seq<char>) -> Result<Seq<char>, ErrorView> {
    match config.git {
        None => Err(ErrorView::MissingGitCredential),
        Some(g) => auth_check(g, url),
    }
}

/// The acquire mode once the presence of `.git` is known.
pub open spec fn mode_given(mode: AcquireMode, has_git_dir: bool) -> AcquireMode {
    match mode {
        AcquireMode::Auto => if has_git_dir { AcquireMode::Pull } else { AcquireMode::Clone },
        other => other,
    }
}

pub open spec fn finish(r: Result<(), ErrorView>) -> (AcquireStateView, AcquireActionView) {
    (AcquireStateView::Finished, AcquireActionView::Finish(r))
}

pub open spec fn protocol_error() -> ErrorView {
    ErrorView::Context { message: "获取代码流程收到了与当前步骤不符的事件"@ }
}

pub open spec fn not_a_repository(workspace: Seq<char>) -> ErrorView {
    ErrorView::ProjectMismatch { message: "工作目录 `"@ + workspace + "` 不是 Git 仓库，无法执行 pull"@ }
}

/// One step of source acquisition.
///
/// The run locates `git`, decides the mode, then either clones (refusing a
/// non-empty work directory unless `--force-clean`) or checks the existing
/// repository and fetches; it then fetches again, checks out the target
/// branch (local, else tracking `origin`), and pulls when the mode is `pull`.
/// Every network command carries the authorization of the configured Git
/// service, checked against the remote it talks to.
pub open spec fn acquire_next(
    ctx: RunContext,
    config: ProjectConfigView,
    state: AcquireStateView,
    event: AcquireEventView,
) -> (AcquireStateView, AcquireActionView) {
    let ws = ctx.workspace_dir@;
    let branch = ctx.cli.branch@;
    if event is Failed {
        finish(Err(event->Failed_0))
    } else {
        match (state, event) {
            (AcquireStateView::Start, AcquireEventView::Start) =>
                (AcquireStateView::LocatingGit, AcquireActionView::LocateTool("git"@)),
            (AcquireStateView::LocatingGit, AcquireEventView::Answer(found)) => if found {
                (AcquireStateView::ProbingMode, AcquireActionView::ProbeDirectory(joined(ws, ".git"@)))
            } else {
                finish(Err(ErrorView::MissingTool { program: "git"@ }))
            },
            (AcquireStateView::ProbingMode, AcquireEventView::Answer(has_git)) =>
                if mode_given(ctx.cli.mode, has_git) == AcquireMode::Clone {
                    match ctx.cli.git_url {
                        None => finish(Err(ErrorView::MissingGitUrl)),
                        Some(url) => match auth_for(config, url@) {
                            Err(e) => finish(Err(e)),
                            Ok(h) => (
                                AcquireStateView::ProbingWorkspace { clone: clone_view(ctx.base_dir@, ws, h, url@) },
                                AcquireActionView::ProbeContent(ws),
                            ),
                        },
                    }
                } else if !has_git {
                    finish(Err(not_a_repository(ws)))
                } else {
                    (AcquireStateView::ReadingOrigin { purpose: OriginPurpose::PullFetch }, AcquireActionView::ReadOrigin(ws))
                },
            (AcquireStateView::ProbingWorkspace { clone }, AcquireEventView::Answer(has_content)) =>
                if !has_content {
                    (AcquireStateView::Cloning, AcquireActionView::Run(clone))
                } else if !ctx.cli.force_clean {
                    finish(Err(ErrorView::WorkspaceNotEmpty { path: ws }))
                } else {
                    (AcquireStateView::Cleaning { clone }, AcquireActionView::CleanDirectory(ws))
                },
            (AcquireStateView::Cleaning { clone }, AcquireEventView::Done) =>
                (AcquireStateView::Cloning, AcquireActionView::Run(clone)),
            (AcquireStateView::Cloning, AcquireEventView::Done) =>
                (AcquireStateView::ReadingOrigin { purpose: OriginPurpose::CheckoutFetch }, AcquireActionView::ReadOrigin(ws)),
            (AcquireStateView::ReadingOrigin { purpose }, AcquireEventView::Origin(url)) => match auth_for(config, url) {
                Err(e) => finish(Err(e)),
                Ok(h) => if purpose == OriginPurpose::Pull {
                    (AcquireStateView::Pulling, AcquireActionView::Run(pull_view(ws, h, branch)))
                } else {
                    (AcquireStateView::Fetching { purpose }, AcquireActionView::Run(fetch_view(ws, h)))
                },
            },
            (AcquireStateView::Fetching { purpose }, AcquireEventView::Done) =>
                if purpose == OriginPurpose::PullFetch {
                    (AcquireStateView::ReadingOrigin { purpose: OriginPurpose::CheckoutFetch }, AcquireActionView::ReadOrigin(ws))
                } else {
                    (AcquireStateView::CheckingLocal, AcquireActionView::QueryGit(show_ref_args("refs/heads/"@ + branch)))
                },
            (AcquireStateView::CheckingLocal, AcquireEventView::Answer(exists)) => if exists {
                (AcquireStateView::CheckingOut, AcquireActionView::Run(checkout_view(ws, branch)))
            } else {
                (AcquireStateView::CheckingRemote, AcquireActionView::QueryGit(show_ref_args("refs/remotes/origin/"@ + branch)))
            },
            (AcquireStateView::CheckingRemote, AcquireEventView::Answer(exists)) => if exists {
                (AcquireStateView::CheckingOut, AcquireActionView::Run(tracking_view(ws, branch)))
            } else {
                finish(Err(ErrorView::BranchNotFound { branch }))
            },
            (AcquireStateView::CheckingOut, AcquireEventView::Done) =>
                (AcquireStateView::ProbingPull, AcquireActionView::ProbeDirectory(joined(ws, ".git"@))),
            (AcquireStateView::ProbingPull, AcquireEventView::Answer(has_git)) =>
                if mode_given(ctx.cli.mode, has_git) == AcquireMode::Pull {
                    (AcquireStateView::ReadingOrigin { purpose: OriginPurpose::Pull }, AcquireActionView::ReadOrigin(ws))
                } else {
                    finish(Ok(()))
                },
            (AcquireStateView::Pulling, AcquireEventView::Done) => finish(Ok(())),
            _ => finish(Err(protocol_error())),
        }
    }
}

/// The Git section may be encoded whenever it is present.
pub open spec fn encodable(config: ProjectConfigView) -> bool {
    config.git is Some ==> credential_fits(config.git->0)
}

fn auth_for_remote(config: &ProjectConfig, url: &str) -> (r: Result<GitAuth, DeployError>)
    requires
        encodable(config@),
    ensures
        match r {
            Ok(a) => auth_for(config@, url@) == Ok::<Seq<char>, ErrorView>(a.actual_header@)
                && a.redacted_header@ == redacted_header(),
            Err(e) => auth_for(config@, url@) == Err::<Seq<char>, ErrorView>(e@),
        },
{
    let git = config.git()?;
    build_git_auth(git, url)
}

fn finished(r: Result<(), DeployError>) -> (out: (AcquireState, AcquireAction))
    ensures
        (out.0@, out.1@) == finish(unit_outcome(r)),
{
    (AcquireState::Finished, AcquireAction::Finish(r))
}

fn protocol_violation() -> (e: DeployError)
    ensures
        e@ == protocol_error(),
{
    DeployError::Context { message: String::from_str("获取代码流程收到了与当前步骤不符的事件") }
}

impl AcquireState {
    /// Advances source acquisition by one step: from where it stands and what
    /// the driver reports, the next state and the next thing to do.
    pub fn step(self, ctx: &RunContext, config: &ProjectConfig, event: AcquireEvent) -> (out: (AcquireState, AcquireAction))
        requires
            encodable(config@),
        ensures
            (out.0@, out.1@) == acquire_next(*ctx, config@, self@, event@),
    {
        if let AcquireEvent::Failed(e) = event {
            return finished(Err(e));
        }
        match (self, event) {
            (AcquireState::Start, AcquireEvent::Start) =>
                (AcquireState::LocatingGit, AcquireAction::LocateTool(String::from_str("git"))),
            (AcquireState::LocatingGit, AcquireEvent::Answer(found)) => {
                if found {
                    (AcquireState::ProbingMode, AcquireAction::ProbeDirectory(ctx.git_dir()))
                } else {
                    finished(Err(DeployError::MissingTool { program: String::from_str("git") }))
                }
            },
            (AcquireState::ProbingMode, AcquireEvent::Answer(has_git)) => {
                if ctx.effective_mode(has_git) == AcquireMode::Clone {
                    match &ctx.cli.git_url {
                        None => finished(Err(DeployError::MissingGitUrl)),
                        Some(url) => match auth_for_remote(config, url.as_str()) {
                            Err(e) => finished(Err(e)),
                            Ok(auth) => {
                                let clone = clone_command(ctx, &auth, url.as_str());
                                (AcquireState::ProbingWorkspace { clone }, AcquireAction::ProbeContent(ctx.workspace_dir.clone()))
                            },
                        },
                    }
                } else if !has_git {
                    let message = concat3("工作目录 `", ctx.workspace_dir.as_str(), "` 不是 Git 仓库，无法执行 pull");
                    finished(Err(DeployError::ProjectMismatch { message }))
                } else {
                    (AcquireState::ReadingOrigin { purpose: OriginPurpose::PullFetch }, AcquireAction::ReadOrigin(ctx.workspace_dir.clone()))
                }
            },
            (AcquireState::ProbingWorkspace { clone }, AcquireEvent::Answer(has_content)) => {
                if !has_content {
                    (AcquireState::Cloning, AcquireAction::Run(clone))
                } else if !ctx.cli.force_clean {
                    finished(Err(DeployError::WorkspaceNotEmpty { path: ctx.workspace_dir.clone() }))
                } else {
                    (AcquireState::Cleaning { clone }, AcquireAction::CleanDirectory(ctx.workspace_dir.clone()))
                }
            },
            (AcquireState::Cleaning { clone }, AcquireEvent::Done) =>
                (AcquireState::Cloning, AcquireAction::Run(clone)),
            (AcquireState::Cloning, AcquireEvent::Done) =>
                (AcquireState::ReadingOrigin { purpose: OriginPurpose::CheckoutFetch }, AcquireAction::ReadOrigin(ctx.workspace_dir.clone())),
            (AcquireState::ReadingOrigin { purpose }, AcquireEvent::Origin(url)) => match auth_for_remote(config, url.as_str()) {
                Err(e) => finished(Err(e)),
                Ok(auth) => {
                    if purpose == OriginPurpose::Pull {
                        (AcquireState::Pulling, AcquireAction::Run(pull_command(ctx, &auth)))
                    } else {
                        (AcquireState::Fetching { purpose }, AcquireAction::Run(fetch_command(ctx, &auth)))
                    }
                },
            },
            (AcquireState::Fetching { purpose }, AcquireEvent::Done) => {
                if purpose == OriginPurpose::PullFetch {
                    (AcquireState::ReadingOrigin { purpose: OriginPurpose::CheckoutFetch }, AcquireAction::ReadOrigin(ctx.workspace_dir.clone()))
                } else {
                    (AcquireState::CheckingLocal, AcquireAction::QueryGit(local_branch_check_args(ctx.cli.branch.as_str())))
                }
            },
            (AcquireState::CheckingLocal, AcquireEvent::Answer(exists)) => {
                if exists {
                    (AcquireState::CheckingOut, AcquireAction::Run(checkout_command(ctx)))
                } else {
                    (AcquireState::CheckingRemote, AcquireAction::QueryGit(remote_branch_check_args(ctx.cli.branch.as_str())))
                }
            },
            (AcquireState::CheckingRemote, AcquireEvent::Answer(exists)) => {
                if exists {
                    (AcquireState::CheckingOut, AcquireAction::Run(checkout_tracking_command(ctx)))
                } else {
                    finished(Err(DeployError::BranchNotFound { branch: ctx.cli.branch.clone() }))
                }
            },
            (AcquireState::CheckingOut, AcquireEvent::Done) =>
                (AcquireState::ProbingPull, AcquireAction::ProbeDirectory(ctx.git_dir())),
            (AcquireState::ProbingPull, AcquireEvent::Answer(has_git)) => {
                if ctx.effective_mode(has_git) == AcquireMode::Pull {
                    (AcquireState::ReadingOrigin { purpose: OriginPurpose::Pull }, AcquireAction::ReadOrigin(ctx.workspace_dir.clone()))
                } else {
                    finished(Ok(()))
                }
            },
            (AcquireState::Pulling, AcquireEvent::Done) => finished(Ok(())),
            _ => finished(Err(protocol_violation())),
        }
    }
}

// ---------------------------------------------------------------------------
// Laws of the acquisition protocol
// ---------------------------------------------------------------------------

/// A failure reported by the driver ends acquisition with that failure.
pub proof fn lemma_failure_ends_acquisition(ctx: RunContext, config: ProjectConfigView, state: AcquireStateView, e: ErrorView)
    ensures
        acquire_next(ctx, config, state, AcquireEventView::Failed(e)) == finish(Err(e)),
{
}

/// Once acquisition has finished, every further step leaves it finished.
pub proof fn lemma_finished_is_final(ctx: RunContext, config: ProjectConfigView, event: AcquireEventView)
    ensures
        acquire_next(ctx, config, AcquireStateView::Finished, event).0 == AcquireStateView::Finished,
{
}

/// The work directory is only ever removed when `--force-clean` was given,
/// and the directory removed is the work directory.
pub proof fn lemma_clean_only_when_forced(ctx: RunContext, config: ProjectConfigView, state: AcquireStateView, event: AcquireEventView)
    ensures
        acquire_next(ctx, config, state, event).1 is CleanDirectory ==> ctx.cli.force_clean
            && acquire_next(ctx, config, state, event).1 == AcquireActionView::CleanDirectory(ctx.workspace_dir@),
{
}

/// A non-empty work directory is never cloned into without cleaning: when the
/// probe reports content, the next action is the removal (with
/// `--force-clean`) or the end of acquisition, never the clone itself.
pub proof fn lemma_no_clone_into_content(ctx: RunContext, config: ProjectConfigView, clone: CommandView)
    ensures
        !(acquire_next(ctx, config, AcquireStateView::ProbingWorkspace { clone }, AcquireEventView::Answer(true)).1 is Run),
{
}

/// A run in `clone` mode never pulls.
pub proof fn lemma_clone_mode_never_pulls(ctx: RunContext, config: ProjectConfigView, state: AcquireStateView, event: AcquireEventView)
    requires
        ctx.cli.mode == AcquireMode::Clone,
    ensures
        acquire_next(ctx, config, state, event).0 != (AcquireStateView::ReadingOrigin { purpose: OriginPurpose::Pull }),
        acquire_next(ctx, config, state, event).0 != AcquireStateView::Pulling || state == (AcquireStateView::ReadingOrigin { purpose: OriginPurpose::Pull }),
{
}

/// After the checkout, the branch is pulled exactly when the run is in
/// `pull` mode, or in `auto` mode with the work directory a Git repository;
/// otherwise acquisition ends successfully.
pub proof fn lemma_pull_after_checkout(ctx: RunContext, config: ProjectConfigView, has_git: bool)
    ensures
        acquire_next(ctx, config, AcquireStateView::ProbingPull, AcquireEventView::Answer(has_git)) == (
            if ctx.cli.mode == AcquireMode::Pull || (ctx.cli.mode == AcquireMode::Auto && has_git) {
                (
                    AcquireStateView::ReadingOrigin { purpose: OriginPurpose::Pull },
                    AcquireActionView::ReadOrigin(ctx.workspace_dir@),
                )
            } else {
                (AcquireStateView::Finished, AcquireActionView::Finish(Ok(())))
            }
        ),
{
}

/// The mode decides the way in: `clone`, or `auto` without a Git
/// repository, goes on to clone (or stops on a missing address or
/// credential); otherwise an existing repository is fetched, and a missing
/// one is refused.
pub proof fn lemma_mode_decides_the_way_in(ctx: RunContext, config: ProjectConfigView, has_git: bool)
    ensures
        ({
            let r = acquire_next(ctx, config, AcquireStateView::ProbingMode, AcquireEventView::Answer(has_git));
            let cloning = ctx.cli.mode == AcquireMode::Clone || (ctx.cli.mode == AcquireMode::Auto && !has_git);
            &&& cloning ==> (r.0 is ProbingWorkspace && r.1 == AcquireActionView::ProbeContent(ctx.workspace_dir@))
                || (r.0 is Finished && r.1 matches AcquireActionView::Finish(Err(_)))
            &&& (!cloning && has_git) ==> r == (
                AcquireStateView::ReadingOrigin { purpose: OriginPurpose::PullFetch },
                AcquireActionView::ReadOrigin(ctx.workspace_dir@),
            )
            &&& (!cloning && !has_git) ==> r.1 == AcquireActionView::Finish(Err(not_a_repository(ctx.workspace_dir@)))
        }),
{
}

} // verus!

//! Java packaging: the build command of a Java project, and the choice of
//! the JAR that the build produced.
use vstd::prelude::*;
use crate::cli::JavaLayout;
use crate::context::{EffectiveBuildTool, ProjectSpec, ProjectSpecView, RunContext, java_env_of, join_path, joined};
use crate::detect::{FsFacts, FsFactsView, ascii_lower, is_file, lower_char};
use crate::error::{DeployError, ErrorView, outcome};
use crate::process::{CommandSpec, CommandView, env_views, path_to_string};
use crate::text::{chars_of, concat3, has_infix, occurs_at, views};

verus! {

// ---------------------------------------------------------------------------
// The packaging command
// ---------------------------------------------------------------------------

/// A packaging command: no shown override, no standard input.
pub open spec fn package_view(
    program: Seq<char>,
    args: Seq<Seq<char>>,
    workdir: Seq<char>,
    envs: Seq<(Seq<char>, Seq<char>)>,
) -> CommandView {
    CommandView {
        stage: "PackageJava"@,
        program,
        args,
        display_override: None,
        workdir: Some(workdir),
        envs,
        stdin_text: None,
    }
}

pub open spec fn layout_missing() -> ErrorView {
    ErrorView::ProjectMismatch { message: "Java 项目缺少可执行的构建布局信息"@ }
}

pub open spec fn maven_poms_missing() -> ErrorView {
    ErrorView::ProjectMismatch { message: "多模块 Maven 项目缺少根 pom.xml 或模块 pom.xml"@ }
}

/// The packaging command of a Java project whose build tool and tool command
/// are known.
///
/// A single-module project is built at its root. A multi-module Maven
/// project is built from the root `pom.xml` for the module and what it needs
/// (`-pl <module> -am`), else from the module's own `pom.xml`; a
/// multi-module Gradle project runs the module's `build` task from the root
/// when the root has a build script, else `build` in the module directory.
/// Tests are skipped in every case.
pub open spec fn package_check(
    spec: ProjectSpecView,
    f: FsFactsView,
    envs: Seq<(Seq<char>, Seq<char>)>,
) -> Result<CommandView, ErrorView> {
    let program = spec.build_tool_command->0;
    let root = spec.project_root;
    let module_dir = spec.build_context_dir;
    let module = match spec.module_name {
        Some(m) => m,
        None => Seq::empty(),
    };
    match (spec.build_tool->0, spec.java_layout) {
        (EffectiveBuildTool::Maven, Some(JavaLayout::Single)) =>
            Ok(package_view(program, seq!["clean"@, "package"@, "-DskipTests"@], root, envs)),
        (EffectiveBuildTool::Gradle, Some(JavaLayout::Single)) =>
            Ok(package_view(program, seq!["build"@, "-x"@, "test"@], root, envs)),
        (EffectiveBuildTool::Maven, Some(JavaLayout::Multi)) =>
            if is_file(f, joined(root, "pom.xml"@)) {
                Ok(package_view(
                    program,
                    seq!["clean"@, "package"@, "-pl"@, module, "-am"@, "-DskipTests"@],
                    root,
                    envs,
                ))
            } else if is_file(f, joined(module_dir, "pom.xml"@)) {
                Ok(package_view(
                    program,
                    seq!["-f"@, "pom.xml"@, "clean"@, "package"@, "-DskipTests"@],
                    module_dir,
                    envs,
                ))
            } else {
                Err(maven_poms_missing())
            },
        (EffectiveBuildTool::Gradle, Some(JavaLayout::Multi)) =>
            if is_file(f, joined(root, "build.gradle"@)) || is_file(f, joined(root, "build.gradle.kts"@)) {
                Ok(package_view(program, seq![":"@ + module + ":build"@, "-x"@, "test"@], root, envs))
            } else {
                Ok(package_view(program, seq!["build"@, "-x"@, "test"@], module_dir, envs))
            },
        _ => Err(layout_missing()),
    }
}

/// What the packaging command is, case by case: the build tool command of
/// the project with the given environment, tests skipped, and
/// - Maven, single module: `clean package -DskipTests` at the root;
/// - Gradle, single module: `build -x test` at the root;
/// - Maven, several modules: with a root `pom.xml`, `clean package -pl <module>
///   -am -DskipTests` at the root; else with a module `pom.xml`, `-f pom.xml
///   clean package -DskipTests` in the module; else a refusal;
/// - Gradle, several modules: with a root `build.gradle` or `build.gradle.kts`,
///   `:<module>:build -x test` at the root; else `build -x test` in the module;
/// - no layout: a refusal.
pub proof fn lemma_package_command_cases(
    spec: ProjectSpecView,
    f: FsFactsView,
    envs: Seq<(Seq<char>, Seq<char>)>,
    tool: EffectiveBuildTool,
    program: Seq<char>,
)
    requires
        spec.build_tool == Some(tool),
        spec.build_tool_command == Some(program),
    ensures
        ({
            let root = spec.project_root;
            let module_dir = spec.build_context_dir;
            let m = if spec.module_name is Some { spec.module_name->0 } else { Seq::<char>::empty() };
            let r = package_check(spec, f, envs);
            let cmd = |args: Seq<Seq<char>>, dir: Seq<char>| CommandView {
                stage: "PackageJava"@,
                program,
                args,
                display_override: None,
                workdir: Some(dir),
                envs,
                stdin_text: None,
            };
            &&& spec.java_layout is None ==> r is Err
            &&& (tool == EffectiveBuildTool::Maven && spec.java_layout == Some(JavaLayout::Single))
                ==> r == Ok::<CommandView, ErrorView>(cmd(seq!["clean"@, "package"@, "-DskipTests"@], root))
            &&& (tool == EffectiveBuildTool::Gradle && spec.java_layout == Some(JavaLayout::Single))
                ==> r == Ok::<CommandView, ErrorView>(cmd(seq!["build"@, "-x"@, "test"@], root))
            &&& (tool == EffectiveBuildTool::Maven && spec.java_layout == Some(JavaLayout::Multi)) ==> {
                if f.files.contains(joined(root, "pom.xml"@)) {
                    r == Ok::<CommandView, ErrorView>(cmd(seq!["clean"@, "package"@, "-pl"@, m, "-am"@, "-DskipTests"@], root))
                } else if f.files.contains(joined(module_dir, "pom.xml"@)) {
                    r == Ok::<CommandView, ErrorView>(cmd(seq!["-f"@, "pom.xml"@, "clean"@, "package"@, "-DskipTests"@], module_dir))
                } else {
                    r is Err
                }
            }
            &&& (tool == EffectiveBuildTool::Gradle && spec.java_layout == Some(JavaLayout::Multi)) ==> {
                if f.files.contains(joined(root, "build.gradle"@)) || f.files.contains(joined(root, "build.gradle.kts"@)) {
                    r == Ok::<CommandView, ErrorView>(cmd(seq![":"@ + m + ":build"@, "-x"@, "test"@], root))
                } else {
                    r == Ok::<CommandView, ErrorView>(cmd(seq!["build"@, "-x"@, "test"@], module_dir))
                }
            }
        }),
{
}

fn package_command(program: &str, args: Vec<String>, workdir: &str, envs: Vec<(String, String)>) -> (c: CommandSpec)
    ensures
        c@ == package_view(program@, views(args@), workdir@, env_views(envs@)),
{
    CommandSpec {
        stage: "PackageJava",
        program: path_to_string(program),
        args,
        display_override: None,
        workdir: Some(String::from_str(workdir)),
        envs,
        stdin_text: None,
    }
}

/// The command that packages a Java project, run with the JDK of
/// `--java-home` (see [`RunContext::java_envs`]); `current_path` is the
/// search path of the running process.
pub fn build_java_command_spec(
    ctx: &RunContext,
    spec: &ProjectSpec,
    facts: &FsFacts,
    current_path: Option<&str>,
    list_separator: char,
) -> (r: Result<CommandSpec, DeployError>)
    requires
        spec.build_tool is Some,
        spec.build_tool_command is Some,
    ensures
        outcome(r) == package_check(
            spec@,
            facts@,
            java_env_of(
                ctx.cli.java_home.deep_view(),
                match current_path { Some(p) => Some(p@), None => None },
                list_separator,
            ),
        ),
{
    let build_tool = match spec.build_tool {
        Some(t) => t,
        None => { proof { assert(false); } EffectiveBuildTool::Maven },
    };
    let command = match &spec.build_tool_command {
        Some(c) => c.as_str(),
        None => { proof { assert(false); } "" },
    };
    let java_envs = ctx.java_envs(current_path, list_separator);
    let root = spec.project_root.as_str();
    let module_dir = spec.build_context_dir.as_str();
    match (build_tool, spec.java_layout) {
        (EffectiveBuildTool::Maven, Some(JavaLayout::Single)) => {
            let args = vec![String::from_str("clean"), String::from_str("package"), String::from_str("-DskipTests")];
            assert(views(args@) =~= seq!["clean"@, "package"@, "-DskipTests"@]);
            Ok(package_command(command, args, root, java_envs))
        },
        (EffectiveBuildTool::Gradle, Some(JavaLayout::Single)) => {
            let args = vec![String::from_str("build"), String::from_str("-x"), String::from_str("test")];
            assert(views(args@) =~= seq!["build"@, "-x"@, "test"@]);
            Ok(package_command(command, args, root, java_envs))
        },
        (EffectiveBuildTool::Maven, Some(JavaLayout::Multi)) => {
            let module = match &spec.module_name {
                Some(m) => m.clone(),
                None => String::new(),
            };
            let root_pom = join_path(root, "pom.xml");
            let module_pom = join_path(module_dir, "pom.xml");
            if facts.is_file(root_pom.as_str()) {
                let args = vec![
                    String::from_str("clean"),
                    String::from_str("package"),
                    String::from_str("-pl"),
                    module,
                    String::from_str("-am"),
                    String::from_str("-DskipTests"),
                ];
                assert(views(args@) =~= seq!["clean"@, "package"@, "-pl"@, args@[3]@, "-am"@, "-DskipTests"@]);
                Ok(package_command(command, args, root, java_envs))
            } else if facts.is_file(module_pom.as_str()) {
                let args = vec![
                    String::from_str("-f"),
                    String::from_str("pom.xml"),
                    String::from_str("clean"),
                    String::from_str("package"),
                    String::from_str("-DskipTests"),
                ];
                assert(views(args@) =~= seq!["-f"@, "pom.xml"@, "clean"@, "package"@, "-DskipTests"@]);
                Ok(package_command(command, args, module_dir, java_envs))
            } else {
                Err(DeployError::ProjectMismatch {
                    message: String::from_str("多模块 Maven 项目缺少根 pom.xml 或模块 pom.xml"),
                })
            }
        },
        (EffectiveBuildTool::Gradle, Some(JavaLayout::Multi)) => {
            let module = match &spec.module_name {
                Some(m) => m.clone(),
                None => String::new(),
            };
            let root_gradle = join_path(root, "build.gradle");
            let root_gradle_kts = join_path(root, "build.gradle.kts");
            if facts.is_file(root_gradle.as_str()) || facts.is_file(root_gradle_kts.as_str()) {
                let task = concat3(":", module.as_str(), ":build");
                let args = vec![task, String::from_str("-x"), String::from_str("test")];
                assert(views(args@) =~= seq![":"@ + module@ + ":build"@, "-x"@, "test"@]);
                Ok(package_command(command, args, root, java_envs))
            } else {
                let args = vec![String::from_str("build"), String::from_str("-x"), String::from_str("test")];
                assert(views(args@) =~= seq!["build"@, "-x"@, "test"@]);
                Ok(package_command(command, args, module_dir, java_envs))
            }
        },
        _ => Err(DeployError::ProjectMismatch { message: String::from_str("Java 项目缺少可执行的构建布局信息") }),
    }
}

// ---------------------------------------------------------------------------
// Choosing the JAR
// ---------------------------------------------------------------------------

/// One entry of the artifact directory: its file name, whether it is a
/// regular file, and its size in bytes.
#[derive(Debug, Clone)]
pub struct JarEntry {
    pub name: String,
    pub is_file: bool,
    pub size: u64,
}

pub struct JarEntryView {
    pub name: Seq<char>,
    pub is_file: bool,
    pub size: u64,
}

impl View for JarEntry {
    type V = JarEntryView;

    open spec fn view(&self) -> JarEntryView {
        JarEntryView { name: self.name@, is_file: self.is_file, size: self.size }
    }
}

pub open spec fn entry_views(v: Seq<JarEntry>) -> Seq<JarEntryView> {
    v.map_values(|e: JarEntry| e@)
}

/// The file name has the extension `jar` (as `Path::extension` reads it: the
/// text after the last `.`, which must not be the name's first character).
pub open spec fn has_jar_extension(name: Seq<char>) -> bool {
    name.len() > 4 && name.subrange(name.len() - 4, name.len() as int) == ".jar"@
}

/// The text with ASCII letters in lower case.
pub open spec fn lower_text(s: Seq<char>) -> Seq<char> {
    Seq::new(s.len(), |i: int| ascii_lower(s[i]))
}

/// Names of the JARs that are not the runnable artifact.
pub open spec fn side_artifact(name: Seq<char>) -> bool {
    let l = lower_text(name);
    has_infix(l, "sources"@) || has_infix(l, "javadoc"@) || has_infix(l, "tests"@) || has_infix(l, "original"@)
}

/// An entry that may be the runnable JAR.
pub open spec fn jar_candidate(e: JarEntryView) -> bool {
    e.is_file && has_jar_extension(e.name) && !side_artifact(e.name)
}

/// The index of the largest candidate, the first one among equals.
pub open spec fn best_jar(es: Seq<JarEntryView>) -> Option<int>
    decreases es.len(),
{
    if es.len() == 0 {
        None
    } else {
        let b = best_jar(es.drop_last());
        if !jar_candidate(es.last()) {
            b
        } else {
            match b {
                None => Some(es.len() - 1),
                Some(k) => if es.last().size > es[k].size { Some(es.len() - 1) } else { Some(k) },
            }
        }
    }
}

/// The JAR chosen in a directory: the largest runnable JAR, the first
/// listed among equally large ones; none when the directory is missing or
/// holds no candidate.
pub open spec fn jar_choice(dir: Seq<char>, is_dir: bool, es: Seq<JarEntryView>) -> Result<Seq<char>, ErrorView> {
    if !is_dir {
        Err(ErrorView::JarNotFound { path: dir })
    } else {
        match best_jar(es) {
            None => Err(ErrorView::JarNotFound { path: dir }),
            Some(k) => Ok(joined(dir, es[k].name)),
        }
    }
}

fn jar_extension(name: &Vec<char>) -> (b: bool)
    ensures
        b == has_jar_extension(name@),
{
    proof { reveal_strlit(".jar"); }
    let n = name.len();
    if n <= 4 {
        return false;
    }
    let b = name[n - 4] == '.' && name[n - 3] == 'j' && name[n - 2] == 'a' && name[n - 1] == 'r';
    proof {
        let tail = name@.subrange(n - 4, n as int);
        assert(tail[0] == name@[n - 4] && tail[1] == name@[n - 3] && tail[2] == name@[n - 2] && tail[3] == name@[n - 1]);
        if b {
            assert(tail =~= ".jar"@);
        }
    }
    b
}

fn lowered(s: &str) -> (v: Vec<char>)
    ensures
        v@ == lower_text(s@),
{
    let c = chars_of(s);
    let mut v: Vec<char> = Vec::new();
    let mut i: usize = 0;
    while i < c.len()
        invariant
            c@ == s@,
            i <= c.len(),
            v@ == lower_text(s@).take(i as int),
        decreases c.len() - i,
    {
        v.push(lower_char(c[i]));
        i = i + 1;
        assert(v@ =~= lower_text(s@).take(i as int));
    }
    assert(lower_text(s@).take(c.len() as int) =~= lower_text(s@));
    v
}

fn occurs_here(h: &Vec<char>, n: &Vec<char>, i: usize) -> (b: bool)
    requires
        i + n.len() <= h.len(),
    ensures
        b == occurs_at(h@, n@, i as int),
{
    let mut j: usize = 0;
    while j < n.len()
        invariant
            i + n.len() <= h.len(),
            j <= n.len(),
            forall|k: int| 0 <= k < j ==> h@[i + k] == n@[k],
        decreases n.len() - j,
    {
        if h[i + j] != n[j] {
            assert(h@.subrange(i as int, i + n.len())[j as int] == h@[i + j]);
            return false;
        }
        j = j + 1;
    }
    assert(h@.subrange(i as int, i + n.len()) =~= n@);
    true
}

fn contains_text(h: &Vec<char>, needle: &str) -> (b: bool)
    requires
        needle@.len() > 0,
    ensures
        b == has_infix(h@, needle@),
{
    let n = chars_of(needle);
    if n.len() > h.len() {
        assert(forall|i: int| !#[trigger] occurs_at(h@, n@, i));
        return false;
    }
    let last = h.len() - n.len();
    let mut i: usize = 0;
    while i <= last
        invariant
            n@ == needle@,
            n.len() > 0,
            last + n.len() == h.len(),
            forall|k: int| 0 <= k < i ==> !#[trigger] occurs_at(h@, n@, k),
        decreases last + 1 - i,
    {
        if occurs_here(h, &n, i) {
            return true;
        }
        i = i + 1;
    }
    assert(forall|k: int| !#[trigger] occurs_at(h@, n@, k));
    false
}

fn is_side_artifact(name: &str) -> (b: bool)
    ensures
        b == side_artifact(name@),
{
    let l = lowered(name);
    proof {
        reveal_strlit("sources");
        reveal_strlit("javadoc");
        reveal_strlit("tests");
        reveal_strlit("original");
    }
    contains_text(&l, "sources") || contains_text(&l, "javadoc") || contains_text(&l, "tests")
        || contains_text(&l, "original")
}

fn is_jar_candidate(e: &JarEntry) -> (b: bool)
    ensures
        b == jar_candidate(e@),
{
    if !e.is_file {
        return false;
    }
    let name = chars_of(e.name.as_str());
    jar_extension(&name) && !is_side_artifact(e.name.as_str())
}

/// Picks the runnable JAR of a build from the listing of its artifact
/// directory: regular files with the `jar` extension, except sources,
/// javadoc, tests and original JARs; the largest wins.
pub fn find_executable_jar(artifact_dir: &str, is_dir: bool, entries: &[JarEntry]) -> (r: Result<String, DeployError>)
    ensures
        outcome(r) == jar_choice(artifact_dir@, is_dir, entry_views(entries@)),
{
    if !is_dir {
        return Err(DeployError::JarNotFound { path: String::from_str(artifact_dir) });
    }
    let ghost es = entry_views(entries@);
    let mut best: Option<usize> = None;
    let mut i: usize = 0;
    assert(es.take(0) =~= Seq::<JarEntryView>::empty());
    while i < entries.len()
        invariant
            es == entry_views(entries@),
            i <= entries.len(),
            match best {
                Some(k) => best_jar(es.take(i as int)) == Some(k as int) && k < i,
                None => best_jar(es.take(i as int)) is None,
            },
        decreases entries.len() - i,
    {
        proof {
            assert(es.take(i + 1).drop_last() =~= es.take(i as int));
            assert(es[i as int] == entries@[i as int]@);
        }
        if is_jar_candidate(&entries[i]) {
            match best {
                None => { best = Some(i); },
                Some(k) => {
                    proof { assert(es.take(i + 1)[k as int] == es[k as int]); assert(es[k as int] == entries@[k as int]@); }
                    if entries[i].size > entries[k].size {
                        best = Some(i);
                    }
                },
            }
        } else {
            proof {
                if let Some(k) = best {
                    assert(es.take(i + 1)[k as int] == es[k as int]);
                }
            }
        }
        proof {
            if let Some(k) = best {
                assert(es.take(i + 1)[k as int] == es.take(i as int)[k as int] || k == i);
            }
        }
        i = i + 1;
    }
    assert(es.take(entries.len() as int) =~= es);
    match best {
        None => Err(DeployError::JarNotFound { path: String::from_str(artifact_dir) }),
        Some(k) => {
            assert(es[k as int] == entries@[k as int]@);
            Ok(join_path(artifact_dir, entries[k].name.as_str()))
        },
    }
}

/// The chosen JAR is a runnable JAR at least as large as every other one,
/// and strictly larger than every one listed before it; there is none
/// exactly when no entry is a runnable JAR.
pub proof fn lemma_best_jar_is_largest(es: Seq<JarEntryView>)
    ensures
        best_jar(es) is None <==> (forall|j: int| 0 <= j < es.len() ==> !jar_candidate(#[trigger] es[j])),
        best_jar(es) matches Some(k) ==> {
            &&& 0 <= k < es.len()
            &&& jar_candidate(es[k])
            &&& forall|j: int| 0 <= j < es.len() && jar_candidate(#[trigger] es[j]) ==> es[j].size <= es[k].size
            &&& forall|j: int| 0 <= j < k && jar_candidate(#[trigger] es[j]) ==> es[j].size < es[k].size
        },
    decreases es.len(),
{
    if es.len() > 0 {
        let n = es.len() as int;
        let init = es.drop_last();
        lemma_best_jar_is_largest(init);
        assert forall|j: int| 0 <= j < init.len() implies #[trigger] init[j] == es[j] by {}
        assert(es[n - 1] == es.last());
        let b = best_jar(init);
        if best_jar(es) is None {
            assert forall|j: int| 0 <= j < es.len() implies !jar_candidate(#[trigger] es[j]) by {
                if j < n - 1 {
                    assert(!jar_candidate(init[j]));
                }
            }
        } else {
            if forall|j: int| 0 <= j < es.len() ==> !jar_candidate(#[trigger] es[j]) {
                assert forall|j: int| 0 <= j < init.len() implies !jar_candidate(#[trigger] init[j]) by {
                    assert(!jar_candidate(es[j]));
                }
                assert(!jar_candidate(es[n - 1]));
                assert(false);
            }
            let k = best_jar(es)->0;
            if jar_candidate(es.last()) && (b is None || es.last().size > es[b->0].size) {
                assert(k == n - 1);
                assert forall|j: int| 0 <= j < es.len() && jar_candidate(#[trigger] es[j]) implies es[j].size <= es[k].size by {
                    if j < n - 1 {
                        assert(jar_candidate(init[j]));
                        assert(init[j].size <= init[b->0].size);
                    }
                }
                assert forall|j: int| 0 <= j < k && jar_candidate(#[trigger] es[j]) implies es[j].size < es[k].size by {
                    assert(jar_candidate(init[j]));
                    assert(init[j].size <= init[b->0].size);
                }
            } else {
                assert(b == Some(k));
                assert(0 <= k < init.len());
                assert(init[k] == es[k]);
                assert forall|j: int| 0 <= j < es.len() && jar_candidate(#[trigger] es[j]) implies es[j].size <= es[k].size by {
                    if j < n - 1 {
                        assert(jar_candidate(init[j]));
                    }
                }
                assert forall|j: int| 0 <= j < k && jar_candidate(#[trigger] es[j]) implies es[j].size < es[k].size by {
                    assert(jar_candidate(init[j]));
                }
            }
        }
    }
}

/// Which listed entries may be the runnable JAR: regular files whose name
/// ends in `.jar` after at least one other character, and whose name (ASCII
/// case ignored) mentions none of `sources`, `javadoc`, `tests`, `original`.
pub proof fn lemma_jar_candidate_meaning(e: JarEntryView)
    ensures
        jar_candidate(e) <==> {
            let n = e.name;
            let l = Seq::new(n.len(), |i: int| ascii_lower(n[i]));
            &&& e.is_file
            &&& n.len() > 4
            &&& n.subrange(n.len() - 4, n.len() as int) == ".jar"@
            &&& !has_infix(l, "sources"@)
            &&& !has_infix(l, "javadoc"@)
            &&& !has_infix(l, "tests"@)
            &&& !has_infix(l, "original"@)
        },
{
    assert(lower_text(e.name) =~= Seq::new(e.name.len(), |i: int| ascii_lower(e.name[i])));
}

} // verus!

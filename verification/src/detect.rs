//! Project detection: which kind of project the repository holds, and where
//! its Dockerfile, build entry point and artifacts are.
//!
//! Detection reads the file system only through [`FsFacts`], a snapshot of
//! the paths it asks about, so that every decision is a function of values.
use vstd::prelude::*;
use crate::cli::{BuildToolArg, JavaLayout, ProjectType};
use crate::context::{
    EffectiveBuildTool, ProjectSpec, ProjectSpecView, RunContext, clean, ensure_within, join_path, joined,
    lemma_within_child, lemma_within_transitive, sep_free, within, within_check,
};
use crate::error::{DeployError, ErrorView, outcome, unit_outcome};
use crate::process::require_command;
use crate::text::{chars_of, concat2, concat3, join_strings, join_text, views};

verus! {

/// What the file system holds at the paths detection asks about.
///
/// `files` lists the paths that are regular files, `dirs` the paths that
/// are directories and `others` the paths that exist as something else (a
/// pipe, a socket, a device), each written as [`join_path`] writes it; a path
/// in none of the lists does not exist. `repo_entries` holds the names of the
/// entries of the repository root, or nothing when it cannot be listed.
#[derive(Debug, Clone)]
pub struct FsFacts {
    pub files: Vec<String>,
    pub dirs: Vec<String>,
    pub others: Vec<String>,
    pub repo_entries: Option<Vec<String>>,
}

pub struct FsFactsView {
    pub files: Seq<Seq<char>>,
    pub dirs: Seq<Seq<char>>,
    pub others: Seq<Seq<char>>,
    pub repo_entries: Option<Seq<Seq<char>>>,
}

impl View for FsFacts {
    type V = FsFactsView;

    open spec fn view(&self) -> FsFactsView {
        FsFactsView {
            files: views(self.files@),
            dirs: views(self.dirs@),
            others: views(self.others@),
            repo_entries: match self.repo_entries {
                Some(e) => Some(views(e@)),
                None => None,
            },
        }
    }
}

pub open spec fn is_file(f: FsFactsView, p: Seq<char>) -> bool {
    f.files.contains(p)
}

pub open spec fn is_dir(f: FsFactsView, p: Seq<char>) -> bool {
    f.dirs.contains(p)
}

/// Something exists at `p`.
pub open spec fn exists_at(f: FsFactsView, p: Seq<char>) -> bool {
    is_file(f, p) || is_dir(f, p) || f.others.contains(p)
}

fn list_contains(list: &Vec<String>, p: &str) -> (b: bool)
    ensures
        b == views(list@).contains(p@),
{
    let target = String::from_str(p);
    let mut i: usize = 0;
    while i < list.len()
        invariant
            target@ == p@,
            i <= list.len(),
            forall|j: int| 0 <= j < i ==> views(list@)[j] != p@,
        decreases list.len() - i,
    {
        let same = list[i] == target;
        assert(views(list@)[i as int] == list@[i as int]@);
        if same {
            assert(views(list@)[i as int] == p@);
            return true;
        }
        i = i + 1;
    }
    false
}

impl FsFacts {
    /// Whether `path` is a regular file.
    pub fn is_file(&self, path: &str) -> (b: bool)
        ensures
            b == is_file(self@, path@),
    {
        list_contains(&self.files, path)
    }

    /// Whether `path` is a directory.
    pub fn is_dir(&self, path: &str) -> (b: bool)
        ensures
            b == is_dir(self@, path@),
    {
        list_contains(&self.dirs, path)
    }

    /// Whether something exists at `path`.
    pub fn is_present(&self, path: &str) -> (b: bool)
        ensures
            b == exists_at(self@, path@),
    {
        self.is_file(path) || self.is_dir(path) || list_contains(&self.others, path)
    }
}

/// The views of a list of names.
pub open spec fn name_views(names: Seq<&str>) -> Seq<Seq<char>> {
    names.map_values(|n: &str| n@)
}

/// Some name of `names` is a regular file inside `dir`.
pub open spec fn any_file(f: FsFactsView, dir: Seq<char>, names: Seq<Seq<char>>) -> bool {
    exists|i: int| 0 <= i < names.len() && is_file(f, joined(dir, #[trigger] names[i]))
}

/// Whether one of `names` is a regular file inside `dir`.
pub fn has_any_file(facts: &FsFacts, dir: &str, names: &[&str]) -> (b: bool)
    ensures
        b == any_file(facts@, dir@, name_views(names@)),
{
    let ghost ns = name_views(names@);
    let mut i: usize = 0;
    while i < names.len()
        invariant
            ns == name_views(names@),
            i <= names.len(),
            forall|j: int| 0 <= j < i ==> !is_file(facts@, joined(dir@, #[trigger] ns[j])),
        decreases names.len() - i,
    {
        let path = join_path(dir, names[i]);
        assert(ns[i as int] == names@[i as int]@);
        if facts.is_file(path.as_str()) {
            return true;
        }
        i = i + 1;
    }
    false
}

/// The names whose presence marks a Java build.
pub open spec fn build_file_names() -> Seq<Seq<char>> {
    seq!["pom.xml"@, "build.gradle"@, "build.gradle.kts"@]
}

/// Whether `dir` holds a Maven or Gradle build file.
fn has_build_file(facts: &FsFacts, dir: &str) -> (b: bool)
    ensures
        b == any_file(facts@, dir@, build_file_names()),
{
    let names: [&str; 3] = ["pom.xml", "build.gradle", "build.gradle.kts"];
    let r = has_any_file(facts, dir, names.as_slice());
    assert(name_views(names@) =~= build_file_names());
    r
}

/// What checking a Dockerfile path gives: it must lie inside `base`, exist
/// (else reading it fails), and be a regular file.
pub open spec fn dockerfile_check(f: FsFactsView, base: Seq<char>, path: Seq<char>) -> Result<(), ErrorView> {
    match within_check(base, path) {
        Err(e) => Err(e),
        Ok(_) => if !exists_at(f, path) {
            Err(ErrorView::Context { message: "读取 Dockerfile 失败："@ + path })
        } else if !is_file(f, path) {
            Err(ErrorView::ProjectMismatch { message: "Dockerfile 不存在："@ + path })
        } else {
            Ok(())
        },
    }
}

/// Checks that the Dockerfile lies inside `base` and is a regular file.
pub fn validate_dockerfile(facts: &FsFacts, base: &str, path: &str) -> (r: Result<(), DeployError>)
    ensures
        unit_outcome(r) == dockerfile_check(facts@, base@, path@),
{
    ensure_within(base, path)?;
    if !facts.is_present(path) {
        return Err(DeployError::Context { message: concat2("读取 Dockerfile 失败：", path) });
    }
    if !facts.is_file(path) {
        return Err(DeployError::ProjectMismatch { message: concat2("Dockerfile 不存在：", path) });
    }
    Ok(())
}

/// Where the build tool leaves its artifacts under `base`.
pub open spec fn artifact_dir(base: Seq<char>, tool: EffectiveBuildTool) -> Seq<char> {
    match tool {
        EffectiveBuildTool::Maven => joined(base, "target"@),
        EffectiveBuildTool::Gradle => joined(joined(base, "build"@), "libs"@),
    }
}

/// The directory in which the build tool leaves its artifacts.
pub fn artifact_dir_for_tool(base: &str, tool: EffectiveBuildTool) -> (p: String)
    ensures
        p@ == artifact_dir(base@, tool),
{
    match tool {
        EffectiveBuildTool::Maven => join_path(base, "target"),
        EffectiveBuildTool::Gradle => {
            let build = join_path(base, "build");
            join_path(build.as_str(), "libs")
        },
    }
}

/// The first of `names` that is a regular file inside `dir`, as a path.
pub open spec fn first_file(f: FsFactsView, dir: Seq<char>, names: Seq<Seq<char>>) -> Option<Seq<char>>
    decreases names.len(),
{
    if names.len() == 0 {
        None
    } else if is_file(f, joined(dir, names[0])) {
        Some(joined(dir, names[0]))
    } else {
        first_file(f, dir, names.drop_first())
    }
}

/// The first wrapper script of `names` present in `dir`.
pub fn resolve_wrapper(facts: &FsFacts, dir: &str, names: &[&str]) -> (r: Option<String>)
    ensures
        r.deep_view() == first_file(facts@, dir@, name_views(names@)),
{
    let ghost ns = name_views(names@);
    let mut i: usize = 0;
    assert(ns.skip(0) =~= ns);
    while i < names.len()
        invariant
            ns == name_views(names@),
            i <= names.len(),
            first_file(facts@, dir@, ns) == first_file(facts@, dir@, ns.skip(i as int)),
        decreases names.len() - i,
    {
        let path = join_path(dir, names[i]);
        assert(ns.skip(i as int)[0] == names@[i as int]@);
        assert(ns.skip(i as int).drop_first() =~= ns.skip(i + 1));
        if facts.is_file(path.as_str()) {
            return Some(path);
        }
        i = i + 1;
    }
    assert(ns.skip(i as int).len() == 0);
    None
}

/// The text after the last `/` of `s` (all of `s` when it has none).
pub open spec fn last_segment(s: Seq<char>) -> Seq<char>
    decreases s.len(),
{
    if s.len() == 0 {
        Seq::empty()
    } else if s.last() == '/' {
        Seq::empty()
    } else {
        last_segment(s.drop_last()).push(s.last())
    }
}

/// The image's last path segment, when it is not empty.
pub open spec fn name_hint(image: Seq<char>) -> Option<Seq<char>> {
    if last_segment(image).len() == 0 { None } else { Some(last_segment(image)) }
}

/// The last path segment of an image name, used to pick a module.
pub fn image_name_hint(image: &str) -> (r: Option<String>)
    ensures
        r.deep_view() == name_hint(image@),
{
    let v = chars_of(image);
    let mut seg: Vec<char> = Vec::new();
    let mut i: usize = 0;
    assert(image@.take(0) =~= Seq::<char>::empty());
    while i < v.len()
        invariant
            v@ == image@,
            i <= v.len(),
            seg@ == last_segment(image@.take(i as int)),
        decreases v.len() - i,
    {
        assert(image@.take(i + 1).drop_last() =~= image@.take(i as int));
        if v[i] == '/' {
            seg = Vec::new();
            assert(seg@ =~= last_segment(image@.take(i + 1)));
        } else {
            seg.push(v[i]);
        }
        i = i + 1;
    }
    assert(image@.take(v.len() as int) =~= image@);
    if seg.len() == 0 {
        None
    } else {
        Some(crate::text::string_of(seg.as_slice()))
    }
}

/// ASCII upper-case letters map to lower case; every other character stays.
pub open spec fn ascii_lower(c: char) -> char {
    if 'A' <= c && c <= 'Z' { ((c as u32) + 32) as char } else { c }
}

/// Equal up to ASCII case, as `str::eq_ignore_ascii_case` compares.
pub open spec fn same_ignoring_ascii_case(a: Seq<char>, b: Seq<char>) -> bool {
    a.len() == b.len() && forall|i: int| 0 <= i < a.len() ==> ascii_lower(#[trigger] a[i]) == ascii_lower(b[i])
}

pub(crate) fn lower_char(c: char) -> (d: char)
    ensures
        d == ascii_lower(c),
{
    if 'A' <= c && c <= 'Z' {
        ((c as u8) + 32) as char
    } else {
        c
    }
}

/// Compares two texts ignoring ASCII case.
pub fn eq_ignore_ascii_case(a: &str, b: &str) -> (r: bool)
    ensures
        r == same_ignoring_ascii_case(a@, b@),
{
    let x = chars_of(a);
    let y = chars_of(b);
    if x.len() != y.len() {
        return false;
    }
    let mut i: usize = 0;
    while i < x.len()
        invariant
            x@ == a@,
            y@ == b@,
            x.len() == y.len(),
            i <= x.len(),
            forall|j: int| 0 <= j < i ==> ascii_lower(#[trigger] a@[j]) == ascii_lower(b@[j]),
        decreases x.len() - i,
    {
        if lower_char(x[i]) != lower_char(y[i]) {
            return false;
        }
        i = i + 1;
    }
    true
}

/// Lexicographic order of texts by character, the order in which `String`
/// values sort (UTF-8 byte order agrees with code point order).
pub open spec fn lex_lt(a: Seq<char>, b: Seq<char>) -> bool
    decreases a.len(),
{
    if a.len() == 0 {
        b.len() > 0
    } else if b.len() == 0 {
        false
    } else if a[0] != b[0] {
        (a[0] as u32) < (b[0] as u32)
    } else {
        lex_lt(a.drop_first(), b.drop_first())
    }
}

/// `x` inserted into the sorted list `s` before the first element it precedes.
pub open spec fn insert_sorted(x: Seq<char>, s: Seq<Seq<char>>) -> Seq<Seq<char>>
    decreases s.len(),
{
    if s.len() == 0 {
        seq![x]
    } else if lex_lt(x, s[0]) {
        seq![x] + s
    } else {
        seq![s[0]] + insert_sorted(x, s.drop_first())
    }
}

/// The names in ascending lexicographic order.
pub open spec fn sorted_names(s: Seq<Seq<char>>) -> Seq<Seq<char>>
    decreases s.len(),
{
    if s.len() == 0 {
        Seq::empty()
    } else {
        insert_sorted(s.last(), sorted_names(s.drop_last()))
    }
}

fn lex_less(a: &Vec<char>, b: &Vec<char>) -> (r: bool)
    ensures
        r == lex_lt(a@, b@),
{
    let mut i: usize = 0;
    assert(a@.skip(0) =~= a@);
    assert(b@.skip(0) =~= b@);
    while i < a.len() && i < b.len()
        invariant
            i <= a.len(),
            i <= b.len(),
            lex_lt(a@, b@) == lex_lt(a@.skip(i as int), b@.skip(i as int)),
        decreases a.len() - i,
    {
        assert(a@.skip(i as int)[0] == a@[i as int]);
        assert(b@.skip(i as int)[0] == b@[i as int]);
        if a[i] != b[i] {
            return (a[i] as u32) < (b[i] as u32);
        }
        assert(a@.skip(i as int).drop_first() =~= a@.skip(i + 1));
        assert(b@.skip(i as int).drop_first() =~= b@.skip(i + 1));
        i = i + 1;
    }
    i < b.len()
}

/// Inserting before the first element that `x` precedes.
proof fn lemma_insert_at(x: Seq<char>, s: Seq<Seq<char>>, j: int)
    requires
        0 <= j <= s.len(),
        forall|k: int| 0 <= k < j ==> !lex_lt(x, #[trigger] s[k]),
        j < s.len() ==> lex_lt(x, s[j]),
    ensures
        insert_sorted(x, s) == s.take(j) + seq![x] + s.skip(j),
    decreases s.len(),
{
    if s.len() == 0 {
        assert(s.take(j) + seq![x] + s.skip(j) =~= seq![x]);
    } else if j == 0 {
        assert(s.take(j) + seq![x] + s.skip(j) =~= seq![x] + s);
    } else {
        let rest = s.drop_first();
        assert forall|k: int| 0 <= k < j - 1 implies !lex_lt(x, #[trigger] rest[k]) by {
            assert(rest[k] == s[k + 1]);
        }
        if j - 1 < rest.len() {
            assert(rest[j - 1] == s[j]);
        }
        lemma_insert_at(x, rest, j - 1);
        assert(s.take(j) + seq![x] + s.skip(j) =~= seq![s[0]] + (rest.take(j - 1) + seq![x] + rest.skip(j - 1)));
    }
}

/// Sorts names in ascending lexicographic order (insertion sort).
pub fn sort_names(names: Vec<String>) -> (r: Vec<String>)
    ensures
        views(r@) == sorted_names(views(names@)),
{
    let ghost input = views(names@);
    let mut out: Vec<String> = Vec::new();
    let mut keys: Vec<Vec<char>> = Vec::new();
    let mut i: usize = 0;
    assert(input.take(0) =~= Seq::<Seq<char>>::empty());
    while i < names.len()
        invariant
            input == views(names@),
            i <= names.len(),
            views(out@) == sorted_names(input.take(i as int)),
            keys.deep_view() == views(out@),
        decreases names.len() - i,
    {
        let name = names[i].clone();
        let key = chars_of(name.as_str());
        let ghost sorted = views(out@);
        let mut j: usize = 0;
        while j < keys.len()
            invariant
                sorted == views(out@),
                keys.deep_view() == sorted,
                j <= keys.len(),
                forall|k: int| 0 <= k < j ==> !lex_lt(key@, #[trigger] sorted[k]),
            ensures
                j <= keys.len(),
                forall|k: int| 0 <= k < j ==> !lex_lt(key@, #[trigger] sorted[k]),
                j < keys.len() ==> lex_lt(key@, sorted[j as int]),
            decreases keys.len() - j,
        {
            assert(keys.deep_view()[j as int] == keys@[j as int]@);
            if lex_less(&key, &keys[j]) {
                break;
            }
            j = j + 1;
        }
        proof {
            lemma_insert_at(key@, sorted, j as int);
            assert(input.take(i + 1).drop_last() =~= input.take(i as int));
            assert(input[i as int] == name@);
        }
        let ghost key_view = key@;
        let ghost old_keys = keys.deep_view();
        assert(key.deep_view() =~= key_view);
        out.insert(j, name);
        keys.insert(j, key);
        proof {
            assert(views(out@) =~= sorted.take(j as int) + seq![key_view] + sorted.skip(j as int));
            assert(keys.deep_view() =~= old_keys.take(j as int) + seq![key_view] + old_keys.skip(j as int));
            assert(keys.deep_view() =~= views(out@));
        }
        i = i + 1;
    }
    assert(input.take(names.len() as int) =~= input);
    out
}

/// Names in ascending order: no name comes after one it precedes.
pub open spec fn ascending(s: Seq<Seq<char>>) -> bool {
    forall|i: int, j: int| 0 <= i < j < s.len() ==> !lex_lt(#[trigger] s[j], #[trigger] s[i])
}

proof fn lemma_lex_transitive(a: Seq<char>, b: Seq<char>, c: Seq<char>)
    requires
        lex_lt(a, b),
        lex_lt(b, c),
    ensures
        lex_lt(a, c),
    decreases a.len(),
{
    if a.len() > 0 && a[0] == b[0] && b[0] == c[0] {
        lemma_lex_transitive(a.drop_first(), b.drop_first(), c.drop_first());
    }
}

proof fn lemma_lex_irreflexive(a: Seq<char>)
    ensures
        !lex_lt(a, a),
    decreases a.len(),
{
    if a.len() > 0 {
        lemma_lex_irreflexive(a.drop_first());
    }
}

/// Where `insert_sorted` puts `x`: after every element it does not precede.
proof fn lemma_insert_position(x: Seq<char>, s: Seq<Seq<char>>) -> (k: int)
    ensures
        0 <= k <= s.len(),
        insert_sorted(x, s) == s.insert(k, x),
        forall|i: int| 0 <= i < k ==> !lex_lt(x, #[trigger] s[i]),
        k < s.len() ==> lex_lt(x, s[k]),
    decreases s.len(),
{
    if s.len() == 0 {
        assert(s.insert(0, x) =~= seq![x]);
        0
    } else if lex_lt(x, s[0]) {
        assert(s.insert(0, x) =~= seq![x] + s);
        0
    } else {
        let rest = s.drop_first();
        let k = lemma_insert_position(x, rest);
        assert(seq![s[0]] + rest.insert(k, x) =~= s.insert(k + 1, x));
        assert forall|i: int| 0 <= i < k + 1 implies !lex_lt(x, #[trigger] s[i]) by {
            if i > 0 {
                assert(s[i] == rest[i - 1]);
            }
        }
        if k + 1 < s.len() {
            assert(s[k + 1] == rest[k]);
        }
        k + 1
    }
}

proof fn lemma_insert_sorted_ascending(x: Seq<char>, s: Seq<Seq<char>>)
    requires
        ascending(s),
    ensures
        ascending(insert_sorted(x, s)),
        insert_sorted(x, s).to_multiset() == s.to_multiset().insert(x),
{
    broadcast use vstd::seq_lib::group_to_multiset_ensures;
    let k = lemma_insert_position(x, s);
    let r = s.insert(k, x);
    assert forall|i: int, j: int| 0 <= i < j < r.len() implies !lex_lt(#[trigger] r[j], #[trigger] r[i]) by {
        if j < k {
            assert(r[i] == s[i] && r[j] == s[j]);
        } else if j == k {
            assert(r[i] == s[i] && r[j] == x);
        } else if i == k {
            assert(r[i] == x && r[j] == s[j - 1]);
            assert(lex_lt(x, s[k]));
            if k < j - 1 {
                assert(!lex_lt(s[j - 1], s[k]));
            }
            if lex_lt(s[j - 1], x) {
                lemma_lex_transitive(s[j - 1], x, s[k]);
                lemma_lex_irreflexive(s[k]);
            }
        } else if i < k {
            assert(r[i] == s[i] && r[j] == s[j - 1]);
        } else {
            assert(r[i] == s[i - 1] && r[j] == s[j - 1]);
        }
    }
}

proof fn lemma_sorted_names_props(s: Seq<Seq<char>>)
    ensures
        ascending(sorted_names(s)),
        sorted_names(s).to_multiset() == s.to_multiset(),
    decreases s.len(),
{
    broadcast use vstd::seq_lib::group_to_multiset_ensures;
    if s.len() > 0 {
        lemma_sorted_names_props(s.drop_last());
        lemma_insert_sorted_ascending(s.last(), sorted_names(s.drop_last()));
        assert(s.drop_last().push(s.last()) =~= s);
    }
}

/// Sorting names puts them in ascending order, keeps every name as often as
/// it occurs, and so leaves no name twice when none was given twice.
pub proof fn lemma_sorted_names_ascending(s: Seq<Seq<char>>)
    ensures
        ascending(sorted_names(s)),
        sorted_names(s).to_multiset() == s.to_multiset(),
        s.no_duplicates() ==> sorted_names(s).no_duplicates(),
{
    lemma_sorted_names_props(s);
    if s.no_duplicates() {
        s.lemma_multiset_has_no_duplicates();
        sorted_names(s).lemma_multiset_has_no_duplicates_conv();
    }
}

/// A repository entry is a module candidate when it is a directory holding a
/// Dockerfile.
pub open spec fn is_candidate(f: FsFactsView, repo: Seq<char>, name: Seq<char>) -> bool {
    is_dir(f, joined(repo, name)) && is_file(f, joined(joined(repo, name), "Dockerfile"@))
}

/// The entries of `names` that are module candidates, in their order.
pub open spec fn candidate_entries(f: FsFactsView, repo: Seq<char>, names: Seq<Seq<char>>) -> Seq<Seq<char>>
    decreases names.len(),
{
    if names.len() == 0 {
        Seq::empty()
    } else {
        let p = candidate_entries(f, repo, names.drop_last());
        if is_candidate(f, repo, names.last()) { p.push(names.last()) } else { p }
    }
}

/// The module candidates of a repository, sorted; listing the repository
/// root can fail.
pub open spec fn candidates_check(f: FsFactsView, repo: Seq<char>) -> Result<Seq<Seq<char>>, ErrorView> {
    match f.repo_entries {
        None => Err(ErrorView::Context { message: "读取目录失败："@ + repo }),
        Some(es) => Ok(sorted_names(candidate_entries(f, repo, es))),
    }
}

proof fn lemma_candidate_entries(f: FsFactsView, repo: Seq<char>, names: Seq<Seq<char>>)
    ensures
        forall|i: int| 0 <= i < candidate_entries(f, repo, names).len()
            ==> is_candidate(f, repo, #[trigger] candidate_entries(f, repo, names)[i])
                && names.contains(candidate_entries(f, repo, names)[i]),
        names.no_duplicates() ==> candidate_entries(f, repo, names).no_duplicates(),
    decreases names.len(),
{
    if names.len() > 0 {
        let init = names.drop_last();
        lemma_candidate_entries(f, repo, init);
        let p = candidate_entries(f, repo, init);
        let r = candidate_entries(f, repo, names);
        assert forall|i: int| 0 <= i < r.len() implies is_candidate(f, repo, #[trigger] r[i]) && names.contains(r[i]) by {
            if i < p.len() {
                assert(r[i] == p[i]);
                let j = choose|j: int| 0 <= j < init.len() && init[j] == p[i];
                assert(names[j] == init[j]);
            } else {
                assert(names[names.len() - 1] == names.last());
            }
        }
        if names.no_duplicates() {
            assert(init.no_duplicates()) by {
                assert forall|a: int, b: int| 0 <= a < init.len() && 0 <= b < init.len() && a != b implies init[a] != init[b] by {
                    assert(init[a] == names[a] && init[b] == names[b]);
                }
            }
            if is_candidate(f, repo, names.last()) {
                assert forall|i: int| 0 <= i < p.len() implies p[i] != names.last() by {
                    let j = choose|j: int| 0 <= j < init.len() && init[j] == p[i];
                    assert(names[j] == init[j]);
                    assert(names[names.len() - 1] == names.last());
                }
                assert forall|a: int, b: int| 0 <= a < r.len() && 0 <= b < r.len() && a != b implies r[a] != r[b] by {
                    if a < p.len() && b < p.len() {
                        assert(r[a] == p[a] && r[b] == p[b]);
                    } else if a < p.len() {
                        assert(r[a] == p[a]);
                    } else if b < p.len() {
                        assert(r[b] == p[b]);
                    }
                }
            }
        }
    }
}

/// The module candidates come out in ascending order, each a directory of
/// the listing that holds a Dockerfile, and none twice when the listing names
/// no entry twice (as a directory listing does).
pub proof fn lemma_candidates_sorted(f: FsFactsView, repo: Seq<char>)
    requires
        candidates_check(f, repo) is Ok,
    ensures
        ascending(candidates_check(f, repo)->Ok_0),
        forall|i: int| 0 <= i < candidates_check(f, repo)->Ok_0.len()
            ==> is_candidate(f, repo, #[trigger] candidates_check(f, repo)->Ok_0[i])
                && f.repo_entries->0.contains(candidates_check(f, repo)->Ok_0[i]),
        f.repo_entries->0.no_duplicates() ==> candidates_check(f, repo)->Ok_0.no_duplicates(),
{
    broadcast use vstd::seq_lib::group_to_multiset_ensures;
    let es = f.repo_entries->0;
    let c = candidate_entries(f, repo, es);
    lemma_candidate_entries(f, repo, es);
    lemma_sorted_names_ascending(c);
    let r = sorted_names(c);
    assert forall|i: int| 0 <= i < r.len() implies is_candidate(f, repo, #[trigger] r[i]) && es.contains(r[i]) by {
        assert(r.to_multiset().count(r[i]) > 0);
        assert(c.contains(r[i]));
        let j = choose|j: int| 0 <= j < c.len() && c[j] == r[i];
        assert(is_candidate(f, repo, c[j]));
    }
}

pub open spec fn names_outcome(r: Result<Vec<String>, DeployError>) -> Result<Seq<Seq<char>>, ErrorView> {
    match r {
        Ok(v) => Ok(views(v@)),
        Err(e) => Err(e@),
    }
}

/// The sorted names of the repository's sub-directories that hold a Dockerfile.
pub fn find_java_module_candidates(facts: &FsFacts, repo_dir: &str) -> (r: Result<Vec<String>, DeployError>)
    ensures
        names_outcome(r) == candidates_check(facts@, repo_dir@),
{
    let entries = match &facts.repo_entries {
        Some(e) => e,
        None => {
            return Err(DeployError::Context { message: concat2("读取目录失败：", repo_dir) });
        },
    };
    let ghost es = views(entries@);
    let mut found: Vec<String> = Vec::new();
    let mut i: usize = 0;
    assert(es.take(0) =~= Seq::<Seq<char>>::empty());
    while i < entries.len()
        invariant
            es == views(entries@),
            i <= entries.len(),
            views(found@) == candidate_entries(facts@, repo_dir@, es.take(i as int)),
        decreases entries.len() - i,
    {
        let name = &entries[i];
        let path = join_path(repo_dir, name.as_str());
        let dockerfile = join_path(path.as_str(), "Dockerfile");
        proof {
            assert(es.take(i + 1).drop_last() =~= es.take(i as int));
            assert(es[i as int] == name@);
        }
        if facts.is_dir(path.as_str()) && facts.is_file(dockerfile.as_str()) {
            let ghost before = views(found@);
            found.push(name.clone());
            assert(views(found@) =~= before.push(name@));
        }
        i = i + 1;
    }
    assert(es.take(entries.len() as int) =~= es);
    Ok(sort_names(found))
}

// ---------------------------------------------------------------------------
// Detection decisions
// ---------------------------------------------------------------------------

pub open spec fn mismatch(message: Seq<char>) -> ErrorView {
    ErrorView::ProjectMismatch { message }
}

/// The project type: the one given on the command line, else Java when the
/// repository root holds a build file, else Web when it holds a Dockerfile.
pub open spec fn project_type_check(ctx: RunContext, f: FsFactsView, repo: Seq<char>) -> Result<ProjectType, ErrorView> {
    match ctx.cli.project_type {
        Some(t) => Ok(t),
        None => if any_file(f, repo, build_file_names()) {
            Ok(ProjectType::Java)
        } else if is_file(f, joined(repo, "Dockerfile"@)) {
            Ok(ProjectType::Web)
        } else {
            Err(mismatch("无法自动识别项目类型，请显式传入 --project-type"@))
        },
    }
}

/// Decides the project type.
pub fn detect_project_type(ctx: &RunContext, facts: &FsFacts, repo_dir: &str) -> (r: Result<ProjectType, DeployError>)
    ensures
        match r {
            Ok(t) => project_type_check(*ctx, facts@, repo_dir@) == Ok::<ProjectType, ErrorView>(t),
            Err(e) => project_type_check(*ctx, facts@, repo_dir@) == Err::<ProjectType, ErrorView>(e@),
        },
{
    if let Some(t) = ctx.cli.project_type {
        return Ok(t);
    }
    if has_build_file(facts, repo_dir) {
        return Ok(ProjectType::Java);
    }
    let dockerfile = join_path(repo_dir, "Dockerfile");
    if facts.is_file(dockerfile.as_str()) {
        return Ok(ProjectType::Web);
    }
    Err(DeployError::ProjectMismatch { message: String::from_str("无法自动识别项目类型，请显式传入 --project-type") })
}

/// A web project: the Dockerfile at the repository root builds the image
/// from the repository root.
pub open spec fn web_check(ctx: RunContext, f: FsFactsView, repo: Seq<char>) -> Result<ProjectSpecView, ErrorView> {
    let dockerfile = joined(repo, "Dockerfile"@);
    match dockerfile_check(f, ctx.base_dir@, dockerfile) {
        Err(e) => Err(e),
        Ok(_) => Ok(ProjectSpecView {
            project_type: ProjectType::Web,
            java_layout: None,
            module_name: None,
            build_tool: None,
            build_tool_command: None,
            project_root: repo,
            dockerfile_path: dockerfile,
            build_context_dir: repo,
            artifact_search_dir: None,
        }),
    }
}

/// Describes a web project rooted at `repo_dir`.
pub fn detect_web_project(ctx: &RunContext, facts: &FsFacts, repo_dir: String) -> (r: Result<ProjectSpec, DeployError>)
    ensures
        outcome(r) == web_check(*ctx, facts@, repo_dir@),
{
    let dockerfile_path = join_path(repo_dir.as_str(), "Dockerfile");
    validate_dockerfile(facts, ctx.base_dir.as_str(), dockerfile_path.as_str())?;
    Ok(ProjectSpec {
        project_type: ProjectType::Web,
        java_layout: None,
        module_name: None,
        build_tool: None,
        build_tool_command: None,
        project_root: repo_dir.clone(),
        dockerfile_path,
        build_context_dir: repo_dir,
        artifact_search_dir: None,
    })
}

/// The Java layout: as given, multi when a module is named, multi when the
/// root has no Dockerfile but some sub-directory does, single when the root
/// holds a build file.
pub open spec fn layout_check(ctx: RunContext, f: FsFactsView, repo: Seq<char>) -> Result<JavaLayout, ErrorView> {
    match ctx.cli.java_layout {
        Some(l) => Ok(l),
        None => if ctx.cli.module is Some {
            Ok(JavaLayout::Multi)
        } else {
            match candidates_check(f, repo) {
                Err(e) => Err(e),
                Ok(c) => if !is_file(f, joined(repo, "Dockerfile"@)) && c.len() > 0 {
                    Ok(JavaLayout::Multi)
                } else if any_file(f, repo, build_file_names()) {
                    Ok(JavaLayout::Single)
                } else {
                    Err(mismatch("无法自动判断 Java 项目是单模块还是多模块，请显式传入 --java-layout"@))
                },
            }
        },
    }
}

/// Decides whether a Java project is single- or multi-module.
pub fn resolve_java_layout(ctx: &RunContext, facts: &FsFacts, repo_dir: &str) -> (r: Result<JavaLayout, DeployError>)
    ensures
        match r {
            Ok(l) => layout_check(*ctx, facts@, repo_dir@) == Ok::<JavaLayout, ErrorView>(l),
            Err(e) => layout_check(*ctx, facts@, repo_dir@) == Err::<JavaLayout, ErrorView>(e@),
        },
{
    if let Some(layout) = ctx.cli.java_layout {
        return Ok(layout);
    }
    if ctx.cli.module.is_some() {
        return Ok(JavaLayout::Multi);
    }
    let dockerfile = join_path(repo_dir, "Dockerfile");
    let root_has_dockerfile = facts.is_file(dockerfile.as_str());
    let candidates = find_java_module_candidates(facts, repo_dir)?;
    if !root_has_dockerfile && candidates.len() > 0 {
        return Ok(JavaLayout::Multi);
    }
    if has_build_file(facts, repo_dir) {
        return Ok(JavaLayout::Single);
    }
    Err(DeployError::ProjectMismatch {
        message: String::from_str("无法自动判断 Java 项目是单模块还是多模块，请显式传入 --java-layout"),
    })
}

/// How the build tool is started: a wrapper script of the project, or a
/// program to look up on the search path.
#[derive(Debug, Clone)]
pub enum ToolCommand {
    Wrapper(String),
    OnPath(String),
}

pub enum ToolCommandView {
    Wrapper(Seq<char>),
    OnPath(Seq<char>),
}

impl View for ToolCommand {
    type V = ToolCommandView;

    open spec fn view(&self) -> ToolCommandView {
        match self {
            ToolCommand::Wrapper(p) => ToolCommandView::Wrapper(p@),
            ToolCommand::OnPath(p) => ToolCommandView::OnPath(p@),
        }
    }
}

pub open spec fn maven_wrappers() -> Seq<Seq<char>> {
    seq!["mvnw.cmd"@, "mvnw"@]
}

pub open spec fn gradle_wrappers() -> Seq<Seq<char>> {
    seq!["gradlew.bat"@, "gradlew"@]
}

/// The first wrapper of `names` found in the module directory (multi-module
/// runs with a named module only), else in the repository root.
pub open spec fn wrapper_found(ctx: RunContext, f: FsFactsView, repo: Seq<char>, layout: JavaLayout, names: Seq<Seq<char>>) -> Option<Seq<char>> {
    let in_repo = first_file(f, repo, names);
    match ctx.cli.module {
        Some(m) => if layout == JavaLayout::Multi {
            match first_file(f, joined(repo, m@), names) {
                Some(p) => Some(p),
                None => in_repo,
            }
        } else {
            in_repo
        },
        None => in_repo,
    }
}

pub open spec fn use_wrapper_or(found: Option<Seq<char>>, program: Seq<char>) -> ToolCommandView {
    match found {
        Some(p) => ToolCommandView::Wrapper(p),
        None => ToolCommandView::OnPath(program),
    }
}

/// The build tool and how to start it: a requested tool prefers its wrapper
/// and falls back to the system command; `auto` prefers a Maven wrapper,
/// then a Gradle wrapper, then the tool whose build file the root holds.
pub open spec fn tool_plan(ctx: RunContext, f: FsFactsView, repo: Seq<char>, layout: JavaLayout) -> Result<(EffectiveBuildTool, ToolCommandView), ErrorView> {
    let maven = wrapper_found(ctx, f, repo, layout, maven_wrappers());
    let gradle = wrapper_found(ctx, f, repo, layout, gradle_wrappers());
    match ctx.cli.build_tool {
        BuildToolArg::Maven => Ok((EffectiveBuildTool::Maven, use_wrapper_or(maven, "mvn"@))),
        BuildToolArg::Gradle => Ok((EffectiveBuildTool::Gradle, use_wrapper_or(gradle, "gradle"@))),
        BuildToolArg::Auto => if maven is Some {
            Ok((EffectiveBuildTool::Maven, ToolCommandView::Wrapper(maven->0)))
        } else if gradle is Some {
            Ok((EffectiveBuildTool::Gradle, ToolCommandView::Wrapper(gradle->0)))
        } else if any_file(f, repo, seq!["pom.xml"@]) {
            Ok((EffectiveBuildTool::Maven, ToolCommandView::OnPath("mvn"@)))
        } else if any_file(f, repo, seq!["build.gradle"@, "build.gradle.kts"@]) {
            Ok((EffectiveBuildTool::Gradle, ToolCommandView::OnPath("gradle"@)))
        } else {
            Err(mismatch("无法识别 Java 构建工具，请显式传入 --build-tool"@))
        },
    }
}

pub open spec fn plan_outcome(r: Result<(EffectiveBuildTool, ToolCommand), DeployError>) -> Result<(EffectiveBuildTool, ToolCommandView), ErrorView> {
    match r {
        Ok((t, c)) => Ok((t, c@)),
        Err(e) => Err(e@),
    }
}

fn find_wrapper(ctx: &RunContext, facts: &FsFacts, repo_dir: &str, layout: JavaLayout, names: &[&str]) -> (r: Option<String>)
    ensures
        r.deep_view() == wrapper_found(*ctx, facts@, repo_dir@, layout, name_views(names@)),
{
    if let Some(module) = &ctx.cli.module {
        if layout == JavaLayout::Multi {
            let module_dir = join_path(repo_dir, module.as_str());
            let found = resolve_wrapper(facts, module_dir.as_str(), names);
            if found.is_some() {
                return found;
            }
        }
    }
    resolve_wrapper(facts, repo_dir, names)
}

/// Chooses the Java build tool and how to start it.
pub fn plan_build_tool(ctx: &RunContext, facts: &FsFacts, repo_dir: &str, layout: JavaLayout) -> (r: Result<(EffectiveBuildTool, ToolCommand), DeployError>)
    ensures
        plan_outcome(r) == tool_plan(*ctx, facts@, repo_dir@, layout),
{
    let mvn_names: [&str; 2] = ["mvnw.cmd", "mvnw"];
    let gradle_names: [&str; 2] = ["gradlew.bat", "gradlew"];
    assert(name_views(mvn_names@) =~= maven_wrappers());
    assert(name_views(gradle_names@) =~= gradle_wrappers());
    let maven_wrapper = find_wrapper(ctx, facts, repo_dir, layout, mvn_names.as_slice());
    let gradle_wrapper = find_wrapper(ctx, facts, repo_dir, layout, gradle_names.as_slice());
    match ctx.cli.build_tool {
        BuildToolArg::Maven => match maven_wrapper {
            Some(w) => Ok((EffectiveBuildTool::Maven, ToolCommand::Wrapper(w))),
            None => Ok((EffectiveBuildTool::Maven, ToolCommand::OnPath(String::from_str("mvn")))),
        },
        BuildToolArg::Gradle => match gradle_wrapper {
            Some(w) => Ok((EffectiveBuildTool::Gradle, ToolCommand::Wrapper(w))),
            None => Ok((EffectiveBuildTool::Gradle, ToolCommand::OnPath(String::from_str("gradle")))),
        },
        BuildToolArg::Auto => {
            if let Some(w) = maven_wrapper {
                return Ok((EffectiveBuildTool::Maven, ToolCommand::Wrapper(w)));
            }
            if let Some(w) = gradle_wrapper {
                return Ok((EffectiveBuildTool::Gradle, ToolCommand::Wrapper(w)));
            }
            let pom: [&str; 1] = ["pom.xml"];
            assert(name_views(pom@) =~= seq!["pom.xml"@]);
            if has_any_file(facts, repo_dir, pom.as_slice()) {
                return Ok((EffectiveBuildTool::Maven, ToolCommand::OnPath(String::from_str("mvn"))));
            }
            let gradle_files: [&str; 2] = ["build.gradle", "build.gradle.kts"];
            assert(name_views(gradle_files@) =~= seq!["build.gradle"@, "build.gradle.kts"@]);
            if has_any_file(facts, repo_dir, gradle_files.as_slice()) {
                return Ok((EffectiveBuildTool::Gradle, ToolCommand::OnPath(String::from_str("gradle"))));
            }
            Err(DeployError::ProjectMismatch { message: String::from_str("无法识别 Java 构建工具，请显式传入 --build-tool") })
        },
    }
}

/// The candidates equal to `hint` up to ASCII case, in order.
pub open spec fn matching_hint(c: Seq<Seq<char>>, hint: Seq<char>) -> Seq<Seq<char>>
    decreases c.len(),
{
    if c.len() == 0 {
        Seq::empty()
    } else {
        let p = matching_hint(c.drop_last(), hint);
        if same_ignoring_ascii_case(c.last(), hint) { p.push(c.last()) } else { p }
    }
}

/// The refusal listing several candidates.
pub open spec fn ambiguous_modules(c: Seq<Seq<char>>) -> ErrorView {
    mismatch("检测到多个可部署 Java 模块："@ + join_text(c, ", "@) + "，请通过 --module 指定目标模块"@)
}

/// The module to deploy: the named one; else the only candidate; else the
/// only candidate matching the image's last segment up to ASCII case.
pub open spec fn module_check(ctx: RunContext, f: FsFactsView, repo: Seq<char>) -> Result<Seq<char>, ErrorView> {
    match ctx.cli.module {
        Some(m) => Ok(m@),
        None => match candidates_check(f, repo) {
            Err(e) => Err(e),
            Ok(c) => if c.len() == 0 {
                Err(ErrorView::MissingModuleName)
            } else if c.len() == 1 {
                Ok(c[0])
            } else {
                match name_hint(ctx.cli.image@) {
                    Some(h) => if matching_hint(c, h).len() == 1 {
                        Ok(matching_hint(c, h)[0])
                    } else {
                        Err(ambiguous_modules(c))
                    },
                    None => Err(ambiguous_modules(c)),
                }
            },
        },
    }
}

pub open spec fn text_outcome(r: Result<String, DeployError>) -> Result<Seq<char>, ErrorView> {
    match r {
        Ok(s) => Ok(s@),
        Err(e) => Err(e@),
    }
}

/// Decides the module of a multi-module Java project.
pub fn resolve_java_module(ctx: &RunContext, facts: &FsFacts, repo_dir: &str) -> (r: Result<String, DeployError>)
    ensures
        text_outcome(r) == module_check(*ctx, facts@, repo_dir@),
{
    if let Some(module) = &ctx.cli.module {
        return Ok(module.clone());
    }
    let candidates = find_java_module_candidates(facts, repo_dir)?;
    let ghost c = views(candidates@);
    if candidates.len() == 0 {
        return Err(DeployError::MissingModuleName);
    }
    if candidates.len() == 1 {
        assert(c[0] == candidates@[0]@);
        return Ok(candidates[0].clone());
    }
    if let Some(hint) = image_name_hint(ctx.cli.image.as_str()) {
        let mut matched: Vec<String> = Vec::new();
        let mut i: usize = 0;
        assert(c.take(0) =~= Seq::<Seq<char>>::empty());
        while i < candidates.len()
            invariant
                c == views(candidates@),
                i <= candidates.len(),
                views(matched@) == matching_hint(c.take(i as int), hint@),
            decreases candidates.len() - i,
        {
            proof {
                assert(c.take(i + 1).drop_last() =~= c.take(i as int));
                assert(c[i as int] == candidates@[i as int]@);
            }
            if eq_ignore_ascii_case(candidates[i].as_str(), hint.as_str()) {
                let ghost before = views(matched@);
                matched.push(candidates[i].clone());
                assert(views(matched@) =~= before.push(c[i as int]));
            }
            i = i + 1;
        }
        assert(c.take(candidates.len() as int) =~= c);
        if matched.len() == 1 {
            assert(views(matched@)[0] == matched@[0]@);
            return Ok(matched[0].clone());
        }
    }
    let listed = join_strings(candidates.as_slice(), ", ");
    Err(DeployError::ProjectMismatch {
        message: concat3("检测到多个可部署 Java 模块：", listed.as_str(), "，请通过 --module 指定目标模块"),
    })
}

/// The Java project description once layout, tool and tool command are known.
pub open spec fn java_spec_check(
    ctx: RunContext,
    f: FsFactsView,
    repo: Seq<char>,
    layout: JavaLayout,
    tool: EffectiveBuildTool,
    command: Seq<char>,
) -> Result<ProjectSpecView, ErrorView> {
    match layout {
        JavaLayout::Single => if !any_file(f, repo, build_file_names()) {
            Err(mismatch("Java 单模块项目缺少根目录 pom.xml/build.gradle"@))
        } else {
            let dockerfile = joined(repo, "Dockerfile"@);
            match dockerfile_check(f, ctx.base_dir@, dockerfile) {
                Err(e) => Err(e),
                Ok(_) => Ok(ProjectSpecView {
                    project_type: ProjectType::Java,
                    java_layout: Some(JavaLayout::Single),
                    module_name: None,
                    build_tool: Some(tool),
                    build_tool_command: Some(command),
                    project_root: repo,
                    dockerfile_path: dockerfile,
                    build_context_dir: repo,
                    artifact_search_dir: Some(artifact_dir(repo, tool)),
                }),
            }
        },
        JavaLayout::Multi => match module_check(ctx, f, repo) {
            Err(e) => Err(e),
            Ok(m) => {
                let module_dir = joined(repo, m);
                let dockerfile = joined(module_dir, "Dockerfile"@);
                if !is_dir(f, module_dir) {
                    Err(ErrorView::ModuleNotFound { module: m })
                } else {
                    match dockerfile_check(f, ctx.base_dir@, dockerfile) {
                        Err(e) => Err(e),
                        Ok(_) => if !any_file(f, module_dir, build_file_names()) && !any_file(f, repo, build_file_names()) {
                            Err(mismatch("多模块目录 `"@ + module_dir + "` 缺少可识别构建文件"@))
                        } else {
                            Ok(ProjectSpecView {
                                project_type: ProjectType::Java,
                                java_layout: Some(JavaLayout::Multi),
                                module_name: Some(m),
                                build_tool: Some(tool),
                                build_tool_command: Some(command),
                                project_root: repo,
                                dockerfile_path: dockerfile,
                                build_context_dir: module_dir,
                                artifact_search_dir: Some(artifact_dir(module_dir, tool)),
                            })
                        },
                    }
                }
            },
        },
    }
}

/// Completes the description of a Java project whose layout, build tool and
/// tool command are decided.
pub fn assemble_java_project(
    ctx: &RunContext,
    facts: &FsFacts,
    repo_dir: String,
    layout: JavaLayout,
    tool: EffectiveBuildTool,
    command: String,
) -> (r: Result<ProjectSpec, DeployError>)
    ensures
        outcome(r) == java_spec_check(*ctx, facts@, repo_dir@, layout, tool, command@),
{
    match layout {
        JavaLayout::Single => {
            if !has_build_file(facts, repo_dir.as_str()) {
                return Err(DeployError::ProjectMismatch {
                    message: String::from_str("Java 单模块项目缺少根目录 pom.xml/build.gradle"),
                });
            }
            let dockerfile_path = join_path(repo_dir.as_str(), "Dockerfile");
            validate_dockerfile(facts, ctx.base_dir.as_str(), dockerfile_path.as_str())?;
            let artifact = artifact_dir_for_tool(repo_dir.as_str(), tool);
            Ok(ProjectSpec {
                project_type: ProjectType::Java,
                java_layout: Some(JavaLayout::Single),
                module_name: None,
                build_tool: Some(tool),
                build_tool_command: Some(command),
                project_root: repo_dir.clone(),
                dockerfile_path,
                build_context_dir: repo_dir,
                artifact_search_dir: Some(artifact),
            })
        },
        JavaLayout::Multi => {
            let module_name = resolve_java_module(ctx, facts, repo_dir.as_str())?;
            let module_dir = join_path(repo_dir.as_str(), module_name.as_str());
            if !facts.is_dir(module_dir.as_str()) {
                return Err(DeployError::ModuleNotFound { module: module_name });
            }
            let dockerfile_path = join_path(module_dir.as_str(), "Dockerfile");
            validate_dockerfile(facts, ctx.base_dir.as_str(), dockerfile_path.as_str())?;
            let module_has_build = has_build_file(facts, module_dir.as_str());
            let root_has_build = has_build_file(facts, repo_dir.as_str());
            if !module_has_build && !root_has_build {
                return Err(DeployError::ProjectMismatch {
                    message: concat3("多模块目录 `", module_dir.as_str(), "` 缺少可识别构建文件"),
                });
            }
            let artifact = artifact_dir_for_tool(module_dir.as_str(), tool);
            Ok(ProjectSpec {
                project_type: ProjectType::Java,
                java_layout: Some(JavaLayout::Multi),
                module_name: Some(module_name),
                build_tool: Some(tool),
                build_tool_command: Some(command),
                project_root: repo_dir,
                dockerfile_path,
                build_context_dir: module_dir,
                artifact_search_dir: Some(artifact),
            })
        },
    }
}

/// What a search-path lookup may have answered for a tool plan: a wrapper is
/// used as is; a program is either missing or found at some path.
pub open spec fn tool_resolution_allows(plan: ToolCommandView, r: Result<Seq<char>, ErrorView>) -> bool {
    match plan {
        ToolCommandView::Wrapper(p) => r == Ok::<Seq<char>, ErrorView>(p),
        ToolCommandView::OnPath(program) => r is Ok || r == Err::<Seq<char>, ErrorView>(ErrorView::MissingTool { program }),
    }
}

/// Chooses the Java build tool and resolves its command: a wrapper script of
/// the project, or the program found on the search path.
pub fn resolve_build_tool(ctx: &RunContext, facts: &FsFacts, repo_dir: &str, layout: JavaLayout) -> (r: Result<(EffectiveBuildTool, String), DeployError>)
    ensures
        match tool_plan(*ctx, facts@, repo_dir@, layout) {
            Err(e) => r matches Err(x) && x@ == e,
            Ok((tool, plan)) => match r {
                Ok((t, c)) => t == tool && tool_resolution_allows(plan, Ok(c@)),
                Err(x) => tool_resolution_allows(plan, Err(x@)),
            },
        },
{
    let (tool, plan) = plan_build_tool(ctx, facts, repo_dir, layout)?;
    match plan {
        ToolCommand::Wrapper(path) => Ok((tool, path)),
        ToolCommand::OnPath(program) => {
            let path = require_command(program.as_str())?;
            Ok((tool, path))
        },
    }
}

/// What detecting a Java project may give, whatever the search-path lookup
/// of a system build tool answered.
pub open spec fn java_detection_allows(ctx: RunContext, f: FsFactsView, repo: Seq<char>, r: Result<ProjectSpecView, ErrorView>) -> bool {
    match layout_check(ctx, f, repo) {
        Err(e) => r == Err::<ProjectSpecView, ErrorView>(e),
        Ok(layout) => match tool_plan(ctx, f, repo, layout) {
            Err(e) => r == Err::<ProjectSpecView, ErrorView>(e),
            Ok((tool, ToolCommandView::Wrapper(p))) => r == java_spec_check(ctx, f, repo, layout, tool, p),
            Ok((tool, ToolCommandView::OnPath(program))) => {
                ||| r == Err::<ProjectSpecView, ErrorView>(ErrorView::MissingTool { program })
                ||| exists|c: Seq<char>| r == java_spec_check(ctx, f, repo, layout, tool, c)
            },
        },
    }
}

/// Describes a Java project: layout, build tool and its command, module,
/// Dockerfile and artifact directory.
pub fn detect_java_project(ctx: &RunContext, facts: &FsFacts, repo_dir: String) -> (r: Result<ProjectSpec, DeployError>)
    ensures
        java_detection_allows(*ctx, facts@, repo_dir@, outcome(r)),
{
    let java_layout = resolve_java_layout(ctx, facts, repo_dir.as_str())?;
    let (build_tool, build_tool_command) = resolve_build_tool(ctx, facts, repo_dir.as_str(), java_layout)?;
    let r = assemble_java_project(ctx, facts, repo_dir, java_layout, build_tool, build_tool_command);
    proof {
        let cmd = build_tool_command@;
        match tool_plan(*ctx, facts@, repo_dir@, java_layout) {
            Ok((tool, ToolCommandView::OnPath(program))) => {
                assert(outcome(r) == java_spec_check(*ctx, facts@, repo_dir@, java_layout, tool, cmd));
            },
            _ => {},
        }
    }
    r
}

/// What detecting the project may give.
pub open spec fn detection_allows(ctx: RunContext, f: FsFactsView, r: Result<ProjectSpecView, ErrorView>) -> bool {
    let repo = ctx.workspace_dir@;
    match project_type_check(ctx, f, repo) {
        Err(e) => r == Err::<ProjectSpecView, ErrorView>(e),
        Ok(ProjectType::Web) => r == web_check(ctx, f, repo),
        Ok(ProjectType::Java) => java_detection_allows(ctx, f, repo, r),
    }
}

/// Works out the project type and its build entry points from the command
/// line and the repository contents.
pub fn detect_project(ctx: &RunContext, facts: &FsFacts) -> (r: Result<ProjectSpec, DeployError>)
    ensures
        detection_allows(*ctx, facts@, outcome(r)),
{
    let repo_dir = String::from_str(ctx.repo_dir());
    let project_type = detect_project_type(ctx, facts, repo_dir.as_str())?;
    match project_type {
        ProjectType::Web => detect_web_project(ctx, facts, repo_dir),
        ProjectType::Java => detect_java_project(ctx, facts, repo_dir),
    }
}

/// A Java project description that passes its checks has its Dockerfile
/// inside the start directory, present as a regular file.
proof fn lemma_java_spec_dockerfile(ctx: RunContext, f: FsFactsView, repo: Seq<char>, layout: JavaLayout, tool: EffectiveBuildTool, command: Seq<char>)
    requires
        java_spec_check(ctx, f, repo, layout, tool, command) is Ok,
    ensures
        within(ctx.base_dir@, java_spec_check(ctx, f, repo, layout, tool, command)->Ok_0.dockerfile_path),
        is_file(f, java_spec_check(ctx, f, repo, layout, tool, command)->Ok_0.dockerfile_path),
{
}

/// Whatever detection accepts builds from a Dockerfile that lies inside the
/// start directory and exists as a regular file.
pub proof fn lemma_detected_dockerfile_inside(ctx: RunContext, f: FsFactsView, spec: ProjectSpecView)
    requires
        detection_allows(ctx, f, Ok(spec)),
    ensures
        within(ctx.base_dir@, spec.dockerfile_path),
        is_file(f, spec.dockerfile_path),
{
    let repo = ctx.workspace_dir@;
    match project_type_check(ctx, f, repo) {
        Ok(ProjectType::Java) => {
            let layout = layout_check(ctx, f, repo)->Ok_0;
            match tool_plan(ctx, f, repo, layout) {
                Ok((tool, ToolCommandView::Wrapper(p))) => {
                    lemma_java_spec_dockerfile(ctx, f, repo, layout, tool, p);
                },
                Ok((tool, ToolCommandView::OnPath(program))) => {
                    let c = choose|c: Seq<char>| Ok::<ProjectSpecView, ErrorView>(spec) == java_spec_check(ctx, f, repo, layout, tool, c);
                    lemma_java_spec_dockerfile(ctx, f, repo, layout, tool, c);
                },
                _ => {},
            }
        },
        _ => {},
    }
}

/// No wrapper script (`mvnw.cmd`, `mvnw`, `gradlew.bat`, `gradlew`) is in the
/// repository root, nor in the named module's directory of a multi-module run.
pub open spec fn no_wrapper_scripts(ctx: RunContext, f: FsFactsView, repo: Seq<char>, layout: JavaLayout) -> bool {
    let names = seq!["mvnw.cmd"@, "mvnw"@, "gradlew.bat"@, "gradlew"@];
    forall|i: int| 0 <= i < 4 ==> {
        &&& !f.files.contains(joined(repo, #[trigger] names[i]))
        &&& (ctx.cli.module is Some && layout == JavaLayout::Multi)
            ==> !f.files.contains(joined(joined(repo, ctx.cli.module->0@), names[i]))
    }
}

proof fn lemma_no_file_of_two(f: FsFactsView, dir: Seq<char>, a: Seq<char>, b: Seq<char>)
    requires
        !f.files.contains(joined(dir, a)),
        !f.files.contains(joined(dir, b)),
    ensures
        first_file(f, dir, seq![a, b]) is None,
        !any_file(f, dir, seq![a, b]),
{
    assert(seq![a, b][0] == a && seq![a, b][1] == b);
    assert(seq![a, b].drop_first() =~= seq![b]);
    assert(seq![b].drop_first() =~= Seq::<Seq<char>>::empty());
    assert(seq![b][0] == b);
    assert(first_file(f, dir, Seq::<Seq<char>>::empty()) is None);
    assert(first_file(f, dir, seq![b]) is None);
    assert(first_file(f, dir, seq![a, b]) == first_file(f, dir, seq![b]));
}

/// How the build tool is chosen: a requested tool is used as asked; with
/// `auto` and no wrapper script, Maven is chosen exactly when the root holds
/// `pom.xml`, else Gradle when it holds `build.gradle` or `build.gradle.kts`,
/// each taken from the search path, and with neither the choice is refused;
/// with `auto`, a Maven wrapper in the root of a single-module project
/// selects Maven through that wrapper.
pub proof fn lemma_tool_choice(ctx: RunContext, f: FsFactsView, repo: Seq<char>, layout: JavaLayout)
    ensures
        ctx.cli.build_tool == BuildToolArg::Maven
            ==> (tool_plan(ctx, f, repo, layout) matches Ok((t, _)) && t == EffectiveBuildTool::Maven),
        ctx.cli.build_tool == BuildToolArg::Gradle
            ==> (tool_plan(ctx, f, repo, layout) matches Ok((t, _)) && t == EffectiveBuildTool::Gradle),
        (ctx.cli.build_tool == BuildToolArg::Auto && no_wrapper_scripts(ctx, f, repo, layout)) ==> (
            if f.files.contains(joined(repo, "pom.xml"@)) {
                tool_plan(ctx, f, repo, layout) == Ok::<(EffectiveBuildTool, ToolCommandView), ErrorView>(
                    (EffectiveBuildTool::Maven, ToolCommandView::OnPath("mvn"@)))
            } else if f.files.contains(joined(repo, "build.gradle"@)) || f.files.contains(joined(repo, "build.gradle.kts"@)) {
                tool_plan(ctx, f, repo, layout) == Ok::<(EffectiveBuildTool, ToolCommandView), ErrorView>(
                    (EffectiveBuildTool::Gradle, ToolCommandView::OnPath("gradle"@)))
            } else {
                tool_plan(ctx, f, repo, layout) is Err
            }
        ),
        (ctx.cli.build_tool == BuildToolArg::Auto && layout == JavaLayout::Single && f.files.contains(joined(repo, "mvnw"@)))
            ==> (tool_plan(ctx, f, repo, layout) matches Ok((t, c)) && t == EffectiveBuildTool::Maven && c is Wrapper),
{
    let names = seq!["mvnw.cmd"@, "mvnw"@, "gradlew.bat"@, "gradlew"@];
    if ctx.cli.build_tool == BuildToolArg::Auto && no_wrapper_scripts(ctx, f, repo, layout) {
        assert(names[0] == "mvnw.cmd"@ && names[1] == "mvnw"@ && names[2] == "gradlew.bat"@ && names[3] == "gradlew"@);
        assert(!f.files.contains(joined(repo, names[0])));
        assert(!f.files.contains(joined(repo, names[1])));
        assert(!f.files.contains(joined(repo, names[2])));
        assert(!f.files.contains(joined(repo, names[3])));
        lemma_no_file_of_two(f, repo, "mvnw.cmd"@, "mvnw"@);
        lemma_no_file_of_two(f, repo, "gradlew.bat"@, "gradlew"@);
        if ctx.cli.module is Some && layout == JavaLayout::Multi {
            let md = joined(repo, ctx.cli.module->0@);
            assert(!f.files.contains(joined(md, names[0])));
            assert(!f.files.contains(joined(md, names[1])));
            assert(!f.files.contains(joined(md, names[2])));
            assert(!f.files.contains(joined(md, names[3])));
            lemma_no_file_of_two(f, md, "mvnw.cmd"@, "mvnw"@);
            lemma_no_file_of_two(f, md, "gradlew.bat"@, "gradlew"@);
        }
        let pom = seq!["pom.xml"@];
        assert(pom[0] == "pom.xml"@);
        if f.files.contains(joined(repo, "pom.xml"@)) {
            assert(any_file(f, repo, pom));
        } else {
            assert(!any_file(f, repo, pom));
            let g = seq!["build.gradle"@, "build.gradle.kts"@];
            assert(g[0] == "build.gradle"@ && g[1] == "build.gradle.kts"@);
            if f.files.contains(joined(repo, "build.gradle"@)) {
                assert(any_file(f, repo, g));
            } else if f.files.contains(joined(repo, "build.gradle.kts"@)) {
                assert(any_file(f, repo, g));
            } else {
                lemma_no_file_of_two(f, repo, "build.gradle"@, "build.gradle.kts"@);
            }
        }
    }
    if ctx.cli.build_tool == BuildToolArg::Auto && layout == JavaLayout::Single && f.files.contains(joined(repo, "mvnw"@)) {
        let w = seq!["mvnw.cmd"@, "mvnw"@];
        assert(w[0] == "mvnw.cmd"@);
        assert(w.drop_first() =~= seq!["mvnw"@]);
        assert(seq!["mvnw"@][0] == "mvnw"@);
        assert(first_file(f, repo, seq!["mvnw"@]) is Some);
        assert(first_file(f, repo, w) is Some);
    }
}

/// Where a Java project is built and its JAR looked for: a single-module
/// project builds at the repository root; a multi-module one in the module's
/// directory under the root. The Dockerfile sits in that build directory, and
/// the JAR is looked for inside it (`target` for Maven, `build/libs` for
/// Gradle).
pub proof fn lemma_java_build_paths(
    ctx: RunContext,
    f: FsFactsView,
    repo: Seq<char>,
    layout: JavaLayout,
    tool: EffectiveBuildTool,
    command: Seq<char>,
)
    requires
        java_spec_check(ctx, f, repo, layout, tool, command) is Ok,
    ensures
        ({
            let s = java_spec_check(ctx, f, repo, layout, tool, command)->Ok_0;
            &&& s.project_type == ProjectType::Java
            &&& s.java_layout == Some(layout)
            &&& s.build_tool == Some(tool)
            &&& s.build_tool_command == Some(command)
            &&& s.project_root == repo
            &&& layout == JavaLayout::Single ==> s.build_context_dir == repo && s.module_name is None
            &&& layout == JavaLayout::Multi ==> s.module_name is Some && s.build_context_dir == joined(repo, s.module_name->0)
            &&& s.dockerfile_path == joined(s.build_context_dir, "Dockerfile"@)
            &&& tool == EffectiveBuildTool::Maven ==> s.artifact_search_dir == Some(joined(s.build_context_dir, "target"@))
            &&& tool == EffectiveBuildTool::Gradle
                ==> s.artifact_search_dir == Some(joined(joined(s.build_context_dir, "build"@), "libs"@))
            &&& within(s.build_context_dir, s.artifact_search_dir->0)
        }),
{
    let s = java_spec_check(ctx, f, repo, layout, tool, command)->Ok_0;
    let d = s.build_context_dir;
    reveal_strlit("target");
    reveal_strlit("build");
    reveal_strlit("libs");
    assert(seq!['.'].len() == 1 && seq!['.', '.'].len() == 2);
    if tool == EffectiveBuildTool::Maven {
        let t = "target"@;
        assert(t.len() == 6 && t != seq!['.'] && t != seq!['.', '.']);
        assert(sep_free(t));
        lemma_within_child(d, t);
    } else {
        let b = "build"@;
        let l = "libs"@;
        assert(b.len() == 5 && b != seq!['.'] && b != seq!['.', '.']);
        assert(l.len() == 4 && l != seq!['.'] && l != seq!['.', '.']);
        assert(sep_free(b));
        assert(sep_free(l));
        lemma_within_child(d, b);
        lemma_within_child(joined(d, b), l);
        lemma_within_transitive(d, joined(d, b), joined(joined(d, b), l));
    }
}

/// The project type: the one given on the command line wins; otherwise a
/// root `pom.xml`, `build.gradle` or `build.gradle.kts` makes it Java, else a
/// root `Dockerfile` makes it Web, else it cannot be told.
pub proof fn lemma_project_type_rule(ctx: RunContext, f: FsFactsView, repo: Seq<char>)
    ensures
        ctx.cli.project_type is Some ==> project_type_check(ctx, f, repo) == Ok::<ProjectType, ErrorView>(ctx.cli.project_type->0),
        ctx.cli.project_type is None ==> (
            if f.files.contains(joined(repo, "pom.xml"@)) || f.files.contains(joined(repo, "build.gradle"@))
                || f.files.contains(joined(repo, "build.gradle.kts"@)) {
                project_type_check(ctx, f, repo) == Ok::<ProjectType, ErrorView>(ProjectType::Java)
            } else if f.files.contains(joined(repo, "Dockerfile"@)) {
                project_type_check(ctx, f, repo) == Ok::<ProjectType, ErrorView>(ProjectType::Web)
            } else {
                project_type_check(ctx, f, repo) is Err
            }
        ),
{
    let names = build_file_names();
    assert(names[0] == "pom.xml"@ && names[1] == "build.gradle"@ && names[2] == "build.gradle.kts"@);
    if !any_file(f, repo, names) {
        assert(!f.files.contains(joined(repo, names[0])));
        assert(!f.files.contains(joined(repo, names[1])));
        assert(!f.files.contains(joined(repo, names[2])));
    }
}

} // verus!

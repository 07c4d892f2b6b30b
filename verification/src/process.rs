//! Commands the deployment runs, and what their outcome means.
use std::collections::VecDeque;
use vstd::prelude::*;
use crate::error::{DeployError, ErrorView, unit_outcome};
use crate::text::{join_strings, join_text, views};

verus! {

/// Everything needed to run one external command with streamed output.
#[derive(Debug, Clone)]
pub struct CommandSpec {
    pub stage: &'static str,
    pub program: String,
    pub args: Vec<String>,
    pub display_override: Option<String>,
    pub workdir: Option<String>,
    pub envs: Vec<(String, String)>,
    pub stdin_text: Option<String>,
}

pub struct CommandView {
    pub stage: Seq<char>,
    pub program: Seq<char>,
    pub args: Seq<Seq<char>>,
    pub display_override: Option<Seq<char>>,
    pub workdir: Option<Seq<char>>,
    pub envs: Seq<(Seq<char>, Seq<char>)>,
    pub stdin_text: Option<Seq<char>>,
}

/// The views of a list of environment entries.
pub open spec fn env_views(v: Seq<(String, String)>) -> Seq<(Seq<char>, Seq<char>)> {
    v.map_values(|e: (String, String)| (e.0@, e.1@))
}

impl View for CommandSpec {
    type V = CommandView;

    open spec fn view(&self) -> CommandView {
        CommandView {
            stage: self.stage@,
            program: self.program@,
            args: views(self.args@),
            display_override: self.display_override.deep_view(),
            workdir: self.workdir.deep_view(),
            envs: env_views(self.envs@),
            stdin_text: self.stdin_text.deep_view(),
        }
    }
}

/// The human-readable form of a command: the override when there is one,
/// else the program followed by its arguments, separated by spaces.
pub open spec fn displayed(c: CommandView) -> Seq<char> {
    match c.display_override {
        Some(d) => d,
        None => if c.args.len() == 0 {
            c.program
        } else {
            c.program + " "@ + join_text(c.args, " "@)
        },
    }
}

impl CommandSpec {
    /// Shows the command in human-readable form.
    pub fn display_command(&self) -> (s: String)
        ensures
            s@ == displayed(self@),
    {
        match &self.display_override {
            Some(d) => d.clone(),
            None => {
                if self.args.len() == 0 {
                    self.program.clone()
                } else {
                    let mut s = self.program.clone();
                    s.append(" ");
                    let rest = join_strings(self.args.as_slice(), " ");
                    s.append(rest.as_str());
                    s
                }
            },
        }
    }
}

/// How many of the last standard-error lines a failure report keeps.
pub open spec fn tail_limit() -> nat {
    8
}

/// The last `tail_limit()` lines of `lines` (all of them when there are fewer).
pub open spec fn last_lines(lines: Seq<Seq<char>>) -> Seq<Seq<char>> {
    if lines.len() <= tail_limit() {
        lines
    } else {
        lines.subrange(lines.len() - tail_limit(), lines.len() as int)
    }
}

/// The last lines a command wrote to standard error, kept for its failure report.
pub struct StderrTail {
    lines: VecDeque<String>,
}

impl View for StderrTail {
    type V = Seq<Seq<char>>;

    closed spec fn view(&self) -> Seq<Seq<char>> {
        self.lines@.map_values(|s: String| s@)
    }
}

impl StderrTail {
    #[verifier::type_invariant]
    spec fn bounded(&self) -> bool {
        self.lines@.len() <= tail_limit()
    }

    /// An empty tail.
    pub fn new() -> (t: StderrTail)
        ensures
            t@ == Seq::<Seq<char>>::empty(),
    {
        let t = StderrTail { lines: VecDeque::new() };
        assert(t@ =~= Seq::<Seq<char>>::empty());
        t
    }

    /// Records one more line; the oldest line is dropped once the tail is full.
    pub fn push(&mut self, line: String)
        ensures
            final(self)@ == last_lines(old(self)@.push(line@)),
    {
        proof { use_type_invariant(&*self); }
        let ghost before = self@;
        let mut lines: VecDeque<String> = VecDeque::new();
        std::mem::swap(&mut lines, &mut self.lines);
        if lines.len() >= 8 {
            lines.pop_front();
        }
        lines.push_back(line);
        self.lines = lines;
        proof {
            let after = self@;
            if before.len() >= 8 {
                assert(after =~= before.push(line@).subrange(
                    (before.len() + 1 - tail_limit()) as int,
                    (before.len() + 1) as int,
                ));
            } else {
                assert(after =~= before.push(line@));
            }
        }
    }

    /// Number of lines kept.
    pub fn len(&self) -> (n: usize)
        ensures
            n == self@.len(),
    {
        self.lines.len()
    }

    /// The kept lines joined with ` | `, or nothing when no line was kept.
    pub fn summary(&self) -> (s: Option<String>)
        ensures
            s.deep_view() == (if self@.len() == 0 { None } else { Some(join_text(self@, " | "@)) }),
    {
        if self.lines.len() == 0 {
            return None;
        }
        let ghost all = self@;
        let mut s = String::new();
        let mut i: usize = 0;
        while i < self.lines.len()
            invariant
                all == self@,
                i <= self.lines@.len(),
                s@ == join_text(all.take(i as int), " | "@),
            decreases self.lines.len() - i,
        {
            proof {
                assert(all.take(i + 1).drop_last() =~= all.take(i as int));
                assert(all[i as int] == self.lines@[i as int]@);
            }
            if i > 0 {
                s.append(" | ");
            }
            s.append(self.lines[i].as_str());
            proof {
                if i == 0 {
                    assert(all.take(1) =~= seq![all[0]]);
                    assert(s@ =~= join_text(all.take(1), " | "@));
                }
            }
            i = i + 1;
        }
        assert(all.take(self.lines@.len() as int) =~= all);
        Some(s)
    }
}

/// The lines kept after pushing `lines` one by one into an empty tail.
pub open spec fn tail_after(lines: Seq<Seq<char>>) -> Seq<Seq<char>>
    decreases lines.len(),
{
    if lines.len() == 0 {
        Seq::empty()
    } else {
        last_lines(tail_after(lines.drop_last()).push(lines.last()))
    }
}

/// Whatever lines a command writes, its failure report keeps exactly the
/// last eight of them (all of them when it wrote eight or fewer), in order.
pub proof fn lemma_tail_keeps_last_lines(lines: Seq<Seq<char>>)
    ensures
        tail_after(lines) == last_lines(lines),
    decreases lines.len(),
{
    if lines.len() > 0 {
        lemma_tail_keeps_last_lines(lines.drop_last());
        let prev = lines.drop_last();
        let t = last_lines(prev);
        if prev.len() <= tail_limit() {
            assert(t.push(lines.last()) =~= lines);
        } else {
            assert(t.push(lines.last()) =~= lines.subrange(lines.len() - 1 - tail_limit(), lines.len() as int));
            assert(last_lines(t.push(lines.last())) =~= last_lines(lines));
        }
    }
}

/// What a finished command means for the deployment: success, or a
/// `CommandFailed` naming the stage, the displayed command, the exit code and
/// the kept standard-error lines.
pub open spec fn command_outcome(c: CommandView, success: bool, exit_code: Option<i32>, tail: Seq<Seq<char>>) -> Result<(), ErrorView> {
    if success {
        Ok(())
    } else {
        Err(ErrorView::CommandFailed {
            stage: c.stage,
            command: displayed(c),
            exit_code,
            stderr_tail: if tail.len() == 0 { None } else { Some(join_text(tail, " | "@)) },
        })
    }
}

/// Turns the exit of a command into the deployment's result.
pub fn finish_command(spec: &CommandSpec, success: bool, exit_code: Option<i32>, tail: &StderrTail) -> (r: Result<(), DeployError>)
    ensures
        unit_outcome(r) == command_outcome(spec@, success, exit_code, tail@),
{
    if success {
        return Ok(());
    }
    Err(DeployError::CommandFailed {
        stage: String::from_str(spec.stage),
        command: spec.display_command(),
        exit_code,
        stderr_tail: tail.summary(),
    })
}

/// Looks `program` up on the executable search path (`which::which`).
///
/// Whether something is found, and where, depends on the environment and
/// the file system at the time of the call; that is left unsaid. Claimed: a
/// path that is found names an executable file, so it is not empty.
#[verifier::external_body]
fn locate_executable(program: &str) -> (found: Option<String>)
    ensures
        found matches Some(p) ==> p@.len() > 0,
{
    match which::which(program) {
        Ok(path) => Some(path.to_string_lossy().to_string()),
        Err(_) => None,
    }
}

/// Resolves an external command on the search path to the path of the
/// executable found (never empty); a missing command is a `MissingTool`
/// error naming it.
pub fn require_command(program: &str) -> (r: Result<String, DeployError>)
    ensures
        r matches Ok(path) ==> path@.len() > 0,
        r matches Err(e) ==> e@ == (ErrorView::MissingTool { program: program@ }),
{
    match locate_executable(program) {
        Some(path) => Ok(path),
        None => Err(DeployError::MissingTool { program: String::from_str(program) }),
    }
}

/// A path in the form a command line takes it.
pub fn path_to_string(path: &str) -> (s: String)
    ensures
        s@ == path@,
{
    String::from_str(path)
}

} // verus!

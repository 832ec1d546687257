//! What the harness asks of an external program, and what it learns back.
//!
//! Nothing here launches a process. A caller runs each `Invocation` and
//! reports what happened as a `RunResult`.

use crate::text::{push_str, texts};
use vstd::prelude::*;
use vstd::string::StringExecFns;

verus! {

/// One external program with its argument vector.
#[derive(Clone, Debug, PartialEq, Eq)]
pub struct Invocation {
    /// Name of the executable, resolved through the search path.
    pub program: String,
    /// Arguments, in order.
    pub args: Vec<String>,
    /// Whether the program's standard output is to be discarded.
    pub quiet: bool,
}

/// The mathematical content of an `Invocation`.
pub struct InvocationView {
    pub program: Seq<char>,
    pub args: Seq<Seq<char>>,
    pub quiet: bool,
}

impl View for Invocation {
    type V = InvocationView;

    open spec fn view(&self) -> InvocationView {
        InvocationView { program: self.program@, args: texts(self.args@), quiet: self.quiet }
    }
}

/// How a launched program ended.
#[derive(Clone, Copy, Debug, PartialEq, Eq, Structural)]
pub struct ProcessOutcome {
    /// The program exited with status zero.
    pub success: bool,
}

impl ProcessOutcome {
    /// Reads an exit status: `Some(code)` for a normal exit, `None` when the
    /// program was terminated abnormally. Only a normal exit with code zero
    /// counts as success.
    pub fn from_exit_code(code: Option<i32>) -> (outcome: ProcessOutcome)
        ensures
            outcome.success <==> code == Some(0i32),
    {
        match code {
            Some(c) => ProcessOutcome { success: c == 0 },
            None => ProcessOutcome { success: false },
        }
    }
}

/// The executable could not be launched at all.
#[derive(Clone, Debug, PartialEq, Eq)]
pub struct SpawnError {
    /// The program that was to be launched.
    pub program: String,
    /// The operating system's explanation.
    pub cause: String,
}

impl SpawnError {
    /// An equal error of its own.
    pub fn duplicate(&self) -> (copy: SpawnError)
        ensures
            copy == *self,
    {
        SpawnError { program: self.program.clone(), cause: self.cause.clone() }
    }
}

/// What running one `Invocation` gave.
pub type RunResult = Result<ProcessOutcome, SpawnError>;

/// Whether the program was launched and exited with status zero.
pub open spec fn succeeded(result: RunResult) -> bool {
    result matches Ok(outcome) && outcome.success
}

/// An external tool that a harness depends on.
#[derive(Clone, Debug, PartialEq, Eq)]
pub struct Tool {
    /// Name of the executable.
    pub command: String,
    /// Name of the package that provides it.
    pub package: String,
}

/// The mathematical content of a `Tool`.
pub struct ToolView {
    pub command: Seq<char>,
    pub package: Seq<char>,
}

impl View for Tool {
    type V = ToolView;

    open spec fn view(&self) -> ToolView {
        ToolView { command: self.command@, package: self.package@ }
    }
}

/// A tool together with whether probing it launched a process.
#[derive(Clone, Debug, PartialEq, Eq)]
pub struct Probe {
    pub tool: Tool,
    /// The probe could be launched; its exit status does not matter.
    pub launched: bool,
}

/// The tools of `probes` that could not be launched, in order.
pub open spec fn missing(probes: Seq<Probe>) -> Seq<ToolView>
    decreases probes.len(),
{
    if probes.len() == 0 {
        Seq::empty()
    } else if probes.last().launched {
        missing(probes.drop_last())
    } else {
        missing(probes.drop_last()).push(probes.last().tool@)
    }
}

/// The contents of a list of tools.
pub open spec fn tool_views(tools: Seq<Tool>) -> Seq<ToolView> {
    Seq::new(tools.len(), |i: int| tools[i]@)
}

/// A tool is missing exactly if one of the probes that failed to launch names it.
pub proof fn lemma_missing_members(probes: Seq<Probe>, t: ToolView)
    ensures
        missing(probes).contains(t) <==> exists|i: int|
            0 <= i < probes.len() && !probes[i].launched && (#[trigger] probes[i]).tool@ == t,
        missing(probes).len() == 0 <==> forall|i: int|
            0 <= i < probes.len() ==> (#[trigger] probes[i]).launched,
    decreases probes.len(),
{
    if probes.len() > 0 {
        let rest = probes.drop_last();
        let last = probes.last();
        lemma_missing_members(rest, t);
        if missing(probes).contains(t) {
            let k = choose|k: int| 0 <= k < missing(probes).len() && missing(probes)[k] == t;
            if !last.launched && k == missing(rest).len() {
                assert(probes[probes.len() - 1].tool@ == t);
            } else {
                assert(missing(rest)[k] == t);
                assert(missing(rest).contains(t));
                let i = choose|i: int|
                    0 <= i < rest.len() && !rest[i].launched && (#[trigger] rest[i]).tool@ == t;
                assert(probes[i] == rest[i]);
            }
        }
        if exists|i: int|
            0 <= i < probes.len() && !probes[i].launched && (#[trigger] probes[i]).tool@ == t {
            let i = choose|i: int|
                0 <= i < probes.len() && !probes[i].launched && (#[trigger] probes[i]).tool@ == t;
            if i < rest.len() {
                assert(rest[i] == probes[i]);
                assert(missing(rest).contains(t));
                let k = choose|k: int| 0 <= k < missing(rest).len() && missing(rest)[k] == t;
                assert(missing(probes)[k] == t);
            } else {
                assert(missing(probes)[missing(rest).len() as int] == t);
            }
        }
        if forall|i: int| 0 <= i < probes.len() ==> (#[trigger] probes[i]).launched {
            assert forall|i: int| 0 <= i < rest.len() implies (#[trigger] rest[i]).launched by {
                assert(rest[i] == probes[i]);
            }
            assert(probes[probes.len() - 1].launched);
        }
        if missing(probes).len() == 0 {
            assert forall|i: int| 0 <= i < probes.len() implies (#[trigger] probes[i]).launched by {
                if i < rest.len() {
                    assert(rest[i] == probes[i]);
                }
            }
        }
    }
}

/// The tools the archive benchmark relies on, with the packages that provide them.
pub fn required_tools() -> (tools: Vec<Tool>)
    ensures
        tool_views(tools@) == seq![
            ToolView { command: "convert"@, package: "ImageMagick"@ },
            ToolView { command: "zip"@, package: "zip"@ },
            ToolView { command: "tar"@, package: "tar"@ },
            ToolView { command: "zstd"@, package: "zstandard"@ },
            ToolView { command: "xz"@, package: "xz-utils"@ },
            ToolView { command: "7z"@, package: "p7zip-full"@ },
        ],
{
    let mut tools: Vec<Tool> = Vec::new();
    tools.push(tool("convert", "ImageMagick"));
    tools.push(tool("zip", "zip"));
    tools.push(tool("tar", "tar"));
    tools.push(tool("zstd", "zstandard"));
    tools.push(tool("xz", "xz-utils"));
    tools.push(tool("7z", "p7zip-full"));
    assert(tool_views(tools@) =~= seq![
        ToolView { command: "convert"@, package: "ImageMagick"@ },
        ToolView { command: "zip"@, package: "zip"@ },
        ToolView { command: "tar"@, package: "tar"@ },
        ToolView { command: "zstd"@, package: "zstandard"@ },
        ToolView { command: "xz"@, package: "xz-utils"@ },
        ToolView { command: "7z"@, package: "p7zip-full"@ },
    ]);
    tools
}

fn tool(command: &str, package: &str) -> (t: Tool)
    ensures
        t@ == (ToolView { command: command@, package: package@ }),
{
    Tool { command: String::from_str(command), package: String::from_str(package) }
}

/// How to find out whether a tool can be launched: ask it for its help text.
pub fn probe_invocation(tool: &Tool) -> (probe: Invocation)
    ensures
        probe@ == (InvocationView { program: tool.command@, args: seq!["--help"@], quiet: true }),
{
    let mut args: Vec<String> = Vec::new();
    push_str(&mut args, "--help");
    let probe = Invocation { program: tool.command.clone(), args, quiet: true };
    assert(probe@.args =~= seq!["--help"@]);
    probe
}

/// Lists the tools that could not be launched, in the order of the probes.
pub fn missing_tools(probes: &Vec<Probe>) -> (absent: Vec<Tool>)
    ensures
        tool_views(absent@) == missing(probes@),
{
    let mut absent: Vec<Tool> = Vec::new();
    let mut i: usize = 0;
    proof {
        assert(probes@.take(0) =~= Seq::<Probe>::empty());
        assert(tool_views(absent@) =~= missing(probes@.take(0)));
    }
    while i < probes.len()
        invariant
            i <= probes.len(),
            tool_views(absent@) == missing(probes@.take(i as int)),
        decreases probes.len() - i,
    {
        let ghost before = absent@;
        proof {
            let next = probes@.take(i + 1);
            assert(next.drop_last() =~= probes@.take(i as int));
            assert(next.last() == probes@[i as int]);
        }
        if !probes[i].launched {
            let t = Tool {
                command: probes[i].tool.command.clone(),
                package: probes[i].tool.package.clone(),
            };
            absent.push(t);
            assert(tool_views(absent@) =~= tool_views(before).push(probes@[i as int].tool@));
        }
        i = i + 1;
    }
    proof {
        assert(probes@.take(probes.len() as int) =~= probes@);
    }
    absent
}

/// Decides whether the run may start: it may if every probe was launched.
/// Otherwise the tools that are missing are reported, in probe order.
pub fn check_required_commands(probes: &Vec<Probe>) -> (r: Result<(), Vec<Tool>>)
    ensures
        r is Ok <==> forall|i: int| 0 <= i < probes.len() ==> (#[trigger] probes[i]).launched,
        r is Ok <==> missing(probes@).len() == 0,
        r matches Err(absent) ==> tool_views(absent@) == missing(probes@),
{
    let absent: Vec<Tool> = missing_tools(probes);
    proof {
        lemma_missing_members(probes@, arbitrary());
    }
    if absent.len() == 0 {
        Ok(())
    } else {
        Err(absent)
    }
}

} // verus!

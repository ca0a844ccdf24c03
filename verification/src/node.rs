//! Detecting Node.js: the commands tried in turn, and what each outcome
//! leads to. The caller runs each command (with a three-second limit) and
//! hands its outcome back.
use vstd::prelude::*;
use crate::text::{chars_of, string_views, lemma_split_on_nonempty, lit, split_exec, split_on, string_from, trim, trim_exec};

verus! {

/// Which attempt the detection is at.
pub enum NodeStage {
    /// `node --version`, found through `PATH`.
    Path,
    /// `cmd /c node --version` (Windows).
    Cmd,
    /// `where node` (Windows).
    Where,
    /// `--version` of the node that `where` listed first (Windows).
    Listed,
    /// `--version` of the node at the usual install path with this index
    /// (Windows).
    Usual(u8),
    /// `node --version` through a shell (other systems).
    Shell,
}

/// What to do next.
pub enum NodeAction {
    /// Run `program` with `args`, then hand its outcome back with `stage`.
    Run { stage: NodeStage, program: String, args: Vec<String> },
    /// Node.js answered with this version.
    Found(String),
    /// No attempt succeeded; the message says so.
    NotFound(String),
}

/// A [`NodeAction`] as plain values.
pub enum NodeActionModel {
    Run(NodeStage, Seq<char>, Seq<Seq<char>>),
    Found(Seq<char>),
    NotFound(Seq<char>),
}

pub open spec fn node_action_view(a: NodeAction) -> NodeActionModel {
    match a {
        NodeAction::Run { stage, program, args } => NodeActionModel::Run(
            stage,
            program@,
            string_views(args@),
        ),
        NodeAction::Found(v) => NodeActionModel::Found(v@),
        NodeAction::NotFound(m) => NodeActionModel::NotFound(m@),
    }
}

/// The usual install paths of node on Windows.
pub open spec fn usual_node_path(i: int) -> Seq<char> {
    if i == 0 {
        "C:\\Program Files\\nodejs\\node.exe"@
    } else {
        "C:\\Program Files (x86)\\nodejs\\node.exe"@
    }
}

/// How many usual install paths are tried.
pub open spec fn usual_node_paths() -> int {
    2
}

/// The message when no attempt found Node.js.
pub open spec fn node_missing() -> Seq<char> {
    "未检测到 Node.js"@
}

/// The shell used on systems other than Windows.
pub open spec fn node_shell(bash_exists: bool) -> Seq<char> {
    if bash_exists {
        "/bin/bash"@
    } else {
        "/bin/sh"@
    }
}

/// The node that `where node` listed first: its first line, trimmed (none
/// when it printed nothing).
pub open spec fn listed_node(out: Seq<char>) -> Option<Seq<char>> {
    if out.len() == 0 {
        None
    } else {
        Some(trim(split_on(out, seq!['\n'])[0]))
    }
}

/// What a run printed (nothing when it did not run).
pub open spec fn printed(outcome: Option<(bool, Seq<char>)>) -> Seq<char> {
    match outcome {
        Some((_, out)) => out,
        None => Seq::empty(),
    }
}

/// Trying the usual install path with index `i`, or giving up after the last.
pub open spec fn usual_attempt(i: int) -> NodeActionModel {
    if 0 <= i < usual_node_paths() {
        NodeActionModel::Run(NodeStage::Usual(i as u8), usual_node_path(i), seq!["--version"@])
    } else {
        NodeActionModel::NotFound(node_missing())
    }
}

/// The first attempt: `node --version`.
pub open spec fn spec_node_start() -> NodeActionModel {
    NodeActionModel::Run(NodeStage::Path, "node"@, seq!["--version"@])
}

/// What follows the attempt `stage`, whose run gave `outcome` (`None` when
/// it could not be started or did not finish in time; else whether it
/// succeeded and what it printed). A successful version query gives the
/// version, trimmed. Otherwise the next attempt is, on Windows: `cmd /c`,
/// then `where node`, then the node that `where` listed first, then the
/// usual install paths in turn; on other systems: a shell. After the last,
/// Node.js is missing.
pub open spec fn spec_node_next(
    windows: bool,
    bash_exists: bool,
    stage: NodeStage,
    outcome: Option<(bool, Seq<char>)>,
) -> NodeActionModel {
    let ok = outcome matches Some((true, _));
    if ok && !(stage is Where) {
        NodeActionModel::Found(trim(printed(outcome)))
    } else {
        match stage {
            NodeStage::Path => if windows {
                NodeActionModel::Run(NodeStage::Cmd, "cmd"@, seq!["/c"@, "node"@, "--version"@])
            } else {
                NodeActionModel::Run(
                    NodeStage::Shell,
                    node_shell(bash_exists),
                    seq!["-c"@, "node --version"@],
                )
            },
            NodeStage::Cmd => NodeActionModel::Run(NodeStage::Where, "where"@, seq!["node"@]),
            NodeStage::Where => if ok && listed_node(printed(outcome)) is Some {
                NodeActionModel::Run(
                    NodeStage::Listed,
                    listed_node(printed(outcome))->0,
                    seq!["--version"@],
                )
            } else {
                usual_attempt(0)
            },
            NodeStage::Listed => usual_attempt(0),
            NodeStage::Usual(i) => usual_attempt(i + 1),
            NodeStage::Shell => NodeActionModel::NotFound(node_missing()),
        }
    }
}

fn version_args() -> (r: Vec<String>)
    ensures
        string_views(r@) == seq!["--version"@],
{
    let mut r: Vec<String> = Vec::new();
    r.push(lit("--version"));
    assert(string_views(r@) =~= seq!["--version"@]);
    r
}

fn usual_attempt_exec(i: u8) -> (r: NodeAction)
    ensures
        node_action_view(r) == usual_attempt(i as int),
{
    if i == 0 {
        NodeAction::Run {
            stage: NodeStage::Usual(0),
            program: lit("C:\\Program Files\\nodejs\\node.exe"),
            args: version_args(),
        }
    } else if i == 1 {
        NodeAction::Run {
            stage: NodeStage::Usual(1),
            program: lit("C:\\Program Files (x86)\\nodejs\\node.exe"),
            args: version_args(),
        }
    } else {
        NodeAction::NotFound(lit("未检测到 Node.js"))
    }
}

/// The node that `where node` listed first, if it printed anything.
pub fn listed_node_exec(out: &str) -> (r: Option<String>)
    ensures
        match r {
            Some(p) => listed_node(out@) == Some(p@),
            None => listed_node(out@) is None,
        },
{
    let v = chars_of(out);
    if v.len() == 0 {
        return None;
    }
    let mut nl: Vec<char> = Vec::new();
    nl.push('\n');
    assert(nl@ =~= seq!['\n']);
    let pieces = split_exec(&v, &nl);
    proof {
        lemma_split_on_nonempty(v@, nl@);
    }
    let first = trim_exec(&pieces[0]);
    Some(string_from(&first))
}

/// The first attempt at detecting Node.js.
pub fn node_probe_start() -> (r: NodeAction)
    ensures
        node_action_view(r) == spec_node_start(),
{
    NodeAction::Run { stage: NodeStage::Path, program: lit("node"), args: version_args() }
}

/// What follows the attempt `stage` that gave `outcome`.
pub fn node_probe_next(
    windows: bool,
    bash_exists: bool,
    stage: NodeStage,
    outcome: Option<(bool, String)>,
) -> (r: NodeAction)
    ensures
        node_action_view(r) == spec_node_next(
            windows,
            bash_exists,
            stage,
            match outcome {
                Some((ok, out)) => Some((ok, out@)),
                None => None,
            },
        ),
{
    let (ok, out) = match outcome {
        Some((true, o)) => (true, o),
        Some((false, o)) => (false, o),
        None => (false, String::new()),
    };
    let is_where = match stage {
        NodeStage::Where => true,
        _ => false,
    };
    if ok && !is_where {
        return NodeAction::Found(string_from(&trim_exec(&chars_of(out.as_str()))));
    }
    match stage {
        NodeStage::Path => {
            if windows {
                let mut args: Vec<String> = Vec::new();
                args.push(lit("/c"));
                args.push(lit("node"));
                args.push(lit("--version"));
                assert(string_views(args@) =~= seq!["/c"@, "node"@, "--version"@]);
                NodeAction::Run { stage: NodeStage::Cmd, program: lit("cmd"), args }
            } else {
                let shell = if bash_exists {
                    lit("/bin/bash")
                } else {
                    lit("/bin/sh")
                };
                let mut args: Vec<String> = Vec::new();
                args.push(lit("-c"));
                args.push(lit("node --version"));
                assert(string_views(args@) =~= seq!["-c"@, "node --version"@]);
                NodeAction::Run { stage: NodeStage::Shell, program: shell, args }
            }
        },
        NodeStage::Cmd => {
            let mut args: Vec<String> = Vec::new();
            args.push(lit("node"));
            assert(string_views(args@) =~= seq!["node"@]);
            NodeAction::Run { stage: NodeStage::Where, program: lit("where"), args }
        },
        NodeStage::Where => {
            if ok {
                match listed_node_exec(out.as_str()) {
                    Some(p) => NodeAction::Run {
                        stage: NodeStage::Listed,
                        program: p,
                        args: version_args(),
                    },
                    None => usual_attempt_exec(0),
                }
            } else {
                usual_attempt_exec(0)
            }
        },
        NodeStage::Listed => usual_attempt_exec(0),
        NodeStage::Usual(i) => {
            if i >= 1 {
                NodeAction::NotFound(lit("未检测到 Node.js"))
            } else {
                usual_attempt_exec(i + 1)
            }
        },
        NodeStage::Shell => NodeAction::NotFound(lit("未检测到 Node.js")),
    }
}

/// How many attempts at most can still follow `stage`.
pub open spec fn node_attempts_left(stage: NodeStage) -> int {
    match stage {
        NodeStage::Path => 5,
        NodeStage::Cmd => 4,
        NodeStage::Where => 3,
        NodeStage::Listed => 2,
        NodeStage::Usual(i) => if i == 0 {
            1
        } else {
            0
        },
        NodeStage::Shell => 0,
    }
}

/// The detection always ends: every attempt that follows another has fewer
/// attempts left after it, whatever the outcome, so at most six commands
/// run before Node.js is found or declared missing.
pub proof fn law_node_probe_ends(
    windows: bool,
    bash_exists: bool,
    stage: NodeStage,
    outcome: Option<(bool, Seq<char>)>,
)
    ensures
        match spec_node_next(windows, bash_exists, stage, outcome) {
            NodeActionModel::Run(next, _, _) => 0 <= node_attempts_left(next) < node_attempts_left(
                stage,
            ),
            _ => true,
        },
        node_attempts_left(NodeStage::Path) == 5,
{
}

/// A version query that succeeds ends the detection with the version it
/// printed, trimmed, whichever attempt ran it: `node` through `PATH`, through
/// `cmd /c`, the node that `where` listed, a usual install path, or a shell.
/// Only `where node` answers with a path rather than a version.
pub proof fn law_node_success_is_found(
    windows: bool,
    bash_exists: bool,
    stage: NodeStage,
    out: Seq<char>,
)
    requires
        !(stage is Where),
    ensures
        spec_node_next(windows, bash_exists, stage, Some((true, out)))
            == NodeActionModel::Found(trim(out)),
{
}

/// Node.js is reported found only when a version query succeeded, and then
/// with what it printed, trimmed; it is reported missing only after a last
/// attempt failed (the shell elsewhere, the second usual path on Windows).
pub proof fn law_node_found_only_on_success(
    windows: bool,
    bash_exists: bool,
    stage: NodeStage,
    outcome: Option<(bool, Seq<char>)>,
)
    ensures
        spec_node_next(windows, bash_exists, stage, outcome) matches NodeActionModel::Found(v)
            ==> !(stage is Where) && (outcome matches Some((true, o)) && v == trim(o)),
        spec_node_next(windows, bash_exists, stage, outcome) is NotFound ==> !(outcome matches Some(
            (true, _),
        )) && (stage is Shell || (stage matches NodeStage::Usual(i) && i >= 1)),
{
}

/// When an attempt fails (it could not run, timed out or did not succeed),
/// the next is, on Windows, `cmd /c node --version`, then `where node`, then
/// the first usual install path (after `where` or the node it listed), then
/// the second; on other systems `node --version` through `/bin/bash` when it
/// exists, else `/bin/sh`.
pub proof fn law_node_attempt_order(
    windows: bool,
    bash_exists: bool,
    outcome: Option<(bool, Seq<char>)>,
)
    requires
        !(outcome matches Some((true, _))),
    ensures
        windows ==> spec_node_next(windows, bash_exists, NodeStage::Path, outcome)
            == NodeActionModel::Run(NodeStage::Cmd, "cmd"@, seq!["/c"@, "node"@, "--version"@]),
        !windows ==> spec_node_next(windows, bash_exists, NodeStage::Path, outcome)
            == NodeActionModel::Run(
            NodeStage::Shell,
            if bash_exists {
                "/bin/bash"@
            } else {
                "/bin/sh"@
            },
            seq!["-c"@, "node --version"@],
        ),
        spec_node_next(windows, bash_exists, NodeStage::Cmd, outcome) == NodeActionModel::Run(
            NodeStage::Where,
            "where"@,
            seq!["node"@],
        ),
        spec_node_next(windows, bash_exists, NodeStage::Where, outcome) == NodeActionModel::Run(
            NodeStage::Usual(0),
            "C:\\Program Files\\nodejs\\node.exe"@,
            seq!["--version"@],
        ),
        spec_node_next(windows, bash_exists, NodeStage::Listed, outcome) == NodeActionModel::Run(
            NodeStage::Usual(0),
            "C:\\Program Files\\nodejs\\node.exe"@,
            seq!["--version"@],
        ),
        spec_node_next(windows, bash_exists, NodeStage::Usual(0), outcome) == NodeActionModel::Run(
            NodeStage::Usual(1),
            "C:\\Program Files (x86)\\nodejs\\node.exe"@,
            seq!["--version"@],
        ),
        spec_node_next(windows, bash_exists, NodeStage::Usual(1), outcome) == NodeActionModel::NotFound(
            "未检测到 Node.js"@,
        ),
        spec_node_next(windows, bash_exists, NodeStage::Shell, outcome) == NodeActionModel::NotFound(
            "未检测到 Node.js"@,
        ),
{
}

/// When `where node` succeeds and prints something, the node on its first
/// line, trimmed, is asked for its version next.
pub proof fn law_node_where_lists_node(windows: bool, bash_exists: bool, out: Seq<char>)
    requires
        out.len() > 0,
    ensures
        spec_node_next(windows, bash_exists, NodeStage::Where, Some((true, out)))
            == NodeActionModel::Run(
            NodeStage::Listed,
            trim(split_on(out, seq!['\n'])[0]),
            seq!["--version"@],
        ),
{
}

/// The first attempt is always `node --version` through `PATH`.
pub proof fn law_node_probe_starts_with_path()
    ensures
        spec_node_start() == NodeActionModel::Run(NodeStage::Path, "node"@, seq!["--version"@]),
{
}

} // verus!

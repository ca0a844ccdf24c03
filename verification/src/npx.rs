//! Finding npx: on Windows, node.exe with npm's `npx-cli.js` beside it is
//! preferred (a `.cmd` shim would need the command interpreter), then an
//! `npx.exe`; elsewhere `npx` from `PATH`. The caller runs `where` and
//! checks files as asked, and hands the outcome back.
use vstd::prelude::*;
use crate::paths::{join_path, path_join, path_parent};
use crate::service::{
    first_exe, first_exe_line, npx_cli_beside, npx_cli_path, spec_first_exe_line,
    spec_npx_cli_path, NpxLauncher,
};
use crate::text::{ends_with, lit, lower_seq, split_on, string_views, trim};

verus! {

/// The usual install directories of Node.js on Windows, in the order tried.
pub open spec fn npx_base(i: int) -> Seq<char> {
    if i == 0 {
        "D:\\nodejs"@
    } else if i == 1 {
        "C:\\Program Files\\nodejs"@
    } else {
        "C:\\Program Files (x86)\\nodejs"@
    }
}

/// How many usual install directories are tried.
pub open spec fn npx_bases() -> int {
    3
}

/// Where the search for npx stands.
pub enum NpxStage {
    /// `where node` runs.
    WhereNode,
    /// `where node` listed this node; is npm's script (the second path)
    /// beside it?
    Beside(String, String),
    /// `where npx` runs.
    WhereNpx,
    /// Are node.exe and npm's script in the usual directory with this index?
    UsualNode(u8),
    /// Is npx.exe in the usual directory with this index?
    UsualNpx(u8),
}

/// A [`NpxStage`] as plain values.
pub enum NpxStageModel {
    WhereNode,
    Beside(Seq<char>, Seq<char>),
    WhereNpx,
    UsualNode(int),
    UsualNpx(int),
}

pub open spec fn npx_stage_view(s: NpxStage) -> NpxStageModel {
    match s {
        NpxStage::WhereNode => NpxStageModel::WhereNode,
        NpxStage::Beside(n, c) => NpxStageModel::Beside(n@, c@),
        NpxStage::WhereNpx => NpxStageModel::WhereNpx,
        NpxStage::UsualNode(i) => NpxStageModel::UsualNode(i as int),
        NpxStage::UsualNpx(i) => NpxStageModel::UsualNpx(i as int),
    }
}

/// What the caller found.
pub enum NpxOutcome {
    /// What `where` printed when it ran and succeeded; none otherwise.
    Listed(Option<String>),
    /// Whether every path asked about exists.
    AllExist(bool),
}

pub enum NpxOutcomeModel {
    Listed(Option<Seq<char>>),
    AllExist(bool),
}

pub open spec fn npx_outcome_view(o: NpxOutcome) -> NpxOutcomeModel {
    match o {
        NpxOutcome::Listed(Some(t)) => NpxOutcomeModel::Listed(Some(t@)),
        NpxOutcome::Listed(None) => NpxOutcomeModel::Listed(None),
        NpxOutcome::AllExist(b) => NpxOutcomeModel::AllExist(b),
    }
}

/// What to do next.
pub enum NpxAction {
    /// Run `where <name>` and hand back its output with `stage`.
    Where { stage: NpxStage, name: String },
    /// Check whether all `paths` exist and hand back the answer with `stage`.
    Check { stage: NpxStage, paths: Vec<String> },
    /// npx is started this way.
    Found(NpxLauncher),
    /// No npx was found.
    NotFound,
}

/// An [`NpxLauncher`] as plain values.
pub enum LauncherModel {
    NodeCli(Seq<char>, Seq<char>),
    Direct(Seq<char>),
}

pub enum NpxActionModel {
    Where(NpxStageModel, Seq<char>),
    Check(NpxStageModel, Seq<Seq<char>>),
    Found(LauncherModel),
    NotFound,
}

pub open spec fn launcher_view(l: NpxLauncher) -> LauncherModel {
    match l {
        NpxLauncher::NodeCli(n, c) => LauncherModel::NodeCli(n@, c@),
        NpxLauncher::Direct(p) => LauncherModel::Direct(p@),
    }
}

pub open spec fn npx_action_view(a: NpxAction) -> NpxActionModel {
    match a {
        NpxAction::Where { stage, name } => NpxActionModel::Where(npx_stage_view(stage), name@),
        NpxAction::Check { stage, paths } => NpxActionModel::Check(
            npx_stage_view(stage),
            string_views(paths@),
        ),
        NpxAction::Found(l) => NpxActionModel::Found(launcher_view(l)),
        NpxAction::NotFound => NpxActionModel::NotFound,
    }
}

/// The first step: `where node` on Windows, else `npx` through `PATH`.
pub open spec fn spec_npx_start(windows: bool) -> NpxActionModel {
    if windows {
        NpxActionModel::Where(NpxStageModel::WhereNode, "node"@)
    } else {
        NpxActionModel::Found(LauncherModel::Direct("npx"@))
    }
}

/// Trying the usual directory with index `i`, or giving up after the last.
pub open spec fn usual_npx(i: int) -> NpxActionModel {
    if 0 <= i < npx_bases() {
        NpxActionModel::Check(
            NpxStageModel::UsualNode(i),
            seq![path_join(npx_base(i), "node.exe"@), spec_npx_cli_path(npx_base(i))],
        )
    } else {
        NpxActionModel::NotFound
    }
}

pub open spec fn listed_text(o: NpxOutcomeModel) -> Option<Seq<char>> {
    match o {
        NpxOutcomeModel::Listed(Some(t)) => Some(t),
        _ => None,
    }
}

pub open spec fn all_exist(o: NpxOutcomeModel) -> bool {
    o == NpxOutcomeModel::AllExist(true)
}

/// What follows `stage` given `outcome`. `where node`'s first `.exe` line
/// is a node whose parent directory holds npm's script, which is checked
/// (no parent ends the search); without one, or without the script, `where
/// npx`'s first `.exe` line is used; then, in each usual directory,
/// node.exe with the script, else npx.exe.
pub open spec fn spec_npx_next(stage: NpxStageModel, outcome: NpxOutcomeModel) -> NpxActionModel {
    match stage {
        NpxStageModel::WhereNode => match listed_text(outcome) {
            Some(t) => match spec_first_exe_line(t) {
                Some(node) => match path_parent(node) {
                    Some(d) => NpxActionModel::Check(
                        NpxStageModel::Beside(node, spec_npx_cli_path(d)),
                        seq![spec_npx_cli_path(d)],
                    ),
                    None => NpxActionModel::NotFound,
                },
                None => NpxActionModel::Where(NpxStageModel::WhereNpx, "npx"@),
            },
            None => NpxActionModel::Where(NpxStageModel::WhereNpx, "npx"@),
        },
        NpxStageModel::Beside(node, cli) => if all_exist(outcome) {
            NpxActionModel::Found(LauncherModel::NodeCli(node, cli))
        } else {
            NpxActionModel::Where(NpxStageModel::WhereNpx, "npx"@)
        },
        NpxStageModel::WhereNpx => match listed_text(outcome) {
            Some(t) => match spec_first_exe_line(t) {
                Some(exe) => NpxActionModel::Found(LauncherModel::Direct(exe)),
                None => usual_npx(0),
            },
            None => usual_npx(0),
        },
        NpxStageModel::UsualNode(i) => if all_exist(outcome) {
            NpxActionModel::Found(
                LauncherModel::NodeCli(
                    path_join(npx_base(i), "node.exe"@),
                    spec_npx_cli_path(npx_base(i)),
                ),
            )
        } else {
            NpxActionModel::Check(
                NpxStageModel::UsualNpx(i),
                seq![path_join(npx_base(i), "npx.exe"@)],
            )
        },
        NpxStageModel::UsualNpx(i) => if all_exist(outcome) {
            NpxActionModel::Found(LauncherModel::Direct(path_join(npx_base(i), "npx.exe"@)))
        } else {
            usual_npx(i + 1)
        },
    }
}

fn npx_base_exec(i: u8) -> (r: String)
    ensures
        r@ == npx_base(i as int),
{
    if i == 0 {
        lit("D:\\nodejs")
    } else if i == 1 {
        lit("C:\\Program Files\\nodejs")
    } else {
        lit("C:\\Program Files (x86)\\nodejs")
    }
}

fn usual_npx_exec(i: u8) -> (r: NpxAction)
    ensures
        npx_action_view(r) == usual_npx(i as int),
{
    if i >= 3 {
        return NpxAction::NotFound;
    }
    let base = npx_base_exec(i);
    let mut paths: Vec<String> = Vec::new();
    paths.push(join_path(base.as_str(), "node.exe"));
    paths.push(npx_cli_path(base.as_str()));
    assert(string_views(paths@) =~= seq![
        path_join(npx_base(i as int), "node.exe"@),
        spec_npx_cli_path(npx_base(i as int)),
    ]);
    NpxAction::Check { stage: NpxStage::UsualNode(i), paths }
}

fn where_npx() -> (r: NpxAction)
    ensures
        npx_action_view(r) == NpxActionModel::Where(NpxStageModel::WhereNpx, "npx"@),
{
    NpxAction::Where { stage: NpxStage::WhereNpx, name: lit("npx") }
}

/// The first step of the search for npx.
pub fn npx_search_start(windows: bool) -> (r: NpxAction)
    ensures
        npx_action_view(r) == spec_npx_start(windows),
{
    if windows {
        NpxAction::Where { stage: NpxStage::WhereNode, name: lit("node") }
    } else {
        NpxAction::Found(NpxLauncher::Direct(lit("npx")))
    }
}

/// What follows `stage` given `outcome`.
pub fn npx_search_next(stage: NpxStage, outcome: NpxOutcome) -> (r: NpxAction)
    ensures
        npx_action_view(r) == spec_npx_next(npx_stage_view(stage), npx_outcome_view(outcome)),
{
    let ghost om = npx_outcome_view(outcome);
    let (text, exist): (Option<String>, bool) = match outcome {
        NpxOutcome::Listed(t) => (t, false),
        NpxOutcome::AllExist(b) => (None, b),
    };
    assert(listed_text(om) == crate::text::opt_view(text));
    assert(all_exist(om) == exist);
    match stage {
        NpxStage::WhereNode => match text {
            Some(t) => match first_exe_line(t.as_str()) {
                Some(node) => match npx_cli_beside(node.as_str()) {
                    Some(cli) => {
                        let mut paths: Vec<String> = Vec::new();
                        paths.push(cli.clone());
                        assert(string_views(paths@) =~= seq![cli@]);
                        NpxAction::Check { stage: NpxStage::Beside(node, cli), paths }
                    },
                    None => NpxAction::NotFound,
                },
                None => where_npx(),
            },
            None => where_npx(),
        },
        NpxStage::Beside(node, cli) => {
            if exist {
                NpxAction::Found(NpxLauncher::NodeCli(node, cli))
            } else {
                where_npx()
            }
        },
        NpxStage::WhereNpx => match text {
            Some(t) => match first_exe_line(t.as_str()) {
                Some(exe) => NpxAction::Found(NpxLauncher::Direct(exe)),
                None => usual_npx_exec(0),
            },
            None => usual_npx_exec(0),
        },
        NpxStage::UsualNode(i) => {
            let base = npx_base_exec(i);
            if exist {
                NpxAction::Found(
                    NpxLauncher::NodeCli(join_path(base.as_str(), "node.exe"), npx_cli_path(base.as_str())),
                )
            } else {
                let mut paths: Vec<String> = Vec::new();
                paths.push(join_path(base.as_str(), "npx.exe"));
                assert(string_views(paths@) =~= seq![path_join(npx_base(i as int), "npx.exe"@)]);
                NpxAction::Check { stage: NpxStage::UsualNpx(i), paths }
            }
        },
        NpxStage::UsualNpx(i) => {
            let base = npx_base_exec(i);
            if exist {
                NpxAction::Found(NpxLauncher::Direct(join_path(base.as_str(), "npx.exe")))
            } else if i >= 2 {
                NpxAction::NotFound
            } else {
                usual_npx_exec(i + 1)
            }
        },
    }
}

/// A file name that ends in `.exe`, in any case.
pub open spec fn exe_name(p: Seq<char>) -> bool {
    ends_with(lower_seq(p), ".exe"@)
}

/// What a stage carries is as the search made it: a node listed by
/// `where` ends in `.exe` and the script is the one in its parent directory;
/// the usual directories are counted from zero.
pub open spec fn npx_stage_ok(s: NpxStageModel) -> bool {
    match s {
        NpxStageModel::Beside(n, c) => exe_name(n) && path_parent(n) is Some && c
            == spec_npx_cli_path(path_parent(n)->0),
        NpxStageModel::UsualNode(i) => 0 <= i < npx_bases(),
        NpxStageModel::UsualNpx(i) => 0 <= i < npx_bases(),
        _ => true,
    }
}

/// node and npm's script as found: a listed node ending in `.exe` with the
/// script of its parent directory, or the node.exe and script of a usual
/// directory.
pub open spec fn node_cli_ok(n: Seq<char>, c: Seq<char>) -> bool {
    ||| exe_name(n) && path_parent(n) is Some && c == spec_npx_cli_path(path_parent(n)->0)
    ||| exists|i: int|
        0 <= i < npx_bases() && n == #[trigger] path_join(npx_base(i), "node.exe"@) && c
            == spec_npx_cli_path(npx_base(i))
}

/// An npx run directly, as found on Windows: a listed file ending in `.exe`,
/// or the npx.exe of a usual directory.
pub open spec fn direct_ok(p: Seq<char>) -> bool {
    exe_name(p) || exists|i: int|
        0 <= i < npx_bases() && p == #[trigger] path_join(npx_base(i), "npx.exe"@)
}

pub open spec fn npx_action_ok(a: NpxActionModel) -> bool {
    match a {
        NpxActionModel::Where(s, _) => npx_stage_ok(s),
        NpxActionModel::Check(s, _) => npx_stage_ok(s),
        NpxActionModel::Found(LauncherModel::NodeCli(n, c)) => node_cli_ok(n, c),
        NpxActionModel::Found(LauncherModel::Direct(p)) => direct_ok(p),
        NpxActionModel::NotFound => true,
    }
}

/// The line that `first_exe` picks ends in `.exe`.
pub proof fn lemma_first_exe(lines: Seq<Seq<char>>)
    ensures
        first_exe(lines) matches Some(x) ==> exe_name(x),
    decreases lines.len(),
{
    if lines.len() > 0 && !ends_with(lower_seq(trim(lines[0])), ".exe"@) {
        lemma_first_exe(lines.drop_first());
    }
}

/// npx is never started through a `.cmd` shim: on Windows a found node
/// ends in `.exe` and runs npm's script from its own directory (or is the
/// node.exe of a usual directory, with that directory's script), and a
/// found npx ends in `.exe` (or is a usual directory's npx.exe); elsewhere
/// `npx` is run through `PATH`. Every step keeps this so.
pub proof fn law_npx_launcher_found(windows: bool, stage: NpxStageModel, outcome: NpxOutcomeModel)
    requires
        npx_stage_ok(stage),
    ensures
        npx_action_ok(spec_npx_next(stage, outcome)),
        windows ==> npx_action_ok(spec_npx_start(windows)),
        !windows ==> spec_npx_start(windows) == NpxActionModel::Found(LauncherModel::Direct("npx"@)),
{
    match listed_text(outcome) {
        Some(t) => lemma_first_exe(split_on(t, seq!['\n'])),
        None => {},
    }
    match stage {
        NpxStageModel::UsualNode(i) => {
            assert(path_join(npx_base(i), "node.exe"@) == path_join(npx_base(i), "node.exe"@));
            assert(path_join(npx_base(i), "npx.exe"@) == path_join(npx_base(i), "npx.exe"@));
        },
        NpxStageModel::UsualNpx(i) => {
            assert(path_join(npx_base(i), "npx.exe"@) == path_join(npx_base(i), "npx.exe"@));
        },
        _ => {},
    }
}

/// The usual install directories are tried in this order: `D:\nodejs`,
/// `C:\Program Files\nodejs`, `C:\Program Files (x86)\nodejs`.
pub proof fn law_npx_usual_order()
    ensures
        npx_bases() == 3,
        npx_base(0) == "D:\\nodejs"@,
        npx_base(1) == "C:\\Program Files\\nodejs"@,
        npx_base(2) == "C:\\Program Files (x86)\\nodejs"@,
{
}

/// Each step of the search on Windows. A node that `where node` listed
/// (its first line ending in `.exe`) is used with npm's script when the
/// script is in its directory; without such a node or script, `where npx`
/// runs, and its first `.exe` line is run directly. Then, for each usual
/// directory in turn, its node.exe with the script when both exist, else
/// its npx.exe when it exists, else the next directory; after the last,
/// npx is not found.
pub proof fn law_npx_steps(
    node: Seq<char>,
    cli: Seq<char>,
    text: Seq<char>,
    outcome: NpxOutcomeModel,
    i: int,
)
    requires
        0 <= i < 3,
    ensures
        spec_npx_next(NpxStageModel::Beside(node, cli), NpxOutcomeModel::AllExist(true))
            == NpxActionModel::Found(LauncherModel::NodeCli(node, cli)),
        outcome != NpxOutcomeModel::AllExist(true) ==> spec_npx_next(
            NpxStageModel::Beside(node, cli),
            outcome,
        ) == NpxActionModel::Where(NpxStageModel::WhereNpx, "npx"@),
        spec_first_exe_line(text) matches Some(n) ==> (path_parent(n) matches Some(d)
            ==> spec_npx_next(NpxStageModel::WhereNode, NpxOutcomeModel::Listed(Some(text)))
            == NpxActionModel::Check(
            NpxStageModel::Beside(n, spec_npx_cli_path(d)),
            seq![spec_npx_cli_path(d)],
        )),
        spec_first_exe_line(text) is None ==> spec_npx_next(
            NpxStageModel::WhereNode,
            NpxOutcomeModel::Listed(Some(text)),
        ) == NpxActionModel::Where(NpxStageModel::WhereNpx, "npx"@),
        spec_npx_next(NpxStageModel::WhereNode, NpxOutcomeModel::Listed(None))
            == NpxActionModel::Where(NpxStageModel::WhereNpx, "npx"@),
        spec_first_exe_line(text) matches Some(x) ==> spec_npx_next(
            NpxStageModel::WhereNpx,
            NpxOutcomeModel::Listed(Some(text)),
        ) == NpxActionModel::Found(LauncherModel::Direct(x)),
        spec_first_exe_line(text) is None ==> spec_npx_next(
            NpxStageModel::WhereNpx,
            NpxOutcomeModel::Listed(Some(text)),
        ) == NpxActionModel::Check(
            NpxStageModel::UsualNode(0),
            seq![path_join("D:\\nodejs"@, "node.exe"@), spec_npx_cli_path("D:\\nodejs"@)],
        ),
        spec_npx_next(NpxStageModel::WhereNpx, NpxOutcomeModel::Listed(None))
            == NpxActionModel::Check(
            NpxStageModel::UsualNode(0),
            seq![path_join("D:\\nodejs"@, "node.exe"@), spec_npx_cli_path("D:\\nodejs"@)],
        ),
        spec_npx_next(NpxStageModel::UsualNode(i), NpxOutcomeModel::AllExist(true))
            == NpxActionModel::Found(
            LauncherModel::NodeCli(
                path_join(npx_base(i), "node.exe"@),
                spec_npx_cli_path(npx_base(i)),
            ),
        ),
        outcome != NpxOutcomeModel::AllExist(true) ==> spec_npx_next(
            NpxStageModel::UsualNode(i),
            outcome,
        ) == NpxActionModel::Check(
            NpxStageModel::UsualNpx(i),
            seq![path_join(npx_base(i), "npx.exe"@)],
        ),
        spec_npx_next(NpxStageModel::UsualNpx(i), NpxOutcomeModel::AllExist(true))
            == NpxActionModel::Found(LauncherModel::Direct(path_join(npx_base(i), "npx.exe"@))),
        outcome != NpxOutcomeModel::AllExist(true) && i < 2 ==> spec_npx_next(
            NpxStageModel::UsualNpx(i),
            outcome,
        ) == NpxActionModel::Check(
            NpxStageModel::UsualNode(i + 1),
            seq![
                path_join(npx_base(i + 1), "node.exe"@),
                spec_npx_cli_path(npx_base(i + 1)),
            ],
        ),
        outcome != NpxOutcomeModel::AllExist(true) ==> spec_npx_next(
            NpxStageModel::UsualNpx(2),
            outcome,
        ) == NpxActionModel::NotFound,
{
}

} // verus!

//! Finding the installed dsh. On Windows the files that `where dsh` lists
//! come first, then the four launcher names in each `PATH` directory, then
//! in `%APPDATA%\npm` and npm's global prefix; elsewhere `dsh` in each
//! `PATH` directory, then in the prefix's `bin`. The caller runs `where` and
//! `npm prefix -g` and looks at files as asked, and hands the outcome back.
use vstd::prelude::*;
use crate::paths::{join_path, path_join};
use crate::service::{
    dsh_candidates_in, dsh_launcher_from_path, dsh_names, listed_paths, lowered_extension,
    nonblank_lines, DshLauncher,
};
use crate::text::{opt_view, split_on, string_views};

verus! {

/// Where the search for dsh stands.
pub enum DshStage {
    /// `where dsh` runs; the `PATH` directories and `%APPDATA%` follow.
    Where { dirs: Vec<String>, app_data: Option<String> },
    /// The `k`-th path that `where` listed is looked at.
    Listed { paths: Vec<String>, k: usize, dirs: Vec<String>, app_data: Option<String> },
    /// The `k`-th candidate in the `PATH` directories is looked at.
    InDirs { files: Vec<String>, k: usize, app_data: Option<String> },
    /// `npm prefix -g` runs.
    Prefix { app_data: Option<String> },
    /// The `k`-th candidate under `%APPDATA%` or npm's prefix is looked at.
    InPrefix { files: Vec<String>, k: usize },
}

/// A [`DshStage`] as plain values.
pub enum DshStageModel {
    Where(Seq<Seq<char>>, Option<Seq<char>>),
    Listed(Seq<Seq<char>>, int, Seq<Seq<char>>, Option<Seq<char>>),
    InDirs(Seq<Seq<char>>, int, Option<Seq<char>>),
    Prefix(Option<Seq<char>>),
    InPrefix(Seq<Seq<char>>, int),
}

pub open spec fn dsh_stage_view(s: DshStage) -> DshStageModel {
    match s {
        DshStage::Where { dirs, app_data } => DshStageModel::Where(string_views(dirs@), opt_view(app_data)),
        DshStage::Listed { paths, k, dirs, app_data } => DshStageModel::Listed(
            string_views(paths@),
            k as int,
            string_views(dirs@),
            opt_view(app_data),
        ),
        DshStage::InDirs { files, k, app_data } => DshStageModel::InDirs(
            string_views(files@),
            k as int,
            opt_view(app_data),
        ),
        DshStage::Prefix { app_data } => DshStageModel::Prefix(opt_view(app_data)),
        DshStage::InPrefix { files, k } => DshStageModel::InPrefix(string_views(files@), k as int),
    }
}

/// What the caller found.
pub enum DshOutcome {
    /// What `where dsh` printed when it succeeded; none otherwise.
    Listed(Option<String>),
    /// What `npm prefix -g` printed as its prefix; none when it failed.
    Prefix(Option<String>),
    /// Whether the path is a file, and whether its mode lets it be executed
    /// (read on systems other than Windows only).
    File { is_file: bool, executable: bool },
}

pub enum DshOutcomeModel {
    Listed(Option<Seq<char>>),
    Prefix(Option<Seq<char>>),
    File(bool, bool),
}

pub open spec fn dsh_outcome_view(o: DshOutcome) -> DshOutcomeModel {
    match o {
        DshOutcome::Listed(t) => DshOutcomeModel::Listed(opt_view(t)),
        DshOutcome::Prefix(p) => DshOutcomeModel::Prefix(opt_view(p)),
        DshOutcome::File { is_file, executable } => DshOutcomeModel::File(is_file, executable),
    }
}

/// What to do next.
pub enum DshAction {
    /// Run `where dsh` and hand back its output with `stage`.
    Where { stage: DshStage },
    /// Look at `path` and hand back what it is with `stage`.
    CheckFile { stage: DshStage, path: String },
    /// Run `npm prefix -g` and hand back the prefix with `stage`.
    NpmPrefix { stage: DshStage },
    /// dsh is started this way.
    Found(DshLauncher),
    /// No dsh was found.
    NotFound,
}

/// A [`DshLauncher`] as plain values.
pub enum DshLauncherModel {
    CmdShim(Seq<char>),
    Direct(Seq<char>),
}

pub enum DshActionModel {
    Where(DshStageModel),
    CheckFile(DshStageModel, Seq<char>),
    NpmPrefix(DshStageModel),
    Found(DshLauncherModel),
    NotFound,
}

pub open spec fn dsh_launcher_view(l: DshLauncher) -> DshLauncherModel {
    match l {
        DshLauncher::CmdShim(p) => DshLauncherModel::CmdShim(p@),
        DshLauncher::Direct(p) => DshLauncherModel::Direct(p@),
    }
}

pub open spec fn dsh_action_view(a: DshAction) -> DshActionModel {
    match a {
        DshAction::Where { stage } => DshActionModel::Where(dsh_stage_view(stage)),
        DshAction::CheckFile { stage, path } => DshActionModel::CheckFile(dsh_stage_view(stage), path@),
        DshAction::NpmPrefix { stage } => DshActionModel::NpmPrefix(dsh_stage_view(stage)),
        DshAction::Found(l) => DshActionModel::Found(dsh_launcher_view(l)),
        DshAction::NotFound => DshActionModel::NotFound,
    }
}

/// The files that may be dsh in `dir`, in the order tried.
pub open spec fn names_in(windows: bool, dir: Seq<char>) -> Seq<Seq<char>> {
    dsh_names(windows).map_values(|n: Seq<char>| path_join(dir, n))
}

/// The candidates in `dirs`, directory by directory.
pub open spec fn dir_candidates(windows: bool, dirs: Seq<Seq<char>>) -> Seq<Seq<char>>
    decreases dirs.len(),
{
    if dirs.len() == 0 {
        Seq::empty()
    } else {
        dir_candidates(windows, dirs.drop_last()) + names_in(windows, dirs.last())
    }
}

/// The candidates after the `PATH` directories: on Windows in
/// `%APPDATA%\npm` and then in npm's prefix; elsewhere `bin/dsh` in the
/// prefix.
pub open spec fn prefix_candidates(windows: bool, app_data: Option<Seq<char>>, prefix: Option<Seq<char>>) -> Seq<Seq<char>> {
    if windows {
        (match app_data {
            Some(a) => names_in(true, path_join(a, "npm"@)),
            None => Seq::empty(),
        }) + (match prefix {
            Some(p) => names_in(true, p),
            None => Seq::empty(),
        })
    } else {
        match prefix {
            Some(p) => names_in(false, path_join(p, "bin"@)),
            None => Seq::empty(),
        }
    }
}

/// The launcher for a file found: on Windows by its extension (`cmd`/`bat`
/// a shim, `exe`/`com` direct, else none); elsewhere direct when it may be
/// executed, else none.
pub open spec fn launcher_of(windows: bool, path: Seq<char>, executable: bool) -> Option<DshLauncherModel> {
    if windows {
        let e = lowered_extension(path);
        if e == "cmd"@ || e == "bat"@ {
            Some(DshLauncherModel::CmdShim(path))
        } else if e == "exe"@ || e == "com"@ {
            Some(DshLauncherModel::Direct(path))
        } else {
            None
        }
    } else if executable {
        Some(DshLauncherModel::Direct(path))
    } else {
        None
    }
}

/// The first file found decides: its launcher, or none.
pub open spec fn decided(l: Option<DshLauncherModel>) -> DshActionModel {
    match l {
        Some(x) => DshActionModel::Found(x),
        None => DshActionModel::NotFound,
    }
}

pub open spec fn in_prefix(files: Seq<Seq<char>>, k: int) -> DshActionModel {
    if 0 <= k < files.len() {
        DshActionModel::CheckFile(DshStageModel::InPrefix(files, k), files[k])
    } else {
        DshActionModel::NotFound
    }
}

pub open spec fn in_dirs(files: Seq<Seq<char>>, k: int, app_data: Option<Seq<char>>) -> DshActionModel {
    if 0 <= k < files.len() {
        DshActionModel::CheckFile(DshStageModel::InDirs(files, k, app_data), files[k])
    } else {
        DshActionModel::NpmPrefix(DshStageModel::Prefix(app_data))
    }
}

pub open spec fn listed_at(
    windows: bool,
    paths: Seq<Seq<char>>,
    k: int,
    dirs: Seq<Seq<char>>,
    app_data: Option<Seq<char>>,
) -> DshActionModel {
    if 0 <= k < paths.len() {
        DshActionModel::CheckFile(DshStageModel::Listed(paths, k, dirs, app_data), paths[k])
    } else {
        in_dirs(dir_candidates(windows, dirs), 0, app_data)
    }
}

/// The first step: `where dsh` on Windows, else the `PATH` directories.
pub open spec fn spec_dsh_start(windows: bool, dirs: Seq<Seq<char>>, app_data: Option<Seq<char>>) -> DshActionModel {
    if windows {
        DshActionModel::Where(DshStageModel::Where(dirs, app_data))
    } else {
        in_dirs(dir_candidates(false, dirs), 0, app_data)
    }
}

/// What follows `stage` given `outcome`. A listed path that is a file with
/// a launcher ends the search, any other listed path is passed over; in the
/// directories, the first candidate that is a file decides, with its
/// launcher or with none.
pub open spec fn spec_dsh_next(windows: bool, stage: DshStageModel, outcome: DshOutcomeModel) -> DshActionModel {
    let is_file = outcome matches DshOutcomeModel::File(true, _);
    let executable = outcome matches DshOutcomeModel::File(_, true);
    match stage {
        DshStageModel::Where(dirs, app_data) => match outcome {
            DshOutcomeModel::Listed(Some(t)) => listed_at(
                windows,
                nonblank_lines(split_on(t, seq!['\n'])),
                0,
                dirs,
                app_data,
            ),
            _ => in_dirs(dir_candidates(windows, dirs), 0, app_data),
        },
        DshStageModel::Listed(paths, k, dirs, app_data) => if is_file && 0 <= k < paths.len()
            && launcher_of(windows, paths[k], executable) is Some {
            DshActionModel::Found(launcher_of(windows, paths[k], executable)->0)
        } else {
            listed_at(windows, paths, k + 1, dirs, app_data)
        },
        DshStageModel::InDirs(files, k, app_data) => if is_file && 0 <= k < files.len() {
            decided(launcher_of(windows, files[k], executable))
        } else {
            in_dirs(files, k + 1, app_data)
        },
        DshStageModel::Prefix(app_data) => in_prefix(
            prefix_candidates(
                windows,
                app_data,
                match outcome {
                    DshOutcomeModel::Prefix(p) => p,
                    _ => None,
                },
            ),
            0,
        ),
        DshStageModel::InPrefix(files, k) => if is_file && 0 <= k < files.len() {
            decided(launcher_of(windows, files[k], executable))
        } else {
            in_prefix(files, k + 1)
        },
    }
}

fn dir_candidates_exec(windows: bool, dirs: &Vec<String>) -> (r: Vec<String>)
    ensures
        string_views(r@) == dir_candidates(windows, string_views(dirs@)),
{
    let ghost dv = string_views(dirs@);
    let mut out: Vec<String> = Vec::new();
    let mut i: usize = 0;
    while i < dirs.len()
        invariant
            i <= dirs.len(),
            dv == string_views(dirs@),
            string_views(out@) == dir_candidates(windows, dv.take(i as int)),
        decreases dirs.len() - i,
    {
        let names = dsh_candidates_in(windows, dirs[i].as_str());
        let ghost before = out@;
        let mut j: usize = 0;
        while j < names.len()
            invariant
                j <= names.len(),
                out@ == before + names@.take(j as int),
            decreases names.len() - j,
        {
            out.push(names[j].clone());
            assert(out@ =~= before + names@.take(j + 1));
            j += 1;
        }
        proof {
            assert(names@.take(names@.len() as int) =~= names@);
            assert(dv.take(i + 1).drop_last() =~= dv.take(i as int));
            assert(dv.take(i + 1).last() == dirs@[i as int]@);
            assert(string_views(out@) =~= string_views(before) + string_views(names@));
        }
        i += 1;
    }
    assert(dv.take(dv.len() as int) =~= dv);
    out
}

fn names_in_opt(windows: bool, dir: Option<String>) -> (r: Vec<String>)
    ensures
        string_views(r@) == (match opt_view(dir) {
            Some(d) => names_in(windows, d),
            None => Seq::empty(),
        }),
{
    match dir {
        Some(d) => dsh_candidates_in(windows, d.as_str()),
        None => {
            let v: Vec<String> = Vec::new();
            assert(string_views(v@) =~= Seq::<Seq<char>>::empty());
            v
        },
    }
}

fn prefix_candidates_exec(windows: bool, app_data: Option<String>, prefix: Option<String>) -> (r: Vec<String>)
    ensures
        string_views(r@) == prefix_candidates(windows, opt_view(app_data), opt_view(prefix)),
{
    if windows {
        let npm_dir = match app_data {
            Some(a) => Some(join_path(a.as_str(), "npm")),
            None => None,
        };
        let mut a = names_in_opt(true, npm_dir);
        let mut b = names_in_opt(true, prefix);
        let ghost av = a@;
        let ghost bv = b@;
        a.append(&mut b);
        assert(string_views(a@) =~= string_views(av) + string_views(bv));
        a
    } else {
        let bin = match prefix {
            Some(p) => Some(join_path(p.as_str(), "bin")),
            None => None,
        };
        names_in_opt(false, bin)
    }
}

fn launcher_of_exec(windows: bool, path: String, executable: bool) -> (r: Option<DshLauncher>)
    ensures
        match r {
            Some(l) => launcher_of(windows, path@, executable) == Some(dsh_launcher_view(l)),
            None => launcher_of(windows, path@, executable) is None,
        },
{
    if windows {
        proof {
            reveal_strlit("cmd");
            reveal_strlit("bat");
            reveal_strlit("exe");
            reveal_strlit("com");
            assert("exe"@[0] != "cmd"@[0]);
            assert("exe"@[0] != "bat"@[0]);
            assert("com"@[1] != "cmd"@[1]);
            assert("com"@[0] != "bat"@[0]);
        }
        let r = dsh_launcher_from_path(path);
        r
    } else if executable {
        Some(DshLauncher::Direct(path))
    } else {
        None
    }
}

fn decided_exec(l: Option<DshLauncher>) -> (r: DshAction)
    ensures
        dsh_action_view(r) == decided(match l {
            Some(x) => Some(dsh_launcher_view(x)),
            None => None,
        }),
{
    match l {
        Some(x) => DshAction::Found(x),
        None => DshAction::NotFound,
    }
}

fn in_prefix_exec(files: Vec<String>, k: usize) -> (r: DshAction)
    ensures
        dsh_action_view(r) == in_prefix(string_views(files@), k as int),
{
    if k < files.len() {
        let path = files[k].clone();
        DshAction::CheckFile { stage: DshStage::InPrefix { files, k }, path }
    } else {
        DshAction::NotFound
    }
}

fn in_dirs_exec(files: Vec<String>, k: usize, app_data: Option<String>) -> (r: DshAction)
    ensures
        dsh_action_view(r) == in_dirs(string_views(files@), k as int, opt_view(app_data)),
{
    if k < files.len() {
        let path = files[k].clone();
        DshAction::CheckFile { stage: DshStage::InDirs { files, k, app_data }, path }
    } else {
        DshAction::NpmPrefix { stage: DshStage::Prefix { app_data } }
    }
}

fn listed_at_exec(
    windows: bool,
    paths: Vec<String>,
    k: usize,
    dirs: Vec<String>,
    app_data: Option<String>,
) -> (r: DshAction)
    ensures
        dsh_action_view(r) == listed_at(
            windows,
            string_views(paths@),
            k as int,
            string_views(dirs@),
            opt_view(app_data),
        ),
{
    if k < paths.len() {
        let path = paths[k].clone();
        DshAction::CheckFile { stage: DshStage::Listed { paths, k, dirs, app_data }, path }
    } else {
        in_dirs_exec(dir_candidates_exec(windows, &dirs), 0, app_data)
    }
}

/// The first step of the search for dsh, given the `PATH` directories and
/// `%APPDATA%`.
pub fn dsh_search_start(windows: bool, dirs: Vec<String>, app_data: Option<String>) -> (r: DshAction)
    ensures
        dsh_action_view(r) == spec_dsh_start(windows, string_views(dirs@), opt_view(app_data)),
{
    if windows {
        DshAction::Where { stage: DshStage::Where { dirs, app_data } }
    } else {
        in_dirs_exec(dir_candidates_exec(false, &dirs), 0, app_data)
    }
}

/// What follows `stage` given `outcome`.
pub fn dsh_search_next(windows: bool, stage: DshStage, outcome: DshOutcome) -> (r: DshAction)
    ensures
        dsh_action_view(r) == spec_dsh_next(windows, dsh_stage_view(stage), dsh_outcome_view(outcome)),
{
    let ghost om = dsh_outcome_view(outcome);
    let (is_file, executable) = match &outcome {
        DshOutcome::File { is_file, executable } => (*is_file, *executable),
        _ => (false, false),
    };
    assert(is_file == (om matches DshOutcomeModel::File(true, _)));
    assert(executable == (om matches DshOutcomeModel::File(_, true)));
    match stage {
        DshStage::Where { dirs, app_data } => match outcome {
            DshOutcome::Listed(Some(t)) => listed_at_exec(windows, listed_paths(t.as_str()), 0, dirs, app_data),
            _ => in_dirs_exec(dir_candidates_exec(windows, &dirs), 0, app_data),
        },
        DshStage::Listed { paths, k, dirs, app_data } => {
            if is_file && k < paths.len() {
                match launcher_of_exec(windows, paths[k].clone(), executable) {
                    Some(l) => {
                        return DshAction::Found(l);
                    },
                    None => {},
                }
            }
            if k >= paths.len() {
                return in_dirs_exec(dir_candidates_exec(windows, &dirs), 0, app_data);
            }
            listed_at_exec(windows, paths, k + 1, dirs, app_data)
        },
        DshStage::InDirs { files, k, app_data } => {
            if is_file && k < files.len() {
                decided_exec(launcher_of_exec(windows, files[k].clone(), executable))
            } else if k >= files.len() {
                DshAction::NpmPrefix { stage: DshStage::Prefix { app_data } }
            } else {
                in_dirs_exec(files, k + 1, app_data)
            }
        },
        DshStage::Prefix { app_data } => {
            let prefix = match outcome {
                DshOutcome::Prefix(p) => p,
                _ => None,
            };
            in_prefix_exec(prefix_candidates_exec(windows, app_data, prefix), 0)
        },
        DshStage::InPrefix { files, k } => {
            if is_file && k < files.len() {
                decided_exec(launcher_of_exec(windows, files[k].clone(), executable))
            } else if k >= files.len() {
                DshAction::NotFound
            } else {
                in_prefix_exec(files, k + 1)
            }
        },
    }
}

/// A dsh found on Windows is a `.cmd`/`.bat` shim, run through the command
/// interpreter, or an `.exe`/`.com` run directly (in any case); elsewhere it
/// is run directly. No other file is ever started as dsh.
pub proof fn law_dsh_launcher_kind(windows: bool, stage: DshStageModel, outcome: DshOutcomeModel)
    ensures
        match spec_dsh_next(windows, stage, outcome) {
            DshActionModel::Found(DshLauncherModel::CmdShim(p)) => windows && (lowered_extension(p)
                == "cmd"@ || lowered_extension(p) == "bat"@),
            DshActionModel::Found(DshLauncherModel::Direct(p)) => windows ==> (lowered_extension(p)
                == "exe"@ || lowered_extension(p) == "com"@),
            _ => true,
        },
{
}

/// The path of a launcher.
pub open spec fn launcher_path(l: DshLauncherModel) -> Seq<char> {
    match l {
        DshLauncherModel::CmdShim(p) => p,
        DshLauncherModel::Direct(p) => p,
    }
}

/// dsh is reported found only right after the path looked at turned out to
/// be a file, and it is that path; elsewhere than on Windows only when that
/// file may be executed.
pub proof fn law_dsh_found_is_checked_file(
    windows: bool,
    stage: DshStageModel,
    outcome: DshOutcomeModel,
)
    ensures
        spec_dsh_next(windows, stage, outcome) matches DshActionModel::Found(l) ==> {
            &&& outcome matches DshOutcomeModel::File(true, x) && (!windows ==> x)
            &&& match stage {
                DshStageModel::Listed(paths, k, _, _) => 0 <= k < paths.len() && launcher_path(l)
                    == paths[k],
                DshStageModel::InDirs(files, k, _) => 0 <= k < files.len() && launcher_path(l)
                    == files[k],
                DshStageModel::InPrefix(files, k) => 0 <= k < files.len() && launcher_path(l)
                    == files[k],
                _ => false,
            }
        },
{
}

/// How the search moves on. A listed path that is not a file is passed
/// over for the next one; after the last listed path the candidates in the
/// `PATH` directories follow. In the directories and under the prefix, a
/// candidate that is not a file is passed over; the first that is a file
/// decides: dsh with its launcher, or not found when it has none. After the
/// last candidate in the directories npm's prefix is asked; after the last
/// under the prefix dsh is not found.
pub proof fn law_dsh_search_steps(
    windows: bool,
    files: Seq<Seq<char>>,
    k: int,
    dirs: Seq<Seq<char>>,
    app_data: Option<Seq<char>>,
    executable: bool,
)
    requires
        0 <= k < files.len(),
    ensures
        spec_dsh_next(windows, DshStageModel::Listed(files, k, dirs, app_data), DshOutcomeModel::File(false, executable))
            == (if k + 1 < files.len() {
            DshActionModel::CheckFile(DshStageModel::Listed(files, k + 1, dirs, app_data), files[k + 1])
        } else {
            spec_dsh_next(windows, DshStageModel::Where(dirs, app_data), DshOutcomeModel::Listed(None))
        }),
        spec_dsh_next(windows, DshStageModel::Where(dirs, app_data), DshOutcomeModel::Listed(None))
            == (if dir_candidates(windows, dirs).len() > 0 {
            DshActionModel::CheckFile(
                DshStageModel::InDirs(dir_candidates(windows, dirs), 0, app_data),
                dir_candidates(windows, dirs)[0],
            )
        } else {
            DshActionModel::NpmPrefix(DshStageModel::Prefix(app_data))
        }),
        spec_dsh_next(windows, DshStageModel::InDirs(files, k, app_data), DshOutcomeModel::File(true, executable))
            == match launcher_of(windows, files[k], executable) {
            Some(l) => DshActionModel::Found(l),
            None => DshActionModel::NotFound,
        },
        spec_dsh_next(windows, DshStageModel::InPrefix(files, k), DshOutcomeModel::File(true, executable))
            == match launcher_of(windows, files[k], executable) {
            Some(l) => DshActionModel::Found(l),
            None => DshActionModel::NotFound,
        },
        spec_dsh_next(windows, DshStageModel::InDirs(files, k, app_data), DshOutcomeModel::File(false, executable))
            == (if k + 1 < files.len() {
            DshActionModel::CheckFile(DshStageModel::InDirs(files, k + 1, app_data), files[k + 1])
        } else {
            DshActionModel::NpmPrefix(DshStageModel::Prefix(app_data))
        }),
        spec_dsh_next(windows, DshStageModel::InPrefix(files, k), DshOutcomeModel::File(false, executable))
            == (if k + 1 < files.len() {
            DshActionModel::CheckFile(DshStageModel::InPrefix(files, k + 1), files[k + 1])
        } else {
            DshActionModel::NotFound
        }),
{
}

} // verus!

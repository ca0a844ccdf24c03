//! The decisions of a manual start: reuse a service already answering,
//! else find a port, install dsh when it is missing, and launch it. The
//! caller performs each action and hands its outcome back.
use vstd::prelude::*;
use crate::service::PortProbe;
use crate::text::lit;

verus! {

/// What a start does next.
pub enum StartAction {
    /// Probe the configured port.
    Probe,
    /// An HTTP service already answers there: adopt it and stop.
    Adopt,
    /// Look for a free port from the configured one; `occupied` when a
    /// program other than a service holds the configured port.
    SearchPort { occupied: bool },
    /// Prepare the state for `port` and look for an installed dsh.
    Locate(u16),
    /// Install dsh with npm.
    Install(u16),
    /// Look for dsh again after installing it.
    Relocate(u16),
    /// Launch dsh on the port.
    Launch(u16),
    /// The start fails with this message.
    Fail(String),
}

/// What the caller found.
pub enum StartOutcome {
    Probed(PortProbe),
    PortFound(Result<u16, String>),
    Located(bool),
    Installed(Result<(), String>),
}

pub enum StartModel {
    Probe,
    Adopt,
    SearchPort(bool),
    Locate(u16),
    Install(u16),
    Relocate(u16),
    Launch(u16),
    Fail(Seq<char>),
}

pub enum StartOutcomeModel {
    Probed(PortProbe),
    PortFound(Result<u16, Seq<char>>),
    Located(bool),
    Installed(Result<(), Seq<char>>),
}

pub open spec fn start_view(a: StartAction) -> StartModel {
    match a {
        StartAction::Probe => StartModel::Probe,
        StartAction::Adopt => StartModel::Adopt,
        StartAction::SearchPort { occupied } => StartModel::SearchPort(occupied),
        StartAction::Locate(p) => StartModel::Locate(p),
        StartAction::Install(p) => StartModel::Install(p),
        StartAction::Relocate(p) => StartModel::Relocate(p),
        StartAction::Launch(p) => StartModel::Launch(p),
        StartAction::Fail(m) => StartModel::Fail(m@),
    }
}

pub open spec fn start_outcome_view(o: StartOutcome) -> StartOutcomeModel {
    match o {
        StartOutcome::Probed(p) => StartOutcomeModel::Probed(p),
        StartOutcome::PortFound(Ok(p)) => StartOutcomeModel::PortFound(Ok(p)),
        StartOutcome::PortFound(Err(m)) => StartOutcomeModel::PortFound(Err(m@)),
        StartOutcome::Located(b) => StartOutcomeModel::Located(b),
        StartOutcome::Installed(Ok(())) => StartOutcomeModel::Installed(Ok(())),
        StartOutcome::Installed(Err(e)) => StartOutcomeModel::Installed(Err(e@)),
    }
}

/// The message when dsh cannot be found even after installing it.
pub open spec fn dsh_still_missing() -> Seq<char> {
    "dsh 安装已完成，但仍无法定位 dsh 命令；请重启程序以刷新 PATH"@
}

/// What follows the action `done`, whose outcome is `o`. A service
/// answering on the port is adopted; otherwise a free port is searched
/// (and a failed search fails the start); dsh is launched when found, else
/// installed, and a failed install or a dsh still missing after it fails
/// the start. An outcome that does not belong to the action repeats it;
/// adopting, launching and failing end the start.
pub open spec fn spec_start_next(done: StartModel, o: StartOutcomeModel) -> StartModel {
    match (done, o) {
        (StartModel::Probe, StartOutcomeModel::Probed(p)) => match p {
            PortProbe::ServiceRunning => StartModel::Adopt,
            PortProbe::OccupiedByOther => StartModel::SearchPort(true),
            PortProbe::Free => StartModel::SearchPort(false),
        },
        (StartModel::SearchPort(_), StartOutcomeModel::PortFound(r)) => match r {
            Ok(p) => StartModel::Locate(p),
            Err(m) => StartModel::Fail(m),
        },
        (StartModel::Locate(p), StartOutcomeModel::Located(found)) => if found {
            StartModel::Launch(p)
        } else {
            StartModel::Install(p)
        },
        (StartModel::Install(p), StartOutcomeModel::Installed(r)) => match r {
            Ok(()) => StartModel::Relocate(p),
            Err(e) => StartModel::Fail(e),
        },
        (StartModel::Relocate(p), StartOutcomeModel::Located(found)) => if found {
            StartModel::Launch(p)
        } else {
            StartModel::Fail(dsh_still_missing())
        },
        _ => done,
    }
}

/// A start begins with probing the configured port.
pub fn start_first() -> (r: StartAction)
    ensures
        start_view(r) == StartModel::Probe,
{
    StartAction::Probe
}

/// What follows the action `done`, whose outcome is `o`.
pub fn start_next(done: StartAction, o: StartOutcome) -> (r: StartAction)
    ensures
        start_view(r) == spec_start_next(start_view(done), start_outcome_view(o)),
{
    match (done, o) {
        (StartAction::Probe, StartOutcome::Probed(p)) => match p {
            PortProbe::ServiceRunning => StartAction::Adopt,
            PortProbe::OccupiedByOther => StartAction::SearchPort { occupied: true },
            PortProbe::Free => StartAction::SearchPort { occupied: false },
        },
        (StartAction::SearchPort { .. }, StartOutcome::PortFound(r)) => match r {
            Ok(p) => StartAction::Locate(p),
            Err(m) => StartAction::Fail(m),
        },
        (StartAction::Locate(p), StartOutcome::Located(found)) => {
            if found {
                StartAction::Launch(p)
            } else {
                StartAction::Install(p)
            }
        },
        (StartAction::Install(p), StartOutcome::Installed(r)) => match r {
            Ok(()) => StartAction::Relocate(p),
            Err(e) => StartAction::Fail(e),
        },
        (StartAction::Relocate(p), StartOutcome::Located(found)) => {
            if found {
                StartAction::Launch(p)
            } else {
                StartAction::Fail(lit("dsh 安装已完成，但仍无法定位 dsh 命令；请重启程序以刷新 PATH"))
            }
        },
        (done, _) => done,
    }
}

/// A start launches dsh only on the port that the search found, and only
/// once dsh was located (at once, or after installing it); it never
/// launches after an install that failed.
pub proof fn law_start_launches_found_dsh(done: StartModel, o: StartOutcomeModel)
    ensures
        spec_start_next(done, o) matches StartModel::Launch(p) ==> (done == StartModel::Launch(p)
            || ((done == StartModel::Locate(p) || done == StartModel::Relocate(p))
            && o == StartOutcomeModel::Located(true))),
        spec_start_next(done, o) matches StartModel::Locate(p) ==> (done == StartModel::Locate(p)
            || (done is SearchPort && o == StartOutcomeModel::PortFound(Ok::<u16, Seq<char>>(p)))),
        (done is Install && (o matches StartOutcomeModel::Installed(Err(_)))) ==> spec_start_next(
            done,
            o,
        ) is Fail,
{
}

/// Each step of a start: a service answering on the port is adopted, a
/// port held by another program or a free one leads to the port search
/// (marked occupied in the first case); the port found is prepared and dsh
/// looked for, a failed search fails with its message; a dsh found is
/// launched on that port, a missing one installed; a finished install leads
/// to looking again, a failed one fails with its error; a dsh still missing
/// after the install fails the start.
pub proof fn law_start_steps(port: u16, m: Seq<char>, occupied: bool)
    ensures
        spec_start_next(StartModel::Probe, StartOutcomeModel::Probed(PortProbe::ServiceRunning))
            == StartModel::Adopt,
        spec_start_next(StartModel::Probe, StartOutcomeModel::Probed(PortProbe::OccupiedByOther))
            == StartModel::SearchPort(true),
        spec_start_next(StartModel::Probe, StartOutcomeModel::Probed(PortProbe::Free))
            == StartModel::SearchPort(false),
        spec_start_next(StartModel::SearchPort(occupied), StartOutcomeModel::PortFound(Ok(port)))
            == StartModel::Locate(port),
        spec_start_next(StartModel::SearchPort(occupied), StartOutcomeModel::PortFound(Err(m)))
            == StartModel::Fail(m),
        spec_start_next(StartModel::Locate(port), StartOutcomeModel::Located(true))
            == StartModel::Launch(port),
        spec_start_next(StartModel::Locate(port), StartOutcomeModel::Located(false))
            == StartModel::Install(port),
        spec_start_next(StartModel::Install(port), StartOutcomeModel::Installed(Ok(())))
            == StartModel::Relocate(port),
        spec_start_next(StartModel::Install(port), StartOutcomeModel::Installed(Err(m)))
            == StartModel::Fail(m),
        spec_start_next(StartModel::Relocate(port), StartOutcomeModel::Located(true))
            == StartModel::Launch(port),
        spec_start_next(StartModel::Relocate(port), StartOutcomeModel::Located(false))
            == StartModel::Fail(
            "dsh 安装已完成，但仍无法定位 dsh 命令；请重启程序以刷新 PATH"@,
        ),
{
}

/// Adopting, launching and failing end a start: whatever is handed back
/// after them, the same action stays.
pub proof fn law_start_final_actions_stay(port: u16, m: Seq<char>, o: StartOutcomeModel)
    ensures
        spec_start_next(StartModel::Adopt, o) == StartModel::Adopt,
        spec_start_next(StartModel::Launch(port), o) == StartModel::Launch(port),
        spec_start_next(StartModel::Fail(m), o) == StartModel::Fail(m),
{
}

} // verus!

use deepseek_harness::service::PortProbe;
use deepseek_harness::start::{start_first, start_next, StartAction, StartOutcome};

#[test]
fn start_adopts_a_running_service() {
    assert!(matches!(start_first(), StartAction::Probe));
    assert!(matches!(
        start_next(StartAction::Probe, StartOutcome::Probed(PortProbe::ServiceRunning)),
        StartAction::Adopt
    ));
}

#[test]
fn start_searches_installs_and_launches() {
    let a = start_next(StartAction::Probe, StartOutcome::Probed(PortProbe::OccupiedByOther));
    assert!(matches!(a, StartAction::SearchPort { occupied: true }));
    assert!(matches!(
        start_next(StartAction::Probe, StartOutcome::Probed(PortProbe::Free)),
        StartAction::SearchPort { occupied: false }
    ));
    let a = start_next(a, StartOutcome::PortFound(Ok(3081)));
    assert!(matches!(a, StartAction::Locate(3081)));
    let a = start_next(a, StartOutcome::Located(false));
    assert!(matches!(a, StartAction::Install(3081)));
    let a = start_next(a, StartOutcome::Installed(Ok(())));
    assert!(matches!(a, StartAction::Relocate(3081)));
    assert!(matches!(start_next(a, StartOutcome::Located(true)), StartAction::Launch(3081)));
    assert!(matches!(
        start_next(StartAction::Locate(3080), StartOutcome::Located(true)),
        StartAction::Launch(3080)
    ));
}

#[test]
fn start_failures() {
    match start_next(StartAction::SearchPort { occupied: false }, StartOutcome::PortFound(Err(String::from("busy")))) {
        StartAction::Fail(m) => assert_eq!(m, "busy"),
        _ => panic!("expected a failure"),
    }
    match start_next(StartAction::Install(1), StartOutcome::Installed(Err(String::from("npm")))) {
        StartAction::Fail(m) => assert_eq!(m, "npm"),
        _ => panic!("expected a failure"),
    }
    match start_next(StartAction::Relocate(1), StartOutcome::Located(false)) {
        StartAction::Fail(m) => assert_eq!(m, "dsh 安装已完成，但仍无法定位 dsh 命令；请重启程序以刷新 PATH"),
        _ => panic!("expected a failure"),
    }
    assert!(matches!(start_next(StartAction::Locate(1), StartOutcome::Installed(Ok(()))), StartAction::Locate(1)));
}

use deepseek_harness::dsh_search::{dsh_search_next, dsh_search_start, DshAction, DshOutcome, DshStage};
use deepseek_harness::service::DshLauncher;

fn check_of(a: DshAction) -> (DshStage, String) {
    match a {
        DshAction::CheckFile { stage, path } => (stage, path),
        _ => panic!("expected a file to look at"),
    }
}

fn no_file() -> DshOutcome {
    DshOutcome::File { is_file: false, executable: false }
}

#[test]
fn unix_search_path_then_prefix_bin() {
    let a = dsh_search_start(false, vec![String::from("/a"), String::from("/b")], Some(String::from("/ad")));
    let (stage, path) = check_of(a);
    assert_eq!(path, "/a/dsh");
    let (stage, path) = check_of(dsh_search_next(false, stage, no_file()));
    assert_eq!(path, "/b/dsh");
    let stage = match dsh_search_next(false, stage, no_file()) {
        DshAction::NpmPrefix { stage } => stage,
        _ => panic!("expected npm prefix"),
    };
    let (stage, path) = check_of(dsh_search_next(false, stage, DshOutcome::Prefix(Some(String::from("/usr/local")))));
    assert_eq!(path, "/usr/local/bin/dsh");
    match dsh_search_next(false, stage, DshOutcome::File { is_file: true, executable: true }) {
        DshAction::Found(DshLauncher::Direct(p)) => assert_eq!(p, "/usr/local/bin/dsh"),
        _ => panic!("expected dsh"),
    }
}

#[test]
fn unix_first_file_decides() {
    let (stage, _) = check_of(dsh_search_start(false, vec![String::from("/a")], None));
    assert!(matches!(
        dsh_search_next(false, stage, DshOutcome::File { is_file: true, executable: false }),
        DshAction::NotFound
    ));
}

#[test]
fn unix_without_prefix_nothing_found() {
    let a = dsh_search_start(false, Vec::new(), None);
    let stage = match a {
        DshAction::NpmPrefix { stage } => stage,
        _ => panic!("expected npm prefix"),
    };
    assert!(matches!(dsh_search_next(false, stage, DshOutcome::Prefix(None)), DshAction::NotFound));
}

#[test]
fn windows_where_listing_first() {
    let stage = match dsh_search_start(true, vec![String::from("/p")], Some(String::from("/ad"))) {
        DshAction::Where { stage } => stage,
        _ => panic!("expected where"),
    };
    let listed = Some(String::from(" /x/dsh.ps1 \r\n/x/dsh.CMD\r\n"));
    let (stage, path) = check_of(dsh_search_next(true, stage, DshOutcome::Listed(listed)));
    assert_eq!(path, "/x/dsh.ps1");
    let (stage, path) = check_of(dsh_search_next(true, stage, DshOutcome::File { is_file: true, executable: false }));
    assert_eq!(path, "/x/dsh.CMD");
    match dsh_search_next(true, stage, DshOutcome::File { is_file: true, executable: false }) {
        DshAction::Found(DshLauncher::CmdShim(p)) => assert_eq!(p, "/x/dsh.CMD"),
        _ => panic!("expected the shim"),
    }
}

#[test]
fn windows_dirs_then_appdata_then_prefix() {
    let stage = match dsh_search_start(true, vec![String::from("/p")], Some(String::from("/ad"))) {
        DshAction::Where { stage } => stage,
        _ => panic!("expected where"),
    };
    let mut action = dsh_search_next(true, stage, DshOutcome::Listed(None));
    let mut seen = Vec::new();
    loop {
        action = match action {
            DshAction::CheckFile { stage, path } => {
                seen.push(path);
                dsh_search_next(true, stage, no_file())
            }
            DshAction::NpmPrefix { stage } => dsh_search_next(true, stage, DshOutcome::Prefix(Some(String::from("/np")))),
            _ => break,
        };
    }
    assert!(matches!(action, DshAction::NotFound));
    assert_eq!(
        seen,
        vec![
            "/p/dsh.cmd", "/p/dsh.exe", "/p/dsh.com", "/p/dsh.bat",
            "/ad/npm/dsh.cmd", "/ad/npm/dsh.exe", "/ad/npm/dsh.com", "/ad/npm/dsh.bat",
            "/np/dsh.cmd", "/np/dsh.exe", "/np/dsh.com", "/np/dsh.bat",
        ]
    );
}

#[test]
fn windows_dir_file_gives_its_launcher() {
    let stage = match dsh_search_start(true, vec![String::from("/p")], None) {
        DshAction::Where { stage } => stage,
        _ => panic!("expected where"),
    };
    let (stage, _) = check_of(dsh_search_next(true, stage, DshOutcome::Listed(None)));
    let (stage, path) = check_of(dsh_search_next(true, stage, no_file()));
    assert_eq!(path, "/p/dsh.exe");
    assert!(matches!(
        dsh_search_next(true, stage, DshOutcome::File { is_file: true, executable: false }),
        DshAction::Found(DshLauncher::Direct(p)) if p == "/p/dsh.exe"
    ));
}

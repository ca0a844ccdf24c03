use deepseek_harness::npx::{npx_search_next, npx_search_start, NpxAction, NpxOutcome, NpxStage};
use deepseek_harness::service::NpxLauncher;

#[test]
fn npx_elsewhere_is_run_through_path() {
    match npx_search_start(false) {
        NpxAction::Found(NpxLauncher::Direct(p)) => assert_eq!(p, "npx"),
        _ => panic!("expected npx"),
    }
}

#[test]
fn npx_prefers_node_with_its_script() {
    let (stage, name) = match npx_search_start(true) {
        NpxAction::Where { stage, name } => (stage, name),
        _ => panic!("expected where"),
    };
    assert_eq!(name, "node");
    let listed = Some(String::from("/opt/a/node.cmd\r\n/opt/b/NODE.EXE\r\n"));
    let (stage, paths) = match npx_search_next(stage, NpxOutcome::Listed(listed)) {
        NpxAction::Check { stage, paths } => (stage, paths),
        _ => panic!("expected a check"),
    };
    assert_eq!(paths, vec!["/opt/b/node_modules/npm/bin/npx-cli.js"]);
    match npx_search_next(stage, NpxOutcome::AllExist(true)) {
        NpxAction::Found(NpxLauncher::NodeCli(n, c)) => {
            assert_eq!(n, "/opt/b/NODE.EXE");
            assert_eq!(c, "/opt/b/node_modules/npm/bin/npx-cli.js");
        }
        _ => panic!("expected node with its script"),
    }
}

#[test]
fn npx_falls_back_to_where_npx_then_usual_dirs() {
    let stage = NpxStage::Beside(String::from("/n/node.exe"), String::from("/n/x.js"));
    let stage = match npx_search_next(stage, NpxOutcome::AllExist(false)) {
        NpxAction::Where { stage, name } => {
            assert_eq!(name, "npx");
            stage
        }
        _ => panic!("expected where npx"),
    };
    match npx_search_next(stage, NpxOutcome::Listed(Some(String::from("C:\\n\\npx.cmd\nC:\\n\\npx.exe\n")))) {
        NpxAction::Found(NpxLauncher::Direct(p)) => assert_eq!(p, "C:\\n\\npx.exe"),
        _ => panic!("expected npx.exe"),
    }
    let mut action = npx_search_next(NpxStage::WhereNpx, NpxOutcome::Listed(None));
    let mut checks = 0;
    while let NpxAction::Check { stage, paths } = action {
        checks += 1;
        assert!(!paths.is_empty());
        action = npx_search_next(stage, NpxOutcome::AllExist(false));
    }
    assert_eq!(checks, 6);
    assert!(matches!(action, NpxAction::NotFound));
}

#[test]
fn npx_usual_dir_with_node_and_script() {
    match npx_search_next(NpxStage::WhereNpx, NpxOutcome::Listed(Some(String::new()))) {
        NpxAction::Check { stage, paths } => {
            assert!(matches!(stage, NpxStage::UsualNode(0)));
            assert_eq!(paths.len(), 2);
            assert!(paths[0].ends_with("node.exe"));
            assert!(paths[1].ends_with("npx-cli.js"));
            assert!(matches!(
                npx_search_next(stage, NpxOutcome::AllExist(true)),
                NpxAction::Found(NpxLauncher::NodeCli(_, _))
            ));
        }
        _ => panic!("expected a check"),
    }
    assert!(matches!(
        npx_search_next(NpxStage::UsualNpx(1), NpxOutcome::AllExist(true)),
        NpxAction::Found(NpxLauncher::Direct(p)) if p.ends_with("npx.exe")
    ));
}

#[test]
fn npx_where_node_needs_an_exe_line() {
    assert!(matches!(
        npx_search_next(NpxStage::WhereNode, NpxOutcome::Listed(Some(String::from("/")))),
        NpxAction::Where { .. }
    ));
    assert!(matches!(
        npx_search_next(NpxStage::WhereNode, NpxOutcome::Listed(Some(String::from("node.exe")))),
        NpxAction::Check { .. }
    ));
}

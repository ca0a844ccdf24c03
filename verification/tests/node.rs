use deepseek_harness::node::{listed_node_exec, node_probe_next, node_probe_start, NodeAction, NodeStage};

fn run_of(a: NodeAction) -> (NodeStage, String, Vec<String>) {
    match a {
        NodeAction::Run { stage, program, args } => (stage, program, args),
        _ => panic!("expected another attempt"),
    }
}

#[test]
fn node_probe_starts_with_path() {
    let (stage, program, args) = run_of(node_probe_start());
    assert!(matches!(stage, NodeStage::Path));
    assert_eq!(program, "node");
    assert_eq!(args, vec!["--version"]);
}

#[test]
fn node_found_on_first_success() {
    match node_probe_next(true, false, NodeStage::Path, Some((true, String::from("v20.1.0\r\n")))) {
        NodeAction::Found(v) => assert_eq!(v, "v20.1.0"),
        _ => panic!("expected the version"),
    }
}

#[test]
fn windows_attempts_in_order() {
    let (stage, program, args) = run_of(node_probe_next(true, true, NodeStage::Path, None));
    assert!(matches!(stage, NodeStage::Cmd));
    assert_eq!((program.as_str(), args), ("cmd", vec![String::from("/c"), String::from("node"), String::from("--version")]));
    let (stage, program, args) = run_of(node_probe_next(true, true, NodeStage::Cmd, Some((false, String::new()))));
    assert!(matches!(stage, NodeStage::Where));
    assert_eq!((program.as_str(), args), ("where", vec![String::from("node")]));
    let (stage, program, _) = run_of(node_probe_next(
        true,
        true,
        NodeStage::Where,
        Some((true, String::from(" C:\\nodejs\\node.exe \r\nC:\\other\\node.exe\r\n"))),
    ));
    assert!(matches!(stage, NodeStage::Listed));
    assert_eq!(program, "C:\\nodejs\\node.exe");
    let (stage, program, _) = run_of(node_probe_next(true, true, NodeStage::Listed, None));
    assert!(matches!(stage, NodeStage::Usual(0)));
    assert_eq!(program, "C:\\Program Files\\nodejs\\node.exe");
    let (stage, program, _) = run_of(node_probe_next(true, true, NodeStage::Usual(0), None));
    assert!(matches!(stage, NodeStage::Usual(1)));
    assert_eq!(program, "C:\\Program Files (x86)\\nodejs\\node.exe");
    match node_probe_next(true, true, NodeStage::Usual(1), Some((false, String::new()))) {
        NodeAction::NotFound(m) => assert_eq!(m, "未检测到 Node.js"),
        _ => panic!("expected the end"),
    }
}

#[test]
fn where_without_output_goes_to_usual_paths() {
    let (stage, _, _) = run_of(node_probe_next(true, false, NodeStage::Where, Some((true, String::new()))));
    assert!(matches!(stage, NodeStage::Usual(0)));
    let (stage, _, _) = run_of(node_probe_next(true, false, NodeStage::Where, None));
    assert!(matches!(stage, NodeStage::Usual(0)));
}

#[test]
fn other_systems_use_a_shell() {
    let (stage, program, args) = run_of(node_probe_next(false, true, NodeStage::Path, None));
    assert!(matches!(stage, NodeStage::Shell));
    assert_eq!(program, "/bin/bash");
    assert_eq!(args, vec!["-c", "node --version"]);
    let (_, program, _) = run_of(node_probe_next(false, false, NodeStage::Path, None));
    assert_eq!(program, "/bin/sh");
    assert!(matches!(
        node_probe_next(false, false, NodeStage::Shell, Some((false, String::from("x")))),
        NodeAction::NotFound(_)
    ));
}

#[test]
fn node_probe_ends_within_six_attempts() {
    let mut action = node_probe_start();
    let mut runs = 0;
    while let NodeAction::Run { stage, .. } = action {
        runs += 1;
        action = node_probe_next(true, true, stage, None);
    }
    assert_eq!(runs, 5);
    assert!(matches!(action, NodeAction::NotFound(_)));

    let mut action = node_probe_start();
    let mut runs = 0;
    while let NodeAction::Run { stage, .. } = action {
        runs += 1;
        let outcome = match stage {
            NodeStage::Where => Some((true, String::from("C:\\n\\node.exe"))),
            _ => Some((false, String::new())),
        };
        action = node_probe_next(true, true, stage, outcome);
    }
    assert_eq!(runs, 6);
    assert!(matches!(action, NodeAction::NotFound(_)));
}

#[test]
fn listed_node_first_line() {
    assert_eq!(listed_node_exec("a\nb"), Some(String::from("a")));
    assert_eq!(listed_node_exec("\nb"), Some(String::new()));
    assert_eq!(listed_node_exec(""), None);
}

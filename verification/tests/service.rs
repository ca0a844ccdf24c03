use deepseek_harness::service::{
    classify_probe, dsh_candidates_in, dsh_launcher_from_path, dsh_web_args, extract_dsh_url,
    first_exe_line, global_prefix_from, launcher_for_extension, listed_paths, npm_bin_dir,
    npm_cache_dir, npx_cli_beside, npx_cli_path, port_search_step, ready_wait_progress,
    service_url, strip_ansi, DshLauncher, ExitAction, LineOutcome, NpxLauncher, PortProbe,
    PortSearch, ServiceManager,
};

#[test]
fn recognizes_windows_dsh_launchers() {
    assert!(matches!(
        dsh_launcher_from_path(String::from(r"C:\npm\dsh.cmd")),
        Some(DshLauncher::CmdShim(_))
    ));
    assert!(matches!(
        dsh_launcher_from_path(String::from(r"C:\npm\dsh.exe")),
        Some(DshLauncher::Direct(_))
    ));
}

#[test]
fn ignores_non_windows_shims() {
    assert!(dsh_launcher_from_path(String::from(r"C:\npm\dsh")).is_none());
    assert!(dsh_launcher_from_path(String::from(r"C:\npm\dsh.ps1")).is_none());
}

#[test]
fn launcher_extension_ignores_case() {
    assert!(matches!(
        launcher_for_extension(String::from("dsh.BAT"), Some(String::from("BAT"))),
        Some(DshLauncher::CmdShim(p)) if p == "dsh.BAT"
    ));
    assert!(matches!(
        launcher_for_extension(String::from("dsh.Com"), Some(String::from("Com"))),
        Some(DshLauncher::Direct(p)) if p == "dsh.Com"
    ));
    assert!(launcher_for_extension(String::from("dsh"), None).is_none());
    assert!(matches!(
        dsh_launcher_from_path(String::from("/npm/dsh.CMD")),
        Some(DshLauncher::CmdShim(p)) if p == "/npm/dsh.CMD"
    ));
}

#[test]
fn dsh_web_command_uses_port_flag_not_env() {
    let args = dsh_web_args(3080);
    let args: Vec<&str> = args.iter().map(|s| s.as_str()).collect();
    assert!(args.contains(&"--port"), "actual args: {:?}", args);
    assert!(args.contains(&"3080"), "actual args: {:?}", args);
    assert!(args.contains(&"web"), "actual args: {:?}", args);
    assert!(args.contains(&"--no-open"), "actual args: {:?}", args);
    let web_idx = args.iter().position(|&a| a == "web").expect("web missing");
    assert_eq!(args.get(web_idx + 1).copied(), Some("--port"), "actual args: {:?}", args);
    assert_eq!(args.get(web_idx + 2).copied(), Some("3080"), "actual args: {:?}", args);
    assert_eq!(args.get(web_idx + 3).copied(), Some("--no-open"), "actual args: {:?}", args);
}

#[test]
fn dsh_web_command_honors_custom_port() {
    let args = dsh_web_args(1420);
    let args: Vec<&str> = args.iter().map(|s| s.as_str()).collect();
    assert!(args.contains(&"1420"), "actual args: {:?}", args);
    assert!(!args.contains(&"3080"), "actual args: {:?}", args);
}

#[test]
fn dsh_url_extract_captures_token_url() {
    assert_eq!(
        extract_dsh_url("dsh web: http://127.0.0.1:3080/?token=abc123XYZ"),
        Some("http://127.0.0.1:3080/?token=abc123XYZ".to_string())
    );
}

#[test]
fn dsh_url_extract_captures_plain_url_without_token() {
    assert_eq!(
        extract_dsh_url("dsh web: http://127.0.0.1:3080"),
        Some("http://127.0.0.1:3080".to_string())
    );
}

#[test]
fn dsh_url_extract_keeps_underscore_in_token() {
    assert_eq!(
        extract_dsh_url(
            "dsh web: http://127.0.0.1:3080/?token=l13aTokKJe0os8tAIWGJ19V7eX_v6DyktXD4ydUT_2k"
        ),
        Some(
            "http://127.0.0.1:3080/?token=l13aTokKJe0os8tAIWGJ19V7eX_v6DyktXD4ydUT_2k".to_string()
        )
    );
}

#[test]
fn dsh_url_extract_handles_localhost_and_stops_at_whitespace() {
    assert_eq!(
        extract_dsh_url("dsh web: http://localhost:3080/?token=xyz and text"),
        Some("http://localhost:3080/?token=xyz".to_string())
    );
}

#[test]
fn dsh_url_extract_ignores_unrelated_lines() {
    assert_eq!(extract_dsh_url("npm warn deprecated node-domexception@1.0.0"), None);
    assert_eq!(extract_dsh_url("see http://example.com/index for docs"), None);
}

#[test]
fn dsh_url_extract_prefers_loopback_and_stops_at_quotes() {
    assert_eq!(
        extract_dsh_url("see http://localhost:1/ and \"http://127.0.0.1:3080/?token=q\" now"),
        Some("http://127.0.0.1:3080/?token=q".to_string())
    );
    assert_eq!(
        extract_dsh_url("<http://localhost:3080/x>"),
        Some("http://localhost:3080/x".to_string())
    );
    assert_eq!(extract_dsh_url("http://127.0.0.1:"), Some("http://127.0.0.1:".to_string()));
}

#[test]
fn service_url_names_the_port() {
    assert_eq!(service_url(3080), "http://127.0.0.1:3080");
    assert_eq!(service_url(0), "http://127.0.0.1:0");
    assert_eq!(service_url(65535), "http://127.0.0.1:65535");
}

#[test]
fn strip_ansi_removes_colour_codes() {
    assert_eq!(strip_ansi("\u{1b}[32mdsh web:\u{1b}[0m ok"), "dsh web: ok");
    assert_eq!(strip_ansi("plain text"), "plain text");
    assert_eq!(strip_ansi(""), "");
    assert_eq!(strip_ansi("a\u{1b}[1;31"), "a");
}

#[test]
fn strip_ansi_law_holds_on_clean_text() {
    let once = strip_ansi("\u{1b}[1mhttp://127.0.0.1:3080/?token=a\u{1b}[0m");
    assert_eq!(once, "http://127.0.0.1:3080/?token=a");
    assert_eq!(strip_ansi(&once), once);
}

#[test]
fn npm_cache_dir_prefers_local_app_data() {
    assert_eq!(
        npm_cache_dir(Some(String::from("/lad")), "/opt/app"),
        "/lad/DeepseekHarness/npm-cache"
    );
    assert_eq!(npm_cache_dir(None, "/opt/app"), "/opt/app/config/npm-cache");
}

#[test]
fn npx_invocation_puts_cli_first() {
    let args = vec![String::from("--yes"), String::from("pnpm")];
    let (prog, all) =
        NpxLauncher::NodeCli(String::from("node.exe"), String::from("npx-cli.js")).invocation(&args);
    assert_eq!(prog, "node.exe");
    assert_eq!(all, vec!["npx-cli.js", "--yes", "pnpm"]);
    let (prog, all) = NpxLauncher::Direct(String::from("npx")).invocation(&args);
    assert_eq!(prog, "npx");
    assert_eq!(all, vec!["--yes", "pnpm"]);
}

#[test]
fn global_prefix_takes_last_nonblank_line() {
    assert_eq!(
        global_prefix_from("npm notice\n  /usr/local  \n\n"),
        Some(String::from("/usr/local"))
    );
    assert_eq!(global_prefix_from(" \n\n"), None);
    assert_eq!(global_prefix_from(""), None);
}

#[test]
fn classify_probe_reads_the_reply() {
    assert!(matches!(classify_probe(false, None), PortProbe::Free));
    assert!(matches!(
        classify_probe(true, Some(b"HTTP/1.1 200 OK".to_vec())),
        PortProbe::ServiceRunning
    ));
    assert!(matches!(classify_probe(true, Some(b"http/1.0 404".to_vec())), PortProbe::ServiceRunning));
    assert!(matches!(classify_probe(true, Some(b"SSH-2.0".to_vec())), PortProbe::OccupiedByOther));
    assert!(matches!(classify_probe(true, Some(Vec::new())), PortProbe::OccupiedByOther));
    assert!(matches!(classify_probe(true, None), PortProbe::OccupiedByOther));
}

#[test]
fn port_search_steps() {
    assert!(matches!(port_search_step(3080, 0, true), PortSearch::Found(3080)));
    assert!(matches!(port_search_step(3080, 2, true), PortSearch::Found(3082)));
    assert!(matches!(port_search_step(3080, 0, false), PortSearch::Probe(3081)));
    assert!(matches!(port_search_step(3080, 8, false), PortSearch::Probe(3089)));
    match port_search_step(3080, 9, false) {
        PortSearch::Exhausted(m) => assert_eq!(m, "端口 3080 及后续 10 个端口均被占用"),
        _ => panic!("expected the search to end"),
    }
}

#[test]
fn port_search_settles_on_first_free_port() {
    let free = [false, false, true, true, false, false, false, false, false, false];
    let mut tried: u16 = 0;
    let found = loop {
        match port_search_step(4000, tried, free[tried as usize]) {
            PortSearch::Found(p) => break Some(p),
            PortSearch::Probe(p) => {
                assert_eq!(p, 4000 + tried + 1);
                tried += 1;
            }
            PortSearch::Exhausted(_) => break None,
        }
    };
    assert_eq!(found, Some(4002));
}

#[test]
fn new_manager_is_stopped_on_default_port() {
    let m = ServiceManager::new(String::from("/opt/app"));
    let s = m.status();
    assert!(!s.running);
    assert_eq!(s.port, 3080);
    assert_eq!(s.url, "");
    assert_eq!(m.install_dir(), "/opt/app");
    assert_eq!(m.restart_count(), 0);
    assert!(!m.is_restarting());
    assert_eq!(m.get_auth_url(), None);
}

#[test]
fn restarts_are_bounded_by_three() {
    let mut m = ServiceManager::new(String::from("/opt/app"));
    m.prepare_start(3080);
    assert!(!m.attach_process());
    assert!(m.claim_monitor());
    assert!(!m.claim_monitor());
    for n in 1..=3u32 {
        match m.on_process_exit() {
            ExitAction::Restart(k) => assert_eq!(k, n),
            _ => panic!("expected a restart"),
        }
        assert!(!m.status().running);
        assert!(matches!(m.on_process_exit(), ExitAction::Ignore));
        m.prepare_restart(3080);
        assert!(m.attach_process());
        m.finish_restart(true);
        assert!(m.status().running);
    }
    assert!(matches!(m.on_process_exit(), ExitAction::GiveUp));
    assert_eq!(m.restart_count(), 3);
    assert!(!m.status().running);
    m.prepare_start(3081);
    assert_eq!(m.restart_count(), 0);
    assert_eq!(m.status().url, "http://127.0.0.1:3081");
}

#[test]
fn failed_restart_ignores_later_exits() {
    let mut m = ServiceManager::new(String::from("/opt/app"));
    m.prepare_start(3080);
    m.attach_process();
    assert!(matches!(m.on_process_exit(), ExitAction::Restart(1)));
    m.finish_restart(false);
    assert!(m.is_restarting());
    assert!(matches!(m.on_process_exit(), ExitAction::Ignore));
}

#[test]
fn stop_prevents_restart() {
    let mut m = ServiceManager::new(String::from("/opt/app"));
    m.prepare_start(3080);
    m.attach_process();
    assert!(m.stop());
    assert!(!m.stop());
    assert!(!m.status().running);
    assert!(matches!(m.on_process_exit(), ExitAction::Ignore));
    assert_eq!(m.restart_count(), 0);
}

#[test]
fn kill_on_exit_lets_go_of_the_process() {
    let mut m = ServiceManager::new(String::from("/opt/app"));
    assert!(!m.kill_service_blocking());
    m.attach_process();
    assert!(m.kill_service_blocking());
    assert!(m.is_restarting());
}

#[test]
fn adopted_service_runs_without_announcement() {
    let mut m = ServiceManager::new(String::from("/opt/app"));
    m.adopt_running_service(3082);
    let s = m.status();
    assert!(s.running);
    assert_eq!(s.port, 3082);
    assert_eq!(s.url, "http://127.0.0.1:3082");
    assert_eq!(m.get_auth_url(), None);
}

#[test]
fn ready_is_announced_once() {
    let mut m = ServiceManager::new(String::from("/opt/app"));
    m.prepare_start(3080);
    assert_eq!(m.claim_ready(3080), Some(String::from("http://127.0.0.1:3080")));
    assert_eq!(m.claim_ready(3080), None);
    m.reset_ready_state();
    assert_eq!(m.claim_ready(3080), Some(String::from("http://127.0.0.1:3080")));
}

#[test]
fn captured_url_is_announced() {
    let mut m = ServiceManager::new(String::from("/opt/app"));
    m.prepare_start(3080);
    assert!(matches!(m.capture_line("starting..."), LineOutcome::Plain));
    assert!(matches!(m.capture_line("token=??"), LineOutcome::TokenUnparsed));
    match m.capture_line("\u{1b}[36mdsh web: http://127.0.0.1:3080/?token=t_1\u{1b}[0m") {
        LineOutcome::Captured { url, announce } => {
            assert_eq!(url, "http://127.0.0.1:3080/?token=t_1");
            assert!(announce);
        }
        _ => panic!("expected a capture"),
    }
    assert_eq!(m.get_auth_url(), Some(String::from("http://127.0.0.1:3080/?token=t_1")));
    assert_eq!(m.claim_ready(3080), None);
    match m.capture_line("dsh web: http://127.0.0.1:3080/?token=t_2") {
        LineOutcome::Captured { url, announce } => {
            assert_eq!(url, "http://127.0.0.1:3080/?token=t_2");
            assert!(!announce);
        }
        _ => panic!("expected a capture"),
    }
}

#[test]
fn ready_announces_the_captured_url_after_a_port_answer() {
    let mut m = ServiceManager::new(String::from("/opt/app"));
    m.prepare_start(3080);
    m.capture_line("dsh web: http://127.0.0.1:3080/?token=abc");
    m.reset_ready_state();
    assert_eq!(m.get_auth_url(), None);
    m.capture_line("dsh web: http://localhost:3080/?token=def");
    m.reset_restart_count();
    assert_eq!(m.restart_count(), 0);
    assert_eq!(m.claim_ready(3080), None);
}

#[test]
fn npx_cli_paths() {
    assert_eq!(npx_cli_path("/opt/node"), "/opt/node/node_modules/npm/bin/npx-cli.js");
    assert_eq!(
        npx_cli_beside("/opt/node/node.exe"),
        Some(String::from("/opt/node/node_modules/npm/bin/npx-cli.js"))
    );
    assert_eq!(npx_cli_beside("/"), None);
}

#[test]
fn first_exe_line_of_where_output() {
    assert_eq!(
        first_exe_line("C:\\a\\node\r\nC:\\b\\NODE.EXE\r\nC:\\c\\node.exe\r\n"),
        Some(String::from("C:\\b\\NODE.EXE"))
    );
    assert_eq!(first_exe_line("C:\\a\\npx.cmd\n"), None);
    assert_eq!(first_exe_line(""), None);
}

#[test]
fn where_and_candidates() {
    assert_eq!(listed_paths(" a.cmd \r\n\r\nb.exe\n"), vec!["a.cmd", "b.exe"]);
    assert_eq!(
        dsh_candidates_in(true, "/bin"),
        vec!["/bin/dsh.cmd", "/bin/dsh.exe", "/bin/dsh.com", "/bin/dsh.bat"]
    );
    assert_eq!(dsh_candidates_in(false, "/bin"), vec!["/bin/dsh"]);
    assert_eq!(npm_bin_dir(true, "/usr/local"), "/usr/local");
    assert_eq!(npm_bin_dir(false, "/usr/local"), "/usr/local/bin");
}

#[test]
fn ready_wait_progress_every_fifth_second() {
    assert_eq!(ready_wait_progress(0), None);
    assert_eq!(ready_wait_progress(4), Some(String::from("[系统] 等待服务就绪... (5/90)")));
    assert_eq!(ready_wait_progress(89), Some(String::from("[系统] 等待服务就绪... (90/90)")));
    assert_eq!(ready_wait_progress(88), None);
}

#[test]
fn strip_ansi_keeps_order_of_what_is_left() {
    assert_eq!(strip_ansi("a\u{1b}[31mb\u{1b}[0mc"), "abc");
    assert_eq!(strip_ansi("\u{1b}x plain"), " plain");
}

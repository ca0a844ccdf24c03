use deepseek_harness::config::{default_theme, AppConfig, LoadPlan, StoredConfig};
use deepseek_harness::logs::{
    app_log_dir, app_log_line, dated_log_name, log_expired, npm_log_dir, service_log_line,
};
use deepseek_harness::ui::{folder_opener, hides_on_close, tray_action, TrayAction};

#[test]
fn default_config() {
    let c = AppConfig::default();
    assert_eq!(c.port, 3080);
    assert_eq!(c.theme, "system");
    assert_eq!(default_theme(), "system");
}

#[test]
fn config_paths() {
    let app = String::from("/opt/app");
    assert_eq!(AppConfig::config_dir(&app), "/opt/app/config");
    assert_eq!(AppConfig::config_path(&app), "/opt/app/config/config.toml");
    assert_eq!(AppConfig::backup_path(&app), "/opt/app/config/config.toml.bak");
}

#[test]
fn load_plan_per_finding() {
    assert!(matches!(AppConfig::load_plan(StoredConfig::Missing), LoadPlan::ResetToDefault { backup: false }));
    assert!(matches!(AppConfig::load_plan(StoredConfig::Corrupt), LoadPlan::ResetToDefault { backup: true }));
    let c = AppConfig { port: 4000, theme: String::from("dark") };
    match AppConfig::load_plan(StoredConfig::Parsed(c)) {
        LoadPlan::Use(c) => {
            assert_eq!(c.port, 4000);
            assert_eq!(c.theme, "dark");
        }
        _ => panic!("a parsed configuration is used"),
    }
}

#[test]
fn log_locations_and_lines() {
    assert_eq!(app_log_dir("/opt/app"), "/opt/app/config/applog");
    assert_eq!(npm_log_dir("/opt/app"), "/opt/app/config/npmlog");
    assert_eq!(
        app_log_line("2025-01-01 10:00:00", "INFO", "started"),
        "[2025-01-01 10:00:00] [INFO] started\n"
    );
    assert_eq!(
        service_log_line("10:00:00", "stdout", 3080, "dsh web: ready"),
        "[10:00:00] [stdout] [port:3080] dsh web: ready"
    );
}

#[test]
fn dated_log_names() {
    assert_eq!(dated_log_name("app", "2025-01-02"), "app-2025-01-02.log");
    assert_eq!(dated_log_name("npm", "2025-01-02"), "npm-2025-01-02.log");
}

#[test]
fn log_expiry_cutoff() {
    let day: i64 = 86_400_000;
    let now: i64 = 100 * day;
    assert!(log_expired(now - 30 * day - 1, now, 30));
    assert!(!log_expired(now - 30 * day, now, 30));
    assert!(!log_expired(now, now, 30));
    assert!(log_expired(now - 1, now, 0));
    assert!(log_expired(i64::MIN, i64::MAX, 106_751_991_167));
}

#[test]
fn tray_and_window_rules() {
    assert!(matches!(tray_action("open"), TrayAction::ShowMain));
    assert!(matches!(tray_action("settings"), TrayAction::OpenSettings));
    assert!(matches!(tray_action("quit"), TrayAction::Quit));
    assert!(matches!(tray_action("other"), TrayAction::Ignore));
    assert!(hides_on_close("main"));
    assert!(hides_on_close("settings"));
    assert!(!hides_on_close("dsh"));
    assert_eq!(folder_opener("windows"), Some(String::from("explorer")));
    assert_eq!(folder_opener("macos"), Some(String::from("open")));
    assert_eq!(folder_opener("linux"), Some(String::from("xdg-open")));
    assert_eq!(folder_opener("freebsd"), None);
}

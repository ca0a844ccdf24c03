use deepseek_harness::dsh::{
    current_version_from, dsh_update_args, dsh_version_info, ensured_registry_info,
    is_official_exec, latest_version_from, latest_version_of, mirror_needed, registry_info,
    select_registry, switched_registry_info,
};
use deepseek_harness::extensions::{
    enhanced_path, extension_source, extensions_from_package_json, extensions_of, install_args,
    is_git_source, package_name, path_contains, profile_dir, uninstall_args,
};
use deepseek_harness::update::{check_release, failure_report, release_check_of};
use deepseek_harness::version::{parse_version, version_greater, version_less};

#[test]
fn dsh_versions_parse_and_order() {
    assert_eq!(parse_version("v0.4.1-beta.2"), vec![0, 4, 1, 2]);
    assert_eq!(parse_version("1.2.3+build"), vec![1, 2, 3]);
    assert_eq!(parse_version(""), Vec::<u32>::new());
    assert!(version_less("0.4.1", "0.4.2"));
    assert!(version_less("0.4", "0.4.0"));
    assert!(version_less("v0.9.9", "1.0.0"));
    assert!(!version_less("1.0.0", "1.0.0"));
    assert!(!version_less("1.10.0", "1.9.9"));
}

#[test]
fn release_versions_order() {
    assert!(version_greater("1.3.1", "1.3.0"));
    assert!(version_greater("1.10", "1.9.9"));
    assert!(!version_greater("1.3.0", "1.3.0"));
    assert!(!version_greater("1.2.9", "1.3.0"));
    assert!(version_greater("1.3.0.1", "1.3.0"));
    assert!(!version_greater("1.x", "1.0"));
    assert!(version_greater("1.2.0", "1.2"));
    assert!(version_less("1.9.0", "1.10.0"));
}

#[test]
fn latest_version_from_registry_answer() {
    assert_eq!(latest_version_from(r#"{"name":"@deepseek-ai/dsh","version":"0.5.0"}"#), Ok(String::from("0.5.0")));
    assert_eq!(latest_version_from(r#"{"version":5}"#), Err(String::from("无法获取 latest 版本号")));
    let e = latest_version_from("not json").unwrap_err();
    assert!(e.starts_with("解析 registry 响应失败: "));
    assert!(e.len() > "解析 registry 响应失败: ".len());
}

#[test]
fn latest_version_of_each_field_outcome() {
    assert_eq!(latest_version_of(Ok(Some(String::from("1.0.0")))), Ok(String::from("1.0.0")));
    assert_eq!(latest_version_of(Ok(None)), Err(String::from("无法获取 latest 版本号")));
    assert_eq!(
        latest_version_of(Err(String::from("eof"))),
        Err(String::from("解析 registry 响应失败: eof"))
    );
}

#[test]
fn current_version_from_probe() {
    assert_eq!(
        current_version_from(Some((true, String::from(" 0.4.1\n")))),
        (String::from("0.4.1"), String::from("global"))
    );
    assert_eq!(
        current_version_from(Some((true, String::from("  ")))),
        (String::from("unknown"), String::from("unknown"))
    );
    assert_eq!(
        current_version_from(Some((false, String::from("0.4.1")))),
        (String::from("unknown"), String::from("unknown"))
    );
    assert_eq!(current_version_from(None), (String::from("unknown"), String::from("unknown")));
}

#[test]
fn version_info_needs_update_only_when_older() {
    let i = dsh_version_info(String::from("0.4.1"), String::from("global"), Ok(String::from("0.5.0")));
    assert!(i.needs_update);
    assert_eq!(i.latest, "0.5.0");
    let i = dsh_version_info(String::from("0.5.0"), String::from("global"), Ok(String::from("0.5.0")));
    assert!(!i.needs_update);
    let i = dsh_version_info(String::from("unknown"), String::from("unknown"), Ok(String::from("0.5.0")));
    assert!(!i.needs_update);
    let i = dsh_version_info(String::from("0.4.1"), String::from("global"), Err(String::from("offline")));
    assert_eq!(i.latest, "unknown");
    assert!(!i.needs_update);
    assert_eq!(i.current, "0.4.1");
    assert_eq!(i.source, "global");
}

#[test]
fn update_args_install_latest() {
    assert_eq!(
        dsh_update_args(),
        vec!["install", "-g", "@deepseek-ai/dsh@latest", "--force", "--verbose", "--no-audit", "--no-fund"]
    );
}

#[test]
fn registry_reports() {
    assert!(is_official_exec("https://registry.npmjs.org/"));
    assert!(!is_official_exec("https://registry.npmmirror.com"));
    let r = registry_info(String::from("https://registry.npmjs.org/"), false);
    assert!(r.is_official && !r.switched && r.error.is_none() && !r.in_china);
    assert!(mirror_needed("https://registry.npmjs.org/", true));
    assert!(!mirror_needed("https://registry.npmjs.org/", false));
    assert!(!mirror_needed("https://registry.npmmirror.com", true));
}

#[test]
fn ensured_registry_switches_only_when_needed() {
    let official = String::from("https://registry.npmjs.org/");
    let r = ensured_registry_info(official.clone(), true, Some(Ok(())));
    assert_eq!(r.registry, "https://registry.npmmirror.com");
    assert!(r.switched && !r.is_official && r.error.is_none());
    let r = ensured_registry_info(official.clone(), true, Some(Err(String::from("denied"))));
    assert_eq!(r.registry, official);
    assert!(!r.switched && r.is_official);
    assert_eq!(r.error, Some(String::from("denied")));
    let r = ensured_registry_info(official.clone(), false, Some(Ok(())));
    assert_eq!(r.registry, official);
    assert!(!r.switched);
    let mirror = String::from("https://registry.npmmirror.com");
    let r = ensured_registry_info(mirror.clone(), true, None);
    assert_eq!(r.registry, mirror);
    assert!(!r.switched);
}

#[test]
fn select_registry_allows_two_sources() {
    assert_eq!(select_registry("https://registry.npmjs.org/"), Ok(String::from("https://registry.npmjs.org")));
    assert_eq!(select_registry("npmmirror"), Ok(String::from("https://registry.npmmirror.com")));
    assert_eq!(
        select_registry("https://evil.example.com"),
        Err(String::from("不支持的 npm 源，仅允许官方源或 npmmirror"))
    );
    let r = switched_registry_info(String::from("https://registry.npmjs.org"), true);
    assert!(r.switched && r.is_official && r.in_china);
    let r = switched_registry_info(String::from("https://registry.npmmirror.com"), true);
    assert!(r.switched && !r.is_official);
}

#[test]
fn check_release_offers_newer() {
    let body = r#"{"tag_name":"v1.4.0","html_url":"https://github.com/x/releases/v1.4.0","published_at":"2025-01-01T00:00:00Z"}"#;
    let (r, report) = check_release(body, "1.3.0");
    let info = r.unwrap().unwrap();
    assert_eq!(info.version, "v1.4.0");
    assert_eq!(info.html_url, "https://github.com/x/releases/v1.4.0");
    assert_eq!(info.published_at, Some(String::from("2025-01-01T00:00:00Z")));
    assert_eq!(report.latest, "v1.4.0");
    assert_eq!(report.current, "v1.3.0");
    assert!(report.update_available);
    assert!(report.error.is_none());
}

#[test]
fn check_release_same_version_not_offered() {
    let body = r#"{"tag_name":"1.3.0","html_url":"u"}"#;
    let (r, report) = check_release(body, "1.3.0");
    assert!(r.unwrap().is_none());
    assert!(!report.update_available);
    assert_eq!(report.latest, "1.3.0");
}

#[test]
fn check_release_errors() {
    let (r, report) = check_release(r#"{"html_url":"u"}"#, "1.3.0");
    assert_eq!(r.unwrap_err(), "无法获取版本号");
    assert_eq!(report.latest, "unknown");
    assert_eq!(report.current, "v1.3.0");
    assert!(!report.update_available);
    assert_eq!(report.error, Some(String::from("无法获取版本号")));
    let (r, report) = check_release(r#"{"tag_name":"v9"}"#, "1.3.0");
    assert_eq!(r.unwrap_err(), "无法获取下载链接");
    assert_eq!(report.error, Some(String::from("无法获取下载链接")));
    let (r, report) = check_release("<html>", "1.3.0");
    let e = r.unwrap_err();
    assert!(e.starts_with("解析 GitHub 响应失败: "));
    assert_eq!(report.latest, "unknown");
    assert_eq!(report.error, Some(e));
}

#[test]
fn release_check_of_field_outcomes() {
    let (r, rep) = release_check_of(
        Ok(Some(String::from("vv2.0"))),
        Ok(Some(String::from("u"))),
        Err(String::from("ignored")),
        "1.9",
    );
    let info = r.unwrap().unwrap();
    assert_eq!(info.version, "vv2.0");
    assert_eq!(info.published_at, None);
    assert!(rep.update_available);
    let (r, rep) = release_check_of(Err(String::from("eof")), Ok(None), Ok(None), "1.9");
    assert_eq!(r.unwrap_err(), "解析 GitHub 响应失败: eof");
    assert_eq!(rep.latest, "unknown");
    assert_eq!(rep.current, "v1.9");
    assert_eq!(rep.error, Some(String::from("解析 GitHub 响应失败: eof")));
}

#[test]
fn failure_report_is_unknown() {
    let r = failure_report("1.3.0", String::from("请求 GitHub API 失败: timeout"));
    assert_eq!(r.latest, "unknown");
    assert_eq!(r.current, "v1.3.0");
    assert!(!r.update_available);
    assert_eq!(r.error, Some(String::from("请求 GitHub API 失败: timeout")));
}

#[test]
fn path_membership_ignores_case() {
    assert!(path_contains("C:\\Windows;C:\\Program Files\\Git\\cmd", "c:\\program files\\git\\cmd"));
    assert!(path_contains("/usr/bin:/opt/npm", "/opt/npm"));
    assert!(!path_contains("/usr/bin:/opt/npm", "/opt"));
}

#[test]
fn enhanced_path_adds_missing_dirs() {
    assert_eq!(
        enhanced_path(Some(String::from("/usr/bin")), Some(String::from(" /opt/npm \n")), false),
        "/usr/bin;/opt/npm"
    );
    assert_eq!(
        enhanced_path(Some(String::from("/usr/bin;/opt/npm")), Some(String::from("/opt/npm")), false),
        "/usr/bin;/opt/npm"
    );
    assert_eq!(enhanced_path(None, Some(String::from("  ")), false), "");
    assert_eq!(
        enhanced_path(Some(String::from("C:\\x")), None, true),
        "C:\\x;C:\\Program Files\\Git\\cmd"
    );
    assert_eq!(
        enhanced_path(Some(String::from("C:\\Program Files\\Git\\cmd")), None, true),
        "C:\\Program Files\\Git\\cmd"
    );
}

#[test]
fn extension_inputs_are_trimmed() {
    assert_eq!(extension_source("  github:a/b "), Ok(String::from("github:a/b")));
    assert_eq!(extension_source("   "), Err(String::from("扩展来源不能为空")));
    assert_eq!(package_name(" pkg\n"), Ok(String::from("pkg")));
    assert_eq!(package_name(""), Err(String::from("包名不能为空")));
    assert!(is_git_source("github:a/b"));
    assert!(is_git_source("git+https://x/y"));
    assert!(is_git_source("https://x/y.git"));
    assert!(!is_git_source("@scope/pkg"));
}

#[test]
fn plugin_args() {
    assert_eq!(
        install_args(&String::from("pkg")),
        vec!["--yes", "@deepseek-ai/dsh@latest", "plugin", "--profile", "web", "add", "pkg", "--loglevel=debug"]
    );
    assert_eq!(
        uninstall_args(&String::from("pkg")),
        vec!["--yes", "@deepseek-ai/dsh@latest", "plugin", "--profile", "web", "remove", "pkg"]
    );
}

#[test]
fn profile_dir_needs_home() {
    assert_eq!(profile_dir(Some(String::from("/home/u"))), Ok(String::from("/home/u/.dsh/profiles/web")));
    assert_eq!(profile_dir(None), Err(String::from("无法确定用户主目录")));
}

#[test]
fn extensions_listed_from_package_json() {
    let v = extensions_from_package_json(r#"{"dependencies":{"dsh-ext":{"version":"1.2.0"}}}"#).unwrap();
    assert_eq!(v.len(), 1);
    assert_eq!(v[0].name, "dsh-ext");
    assert_eq!(v[0].version, "1.2.0");
    let v = extensions_from_package_json(r#"{"dependencies":{"plain":"^1.0.0"}}"#).unwrap();
    assert_eq!(v[0].name, "plain");
    assert_eq!(v[0].version, "");
    assert_eq!(extensions_from_package_json(r#"{"name":"p"}"#).unwrap().len(), 0);
    assert!(extensions_from_package_json("{").unwrap_err().starts_with("解析 profile 配置失败: "));
}

#[test]
fn extensions_of_each_outcome() {
    let v = extensions_of(Ok(Some(vec![
        (String::from("a"), Some(String::from("1"))),
        (String::from("b"), None),
    ])))
    .unwrap();
    assert_eq!(v.len(), 2);
    assert_eq!((v[0].name.as_str(), v[0].version.as_str()), ("a", "1"));
    assert_eq!((v[1].name.as_str(), v[1].version.as_str()), ("b", ""));
    assert_eq!(extensions_of(Ok(None)).unwrap().len(), 0);
    assert_eq!(
        extensions_of(Err(String::from("bad"))).unwrap_err(),
        "解析 profile 配置失败: bad"
    );
}

use deepseek_harness::yaml::{patches_tags_named, tags_named_exec};
use deepseek_harness::mcp::{
    active_profile, add_mcp_server, build_patch_entry, dsh_home, field_str_arr_exec,
    field_str_exec, field_str_map_exec, is_blank, is_valid_server_name, list_mcp_servers,
    get_mcp_config_path, mcp_backup_path, parse_mcp_entry, patches_of, profile_path,
    patches_from_text, patches_to_text, remove_mcp_server, server_keys_distinct, yaml_as_str_exec, yaml_get_exec, McpServerInput, ProfileDir, YamlValue,
};

fn s(x: &str) -> YamlValue {
    YamlValue::Str(String::from(x))
}

fn stdio_input(name: &str) -> McpServerInput {
    McpServerInput {
        id: None,
        server_name: String::from(name),
        transport: String::from("stdio"),
        command: Some(String::from("npx")),
        args: Some(vec![String::from("-y"), String::from("@scope/server")]),
        env: Some(vec![(String::from("TOKEN"), String::from("x"))]),
        url: None,
        headers: None,
    }
}

fn http_input(name: &str) -> McpServerInput {
    McpServerInput {
        id: Some(String::from("remote")),
        server_name: String::from(name),
        transport: String::from("streamable-http"),
        command: None,
        args: None,
        env: None,
        url: Some(String::from("https://example.com/mcp")),
        headers: Some(vec![(String::from("Authorization"), String::from("Bearer t"))]),
    }
}

fn other_patch() -> YamlValue {
    YamlValue::Mapping(vec![(s("id"), s("theme")), (s("name"), s("@deepseek-ai/other"))])
}

#[test]
fn server_names_are_checked() {
    assert!(is_valid_server_name("fs_server-1"));
    assert!(is_valid_server_name(&"a".repeat(32)));
    assert!(!is_valid_server_name(&"a".repeat(33)));
    assert!(!is_valid_server_name(""));
    assert!(!is_valid_server_name("has space"));
    assert!(!is_valid_server_name("名字"));
}

#[test]
fn build_patch_for_stdio() {
    let p = build_patch_entry("mcp-fs", &stdio_input("fs")).unwrap();
    assert_eq!(field_str_exec(&p, "id"), Some(String::from("mcp-fs")));
    assert_eq!(field_str_exec(&p, "name"), Some(String::from("@deepseek-ai/dsh-mcp-client")));
    let cfg = yaml_get_exec(&p, "config").unwrap();
    assert_eq!(field_str_exec(cfg, "serverName"), Some(String::from("fs")));
    assert_eq!(field_str_exec(cfg, "transport"), Some(String::from("stdio")));
    assert_eq!(field_str_exec(cfg, "command"), Some(String::from("npx")));
    assert_eq!(
        field_str_arr_exec(cfg, "args"),
        Some(vec![String::from("-y"), String::from("@scope/server")])
    );
    assert_eq!(
        field_str_map_exec(cfg, "env"),
        Some(vec![(String::from("TOKEN"), String::from("x"))])
    );
    assert!(yaml_get_exec(cfg, "url").is_none());
}

#[test]
fn build_patch_for_http() {
    let p = build_patch_entry("remote", &http_input("web")).unwrap();
    let cfg = yaml_get_exec(&p, "config").unwrap();
    assert_eq!(field_str_exec(cfg, "url"), Some(String::from("https://example.com/mcp")));
    assert_eq!(
        field_str_map_exec(cfg, "headers"),
        Some(vec![(String::from("Authorization"), String::from("Bearer t"))])
    );
    assert!(yaml_get_exec(cfg, "command").is_none());
}

#[test]
fn build_patch_errors() {
    let mut bad_name = stdio_input("bad name");
    assert_eq!(
        build_patch_entry("x", &bad_name).err(),
        Some(String::from("serverName 'bad name' 不合法（仅 A-Za-z0-9_-，1-32 字符）"))
    );
    bad_name.server_name = String::from("ok");
    bad_name.transport = String::from("sse");
    assert_eq!(
        build_patch_entry("x", &bad_name).err(),
        Some(String::from("transport 'sse' 不支持（仅 stdio / streamable-http）"))
    );
    let mut no_cmd = stdio_input("fs");
    no_cmd.command = None;
    assert_eq!(build_patch_entry("x", &no_cmd).err(), Some(String::from("stdio 模式必须提供 command")));
    let mut no_url = http_input("web");
    no_url.url = None;
    assert_eq!(
        build_patch_entry("x", &no_url).err(),
        Some(String::from("streamable-http 模式必须提供 url"))
    );
}

#[test]
fn add_then_list_reads_back_the_server() {
    let mut patches = vec![other_patch()];
    let id = add_mcp_server(&mut patches, &stdio_input("fs")).unwrap();
    assert_eq!(id, "mcp-fs");
    assert_eq!(patches.len(), 2);
    let listed = list_mcp_servers(&patches);
    assert_eq!(listed.len(), 1);
    let e = &listed[0];
    assert_eq!(e.id, "mcp-fs");
    assert_eq!(e.server_name, "fs");
    assert_eq!(e.transport, "stdio");
    assert_eq!(e.command, Some(String::from("npx")));
    assert_eq!(e.args, Some(vec![String::from("-y"), String::from("@scope/server")]));
    assert_eq!(e.env, Some(vec![(String::from("TOKEN"), String::from("x"))]));
    assert_eq!(e.url, None);
    assert_eq!(e.headers, None);
}

#[test]
fn add_with_given_id_and_http() {
    let mut patches = Vec::new();
    let id = add_mcp_server(&mut patches, &http_input("web")).unwrap();
    assert_eq!(id, "remote");
    let listed = list_mcp_servers(&patches);
    assert_eq!(listed[0].transport, "streamable-http");
    assert_eq!(listed[0].url, Some(String::from("https://example.com/mcp")));
}

#[test]
fn add_refuses_duplicates_and_leaves_patches() {
    let mut patches = vec![other_patch()];
    add_mcp_server(&mut patches, &stdio_input("fs")).unwrap();
    let mut again = stdio_input("fs");
    assert_eq!(add_mcp_server(&mut patches, &again).err(), Some(String::from("id 'mcp-fs' 已存在")));
    again.id = Some(String::from("other-id"));
    assert_eq!(
        add_mcp_server(&mut patches, &again).err(),
        Some(String::from("serverName 'fs' 已存在"))
    );
    let mut clash = stdio_input("x");
    clash.id = Some(String::from("theme"));
    assert_eq!(add_mcp_server(&mut patches, &clash).err(), Some(String::from("id 'theme' 已存在")));
    let mut bad = stdio_input("x");
    bad.transport = String::from("ws");
    assert!(add_mcp_server(&mut patches, &bad).is_err());
    assert_eq!(patches.len(), 2);
}

#[test]
fn add_then_remove_restores_the_patches() {
    let original = vec![other_patch()];
    let mut patches = vec![other_patch()];
    let id = add_mcp_server(&mut patches, &stdio_input("fs")).unwrap();
    let back = remove_mcp_server(patches, &id).unwrap();
    assert_eq!(back.len(), original.len());
    assert_eq!(field_str_exec(&back[0], "id"), Some(String::from("theme")));
    assert_eq!(list_mcp_servers(&back).len(), 0);
}

#[test]
fn remove_unknown_id_is_an_error() {
    let patches = vec![other_patch()];
    assert_eq!(
        remove_mcp_server(patches, &String::from("nope")).err(),
        Some(String::from("未找到 id='nope' 的 MCP server"))
    );
}

#[test]
fn list_defaults_missing_fields() {
    let patch = YamlValue::Mapping(vec![
        (s("id"), s("bare")),
        (s("name"), s("@deepseek-ai/dsh-mcp-client")),
    ]);
    let listed = list_mcp_servers(&vec![patch, other_patch()]);
    assert_eq!(listed.len(), 1);
    assert_eq!(listed[0].id, "bare");
    assert_eq!(listed[0].server_name, "");
    assert_eq!(listed[0].transport, "stdio");
    assert_eq!(listed[0].command, None);
}

#[test]
fn parse_entry_skips_non_string_items() {
    let cfg = YamlValue::Mapping(vec![
        (s("serverName"), s("n")),
        (s("args"), YamlValue::Sequence(vec![s("a"), YamlValue::Bool(true), s("b")])),
        (s("env"), YamlValue::Mapping(vec![(s("K"), s("V")), (s("N"), YamlValue::Number(String::from("1")))])),
    ]);
    let e = parse_mcp_entry("id1", &cfg);
    assert_eq!(e.id, "id1");
    assert_eq!(e.args, Some(vec![String::from("a"), String::from("b")]));
    assert_eq!(e.env, Some(vec![(String::from("K"), String::from("V"))]));
}

#[test]
fn tagged_values_read_through() {
    let v = YamlValue::Tagged(String::from("!t"), Box::new(s("x")));
    assert_eq!(yaml_as_str_exec(&v), Some(String::from("x")));
    assert_eq!(yaml_as_str_exec(&YamlValue::Null), None);
}

#[test]
fn patch_file_root() {
    assert_eq!(patches_of(YamlValue::Null).unwrap().len(), 0);
    assert_eq!(patches_of(YamlValue::Sequence(vec![other_patch()])).unwrap().len(), 1);
    assert_eq!(
        patches_of(YamlValue::Mapping(Vec::new())).err(),
        Some(String::from("cordis.patch.yml 根节点必须是数组"))
    );
    assert!(is_blank("  \n\t"));
    assert!(!is_blank(" - a"));
}

fn dir(name: &str, has_patch: bool) -> ProfileDir {
    ProfileDir { name: String::from(name), has_patch }
}

#[test]
fn active_profile_choice() {
    assert_eq!(active_profile(&vec![]), "web");
    assert_eq!(active_profile(&vec![dir("a", false), dir("b", false)]), "a");
    assert_eq!(active_profile(&vec![dir("a", false), dir("headless", false)]), "headless");
    assert_eq!(active_profile(&vec![dir("headless", false), dir("web", false)]), "web");
    assert_eq!(active_profile(&vec![dir("web", false), dir("dev", true)]), "dev");
    assert_eq!(active_profile(&vec![dir("dev", true), dir("web", true)]), "web");
    assert_eq!(active_profile(&vec![dir("a", true), dir("b", true)]), "b");
    assert_eq!(active_profile(&vec![dir("web", true), dir("headless", true)]), "web");
    assert_eq!(active_profile(&vec![dir("web", true), dir("dev", true), dir("x", false)]), "web");
}

#[test]
fn dsh_home_and_paths() {
    assert_eq!(dsh_home(Some(String::from("  /data/dsh ")), Some(String::from("/home/u"))), "/data/dsh");
    assert_eq!(dsh_home(Some(String::from("  ")), Some(String::from("/home/u"))), "/home/u/.dsh");
    assert_eq!(dsh_home(None, None), ".dsh");
    assert_eq!(profile_path("/home/u/.dsh", "web"), "/home/u/.dsh/profiles/web");
    assert_eq!(
        get_mcp_config_path("/home/u/.dsh", "web"),
        "/home/u/.dsh/profiles/web/cordis.patch.yml"
    );
    assert_eq!(
        mcp_backup_path("/home/u/.dsh/profiles/web/cordis.patch.yml"),
        "/home/u/.dsh/profiles/web/cordis.patch.yml.bak"
    );
}

#[test]
fn remove_drops_every_patch_with_the_id() {
    let dup = || YamlValue::Mapping(vec![(s("id"), s("dup")), (s("name"), s("@deepseek-ai/dsh-mcp-client"))]);
    let kept = remove_mcp_server(vec![dup(), other_patch(), dup()], &String::from("dup")).unwrap();
    assert_eq!(kept.len(), 1);
    assert_eq!(field_str_exec(&kept[0], "id"), Some(String::from("theme")));
}

#[test]
fn patch_file_text_round_trip() {
    assert_eq!(patches_from_text("  \n").unwrap().len(), 0);
    assert_eq!(patches_from_text("~\n").unwrap().len(), 0);
    assert_eq!(
        patches_from_text("a: 1\n").err(),
        Some(String::from("cordis.patch.yml 根节点必须是数组"))
    );
    assert!(patches_from_text("- [unclosed").err().unwrap().starts_with("解析 YAML 失败: "));
    let mut patches = patches_from_text("- id: theme\n  name: '@deepseek-ai/other'\n  n: 3\n").unwrap();
    assert_eq!(patches.len(), 1);
    add_mcp_server(&mut patches, &stdio_input("fs")).unwrap();
    let text = patches_to_text(&patches).unwrap();
    let again = patches_from_text(&text).unwrap();
    assert_eq!(again.len(), 2);
    let listed = list_mcp_servers(&again);
    assert_eq!(listed.len(), 1);
    assert_eq!(listed[0].id, "mcp-fs");
    assert_eq!(listed[0].env, Some(vec![(String::from("TOKEN"), String::from("x"))]));
    assert_eq!(field_str_exec(&again[0], "id"), Some(String::from("theme")));
    assert!(text.contains("n: 3"));
}

#[test]
fn tags_need_names_to_be_written() {
    let bad = vec![YamlValue::Tagged(String::new(), Box::new(YamlValue::Null))];
    assert!(!patches_tags_named(&bad));
    let nested = YamlValue::Mapping(vec![(s("k"), YamlValue::Sequence(vec![YamlValue::Tagged(String::new(), Box::new(s("x")))]))]);
    assert!(!tags_named_exec(&nested));
    let good = vec![YamlValue::Tagged(String::from("!t"), Box::new(s("x"))), other_patch()];
    assert!(patches_tags_named(&good));
    let read = patches_from_text("- !custom {id: a}\n").unwrap();
    assert!(patches_tags_named(&read));
    assert!(patches_to_text(&read).unwrap().contains("!custom"));
}

#[test]
fn variable_and_header_names_are_distinct() {
    let mut input = stdio_input("fs");
    assert!(server_keys_distinct(&input));
    input.env = Some(vec![(String::from("A"), String::from("1")), (String::from("A"), String::from("2"))]);
    assert!(!server_keys_distinct(&input));
    let mut h = http_input("web");
    h.headers = Some(vec![(String::from("X"), String::from("1")), (String::from("Y"), String::from("2")), (String::from("X"), String::from("3"))]);
    assert!(!server_keys_distinct(&h));
}

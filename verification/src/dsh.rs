//! The dsh package: its version against npm's latest, and the npm registry
//! that installs it.
use vstd::prelude::*;
use crate::text::{
    chars_of, concat, contains, contains_exec, eq_exec, lit, opt_view, result_view, string_from,
    string_views, trim, trim_exec,
};
use crate::json::{field_view, json_string_field, string_field};
use crate::version::{spec_version_less, version_less};

verus! {

/// What the settings page shows about dsh's version.
#[derive(Debug, Clone)]
pub struct DshVersionInfo {
    /// The dsh that a start would use, or `unknown`.
    pub current: String,
    /// npm's latest version, or `unknown`.
    pub latest: String,
    /// Whether `current` is older than `latest`.
    pub needs_update: bool,
    /// Where `current` was found: `global` or `unknown`.
    pub source: String,
}

/// The latest version out of what was read of the `version` field of npm's
/// answer: the parse error, a missing version, or the version.
pub open spec fn latest_of(field: Result<Option<Seq<char>>, Seq<char>>) -> Result<Seq<char>, Seq<char>> {
    match field {
        Err(e) => Err("解析 registry 响应失败: "@ + e),
        Ok(None) => Err("无法获取 latest 版本号"@),
        Ok(Some(v)) => Ok(v),
    }
}

/// The latest version out of npm's answer for `@deepseek-ai/dsh/latest`:
/// its `version` string field.
pub open spec fn spec_latest_version(body: Seq<char>) -> Result<Seq<char>, Seq<char>> {
    latest_of(json_string_field(body, "version"@))
}

/// The latest version, from the `version` field as read from the answer.
pub fn latest_version_of(field: Result<Option<String>, String>) -> (r: Result<String, String>)
    ensures
        result_view(r) == latest_of(field_view(field)),
{
    match field {
        Err(e) => Err(string_from(&concat(&chars_of("解析 registry 响应失败: "), &chars_of(e.as_str())))),
        Ok(None) => Err(lit("无法获取 latest 版本号")),
        Ok(Some(v)) => Ok(v),
    }
}

/// Reads the latest version out of the registry's JSON answer.
pub fn latest_version_from(body: &str) -> (r: Result<String, String>)
    ensures
        result_view(r) == spec_latest_version(body@),
{
    latest_version_of(string_field(body, "version"))
}

/// The installed version and where it was found, from running
/// `dsh --version`: `probe` is `None` when dsh could not be run or did not
/// answer in time, else whether it succeeded and what it printed. A
/// successful run with non-blank output gives that output trimmed and
/// `global`; anything else gives `unknown` twice.
pub open spec fn spec_current_version(probe: Option<(bool, Seq<char>)>) -> (Seq<char>, Seq<char>) {
    match probe {
        Some((ok, out)) => if ok && trim(out).len() > 0 {
            (trim(out), "global"@)
        } else {
            ("unknown"@, "unknown"@)
        },
        None => ("unknown"@, "unknown"@),
    }
}

pub fn current_version_from(probe: Option<(bool, String)>) -> (r: (String, String))
    ensures
        (r.0@, r.1@) == spec_current_version(
            match probe {
                Some((ok, out)) => Some((ok, out@)),
                None => None,
            },
        ),
{
    match probe {
        Some((ok, out)) => {
            let v = trim_exec(&chars_of(out.as_str()));
            if ok && v.len() > 0 {
                (string_from(&v), lit("global"))
            } else {
                (lit("unknown"), lit("unknown"))
            }
        },
        None => (lit("unknown"), lit("unknown")),
    }
}

/// The version report: without a latest version it is `unknown` and no
/// update is due; with one, an update is due when the current version is
/// known and older.
pub fn dsh_version_info(current: String, source: String, latest: Result<String, String>) -> (r:
    DshVersionInfo)
    ensures
        r.current@ == current@,
        r.source@ == source@,
        match latest {
            Err(_) => r.latest@ == "unknown"@ && !r.needs_update,
            Ok(l) => r.latest@ == l@ && r.needs_update == (current@ != "unknown"@
                && spec_version_less(current@, l@)),
        },
{
    match latest {
        Err(_) => DshVersionInfo { current, latest: lit("unknown"), needs_update: false, source },
        Ok(l) => {
            let unknown = chars_of("unknown");
            let known = !eq_exec(&chars_of(current.as_str()), &unknown);
            let needs_update = known && version_less(current.as_str(), l.as_str());
            DshVersionInfo { current, latest: l, needs_update, source }
        },
    }
}

/// The npm arguments that install the latest dsh over any existing one.
pub open spec fn update_args() -> Seq<Seq<char>> {
    seq![
        "install"@,
        "-g"@,
        "@deepseek-ai/dsh@latest"@,
        "--force"@,
        "--verbose"@,
        "--no-audit"@,
        "--no-fund"@,
    ]
}

pub fn dsh_update_args() -> (r: Vec<String>)
    ensures
        string_views(r@) == update_args(),
{
    let mut r: Vec<String> = Vec::new();
    r.push(lit("install"));
    r.push(lit("-g"));
    r.push(lit("@deepseek-ai/dsh@latest"));
    r.push(lit("--force"));
    r.push(lit("--verbose"));
    r.push(lit("--no-audit"));
    r.push(lit("--no-fund"));
    assert(string_views(r@) =~= update_args());
    r
}

/* ---------------------------------------------------------------------
   npm registry
   --------------------------------------------------------------------- */

/// npm's official registry.
pub open spec fn npm_official() -> Seq<char> {
    "https://registry.npmjs.org"@
}

/// The npmmirror registry.
pub open spec fn npm_mirror() -> Seq<char> {
    "https://registry.npmmirror.com"@
}

/// The registry in use is the official one.
pub open spec fn is_official(registry: Seq<char>) -> bool {
    contains(registry, "registry.npmjs.org"@)
}

/// What the settings page shows about npm's registry.
#[derive(Debug, Clone)]
pub struct NpmRegistryInfo {
    /// The registry in effect.
    pub registry: String,
    /// Whether the network looks like one that cannot reach sites abroad.
    pub in_china: bool,
    /// Whether `registry` is the official registry.
    pub is_official: bool,
    /// Whether this call switched the registry.
    pub switched: bool,
    /// Why a switch failed.
    pub error: Option<String>,
}

pub fn is_official_exec(registry: &str) -> (r: bool)
    ensures
        r == is_official(registry@),
{
    contains_exec(&chars_of(registry), &chars_of("registry.npmjs.org"))
}

/// The registry report for `registry` as read, without any change.
pub fn registry_info(registry: String, in_china: bool) -> (r: NpmRegistryInfo)
    ensures
        r.registry@ == registry@,
        r.in_china == in_china,
        r.is_official == is_official(registry@),
        !r.switched,
        r.error is None,
{
    let is_official = is_official_exec(registry.as_str());
    NpmRegistryInfo { is_official, registry, in_china, switched: false, error: None }
}

/// The registry is switched to the mirror only when both hold: the official
/// registry is in use, and the network looks like it cannot reach abroad.
pub fn mirror_needed(current: &str, in_china: bool) -> (r: bool)
    ensures
        r == (in_china && is_official(current@)),
{
    in_china && is_official_exec(current)
}

/// The report after making sure a usable registry is set: `written` is the
/// outcome of writing the mirror, consulted only when a switch is needed.
/// A successful write leaves the mirror in effect; a failed one leaves the
/// registry as it was and reports the error.
pub fn ensured_registry_info(current: String, in_china: bool, written: Option<Result<(), String>>) -> (r:
    NpmRegistryInfo)
    ensures
        r.in_china == in_china,
        r.is_official == is_official(r.registry@),
        !(in_china && is_official(current@)) ==> r.registry@ == current@ && !r.switched
            && r.error is None,
        in_china && is_official(current@) ==> match written {
            Some(Ok(())) => r.registry@ == npm_mirror() && r.switched && r.error is None,
            Some(Err(e)) => r.registry@ == current@ && !r.switched && opt_view(r.error) == Some(
                e@,
            ),
            None => r.registry@ == current@ && !r.switched && r.error is None,
        },
{
    if mirror_needed(current.as_str(), in_china) {
        match written {
            Some(Ok(())) => {
                let registry = lit("https://registry.npmmirror.com");
                let is_official = is_official_exec(registry.as_str());
                NpmRegistryInfo { is_official, registry, in_china, switched: true, error: None }
            },
            Some(Err(e)) => {
                let is_official = is_official_exec(current.as_str());
                NpmRegistryInfo {
                    is_official,
                    registry: current,
                    in_china,
                    switched: false,
                    error: Some(e),
                }
            },
            None => registry_info(current, in_china),
        }
    } else {
        registry_info(current, in_china)
    }
}

/// Which registry a request names, among the two allowed ones: anything
/// mentioning `npmjs.org` means the official registry, else anything
/// mentioning `npmmirror` the mirror; any other is refused.
pub open spec fn spec_select_registry(requested: Seq<char>) -> Result<Seq<char>, Seq<char>> {
    if contains(requested, "npmjs.org"@) {
        Ok(npm_official())
    } else if contains(requested, "npmmirror"@) {
        Ok(npm_mirror())
    } else {
        Err("不支持的 npm 源，仅允许官方源或 npmmirror"@)
    }
}

pub fn select_registry(requested: &str) -> (r: Result<String, String>)
    ensures
        result_view(r) == spec_select_registry(requested@),
{
    let req = chars_of(requested);
    if contains_exec(&req, &chars_of("npmjs.org")) {
        Ok(lit("https://registry.npmjs.org"))
    } else if contains_exec(&req, &chars_of("npmmirror")) {
        Ok(lit("https://registry.npmmirror.com"))
    } else {
        Err(lit("不支持的 npm 源，仅允许官方源或 npmmirror"))
    }
}

/// The report after a manual switch to `target`.
pub fn switched_registry_info(target: String, in_china: bool) -> (r: NpmRegistryInfo)
    ensures
        r.registry@ == target@,
        r.in_china == in_china,
        r.is_official == (target@ == npm_official()),
        r.switched,
        r.error is None,
{
    let is_official = eq_exec(&chars_of(target.as_str()), &chars_of("https://registry.npmjs.org"));
    NpmRegistryInfo { is_official, registry: target, in_china, switched: true, error: None }
}

/// A manual switch only ever writes one of the two known registries, so no
/// arbitrary URL reaches npm's configuration: a request mentioning
/// `npmjs.org` selects `https://registry.npmjs.org`, else one mentioning
/// `npmmirror` selects `https://registry.npmmirror.com`; any other is
/// refused.
pub proof fn law_selected_registry_is_known(requested: Seq<char>)
    ensures
        match spec_select_registry(requested) {
            Ok(t) => t == npm_official() || t == npm_mirror(),
            Err(_) => !contains(requested, "npmjs.org"@) && !contains(requested, "npmmirror"@),
        },
        contains(requested, "npmjs.org"@) ==> spec_select_registry(requested) == Ok::<
            Seq<char>,
            Seq<char>,
        >("https://registry.npmjs.org"@),
        !contains(requested, "npmjs.org"@) && contains(requested, "npmmirror"@)
            ==> spec_select_registry(requested) == Ok::<Seq<char>, Seq<char>>(
            "https://registry.npmmirror.com"@,
        ),
        !contains(requested, "npmjs.org"@) && !contains(requested, "npmmirror"@)
            ==> spec_select_registry(requested) is Err,
{
}

/// dsh's installed version is what `dsh --version` printed, trimmed, found
/// `global`, when it ran, succeeded and printed something other than white
/// space; in every other case both are `unknown`. npm's latest version is
/// the `version` field of its answer; an answer without it, or one that
/// does not parse, gives an error.
pub proof fn law_dsh_versions(out: Seq<char>, ok: bool, v: Seq<char>, e: Seq<char>)
    ensures
        ok && trim(out).len() > 0 ==> spec_current_version(Some((ok, out))) == (trim(out), "global"@),
        !(ok && trim(out).len() > 0) ==> spec_current_version(Some((ok, out))) == (
            "unknown"@,
            "unknown"@,
        ),
        spec_current_version(None) == ("unknown"@, "unknown"@),
        latest_of(Ok(Some(v))) == Ok::<Seq<char>, Seq<char>>(v),
        latest_of(Ok(None)) == Err::<Seq<char>, Seq<char>>("无法获取 latest 版本号"@),
        latest_of(Err(e)) == Err::<Seq<char>, Seq<char>>("解析 registry 响应失败: "@ + e),
{
}

} // verus!

//! dsh extensions (plugins) of the `web` profile: adding, removing and
//! listing them.
use vstd::prelude::*;
use crate::text::{
    chars_of, concat, ends_with, ends_with_exec, eq_ignore_ascii_case, eq_ignore_ascii_case_exec,
    lit, opt_view, result_view, split_exec, split_on, starts_with, starts_with_exec, string_from,
    string_views, trim, trim_exec, views,
};
use crate::json::{dependencies, json_dependencies};
use crate::paths::{join_path, path_join};

verus! {

/// An installed extension.
#[derive(Debug, Clone)]
pub struct ExtensionInfo {
    pub name: String,
    pub version: String,
}

/// The dsh profile that the launcher runs.
pub open spec fn profile() -> Seq<char> {
    "web"@
}

/// The pieces of a `PATH` value at `;` and then at `:`.
pub open spec fn path_pieces(path: Seq<char>) -> Seq<Seq<char>> {
    split_on(path, seq![';']) + split_on(path, seq![':'])
}

/// Some piece of `path` (split at `;` or at `:`) is `dir`, ignoring ASCII case.
pub open spec fn spec_path_contains(path: Seq<char>, dir: Seq<char>) -> bool {
    exists|i: int| 0 <= i < path_pieces(path).len() && eq_ignore_ascii_case(
        #[trigger] path_pieces(path)[i],
        dir,
    )
}

fn any_piece_matches(pieces: &Vec<Vec<char>>, dir: &Vec<char>) -> (r: bool)
    ensures
        r == exists|i: int| 0 <= i < pieces@.len() && eq_ignore_ascii_case(#[trigger] pieces@[i]@, dir@),
{
    let mut k: usize = 0;
    while k < pieces.len()
        invariant
            k <= pieces.len(),
            forall|i: int| 0 <= i < k ==> !eq_ignore_ascii_case(#[trigger] pieces@[i]@, dir@),
        decreases pieces.len() - k,
    {
        if eq_ignore_ascii_case_exec(&pieces[k], dir) {
            return true;
        }
        k += 1;
    }
    false
}

/// Whether `dir` is already one of the directories of `path`.
pub fn path_contains(path: &str, dir: &str) -> (r: bool)
    ensures
        r == spec_path_contains(path@, dir@),
{
    let p = chars_of(path);
    let d = chars_of(dir);
    let mut semi: Vec<char> = Vec::new();
    semi.push(';');
    let mut colon: Vec<char> = Vec::new();
    colon.push(':');
    assert(semi@ =~= seq![';']);
    assert(colon@ =~= seq![':']);
    let a = split_exec(&p, &semi);
    let b = split_exec(&p, &colon);
    let ra = any_piece_matches(&a, &d);
    let rb = any_piece_matches(&b, &d);
    let ghost pp = path_pieces(path@);
    proof {
        assert(pp =~= views(a@) + views(b@));
        if ra {
            let i = choose|i: int| 0 <= i < a@.len() && eq_ignore_ascii_case(#[trigger] a@[i]@, d@);
            assert(pp[i] == a@[i]@);
        }
        if rb {
            let i = choose|i: int| 0 <= i < b@.len() && eq_ignore_ascii_case(#[trigger] b@[i]@, d@);
            assert(pp[a@.len() + i] == b@[i]@);
        }
        if spec_path_contains(path@, dir@) {
            let i = choose|i: int| 0 <= i < pp.len() && eq_ignore_ascii_case(#[trigger] pp[i], d@);
            if i < a@.len() {
                assert(pp[i] == a@[i]@);
            } else {
                assert(pp[i] == b@[i - a@.len()]@);
            }
        }
    }
    ra || rb
}

/// Where Git for Windows installs its commands.
pub open spec fn git_cmd_dir() -> Seq<char> {
    "C:\\Program Files\\Git\\cmd"@
}

/// `path` with `dir` appended after a `;`, unless it is empty or already there.
pub open spec fn with_dir(path: Seq<char>, dir: Seq<char>) -> Seq<char> {
    if dir.len() > 0 && !spec_path_contains(path, dir) {
        path + seq![';'] + dir
    } else {
        path
    }
}

/// The `PATH` handed to dsh so that it finds pnpm and git: the current one
/// (empty if unset), then npm's global bin directory (what `npm bin -g`
/// printed, trimmed, when it succeeded), then Git's command directory when
/// it exists; each added only when missing.
pub open spec fn spec_enhanced_path(
    current: Option<Seq<char>>,
    npm_bin: Option<Seq<char>>,
    git_dir_exists: bool,
) -> Seq<char> {
    let p0 = match current {
        Some(p) => p,
        None => Seq::empty(),
    };
    let p1 = match npm_bin {
        Some(out) => with_dir(p0, trim(out)),
        None => p0,
    };
    if git_dir_exists && !spec_path_contains(p1, git_cmd_dir()) {
        p1 + seq![';'] + git_cmd_dir()
    } else {
        p1
    }
}

fn append_dir(path: String, dir: &Vec<char>) -> (r: String)
    ensures
        r@ == path@ + seq![';'] + dir@,
{
    let mut semi: Vec<char> = Vec::new();
    semi.push(';');
    let with_semi = concat(&chars_of(path.as_str()), &semi);
    string_from(&concat(&with_semi, dir))
}

pub fn enhanced_path(current: Option<String>, npm_bin: Option<String>, git_dir_exists: bool) -> (r:
    String)
    ensures
        r@ == spec_enhanced_path(opt_view(current), opt_view(npm_bin), git_dir_exists),
{
    let mut path = match current {
        Some(p) => p,
        None => String::new(),
    };
    match npm_bin {
        Some(out) => {
            let dir = trim_exec(&chars_of(out.as_str()));
            if dir.len() > 0 {
                let d = string_from(&dir);
                if !path_contains(path.as_str(), d.as_str()) {
                    path = append_dir(path, &dir);
                }
            }
        },
        None => {},
    }
    let git = chars_of("C:\\Program Files\\Git\\cmd");
    if git_dir_exists {
        let g = string_from(&git);
        if !path_contains(path.as_str(), g.as_str()) {
            path = append_dir(path, &git);
        }
    }
    path
}

/// The source of an extension to add, trimmed; a blank one is refused.
pub open spec fn spec_extension_source(source: Seq<char>) -> Result<Seq<char>, Seq<char>> {
    if trim(source).len() == 0 {
        Err("扩展来源不能为空"@)
    } else {
        Ok(trim(source))
    }
}

pub fn extension_source(source: &str) -> (r: Result<String, String>)
    ensures
        result_view(r) == spec_extension_source(source@),
{
    let t = trim_exec(&chars_of(source));
    if t.len() == 0 {
        Err(lit("扩展来源不能为空"))
    } else {
        Ok(string_from(&t))
    }
}

/// The package name of an extension to remove, trimmed; a blank one is
/// refused.
pub open spec fn spec_package_name(pkg: Seq<char>) -> Result<Seq<char>, Seq<char>> {
    if trim(pkg).len() == 0 {
        Err("包名不能为空"@)
    } else {
        Ok(trim(pkg))
    }
}

pub fn package_name(pkg: &str) -> (r: Result<String, String>)
    ensures
        result_view(r) == spec_package_name(pkg@),
{
    let t = trim_exec(&chars_of(pkg));
    if t.len() == 0 {
        Err(lit("包名不能为空"))
    } else {
        Ok(string_from(&t))
    }
}

/// A source fetched from git, whose build scripts pnpm may block.
pub open spec fn spec_is_git_source(source: Seq<char>) -> bool {
    starts_with(source, "github:"@) || starts_with(source, "git+"@) || ends_with(source, ".git"@)
}

pub fn is_git_source(source: &str) -> (r: bool)
    ensures
        r == spec_is_git_source(source@),
{
    let s = chars_of(source);
    starts_with_exec(&s, &chars_of("github:")) || starts_with_exec(&s, &chars_of("git+"))
        || ends_with_exec(&s, &chars_of(".git"))
}

/// The npx arguments that add `source` to the web profile.
pub open spec fn spec_install_args(source: Seq<char>) -> Seq<Seq<char>> {
    seq![
        "--yes"@,
        "@deepseek-ai/dsh@latest"@,
        "plugin"@,
        "--profile"@,
        profile(),
        "add"@,
        source,
        "--loglevel=debug"@,
    ]
}

/// The npx arguments that remove `pkg` from the web profile.
pub open spec fn spec_uninstall_args(pkg: Seq<char>) -> Seq<Seq<char>> {
    seq!["--yes"@, "@deepseek-ai/dsh@latest"@, "plugin"@, "--profile"@, profile(), "remove"@, pkg]
}

pub fn install_args(source: &String) -> (r: Vec<String>)
    ensures
        string_views(r@) == spec_install_args(source@),
{
    let mut r: Vec<String> = Vec::new();
    r.push(lit("--yes"));
    r.push(lit("@deepseek-ai/dsh@latest"));
    r.push(lit("plugin"));
    r.push(lit("--profile"));
    r.push(lit("web"));
    r.push(lit("add"));
    r.push(source.clone());
    r.push(lit("--loglevel=debug"));
    assert(string_views(r@) =~= spec_install_args(source@));
    r
}

pub fn uninstall_args(pkg: &String) -> (r: Vec<String>)
    ensures
        string_views(r@) == spec_uninstall_args(pkg@),
{
    let mut r: Vec<String> = Vec::new();
    r.push(lit("--yes"));
    r.push(lit("@deepseek-ai/dsh@latest"));
    r.push(lit("plugin"));
    r.push(lit("--profile"));
    r.push(lit("web"));
    r.push(lit("remove"));
    r.push(pkg.clone());
    assert(string_views(r@) =~= spec_uninstall_args(pkg@));
    r
}

/// `~/.dsh/profiles/web`; without a home directory there is none.
pub open spec fn spec_profile_dir(home: Option<Seq<char>>) -> Result<Seq<char>, Seq<char>> {
    match home {
        Some(h) => Ok(path_join(path_join(path_join(h, ".dsh"@), "profiles"@), profile())),
        None => Err("无法确定用户主目录"@),
    }
}

pub fn profile_dir(home: Option<String>) -> (r: Result<String, String>)
    ensures
        result_view(r) == spec_profile_dir(opt_view(home)),
{
    match home {
        Some(h) => {
            let a = join_path(h.as_str(), ".dsh");
            let b = join_path(a.as_str(), "profiles");
            Ok(join_path(b.as_str(), "web"))
        },
        None => Err(lit("无法确定用户主目录")),
    }
}

/// A dependency as an extension: its version, or empty when it has none.
pub open spec fn extension_of_dependency(d: (Seq<char>, Option<Seq<char>>)) -> (Seq<char>, Seq<char>) {
    (d.0, match d.1 {
        Some(v) => v,
        None => Seq::empty(),
    })
}

pub open spec fn extension_views(v: Seq<ExtensionInfo>) -> Seq<(Seq<char>, Seq<char>)> {
    v.map_values(|e: ExtensionInfo| (e.name@, e.version@))
}

/// The installed extensions out of what was read of the profile's
/// `package.json`: the entries of its `dependencies` (none without that
/// object), or the error when the file does not parse.
pub open spec fn extensions_of_deps(
    deps: Result<Option<Seq<(Seq<char>, Option<Seq<char>>)>>, Seq<char>>,
) -> Result<Seq<(Seq<char>, Seq<char>)>, Seq<char>> {
    match deps {
        Err(e) => Err("解析 profile 配置失败: "@ + e),
        Ok(None) => Ok(Seq::empty()),
        Ok(Some(d)) => Ok(d.map_values(|x: (Seq<char>, Option<Seq<char>>)| extension_of_dependency(x))),
    }
}

/// The installed extensions named by the profile's `package.json` text.
pub open spec fn spec_extensions(package_json: Seq<char>) -> Result<Seq<(Seq<char>, Seq<char>)>, Seq<char>> {
    extensions_of_deps(json_dependencies(package_json))
}

pub open spec fn deps_view(
    deps: Result<Option<Vec<(String, Option<String>)>>, String>,
) -> Result<Option<Seq<(Seq<char>, Option<Seq<char>>)>>, Seq<char>> {
    match deps {
        Ok(Some(v)) => Ok(Some(crate::json::dependency_views(v@))),
        Ok(None) => Ok(None),
        Err(e) => Err(e@),
    }
}

/// The installed extensions, from the dependencies as read from the
/// profile's `package.json`.
pub fn extensions_of(deps: Result<Option<Vec<(String, Option<String>)>>, String>) -> (r: Result<
    Vec<ExtensionInfo>,
    String,
>)
    ensures
        match r {
            Ok(v) => extensions_of_deps(deps_view(deps)) == Ok::<
                Seq<(Seq<char>, Seq<char>)>,
                Seq<char>,
            >(extension_views(v@)),
            Err(e) => extensions_of_deps(deps_view(deps)) == Err::<
                Seq<(Seq<char>, Seq<char>)>,
                Seq<char>,
            >(e@),
        },
{
    match deps {
        Err(e) => Err(string_from(&concat(&chars_of("解析 profile 配置失败: "), &chars_of(e.as_str())))),
        Ok(None) => {
            let v: Vec<ExtensionInfo> = Vec::new();
            assert(extension_views(v@) =~= Seq::<(Seq<char>, Seq<char>)>::empty());
            Ok(v)
        },
        Ok(Some(deps)) => {
            let ghost dv = crate::json::dependency_views(deps@);
            let mut out: Vec<ExtensionInfo> = Vec::new();
            let mut k: usize = 0;
            while k < deps.len()
                invariant
                    k <= deps.len(),
                    dv == crate::json::dependency_views(deps@),
                    extension_views(out@) =~= dv.subrange(0, k as int).map_values(
                        |d: (Seq<char>, Option<Seq<char>>)| extension_of_dependency(d),
                    ),
                decreases deps.len() - k,
            {
                let name = deps[k].0.clone();
                let version = match &deps[k].1 {
                    Some(v) => v.clone(),
                    None => String::new(),
                };
                let ghost before = out@;
                out.push(ExtensionInfo { name, version });
                assert(extension_views(out@) =~= extension_views(before).push(
                    extension_of_dependency(dv[k as int]),
                ));
                k += 1;
                assert(dv.subrange(0, k as int).map_values(
                    |d: (Seq<char>, Option<Seq<char>>)| extension_of_dependency(d),
                ) =~= dv.subrange(0, k - 1).map_values(
                    |d: (Seq<char>, Option<Seq<char>>)| extension_of_dependency(d),
                ).push(extension_of_dependency(dv[k - 1])));
            }
            assert(dv.subrange(0, deps@.len() as int) =~= dv);
            Ok(out)
        },
    }
}

/// The installed extensions named by the profile's `package.json` text.
pub fn extensions_from_package_json(content: &str) -> (r: Result<Vec<ExtensionInfo>, String>)
    ensures
        match r {
            Ok(v) => spec_extensions(content@) == Ok::<Seq<(Seq<char>, Seq<char>)>, Seq<char>>(
                extension_views(v@),
            ),
            Err(e) => spec_extensions(content@) == Err::<Seq<(Seq<char>, Seq<char>)>, Seq<char>>(
                e@,
            ),
        },
{
    extensions_of(dependencies(content))
}

/// A directory appended after a `;` is the last piece of the result split
/// at `;`.
proof fn lemma_appended_piece(p: Seq<char>, d: Seq<char>)
    requires
        !d.contains(';'),
    ensures
        split_on(p + seq![';'] + d, seq![';']).last() == d,
        split_on(p + seq![';'] + d, seq![';']).len() >= 1,
    decreases d.len(),
{
    let s = p + seq![';'] + d;
    if d.len() == 0 {
        assert(s.drop_last() =~= p);
        assert(s.last() == ';');
    } else {
        let d0 = d.drop_last();
        assert(s.drop_last() =~= p + seq![';'] + d0);
        assert forall|c: char| d0.contains(c) implies d.contains(c) by {
            let i = choose|i: int| 0 <= i < d0.len() && d0[i] == c;
            assert(d[i] == c);
        }
        lemma_appended_piece(p, d0);
        assert(s.last() == d.last());
        assert(!seq![';'].contains(d.last())) by {
            if seq![';'].contains(d.last()) {
                assert(d.contains(d[d.len() - 1]));
            }
        }
        assert(d0.push(d.last()) =~= d);
    }
}

proof fn lemma_with_dir_contains(path: Seq<char>, dir: Seq<char>)
    requires
        dir.len() > 0,
        !dir.contains(';'),
    ensures
        spec_path_contains(with_dir(path, dir), dir),
        path.is_prefix_of(with_dir(path, dir)),
{
    if !spec_path_contains(path, dir) {
        let r = path + seq![';'] + dir;
        lemma_appended_piece(path, dir);
        let a = split_on(r, seq![';']);
        let i = a.len() - 1;
        assert(path_pieces(r)[i] == a[i]);
        assert(eq_ignore_ascii_case(path_pieces(r)[i], dir));
        assert(r.subrange(0, path.len() as int) =~= path);
    } else {
        assert(path.subrange(0, path.len() as int) =~= path);
    }
}

/// The `PATH` handed to dsh keeps the current one as it is and only adds
/// after it: Git's command directory, when it exists, is then on it, and so
/// is npm's global bin directory (when `npm bin -g` printed one) when Git's
/// is not added after it; a `PATH` that already holds both is handed over
/// unchanged.
pub proof fn law_enhanced_path(current: Seq<char>, npm_bin: Option<Seq<char>>, git_dir_exists: bool)
    ensures
        current.is_prefix_of(spec_enhanced_path(Some(current), npm_bin, git_dir_exists)),
        git_dir_exists ==> spec_path_contains(
            spec_enhanced_path(Some(current), npm_bin, git_dir_exists),
            git_cmd_dir(),
        ),
        (npm_bin matches Some(out) && trim(out).len() > 0 && !trim(out).contains(';')) && !git_dir_exists
            ==> spec_path_contains(
            spec_enhanced_path(Some(current), npm_bin, git_dir_exists),
            trim(npm_bin->0),
        ),
        (npm_bin matches Some(out) ==> trim(out).len() == 0 || spec_path_contains(current, trim(out)))
            && (git_dir_exists ==> spec_path_contains(current, git_cmd_dir())) ==> spec_enhanced_path(
            Some(current),
            npm_bin,
            git_dir_exists,
        ) == current,
{
    reveal_strlit("C:\\Program Files\\Git\\cmd");
    let g = git_cmd_dir();
    assert(!g.contains(';')) by {
        if g.contains(';') {
            let i = choose|i: int| 0 <= i < g.len() && g[i] == ';';
        }
    }
    let p1 = match npm_bin {
        Some(out) => with_dir(current, trim(out)),
        None => current,
    };
    match npm_bin {
        Some(out) => {
            if trim(out).len() > 0 && !trim(out).contains(';') {
                lemma_with_dir_contains(current, trim(out));
            } else {
                assert(current.subrange(0, current.len() as int) =~= current);
            }
            if trim(out).len() == 0 || spec_path_contains(current, trim(out)) {
                assert(p1 == current);
            } else {
                assert((current + seq![';'] + trim(out)).subrange(0, current.len() as int) =~= current);
            }
        },
        None => {
            assert(current.subrange(0, current.len() as int) =~= current);
        },
    }
    assert(current.is_prefix_of(p1));
    if git_dir_exists {
        lemma_with_dir_contains(p1, g);
        assert(with_dir(p1, g) == spec_enhanced_path(Some(current), npm_bin, git_dir_exists));
        assert(p1.is_prefix_of(with_dir(p1, g)));
        assert(current.is_prefix_of(with_dir(p1, g))) by {
            assert(with_dir(p1, g).subrange(0, current.len() as int) =~= p1.subrange(0, current.len() as int));
        }
    }
}

} // verus!

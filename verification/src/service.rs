//! The dsh web service: how it is launched, how its output is read, how the
//! port is chosen, and the state that decides on restarts and on announcing
//! that the service is ready.
use vstd::prelude::*;
use crate::text::{
    chars_of, concat, contains, contains_exec, decimal, decimal_exec, ends_with, ends_with_exec,
    find, first_occurrence, is_ascii_alphabetic, is_white_space, is_white_space_exec, lit,
    lower_exec, lower_seq, occurs_at, opt_view, slice, split_exec, split_on, starts_with,
    string_from, string_views, trim, trim_exec, views,
};
use crate::paths::{extension_of, join_path, parent_of, path_extension, path_join, path_parent};

verus! {

/* ---------------------------------------------------------------------
   Status and URLs
   --------------------------------------------------------------------- */

/// What the front end is told about the service.
pub struct ServiceStatus {
    pub running: bool,
    pub port: u16,
    pub url: String,
}

/// The service's address on the loopback interface.
pub open spec fn local_url(port: u16) -> Seq<char> {
    "http://127.0.0.1:"@ + decimal(port as nat)
}

/// `http://127.0.0.1:<port>`.
pub fn service_url(port: u16) -> (r: String)
    ensures
        r@ == local_url(port),
{
    let prefix = chars_of("http://127.0.0.1:");
    let digits = decimal_exec(port as u32);
    string_from(&concat(&prefix, &digits))
}

/// The arguments that make dsh serve its web profile on `port`:
/// `web --port <port> --no-open` (dsh reads the port from this flag only).
pub open spec fn web_args(port: u16) -> Seq<Seq<char>> {
    seq!["web"@, "--port"@, decimal(port as nat), "--no-open"@]
}

/// The arguments appended to the dsh command to start its web service.
pub fn dsh_web_args(port: u16) -> (r: Vec<String>)
    ensures
        string_views(r@) == web_args(port),
{
    let mut r: Vec<String> = Vec::new();
    r.push(lit("web"));
    r.push(lit("--port"));
    r.push(string_from(&decimal_exec(port as u32)));
    r.push(lit("--no-open"));
    assert(string_views(r@) =~= web_args(port));
    r
}

/// Where npm keeps its cache for the install: `<LOCALAPPDATA>\DeepseekHarness\npm-cache`
/// when that variable is set (Windows), else `<install>/config/npm-cache`.
pub open spec fn spec_npm_cache_dir(local_app_data: Option<Seq<char>>, install_dir: Seq<char>) -> Seq<
    char,
> {
    match local_app_data {
        Some(l) => path_join(path_join(l, "DeepseekHarness"@), "npm-cache"@),
        None => path_join(path_join(install_dir, "config"@), "npm-cache"@),
    }
}

pub fn npm_cache_dir(local_app_data: Option<String>, install_dir: &str) -> (r: String)
    ensures
        r@ == spec_npm_cache_dir(
            match local_app_data {
                Some(l) => Some(l@),
                None => None,
            },
            install_dir@,
        ),
{
    match local_app_data {
        Some(l) => {
            let d = join_path(l.as_str(), "DeepseekHarness");
            join_path(d.as_str(), "npm-cache")
        },
        None => {
            let d = join_path(install_dir, "config");
            join_path(d.as_str(), "npm-cache")
        },
    }
}

/* ---------------------------------------------------------------------
   Launchers
   --------------------------------------------------------------------- */

/// How npx is started: node running npm's `npx-cli.js`, or an npx
/// executable run directly.
pub enum NpxLauncher {
    /// `node.exe` and the path of `npx-cli.js`.
    NodeCli(String, String),
    /// An npx executable.
    Direct(String),
}

/// The program to run and its arguments, for npx with `args`.
pub open spec fn spec_npx_invocation(l: NpxLauncher, args: Seq<Seq<char>>) -> (Seq<char>, Seq<Seq<char>>) {
    match l {
        NpxLauncher::NodeCli(node, cli) => (node@, seq![cli@] + args),
        NpxLauncher::Direct(npx) => (npx@, args),
    }
}

impl NpxLauncher {
    /// The program to run and the full argument list for npx with `args`.
    pub fn invocation(&self, args: &Vec<String>) -> (r: (String, Vec<String>))
        ensures
            (r.0@, string_views(r.1@)) == spec_npx_invocation(*self, string_views(args@)),
    {
        match self {
            NpxLauncher::NodeCli(node, cli) => {
                let mut all: Vec<String> = Vec::new();
                all.push(cli.clone());
                let mut k: usize = 0;
                while k < args.len()
                    invariant
                        k <= args.len(),
                        string_views(all@) =~= seq![cli@] + string_views(args@.subrange(0, k as int)),
                    decreases args.len() - k,
                {
                    let ghost before = all@;
                    let a = args[k].clone();
                    all.push(a);
                    assert(string_views(all@) =~= string_views(before).push(args@[k as int]@));
                    k += 1;
                    assert(string_views(args@.subrange(0, k as int)) =~= string_views(
                        args@.subrange(0, k - 1),
                    ).push(args@[k - 1]@));
                }
                assert(args@.subrange(0, args@.len() as int) =~= args@);
                (node.clone(), all)
            },
            NpxLauncher::Direct(npx) => (npx.clone(), args.clone()),
        }
    }
}

/// `<base>/node_modules/npm/bin/npx-cli.js`: npm's npx script beside a node
/// installed in `base`.
pub open spec fn spec_npx_cli_path(base: Seq<char>) -> Seq<char> {
    path_join(path_join(path_join(path_join(base, "node_modules"@), "npm"@), "bin"@), "npx-cli.js"@)
}

pub fn npx_cli_path(base: &str) -> (r: String)
    ensures
        r@ == spec_npx_cli_path(base@),
{
    let a = join_path(base, "node_modules");
    let b = join_path(a.as_str(), "npm");
    let c = join_path(b.as_str(), "bin");
    join_path(c.as_str(), "npx-cli.js")
}

/// The npx script beside the node executable at `node`, when it has a parent
/// directory.
pub fn npx_cli_beside(node: &str) -> (r: Option<String>)
    ensures
        match path_parent(node@) {
            Some(d) => r matches Some(p) && p@ == spec_npx_cli_path(d),
            None => r is None,
        },
{
    match parent_of(node) {
        Some(d) => Some(npx_cli_path(d.as_str())),
        None => None,
    }
}

/// The first line of `where`'s output that, trimmed and lower-cased, ends
/// in `.exe`, trimmed.
pub open spec fn first_exe(lines: Seq<Seq<char>>) -> Option<Seq<char>>
    decreases lines.len(),
{
    if lines.len() == 0 {
        None
    } else if ends_with(lower_seq(trim(lines[0])), ".exe"@) {
        Some(trim(lines[0]))
    } else {
        first_exe(lines.drop_first())
    }
}

pub open spec fn spec_first_exe_line(text: Seq<char>) -> Option<Seq<char>> {
    first_exe(split_on(text, seq!['\n']))
}

/// The first executable that `where` listed.
pub fn first_exe_line(text: &str) -> (r: Option<String>)
    ensures
        match r {
            Some(p) => spec_first_exe_line(text@) == Some(p@),
            None => spec_first_exe_line(text@) is None,
        },
{
    let mut nl: Vec<char> = Vec::new();
    nl.push('\n');
    assert(nl@ =~= seq!['\n']);
    let lines = split_exec(&chars_of(text), &nl);
    let ghost lv = views(lines@);
    let exe = chars_of(".exe");
    let mut k: usize = 0;
    assert(lv.skip(0) =~= lv);
    while k < lines.len()
        invariant
            k <= lines.len(),
            lv == views(lines@),
            lv.len() == lines@.len(),
            lv == split_on(text@, seq!['\n']),
            exe@ == ".exe"@,
            first_exe(lv) == first_exe(lv.skip(k as int)),
        decreases lines.len() - k,
    {
        let t = trim_exec(&lines[k]);
        assert(lv[k as int] == lines@[k as int]@);
        assert(lv.skip(k as int)[0] == lv[k as int]);
        assert(lv.skip(k as int).drop_first() =~= lv.skip(k + 1));
        if ends_with_exec(&lower_exec(&t), &exe) {
            return Some(string_from(&t));
        }
        k += 1;
    }
    assert(lv.skip(k as int).len() == 0);
    None
}

/// How a dsh found on disk is started: a `.cmd`/`.bat` shim needs the
/// command interpreter, an `.exe`/`.com` runs directly.
pub enum DshLauncher {
    CmdShim(String),
    Direct(String),
}

/// An extension lower-cased (empty when there is none).
pub open spec fn lowered(ext: Option<Seq<char>>) -> Seq<char> {
    match ext {
        Some(e) => lower_seq(e),
        None => Seq::empty(),
    }
}

/// The lower-cased extension of `path` (empty when it has none).
pub open spec fn lowered_extension(path: Seq<char>) -> Seq<char> {
    lowered(path_extension(path))
}

/// The launcher for the dsh at `path` whose extension is `ext`, in any
/// case: `cmd`/`bat` give a shim, `exe`/`com` a direct launcher, anything
/// else none.
pub fn launcher_for_extension(path: String, ext: Option<String>) -> (r: Option<DshLauncher>)
    ensures
        ({
            let e = lowered(opt_view(ext));
            match r {
                Some(DshLauncher::CmdShim(p)) => p@ == path@ && (e == "cmd"@ || e == "bat"@),
                Some(DshLauncher::Direct(p)) => p@ == path@ && (e == "exe"@ || e == "com"@),
                None => e != "cmd"@ && e != "bat"@ && e != "exe"@ && e != "com"@,
            }
        }),
{
    let e: Vec<char> = match ext {
        Some(x) => lower_exec(&chars_of(x.as_str())),
        None => Vec::new(),
    };
    proof {
        if opt_view(ext) is None {
            assert(e@ =~= Seq::<char>::empty());
        }
    }
    let cmd = chars_of("cmd");
    let bat = chars_of("bat");
    let exe = chars_of("exe");
    let com = chars_of("com");
    if crate::text::eq_exec(&e, &cmd) || crate::text::eq_exec(&e, &bat) {
        Some(DshLauncher::CmdShim(path))
    } else if crate::text::eq_exec(&e, &exe) || crate::text::eq_exec(&e, &com) {
        Some(DshLauncher::Direct(path))
    } else {
        None
    }
}

/// Recognises the Windows launchers of dsh by the extension of `path`.
pub fn dsh_launcher_from_path(path: String) -> (r: Option<DshLauncher>)
    ensures
        ({
            let ext = lowered_extension(path@);
            match r {
                Some(DshLauncher::CmdShim(p)) => p@ == path@ && (ext == "cmd"@ || ext == "bat"@),
                Some(DshLauncher::Direct(p)) => p@ == path@ && (ext == "exe"@ || ext == "com"@),
                None => ext != "cmd"@ && ext != "bat"@ && ext != "exe"@ && ext != "com"@,
            }
        }),
{
    let ext = extension_of(path.as_str());
    launcher_for_extension(path, ext)
}


/// The trimmed lines of `text` (split at line breaks) that are not blank.
pub open spec fn nonblank_lines(lines: Seq<Seq<char>>) -> Seq<Seq<char>>
    decreases lines.len(),
{
    if lines.len() == 0 {
        Seq::empty()
    } else {
        let prev = nonblank_lines(lines.drop_last());
        if trim(lines.last()).len() > 0 {
            prev.push(trim(lines.last()))
        } else {
            prev
        }
    }
}

/// npm's global prefix out of what `npm prefix -g` printed: its last
/// non-blank line, trimmed.
pub open spec fn spec_global_prefix(output: Seq<char>) -> Option<Seq<char>> {
    let ls = nonblank_lines(split_on(output, seq!['\n']));
    if ls.len() == 0 {
        None
    } else {
        Some(ls.last())
    }
}

pub fn global_prefix_from(output: &str) -> (r: Option<String>)
    ensures
        match r {
            Some(p) => spec_global_prefix(output@) == Some(p@),
            None => spec_global_prefix(output@) is None,
        },
{
    let mut nl: Vec<char> = Vec::new();
    nl.push('\n');
    assert(nl@ =~= seq!['\n']);
    let lines = split_exec(&chars_of(output), &nl);
    let ghost lv = views(lines@);
    let mut last: Option<Vec<char>> = None;
    let mut k: usize = 0;
    while k < lines.len()
        invariant
            k <= lines.len(),
            lv == views(lines@),
            match last {
                Some(l) => nonblank_lines(lv.take(k as int)).len() > 0 && l@ == nonblank_lines(
                    lv.take(k as int),
                ).last(),
                None => nonblank_lines(lv.take(k as int)).len() == 0,
            },
        decreases lines.len() - k,
    {
        assert(lv.take(k + 1).drop_last() =~= lv.take(k as int));
        assert(lv.take(k + 1).last() == lines@[k as int]@);
        let t = trim_exec(&lines[k]);
        if t.len() > 0 {
            last = Some(t);
        }
        k += 1;
    }
    assert(lv.take(lv.len() as int) =~= lv);
    match last {
        Some(l) => Some(string_from(&l)),
        None => None,
    }
}

/// The paths that `where` listed: its non-blank lines, trimmed.
pub fn listed_paths(output: &str) -> (r: Vec<String>)
    ensures
        string_views(r@) == nonblank_lines(split_on(output@, seq!['\n'])),
{
    let mut nl: Vec<char> = Vec::new();
    nl.push('\n');
    assert(nl@ =~= seq!['\n']);
    let lines = split_exec(&chars_of(output), &nl);
    let ghost lv = views(lines@);
    let mut out: Vec<String> = Vec::new();
    let mut k: usize = 0;
    while k < lines.len()
        invariant
            k <= lines.len(),
            lv == views(lines@),
            string_views(out@) == nonblank_lines(lv.take(k as int)),
        decreases lines.len() - k,
    {
        assert(lv.take(k + 1).drop_last() =~= lv.take(k as int));
        assert(lv.take(k + 1).last() == lines@[k as int]@);
        let t = trim_exec(&lines[k]);
        if t.len() > 0 {
            let ghost before = out@;
            out.push(string_from(&t));
            assert(string_views(out@) =~= string_views(before).push(t@));
        }
        k += 1;
    }
    assert(lv.take(lv.len() as int) =~= lv);
    out
}

/// The file names under which dsh is looked for in a directory: its four
/// Windows launchers, or `dsh` elsewhere.
pub open spec fn dsh_names(windows: bool) -> Seq<Seq<char>> {
    if windows {
        seq!["dsh.cmd"@, "dsh.exe"@, "dsh.com"@, "dsh.bat"@]
    } else {
        seq!["dsh"@]
    }
}

/// The files in `dir` that may be dsh, in the order they are tried.
pub fn dsh_candidates_in(windows: bool, dir: &str) -> (r: Vec<String>)
    ensures
        string_views(r@) == dsh_names(windows).map_values(|n: Seq<char>| path_join(dir@, n)),
{
    let mut r: Vec<String> = Vec::new();
    if windows {
        r.push(join_path(dir, "dsh.cmd"));
        r.push(join_path(dir, "dsh.exe"));
        r.push(join_path(dir, "dsh.com"));
        r.push(join_path(dir, "dsh.bat"));
    } else {
        r.push(join_path(dir, "dsh"));
    }
    assert(string_views(r@) =~= dsh_names(windows).map_values(|n: Seq<char>| path_join(dir@, n)));
    r
}

/// Where npm puts the commands it installs globally, from its prefix:
/// the prefix itself on Windows, its `bin` elsewhere.
pub fn npm_bin_dir(windows: bool, prefix: &str) -> (r: String)
    ensures
        r@ == if windows {
            prefix@
        } else {
            path_join(prefix@, "bin"@)
        },
{
    if windows {
        lit(prefix)
    } else {
        join_path(prefix, "bin")
    }
}

/* ---------------------------------------------------------------------
   Reading the authentication URL out of dsh's output
   --------------------------------------------------------------------- */

/// Characters that end a URL in a log line.
pub open spec fn is_url_stop(c: char) -> bool {
    is_white_space(c) || c == '"' || c == '\'' || c == '<' || c == '>'
}

/// The longest start of `s` without a character that ends a URL.
pub open spec fn take_until_stop(s: Seq<char>) -> Seq<char>
    decreases s.len(),
{
    if s.len() == 0 || is_url_stop(s[0]) {
        Seq::empty()
    } else {
        seq![s[0]] + take_until_stop(s.drop_first())
    }
}

/// The index of the first occurrence of `p` in `s`.
pub open spec fn first_index(s: Seq<char>, p: Seq<char>) -> int {
    choose|i: int| first_occurrence(s, p, i)
}

/// The URL that starts at the first occurrence of `p` in `line`.
pub open spec fn url_from(line: Seq<char>, p: Seq<char>) -> Seq<char> {
    take_until_stop(line.skip(first_index(line, p)))
}

pub open spec fn loopback_prefix() -> Seq<char> {
    "http://127.0.0.1:"@
}

pub open spec fn localhost_prefix() -> Seq<char> {
    "http://localhost:"@
}

/// The URL that dsh printed in `line`, if any: it starts at the first
/// `http://127.0.0.1:` (else at the first `http://localhost:`) and runs up
/// to white space, a quote or an angle bracket, query string and token
/// included.
pub open spec fn spec_extract_dsh_url(line: Seq<char>) -> Option<Seq<char>> {
    if contains(line, loopback_prefix()) {
        Some(url_from(line, loopback_prefix()))
    } else if contains(line, localhost_prefix()) {
        Some(url_from(line, localhost_prefix()))
    } else {
        None
    }
}

pub proof fn lemma_first_occurrence_unique(s: Seq<char>, p: Seq<char>, i: int, j: int)
    requires
        first_occurrence(s, p, i),
        first_occurrence(s, p, j),
    ensures
        i == j,
{
}

pub proof fn lemma_take_until_stop(s: Seq<char>, e: int)
    requires
        0 <= e <= s.len(),
        forall|j: int| 0 <= j < e ==> !is_url_stop(#[trigger] s[j]),
        e == s.len() || is_url_stop(s[e]),
    ensures
        take_until_stop(s) == s.take(e),
    decreases e,
{
    if e == 0 {
        assert(s.take(0) =~= Seq::<char>::empty());
    } else {
        let t = s.drop_first();
        assert forall|j: int| 0 <= j < e - 1 implies !is_url_stop(#[trigger] t[j]) by {
            assert(t[j] == s[j + 1]);
        }
        if e < s.len() {
            assert(t[e - 1] == s[e]);
        }
        lemma_take_until_stop(t, e - 1);
        assert(s.take(e) =~= seq![s[0]] + t.take(e - 1));
    }
}

fn is_url_stop_exec(c: char) -> (r: bool)
    ensures
        r == is_url_stop(c),
{
    is_white_space_exec(c) || c == '"' || c == '\'' || c == '<' || c == '>'
}

/// The URL starting at the first occurrence of `p` in `line`, if `p` occurs.
fn url_after(line: &Vec<char>, p: &Vec<char>) -> (r: Option<Vec<char>>)
    ensures
        match r {
            Some(u) => contains(line@, p@) && u@ == url_from(line@, p@),
            None => !contains(line@, p@),
        },
{
    match find(line, p) {
        None => None,
        Some(idx) => {
            proof {
                let c = choose|i: int| first_occurrence(line@, p@, i);
                lemma_first_occurrence_unique(line@, p@, idx as int, c);
            }
            let mut e = idx;
            while e < line.len() && !is_url_stop_exec(line[e])
                invariant
                    idx <= e <= line.len(),
                    forall|j: int| idx <= j < e ==> !is_url_stop(#[trigger] line@[j]),
                decreases line.len() - e,
            {
                e += 1;
            }
            let ghost rest = line@.skip(idx as int);
            proof {
                assert forall|j: int| 0 <= j < e - idx implies !is_url_stop(#[trigger] rest[j]) by {
                    assert(rest[j] == line@[idx + j]);
                }
                if e < line.len() {
                    assert(rest[e - idx] == line@[e as int]);
                }
                lemma_take_until_stop(rest, e - idx);
            }
            let u = slice(line, idx, e);
            assert(u@ =~= rest.take(e - idx));
            Some(u)
        },
    }
}

/// Extracts the address that dsh web prints on start (for instance
/// `dsh web: http://127.0.0.1:3080/?token=abc`), token included.
pub fn extract_dsh_url(line: &str) -> (r: Option<String>)
    ensures
        match r {
            Some(u) => spec_extract_dsh_url(line@) == Some(u@),
            None => spec_extract_dsh_url(line@) is None,
        },
{
    let l = chars_of(line);
    let p1 = chars_of("http://127.0.0.1:");
    match url_after(&l, &p1) {
        Some(u) => Some(string_from(&u)),
        None => {
            let p2 = chars_of("http://localhost:");
            match url_after(&l, &p2) {
                Some(u) => Some(string_from(&u)),
                None => None,
            }
        },
    }
}

/// A text that occurs somewhere has a first occurrence.
pub proof fn lemma_first_occurrence_exists(s: Seq<char>, p: Seq<char>, i: int)
    requires
        occurs_at(s, p, i),
    ensures
        first_occurrence(s, p, first_index(s, p)),
    decreases i,
{
    if exists|j: int| 0 <= j < i && occurs_at(s, p, j) {
        let j = choose|j: int| 0 <= j < i && occurs_at(s, p, j);
        lemma_first_occurrence_exists(s, p, j);
    } else {
        assert(first_occurrence(s, p, i));
    }
}

/// What is taken up to a stop keeps a stop-free start of the text and holds
/// no stop.
pub proof fn lemma_take_until_stop_prefix(s: Seq<char>, p: Seq<char>)
    requires
        starts_with(s, p),
        forall|i: int| 0 <= i < p.len() ==> !is_url_stop(#[trigger] p[i]),
    ensures
        starts_with(take_until_stop(s), p),
        forall|i: int| 0 <= i < take_until_stop(s).len() ==> !is_url_stop(#[trigger] take_until_stop(s)[i]),
    decreases s.len(),
{
    if s.len() == 0 {
        assert(p =~= Seq::<char>::empty());
        assert(take_until_stop(s).subrange(0, 0) =~= p);
    } else if is_url_stop(s[0]) {
        if p.len() > 0 {
            assert(s.subrange(0, p.len() as int)[0] == s[0]);
        }
        assert(p =~= Seq::<char>::empty());
        assert(take_until_stop(s).subrange(0, 0) =~= p);
    } else {
        let t = s.drop_first();
        let q = if p.len() > 0 { p.drop_first() } else { p };
        assert forall|i: int| 0 <= i < q.len() implies !is_url_stop(#[trigger] q[i]) by {
            if p.len() > 0 {
                assert(q[i] == p[i + 1]);
            }
        }
        if p.len() > 0 {
            assert forall|i: int| 0 <= i < q.len() implies t.subrange(0, q.len() as int)[i] == q[i] by {
                assert(s.subrange(0, p.len() as int)[i + 1] == p[i + 1]);
            }
            assert(t.subrange(0, q.len() as int) =~= q);
        } else {
            assert(t.subrange(0, 0) =~= q);
        }
        lemma_take_until_stop_prefix(t, q);
        let r = take_until_stop(s);
        let rt = take_until_stop(t);
        assert(r =~= seq![s[0]] + rt);
        assert forall|i: int| 0 <= i < r.len() implies !is_url_stop(#[trigger] r[i]) by {
            if i > 0 {
                assert(r[i] == rt[i - 1]);
            }
        }
        if p.len() > 0 {
            assert forall|i: int| 0 <= i < p.len() implies r.subrange(0, p.len() as int)[i] == p[i] by {
                if i == 0 {
                    assert(s.subrange(0, p.len() as int)[0] == p[0]);
                } else {
                    assert(rt.subrange(0, q.len() as int)[i - 1] == q[i - 1]);
                }
            }
            assert(r.subrange(0, p.len() as int) =~= p);
        } else {
            assert(r.subrange(0, 0) =~= p);
        }
    }
}

pub proof fn lemma_url_from_prefix(line: Seq<char>, p: Seq<char>)
    requires
        contains(line, p),
        forall|i: int| 0 <= i < p.len() ==> !is_url_stop(#[trigger] p[i]),
    ensures
        starts_with(url_from(line, p), p),
        forall|i: int| 0 <= i < url_from(line, p).len() ==> !is_url_stop(#[trigger] url_from(line, p)[i]),
{
    let i = choose|i: int| occurs_at(line, p, i);
    lemma_first_occurrence_exists(line, p, i);
    let k = first_index(line, p);
    let rest = line.skip(k);
    assert(rest.subrange(0, p.len() as int) =~= line.subrange(k, k + p.len()));
    lemma_take_until_stop_prefix(rest, p);
}

/// Only a local address is taken from a line: what is extracted begins with
/// `http://127.0.0.1:` or `http://localhost:` and holds no white space,
/// quote or angle bracket; a line with neither gives nothing.
pub proof fn law_extracted_url_is_local(line: Seq<char>)
    ensures
        match spec_extract_dsh_url(line) {
            Some(u) => (starts_with(u, loopback_prefix()) || starts_with(u, localhost_prefix()))
                && forall|i: int| 0 <= i < u.len() ==> !is_url_stop(#[trigger] u[i]),
            None => !contains(line, loopback_prefix()) && !contains(line, localhost_prefix()),
        },
{
    reveal_strlit("http://127.0.0.1:");
    reveal_strlit("http://localhost:");
    let a = loopback_prefix();
    let b = localhost_prefix();
    assert forall|i: int| 0 <= i < a.len() implies !is_url_stop(#[trigger] a[i]) by {}
    assert forall|i: int| 0 <= i < b.len() implies !is_url_stop(#[trigger] b[i]) by {}
    if contains(line, a) {
        lemma_url_from_prefix(line, a);
    } else if contains(line, b) {
        lemma_url_from_prefix(line, b);
    }
}

/* ---------------------------------------------------------------------
   ANSI escape sequences
   --------------------------------------------------------------------- */

/// The escape character that starts an ANSI control sequence.
pub open spec fn esc() -> char {
    '\u{1b}'
}

/// The index just after the first ASCII letter at or after `i` (the end of
/// `s` if there is none).
pub open spec fn csi_end(s: Seq<char>, i: int) -> int
    decreases s.len() - i,
{
    if i < 0 || i >= s.len() {
        s.len() as int
    } else if is_ascii_alphabetic(s[i]) {
        i + 1
    } else {
        csi_end(s, i + 1)
    }
}

pub proof fn lemma_csi_end_bounds(s: Seq<char>, i: int)
    requires
        0 <= i <= s.len(),
    ensures
        i <= csi_end(s, i) <= s.len(),
        i < s.len() ==> i < csi_end(s, i),
    decreases s.len() - i,
{
    if i < s.len() && !is_ascii_alphabetic(s[i]) {
        lemma_csi_end_bounds(s, i + 1);
    }
}

/// What is left of `s` from index `i` on once every escape sequence
/// (ESC up to and including the next ASCII letter) is removed.
pub open spec fn strip_from(s: Seq<char>, i: int) -> Seq<char>
    decreases s.len() - i,
{
    if i < 0 || i >= s.len() {
        Seq::empty()
    } else if s[i] == esc() {
        if i < csi_end(s, i + 1) <= s.len() {
            strip_from(s, csi_end(s, i + 1))
        } else {
            Seq::empty()
        }
    } else {
        seq![s[i]] + strip_from(s, i + 1)
    }
}

/// `s` with its ANSI escape sequences removed.
pub open spec fn spec_strip_ansi(s: Seq<char>) -> Seq<char> {
    strip_from(s, 0)
}

/// Removes ANSI escape sequences (colour codes and the like) from `s`.
pub fn strip_ansi(s: &str) -> (r: String)
    ensures
        r@ == spec_strip_ansi(s@),
{
    let v = chars_of(s);
    let mut out: Vec<char> = Vec::new();
    let mut i: usize = 0;
    while i < v.len()
        invariant
            i <= v.len(),
            strip_from(v@, 0) == out@ + strip_from(v@, i as int),
        decreases v.len() - i,
    {
        if v[i] == '\u{1b}' {
            let mut j = i + 1;
            while j < v.len() && !('a' <= v[j] && v[j] <= 'z' || 'A' <= v[j] && v[j] <= 'Z')
                invariant
                    i < j <= v.len(),
                    csi_end(v@, i + 1) == csi_end(v@, j as int),
                decreases v.len() - j,
            {
                j += 1;
            }
            let next = if j < v.len() {
                j + 1
            } else {
                j
            };
            proof {
                lemma_csi_end_bounds(v@, i + 1);
            }
            assert(next == csi_end(v@, i + 1));
            i = next;
        } else {
            let ghost before = out@;
            out.push(v[i]);
            assert(before + strip_from(v@, i as int) =~= out@ + strip_from(v@, i + 1));
            i += 1;
        }
    }
    assert(out@ =~= out@ + Seq::<char>::empty());
    string_from(&out)
}

/// Nothing that `strip_ansi` returns holds an escape character.
pub proof fn lemma_strip_from_no_esc(s: Seq<char>, i: int)
    ensures
        !strip_from(s, i).contains(esc()),
    decreases s.len() - i,
{
    if 0 <= i < s.len() {
        if s[i] == esc() {
            if i < csi_end(s, i + 1) <= s.len() {
                lemma_strip_from_no_esc(s, csi_end(s, i + 1));
            }
        } else {
            lemma_strip_from_no_esc(s, i + 1);
            let r = strip_from(s, i);
            assert(r =~= seq![s[i]] + strip_from(s, i + 1));
            if r.contains(esc()) {
                let k = choose|k: int| 0 <= k < r.len() && r[k] == esc();
                if k > 0 {
                    assert(strip_from(s, i + 1)[k - 1] == esc());
                }
            }
        }
    }
}

/// Text without escape characters is left as it is.
pub proof fn lemma_strip_from_plain(s: Seq<char>, i: int)
    requires
        0 <= i <= s.len(),
        !s.contains(esc()),
    ensures
        strip_from(s, i) == s.skip(i),
    decreases s.len() - i,
{
    if i < s.len() {
        assert(s[i] != esc());
        lemma_strip_from_plain(s, i + 1);
        assert(s.skip(i) =~= seq![s[i]] + s.skip(i + 1));
    } else {
        assert(s.skip(i) =~= Seq::<char>::empty());
    }
}

/// `a` is what is left of `b` once some of its characters are removed,
/// the others kept in order (matched greedily from the front).
pub open spec fn is_subsequence(a: Seq<char>, b: Seq<char>) -> bool
    decreases b.len(),
{
    if a.len() == 0 {
        true
    } else if b.len() == 0 {
        false
    } else if a[0] == b[0] {
        is_subsequence(a.drop_first(), b.drop_first())
    } else {
        is_subsequence(a, b.drop_first())
    }
}

pub proof fn lemma_subsequence_drop_first(a: Seq<char>, b: Seq<char>)
    requires
        a.len() > 0,
        is_subsequence(a, b),
    ensures
        is_subsequence(a.drop_first(), b),
    decreases b.len(), 0int,
{
    let b1 = b.drop_first();
    assert(b =~= seq![b[0]] + b1);
    if a[0] == b[0] {
        lemma_subsequence_prepend_one(a.drop_first(), b1, b[0]);
    } else {
        lemma_subsequence_drop_first(a, b1);
        lemma_subsequence_prepend_one(a.drop_first(), b1, b[0]);
    }
}

pub proof fn lemma_subsequence_prepend_one(a: Seq<char>, b: Seq<char>, c: char)
    requires
        is_subsequence(a, b),
    ensures
        is_subsequence(a, seq![c] + b),
    decreases b.len(), 1int,
{
    let t = seq![c] + b;
    assert(t.drop_first() =~= b);
    if a.len() > 0 && a[0] == c {
        lemma_subsequence_drop_first(a, b);
    }
}

pub proof fn lemma_subsequence_prepend(a: Seq<char>, u: Seq<char>, b: Seq<char>)
    requires
        is_subsequence(a, b),
    ensures
        is_subsequence(a, u + b),
    decreases u.len(),
{
    if u.len() > 0 {
        lemma_subsequence_prepend(a, u.drop_first(), b);
        assert(u + b =~= seq![u[0]] + (u.drop_first() + b));
        lemma_subsequence_prepend_one(a, u.drop_first() + b, u[0]);
    }
}

pub proof fn lemma_strip_from_subsequence(s: Seq<char>, i: int)
    requires
        0 <= i <= s.len(),
    ensures
        is_subsequence(strip_from(s, i), s.skip(i)),
    decreases s.len() - i,
{
    if i < s.len() {
        if s[i] == esc() {
            let j = csi_end(s, i + 1);
            lemma_csi_end_bounds(s, i + 1);
            lemma_strip_from_subsequence(s, j);
            assert(s.skip(i) =~= s.subrange(i, j) + s.skip(j));
            lemma_subsequence_prepend(strip_from(s, j), s.subrange(i, j), s.skip(j));
        } else {
            lemma_strip_from_subsequence(s, i + 1);
            let r = strip_from(s, i);
            assert(r.drop_first() =~= strip_from(s, i + 1));
            assert(s.skip(i).drop_first() =~= s.skip(i + 1));
        }
    }
}

/// Removing escape sequences only removes characters: what is left is a
/// subsequence of the text, and a text without ESC is left as it is.
pub proof fn law_strip_ansi_subsequence(s: Seq<char>)
    ensures
        is_subsequence(spec_strip_ansi(s), s),
        !s.contains(esc()) ==> spec_strip_ansi(s) == s,
{
    lemma_strip_from_subsequence(s, 0);
    assert(s.skip(0) =~= s);
    if !s.contains(esc()) {
        lemma_strip_from_plain(s, 0);
    }
}

/// Removing escape sequences leaves no escape character behind, and doing
/// it twice gives what doing it once gives.
pub proof fn law_strip_ansi(s: Seq<char>)
    ensures
        !spec_strip_ansi(s).contains(esc()),
        spec_strip_ansi(spec_strip_ansi(s)) == spec_strip_ansi(s),
{
    lemma_strip_from_no_esc(s, 0);
    lemma_strip_from_plain(spec_strip_ansi(s), 0);
    assert(spec_strip_ansi(s).skip(0) =~= spec_strip_ansi(s));
}

/* ---------------------------------------------------------------------
   Probing ports
   --------------------------------------------------------------------- */

/// What was found on a port before starting the service.
pub enum PortProbe {
    /// Nothing listens: the service can be started there.
    Free,
    /// An HTTP service already answers (an earlier dsh): use it.
    ServiceRunning,
    /// Something that is no HTTP service holds the port: move to another.
    OccupiedByOther,
}

pub open spec fn upper_byte(b: u8) -> u8 {
    if 97 <= b <= 122 {
        (b - 32) as u8
    } else {
        b
    }
}

/// The reply begins with `HTTP/`, letters in any case: an HTTP status line.
pub open spec fn http_head(reply: Seq<u8>) -> bool {
    &&& reply.len() >= 5
    &&& upper_byte(reply[0]) == 72
    &&& upper_byte(reply[1]) == 84
    &&& upper_byte(reply[2]) == 84
    &&& upper_byte(reply[3]) == 80
    &&& reply[4] == 47
}

/// What a probe of a port means: no connection means the port is free; a
/// connection whose first reply bytes begin with `HTTP/` means a service
/// runs there; a connection with no reply, an empty one or another one means
/// another program holds the port.
pub open spec fn spec_classify_probe(connected: bool, reply: Option<Seq<u8>>) -> PortProbe {
    if !connected {
        PortProbe::Free
    } else {
        match reply {
            Some(bytes) => if bytes.len() > 0 && http_head(bytes) {
                PortProbe::ServiceRunning
            } else {
                PortProbe::OccupiedByOther
            },
            None => PortProbe::OccupiedByOther,
        }
    }
}

fn upper_byte_exec(b: u8) -> (r: u8)
    ensures
        r == upper_byte(b),
{
    if 97 <= b && b <= 122 {
        b - 32
    } else {
        b
    }
}

/// Classifies a port from the outcome of connecting to it and of reading
/// the first bytes of the reply to a `GET /` request.
pub fn classify_probe(connected: bool, reply: Option<Vec<u8>>) -> (r: PortProbe)
    ensures
        r == spec_classify_probe(
            connected,
            match reply {
                Some(b) => Some(b@),
                None => None,
            },
        ),
{
    if !connected {
        return PortProbe::Free;
    }
    match reply {
        None => PortProbe::OccupiedByOther,
        Some(bytes) => {
            if bytes.len() >= 5 && upper_byte_exec(bytes[0]) == 72 && upper_byte_exec(bytes[1])
                == 84 && upper_byte_exec(bytes[2]) == 84 && upper_byte_exec(bytes[3]) == 80
                && bytes[4] == 47 {
                PortProbe::ServiceRunning
            } else {
                PortProbe::OccupiedByOther
            }
        },
    }
}

/// How many consecutive ports are tried, starting at the configured one.
pub open spec fn port_attempts() -> u16 {
    10
}

/// The next thing to do while looking for a free port.
pub enum PortSearch {
    /// Try this port next.
    Probe(u16),
    /// This port is free: use it.
    Found(u16),
    /// None of the ports tried was free; the message says so.
    Exhausted(String),
}

/// `端口 <start> 及后续 10 个端口均被占用`
pub open spec fn ports_exhausted_message(start: u16) -> Seq<char> {
    "端口 "@ + decimal(start as nat) + " 及后续 "@ + decimal(10) + " 个端口均被占用"@
}

/// A step of the port search as plain values.
pub enum PortStep {
    Probe(int),
    Found(int),
    Exhausted,
}

pub open spec fn port_step_view(r: PortSearch) -> PortStep {
    match r {
        PortSearch::Probe(p) => PortStep::Probe(p as int),
        PortSearch::Found(p) => PortStep::Found(p as int),
        PortSearch::Exhausted(_) => PortStep::Exhausted,
    }
}

/// One step of the search for a free port from `start`: `tried` ports were
/// found taken so far, and the port `start + tried` was just probed. A free
/// port is used; else the next one is probed, unless ten were taken.
pub open spec fn spec_port_search_step(start: int, tried: int, available: bool) -> PortStep {
    if available {
        PortStep::Found(start + tried)
    } else if tried + 1 < port_attempts() {
        PortStep::Probe(start + tried + 1)
    } else {
        PortStep::Exhausted
    }
}

/// One step of the search for a free port (see [`spec_port_search_step`]);
/// the search that ends without a port says so in its message.
pub fn port_search_step(start: u16, tried: u16, available: bool) -> (r: PortSearch)
    requires
        tried < port_attempts(),
        start + tried <= u16::MAX,
        available || start + tried < u16::MAX,
    ensures
        port_step_view(r) == spec_port_search_step(start as int, tried as int, available),
        r matches PortSearch::Exhausted(m) ==> m@ == ports_exhausted_message(start),
{
    let port: u16 = start + tried;
    if available {
        PortSearch::Found(port)
    } else if tried + 1 < 10 {
        PortSearch::Probe(port + 1)
    } else {
        let mut m = chars_of("端口 ");
        m = concat(&m, &decimal_exec(start as u32));
        m = concat(&m, &chars_of(" 及后续 "));
        m = concat(&m, &decimal_exec(10));
        m = concat(&m, &chars_of(" 个端口均被占用"));
        PortSearch::Exhausted(string_from(&m))
    }
}

/// The port that the search from `start` settles on when `free[i]` tells
/// whether port `start + i` is free, taking the steps of
/// [`spec_port_search_step`] from the `tried`-th probe on.
pub open spec fn search_outcome(start: int, free: Seq<bool>, tried: int) -> Option<int>
    decreases 10 - tried,
{
    if tried < 0 || tried >= 10 || tried >= free.len() {
        None
    } else {
        match spec_port_search_step(start, tried, free[tried]) {
            PortStep::Found(p) => Some(p),
            PortStep::Probe(_) => search_outcome(start, free, tried + 1),
            PortStep::Exhausted => None,
        }
    }
}

/// The search settles on the first free port among the ten from `start`,
/// so a port found lies within `start..=start + 9` and every port before it
/// was taken; and no port is found only when all ten are taken.
pub proof fn law_port_search(start: int, free: Seq<bool>, tried: int)
    requires
        0 <= tried < 10,
        free.len() == 10,
    ensures
        match search_outcome(start, free, tried) {
            Some(p) => start + tried <= p <= start + 9 && free[p - start] && forall|j: int|
                tried <= j < p - start ==> !free[j],
            None => forall|j: int| tried <= j < 10 ==> !free[j],
        },
    decreases 10 - tried,
{
    if !free[tried] {
        if tried + 1 < 10 {
            law_port_search(start, free, tried + 1);
        } else {
            assert(search_outcome(start, free, tried + 1) is None);
        }
    }
}

/* ---------------------------------------------------------------------
   Waiting for the service
   --------------------------------------------------------------------- */

/// How many seconds a start waits for the port to answer.
pub open spec fn max_ready_wait() -> u32 {
    90
}

/// The progress line shown after second `i + 1` of the wait.
pub open spec fn ready_progress_line(i: u32) -> Seq<char> {
    "[系统] 等待服务就绪... ("@ + decimal((i + 1) as nat) + "/"@ + decimal(90) + ")"@
}

/// What is shown after second `i + 1` of waiting for the port without an
/// answer: a progress line every fifth second, nothing otherwise.
pub fn ready_wait_progress(i: u32) -> (r: Option<String>)
    requires
        i < max_ready_wait(),
    ensures
        (i + 1) % 5 == 0 ==> (r matches Some(m) && m@ == ready_progress_line(i)),
        (i + 1) % 5 != 0 ==> r is None,
{
    if (i + 1) % 5 == 0 {
        let mut m = chars_of("[系统] 等待服务就绪... (");
        m = concat(&m, &decimal_exec(i + 1));
        m = concat(&m, &chars_of("/"));
        m = concat(&m, &decimal_exec(90));
        m = concat(&m, &chars_of(")"));
        Some(string_from(&m))
    } else {
        None
    }
}

/* ---------------------------------------------------------------------
   Service state
   --------------------------------------------------------------------- */

/// What the monitor does when it sees the service process gone.
pub enum ExitAction {
    /// A stop or a restart is under way: leave it alone.
    Ignore,
    /// Restart in five seconds; this is restart number `n` (1 to 3).
    Restart(u32),
    /// Three restarts were spent: stop watching.
    GiveUp,
}

/// What a line of the service's output holds.
pub enum LineOutcome {
    /// The authentication URL; `announce` is true for the first capture since
    /// the ready state was last reset, when the service must be announced
    /// ready.
    Captured { url: String, announce: bool },
    /// The line mentions `token=` but no URL could be taken from it.
    TokenUnparsed,
    /// Nothing to act on.
    Plain,
}

/// The largest number of automatic restarts between two manual starts.
pub open spec fn max_restarts() -> u32 {
    3
}

/// The state that decides how the service is started, watched, restarted and
/// announced. The process itself is held by the caller; this state records
/// whether there is one.
pub struct ServiceManager {
    status: ServiceStatus,
    install_dir: String,
    restart_count: u32,
    is_restarting: bool,
    monitor_running: bool,
    auth_url: Option<String>,
    ready_emitted: bool,
    has_process: bool,
}

/// The state of a [`ServiceManager`] as plain values.
pub struct ServiceModel {
    pub running: bool,
    pub port: u16,
    pub url: Seq<char>,
    pub install_dir: Seq<char>,
    pub restart_count: u32,
    pub is_restarting: bool,
    pub monitor_running: bool,
    pub auth_url: Option<Seq<char>>,
    pub ready_emitted: bool,
    pub has_process: bool,
}

impl View for ServiceManager {
    type V = ServiceModel;

    closed spec fn view(&self) -> ServiceModel {
        ServiceModel {
            running: self.status.running,
            port: self.status.port,
            url: self.status.url@,
            install_dir: self.install_dir@,
            restart_count: self.restart_count,
            is_restarting: self.is_restarting,
            monitor_running: self.monitor_running,
            auth_url: opt_view(self.auth_url),
            ready_emitted: self.ready_emitted,
            has_process: self.has_process,
        }
    }
}

impl ServiceModel {
    /// The restart count never goes past the limit.
    pub open spec fn wf(self) -> bool {
        self.restart_count <= max_restarts()
    }
}

/// What a line of output holds, as plain values.
pub enum LineEvent {
    Captured(Seq<char>, bool),
    TokenUnparsed,
    Plain,
}

pub open spec fn line_event_of(o: LineOutcome) -> LineEvent {
    match o {
        LineOutcome::Captured { url, announce } => LineEvent::Captured(url@, announce),
        LineOutcome::TokenUnparsed => LineEvent::TokenUnparsed,
        LineOutcome::Plain => LineEvent::Plain,
    }
}

/// The process exited: the new state and what the monitor does.
pub open spec fn exit_step(m: ServiceModel) -> (ServiceModel, ExitAction) {
    if m.is_restarting {
        (m, ExitAction::Ignore)
    } else if m.restart_count < max_restarts() {
        (
            ServiceModel {
                restart_count: (m.restart_count + 1) as u32,
                is_restarting: true,
                running: false,
                ..m
            },
            ExitAction::Restart((m.restart_count + 1) as u32),
        )
    } else {
        (ServiceModel { running: false, ..m }, ExitAction::GiveUp)
    }
}

/// An automatic restart ended.
pub open spec fn restart_finished(m: ServiceModel, succeeded: bool) -> ServiceModel {
    ServiceModel { is_restarting: !succeeded, ..m }
}

/// The port answered: the new state and the address to announce, if any.
pub open spec fn ready_step(m: ServiceModel, port: u16) -> (ServiceModel, Option<Seq<char>>) {
    if m.ready_emitted {
        (m, None)
    } else {
        (
            ServiceModel { ready_emitted: true, ..m },
            Some(
                match m.auth_url {
                    Some(u) => u,
                    None => local_url(port),
                },
            ),
        )
    }
}

/// A line of output was read: the new state and what the line held.
pub open spec fn capture_step(m: ServiceModel, line: Seq<char>) -> (ServiceModel, LineEvent) {
    let clean = spec_strip_ansi(line);
    match spec_extract_dsh_url(clean) {
        Some(u) => (
            ServiceModel { auth_url: Some(u), ready_emitted: true, ..m },
            LineEvent::Captured(u, !m.ready_emitted),
        ),
        None => (m, if contains(clean, "token="@) {
            LineEvent::TokenUnparsed
        } else {
            LineEvent::Plain
        }),
    }
}

/// The ready state is reset before a new process prints its token.
pub open spec fn ready_reset(m: ServiceModel) -> ServiceModel {
    ServiceModel { auth_url: None, ready_emitted: false, ..m }
}

/// The service is stopped on request.
pub open spec fn stopped(m: ServiceModel) -> ServiceModel {
    ServiceModel { is_restarting: true, has_process: false, running: false, ..m }
}

impl ServiceManager {
    /// A stopped service on the default port, nothing captured, no restarts.
    pub fn new(install_dir: String) -> (r: Self)
        ensures
            r@ == (ServiceModel {
                running: false,
                port: 3080,
                url: Seq::empty(),
                install_dir: install_dir@,
                restart_count: 0,
                is_restarting: false,
                monitor_running: false,
                auth_url: None,
                ready_emitted: false,
                has_process: false,
            }),
            r@.wf(),
    {
        ServiceManager {
            status: ServiceStatus { running: false, port: 3080, url: String::new() },
            install_dir,
            restart_count: 0,
            is_restarting: false,
            monitor_running: false,
            auth_url: None,
            ready_emitted: false,
            has_process: false,
        }
    }

    /// The current status, as reported to the front end.
    pub fn status(&self) -> (r: ServiceStatus)
        ensures
            r.running == self@.running,
            r.port == self@.port,
            r.url@ == self@.url,
    {
        ServiceStatus {
            running: self.status.running,
            port: self.status.port,
            url: self.status.url.clone(),
        }
    }

    pub fn install_dir(&self) -> (r: String)
        ensures
            r@ == self@.install_dir,
    {
        self.install_dir.clone()
    }

    pub fn restart_count(&self) -> (r: u32)
        ensures
            r == self@.restart_count,
    {
        self.restart_count
    }

    pub fn is_restarting(&self) -> (r: bool)
        ensures
            r == self@.is_restarting,
    {
        self.is_restarting
    }

    /// Whether the service was announced ready since the last reset.
    pub fn ready_announced(&self) -> (r: bool)
        ensures
            r == self@.ready_emitted,
    {
        self.ready_emitted
    }

    /// Forgets the restarts made so far.
    pub fn reset_restart_count(&mut self)
        ensures
            final(self)@ == (ServiceModel { restart_count: 0, ..old(self)@ }),
    {
        self.restart_count = 0;
    }

    /// Forgets the captured URL and the announcement, before a new dsh
    /// process prints its own token.
    pub fn reset_ready_state(&mut self)
        ensures
            final(self)@ == ready_reset(old(self)@),
    {
        self.auth_url = None;
        self.ready_emitted = false;
    }

    /// The authentication URL captured from the running dsh, if any.
    pub fn get_auth_url(&self) -> (r: Option<String>)
        ensures
            opt_view(r) == self@.auth_url,
    {
        match &self.auth_url {
            Some(u) => Some(u.clone()),
            None => None,
        }
    }

    /// Marks the service as being shut down on exit and lets go of the
    /// process; true when there was one, which the caller then kills.
    pub fn kill_service_blocking(&mut self) -> (r: bool)
        ensures
            r == old(self)@.has_process,
            final(self)@ == (ServiceModel { is_restarting: true, has_process: false, ..old(self)@ }),
    {
        self.is_restarting = true;
        let had = self.has_process;
        self.has_process = false;
        had
    }

    /// An HTTP service already answers on `port`: adopt it as running
    /// without starting a process (and without announcing it, since its
    /// token is unknown).
    pub fn adopt_running_service(&mut self, port: u16)
        requires
            old(self)@.wf(),
        ensures
            final(self)@ == (ServiceModel {
                running: true,
                port,
                url: local_url(port),
                restart_count: 0,
                is_restarting: false,
                ..old(self)@
            }),
            final(self)@.wf(),
    {
        self.restart_count = 0;
        self.is_restarting = false;
        self.status.running = true;
        self.status.port = port;
        self.status.url = service_url(port);
    }

    /// Before a manual start on `port`: restarts forgotten, no restart under
    /// way, the status pointing at the port, and the last captured URL and
    /// announcement forgotten so that the new process is announced.
    pub fn prepare_start(&mut self, port: u16)
        requires
            old(self)@.wf(),
        ensures
            final(self)@ == (ServiceModel {
                port,
                url: local_url(port),
                restart_count: 0,
                is_restarting: false,
                auth_url: None,
                ready_emitted: false,
                ..old(self)@
            }),
            final(self)@.wf(),
    {
        self.restart_count = 0;
        self.is_restarting = false;
        self.status.port = port;
        self.status.url = service_url(port);
        self.auth_url = None;
        self.ready_emitted = false;
    }

    /// Before an automatic restart on `port`: the last captured URL and
    /// announcement forgotten, the status pointing at the port.
    pub fn prepare_restart(&mut self, port: u16)
        requires
            old(self)@.wf(),
        ensures
            final(self)@ == (ServiceModel {
                port,
                url: local_url(port),
                auth_url: None,
                ready_emitted: false,
                ..old(self)@
            }),
            final(self)@.wf(),
    {
        self.auth_url = None;
        self.ready_emitted = false;
        self.status.port = port;
        self.status.url = service_url(port);
    }

    /// A new process was spawned: it replaces any earlier one (true when
    /// there was one, which the caller kills) and the service runs.
    pub fn attach_process(&mut self) -> (r: bool)
        requires
            old(self)@.wf(),
        ensures
            r == old(self)@.has_process,
            final(self)@ == (ServiceModel { has_process: true, running: true, ..old(self)@ }),
            final(self)@.wf(),
    {
        let had = self.has_process;
        self.has_process = true;
        self.status.running = true;
        had
    }

    /// Starts the monitor unless one runs: true when the caller must start it.
    pub fn claim_monitor(&mut self) -> (r: bool)
        requires
            old(self)@.wf(),
        ensures
            r == !old(self)@.monitor_running,
            final(self)@ == (ServiceModel { monitor_running: true, ..old(self)@ }),
            final(self)@.wf(),
    {
        let start = !self.monitor_running;
        self.monitor_running = true;
        start
    }

    /// The monitor saw the process exit. While a stop or restart is under
    /// way nothing happens; otherwise the service is marked stopped and is
    /// restarted while fewer than three restarts were made, else given up.
    pub fn on_process_exit(&mut self) -> (r: ExitAction)
        requires
            old(self)@.wf(),
        ensures
            (final(self)@, r) == exit_step(old(self)@),
            final(self)@.wf(),
    {
        if self.is_restarting {
            return ExitAction::Ignore;
        }
        if self.restart_count < 3 {
            self.restart_count = self.restart_count + 1;
            self.is_restarting = true;
            self.status.running = false;
            ExitAction::Restart(self.restart_count)
        } else {
            self.status.running = false;
            ExitAction::GiveUp
        }
    }

    /// An automatic restart ended: further exits are watched again if it
    /// succeeded, and ignored if it failed.
    pub fn finish_restart(&mut self, succeeded: bool)
        requires
            old(self)@.wf(),
        ensures
            final(self)@ == restart_finished(old(self)@, succeeded),
            final(self)@.wf(),
    {
        self.is_restarting = !succeeded;
    }

    /// Stops the service on request: further exits are not restarted, the
    /// process (if any; true then, and the caller kills it) is let go, and
    /// the service is marked stopped.
    pub fn stop(&mut self) -> (r: bool)
        requires
            old(self)@.wf(),
        ensures
            r == old(self)@.has_process,
            final(self)@ == stopped(old(self)@),
            final(self)@.wf(),
    {
        self.is_restarting = true;
        let had = self.has_process;
        self.has_process = false;
        self.status.running = false;
        had
    }

    /// The port answers: announce the service unless it was announced since
    /// the last reset. The address announced is the captured URL, or the bare
    /// local address when none was captured.
    pub fn claim_ready(&mut self, port: u16) -> (r: Option<String>)
        requires
            old(self)@.wf(),
        ensures
            (final(self)@, opt_view(r)) == ready_step(old(self)@, port),
            final(self)@.wf(),
    {
        if self.ready_emitted {
            return None;
        }
        self.ready_emitted = true;
        match &self.auth_url {
            Some(u) => Some(u.clone()),
            None => Some(service_url(port)),
        }
    }

    /// Handles one line of the service's output: a URL found in it (after
    /// removing escape sequences) becomes the captured URL, and the first
    /// capture since the last reset announces the service.
    pub fn capture_line(&mut self, line: &str) -> (r: LineOutcome)
        requires
            old(self)@.wf(),
        ensures
            (final(self)@, line_event_of(r)) == capture_step(old(self)@, line@),
            final(self)@.wf(),
    {
        let clean = strip_ansi(line);
        match extract_dsh_url(clean.as_str()) {
            Some(url) => {
                self.auth_url = Some(url.clone());
                let announce = !self.ready_emitted;
                self.ready_emitted = true;
                LineOutcome::Captured { url, announce }
            },
            None => {
                let c = chars_of(clean.as_str());
                let t = chars_of("token=");
                if contains_exec(&c, &t) {
                    LineOutcome::TokenUnparsed
                } else {
                    LineOutcome::Plain
                }
            },
        }
    }
}

/// Events that the monitor reacts to.
pub enum MonitorEvent {
    /// The process exited.
    Exited,
    /// An automatic restart ended, successfully or not.
    RestartFinished(bool),
}

/// The state after the monitor's `events`, and how many restarts it made.
pub open spec fn run_monitor(m: ServiceModel, events: Seq<MonitorEvent>) -> (ServiceModel, nat)
    decreases events.len(),
{
    if events.len() == 0 {
        (m, 0)
    } else {
        let (m1, n1) = match events[0] {
            MonitorEvent::Exited => {
                let (m2, a) = exit_step(m);
                (m2, if a is Restart { 1nat } else { 0nat })
            },
            MonitorEvent::RestartFinished(ok) => (restart_finished(m, ok), 0nat),
        };
        let (m3, n3) = run_monitor(m1, events.drop_first());
        (m3, n1 + n3)
    }
}

/// Between two manual starts (which reset the count to 0) the monitor
/// restarts the service at most three times, whatever exits and restart
/// outcomes occur; and the state stays well formed.
pub proof fn law_restarts_bounded(m: ServiceModel, events: Seq<MonitorEvent>)
    requires
        m.wf(),
    ensures
        run_monitor(m, events).0.wf(),
        run_monitor(m, events).1 + m.restart_count <= max_restarts(),
    decreases events.len(),
{
    if events.len() > 0 {
        let m1 = match events[0] {
            MonitorEvent::Exited => exit_step(m).0,
            MonitorEvent::RestartFinished(ok) => restart_finished(m, ok),
        };
        law_restarts_bounded(m1, events.drop_first());
    }
}

/// Once the service is stopped on request, an exit of the process is left
/// alone: it is neither restarted nor given up.
pub proof fn law_stop_prevents_restart(m: ServiceModel)
    ensures
        exit_step(stopped(m)).1 == ExitAction::Ignore,
        exit_step(stopped(m)).0 == stopped(m),
{
}

/// Events that can announce the service.
pub enum ReadyEvent {
    /// A line of output was read.
    Line(Seq<char>),
    /// The port answered.
    PortOpen(u16),
}

/// The state after `events`, and how many times the service was announced.
pub open spec fn run_ready(m: ServiceModel, events: Seq<ReadyEvent>) -> (ServiceModel, nat)
    decreases events.len(),
{
    if events.len() == 0 {
        (m, 0)
    } else {
        let (m1, n1) = match events[0] {
            ReadyEvent::Line(l) => {
                let (m2, e) = capture_step(m, l);
                (m2, if e matches LineEvent::Captured(_, true) { 1nat } else { 0nat })
            },
            ReadyEvent::PortOpen(p) => {
                let (m2, u) = ready_step(m, p);
                (m2, if u is Some { 1nat } else { 0nat })
            },
        };
        let (m3, n3) = run_ready(m1, events.drop_first());
        (m3, n1 + n3)
    }
}

/// Whatever lines are read and port checks succeed, the service is announced
/// ready at most once after the ready state was reset, and not at all when it
/// was already announced.
pub proof fn law_ready_announced_once(m: ServiceModel, events: Seq<ReadyEvent>)
    ensures
        run_ready(m, events).1 <= (if m.ready_emitted { 0nat } else { 1nat }),
        m.ready_emitted || run_ready(m, events).1 > 0 ==> run_ready(m, events).0.ready_emitted,
    decreases events.len(),
{
    if events.len() > 0 {
        let m1 = match events[0] {
            ReadyEvent::Line(l) => capture_step(m, l).0,
            ReadyEvent::PortOpen(p) => ready_step(m, p).0,
        };
        law_ready_announced_once(m1, events.drop_first());
    }
}

/// After a reset, a line that carries dsh's URL announces the service with
/// that URL, token included, and keeps it for later reads, so that the port
/// check does not announce it again; without such a line the port check
/// announces the bare local address.
pub proof fn law_captured_url_is_announced(m: ServiceModel, line: Seq<char>, port: u16)
    requires
        spec_extract_dsh_url(spec_strip_ansi(line)) is Some,
    ensures
        ({
            let u = spec_extract_dsh_url(spec_strip_ansi(line))->0;
            let (m2, e) = capture_step(ready_reset(m), line);
            &&& e == LineEvent::Captured(u, true)
            &&& m2.auth_url == Some(u)
            &&& ready_step(m2, port).1 is None
        }),
        ready_step(ready_reset(m), port).1 == Some(local_url(port)),
{
}

/// When the process exits: during a stop or restart nothing happens; else,
/// with fewer than three restarts made, the service is marked stopped and
/// restarted as restart number `count + 1`, the count going up by one; after
/// three it is marked stopped and given up. Nothing else changes.
pub proof fn law_exit_restarts_up_to_three(m: ServiceModel)
    ensures
        m.is_restarting ==> exit_step(m) == (m, ExitAction::Ignore),
        !m.is_restarting && m.restart_count < 3 ==> {
            let (n, a) = exit_step(m);
            &&& a == ExitAction::Restart((m.restart_count + 1) as u32)
            &&& n.restart_count == m.restart_count + 1
            &&& n.is_restarting && !n.running
            &&& n.port == m.port && n.url == m.url && n.auth_url == m.auth_url
            &&& n.ready_emitted == m.ready_emitted && n.has_process == m.has_process
            &&& n.monitor_running == m.monitor_running && n.install_dir == m.install_dir
        },
        !m.is_restarting && m.restart_count >= 3 ==> {
            let (n, a) = exit_step(m);
            &&& a == ExitAction::GiveUp
            &&& !n.running && !n.is_restarting && n.restart_count == m.restart_count
        },
        restart_finished(m, true).is_restarting == false,
        restart_finished(m, false).is_restarting == true,
{
}

/// The port answering announces the service once: with the captured URL
/// when there is one, else with `http://127.0.0.1:<port>`; after that, or
/// when a capture already announced it, it announces nothing. A line with
/// dsh's URL (escape sequences removed) records that URL and announces it
/// when nothing was announced yet; a line without one changes nothing.
pub proof fn law_ready_announcement(m: ServiceModel, port: u16, line: Seq<char>)
    ensures
        !m.ready_emitted ==> ready_step(m, port).1 == Some(
            match m.auth_url {
                Some(u) => u,
                None => "http://127.0.0.1:"@ + decimal(port as nat),
            },
        ) && ready_step(m, port).0.ready_emitted,
        m.ready_emitted ==> ready_step(m, port) == (m, None::<Seq<char>>),
        spec_extract_dsh_url(spec_strip_ansi(line)) matches Some(u) ==> capture_step(m, line)
            == (ServiceModel { auth_url: Some(u), ready_emitted: true, ..m }, LineEvent::Captured(
            u,
            !m.ready_emitted,
        )),
        spec_extract_dsh_url(spec_strip_ansi(line)) is None ==> capture_step(m, line).0 == m
            && !(capture_step(m, line).1 is Captured),
{
}

/// A port where nothing accepts a connection is free; one that answers with
/// a reply beginning `HTTP/` (the letters in either case) runs a service;
/// any other, or no reply, means another program holds it.
pub proof fn law_probe_classification(connected: bool, reply: Option<Seq<u8>>)
    ensures
        !connected ==> spec_classify_probe(connected, reply) == PortProbe::Free,
        connected ==> (spec_classify_probe(connected, reply) == PortProbe::ServiceRunning <==> (
        reply matches Some(b) && b.len() >= 5 && (b[0] == 72 || b[0] == 104) && (b[1] == 84
            || b[1] == 116) && (b[2] == 84 || b[2] == 116) && (b[3] == 80 || b[3] == 112) && b[4]
            == 47)),
        connected ==> spec_classify_probe(connected, reply) != PortProbe::Free,
{
}

/// Each step of the port search: a free port `start + tried` is used; a
/// taken one leads to probing `start + tried + 1`, unless it was the tenth,
/// which ends the search without a port.
pub proof fn law_port_step(start: int, tried: int, available: bool)
    requires
        0 <= tried < 10,
    ensures
        available ==> spec_port_search_step(start, tried, available) == PortStep::Found(start + tried),
        !available && tried < 9 ==> spec_port_search_step(start, tried, available) == PortStep::Probe(
            start + tried + 1,
        ),
        !available && tried == 9 ==> spec_port_search_step(start, tried, available) == PortStep::Exhausted,
{
}

/// dsh's URL is found whenever the line holds `http://127.0.0.1:` or
/// `http://localhost:`: it is the text of the line from the first such
/// address (the loopback one preferred) up to the first white space, quote
/// or angle bracket after it, or the end of the line.
pub proof fn law_extracted_url_is_whole(line: Seq<char>)
    ensures
        (contains(line, loopback_prefix()) || contains(line, localhost_prefix()))
            <==> spec_extract_dsh_url(line) is Some,
        match spec_extract_dsh_url(line) {
            Some(u) => exists|k: int|
                #![trigger occurs_at(line, u, k)]
                occurs_at(line, u, k) && (k + u.len() == line.len() || is_url_stop(line[k + u.len()]))
                    && (starts_with(line.skip(k), loopback_prefix()) || (!contains(line, loopback_prefix())
                    && starts_with(line.skip(k), localhost_prefix()))),
            None => true,
        },
{
    reveal_strlit("http://127.0.0.1:");
    reveal_strlit("http://localhost:");
    let a = loopback_prefix();
    let b = localhost_prefix();
    assert forall|i: int| 0 <= i < a.len() implies !is_url_stop(#[trigger] a[i]) by {}
    assert forall|i: int| 0 <= i < b.len() implies !is_url_stop(#[trigger] b[i]) by {}
    let p = if contains(line, a) { a } else { b };
    if contains(line, p) {
        let i0 = choose|i: int| occurs_at(line, p, i);
        lemma_first_occurrence_exists(line, p, i0);
        let k = first_index(line, p);
        let rest = line.skip(k);
        let u = take_until_stop(rest);
        lemma_take_until_stop_len(rest);
        let e = u.len() as int;
        lemma_take_until_stop(rest, e);
        assert(rest.subrange(0, p.len() as int) =~= line.subrange(k, k + p.len()));
        assert(line.subrange(k, k + e) =~= rest.take(e));
        assert(occurs_at(line, u, k));
        assert(starts_with(rest, p));
        if k + e < line.len() {
            assert(line[k + e] == rest[e]);
        }
        assert(spec_extract_dsh_url(line) == Some(u));
        let w = spec_extract_dsh_url(line)->0;
        assert(occurs_at(line, w, k));
    }
}

/// What is taken up to a stop ends at the end of the text or just before a
/// stop, and holds none.
pub proof fn lemma_take_until_stop_len(s: Seq<char>)
    ensures
        take_until_stop(s).len() <= s.len(),
        forall|j: int| 0 <= j < take_until_stop(s).len() ==> !is_url_stop(#[trigger] s[j]),
        take_until_stop(s).len() == s.len() || is_url_stop(s[take_until_stop(s).len() as int]),
    decreases s.len(),
{
    if s.len() > 0 && !is_url_stop(s[0]) {
        let t = s.drop_first();
        lemma_take_until_stop_len(t);
        assert forall|j: int| 0 <= j < take_until_stop(s).len() implies !is_url_stop(#[trigger] s[j]) by {
            if j > 0 {
                assert(s[j] == t[j - 1]);
            }
        }
        if take_until_stop(t).len() < t.len() {
            assert(s[take_until_stop(s).len() as int] == t[take_until_stop(t).len() as int]);
        }
    }
}

/// A line without dsh's URL changes nothing; it is reported as holding a
/// token that could not be read when `token=` is in it (escape sequences
/// removed), else as a plain line.
pub proof fn law_line_without_url(m: ServiceModel, line: Seq<char>)
    requires
        spec_extract_dsh_url(spec_strip_ansi(line)) is None,
    ensures
        capture_step(m, line) == (m, if contains(spec_strip_ansi(line), "token="@) {
            LineEvent::TokenUnparsed
        } else {
            LineEvent::Plain
        }),
{
}

/// What `where` lists is read for the first line that ends in `.exe` (in
/// any case, white space around it set aside): the line picked is that
/// one, trimmed, and no line before it ends so; when no line does, none is
/// picked.
pub proof fn law_first_exe_is_first(lines: Seq<Seq<char>>)
    ensures
        first_exe(lines) is None <==> forall|i: int|
            0 <= i < lines.len() ==> !ends_with(lower_seq(trim(#[trigger] lines[i])), ".exe"@),
        first_exe(lines) matches Some(x) ==> exists|j: int|
            0 <= j < lines.len() && x == trim(#[trigger] lines[j]) && ends_with(lower_seq(trim(lines[j])), ".exe"@)
                && forall|i: int| 0 <= i < j ==> !ends_with(lower_seq(trim(#[trigger] lines[i])), ".exe"@),
    decreases lines.len(),
{
    if lines.len() > 0 {
        let t = lines.drop_first();
        law_first_exe_is_first(t);
        assert forall|i: int| 0 < i < lines.len() implies #[trigger] lines[i] == t[i - 1] by {}
        if ends_with(lower_seq(trim(lines[0])), ".exe"@) {
            assert(trim(lines[0]) == trim(lines[0]));
        } else if first_exe(t) is Some {
            let j = choose|j: int|
                0 <= j < t.len() && first_exe(t)->0 == trim(#[trigger] t[j]) && ends_with(lower_seq(trim(t[j])), ".exe"@)
                    && forall|i: int| 0 <= i < j ==> !ends_with(lower_seq(trim(#[trigger] t[i])), ".exe"@);
            assert(lines[j + 1] == t[j]);
            assert forall|i: int| 0 <= i < j + 1 implies !ends_with(lower_seq(trim(#[trigger] lines[i])), ".exe"@) by {
                if i > 0 {
                    assert(lines[i] == t[i - 1]);
                }
            }
        } else {
            assert forall|i: int| 0 <= i < lines.len() implies !ends_with(lower_seq(trim(#[trigger] lines[i])), ".exe"@) by {
                if i > 0 {
                    assert(lines[i] == t[i - 1]);
                }
            }
        }
    }
}

} // verus!

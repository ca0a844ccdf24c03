//! MCP servers, kept as entries of dsh's `cordis.patch.yml`.
//!
//! Every MCP server is an instance of dsh's MCP client plugin: a patch entry
//! `{id, name: "@deepseek-ai/dsh-mcp-client", config: {...}}`. The file is a
//! YAML sequence of such patches, among which other plugins' patches may
//! stand; those are kept as they are.
use vstd::prelude::*;
use crate::text::{
    chars_of, concat, eq_exec, is_ascii_alphanumeric, lit, opt_view, result_view, string_from, string_views,
    trim, trim_exec,
};
use crate::yaml::{
    all_tags_named, lemma_all_tags_named, lemma_pair_tags_named, parse_yaml, render_yaml, tags_named, yaml_parse, yaml_render,
    yaml_result_view,
};
use crate::paths::{join_path, path_join, path_with_extension, with_extension};

verus! {

/* ---------------------------------------------------------------------
   YAML values
   --------------------------------------------------------------------- */

/// A YAML value, as plain data.
pub enum YamlValue {
    Null,
    Bool(bool),
    /// A number, by its text.
    Number(String),
    Str(String),
    Sequence(Vec<YamlValue>),
    /// A mapping's entries in order; keys are distinct.
    Mapping(Vec<(YamlValue, YamlValue)>),
    /// A tagged value: the tag and the value.
    Tagged(String, Box<YamlValue>),
}

/// A YAML value as mathematical data.
pub enum YamlView {
    Null,
    Bool(bool),
    Number(Seq<char>),
    Str(Seq<char>),
    Sequence(Seq<YamlView>),
    Mapping(Seq<(YamlView, YamlView)>),
    Tagged(Seq<char>, Box<YamlView>),
}

pub open spec fn yaml_view(v: YamlValue) -> YamlView
    decreases v, 1nat,
{
    match v {
        YamlValue::Null => YamlView::Null,
        YamlValue::Bool(b) => YamlView::Bool(b),
        YamlValue::Number(n) => YamlView::Number(n@),
        YamlValue::Str(s) => YamlView::Str(s@),
        YamlValue::Sequence(items) => YamlView::Sequence(yaml_views(items@)),
        YamlValue::Mapping(entries) => YamlView::Mapping(yaml_pair_views(entries@)),
        YamlValue::Tagged(t, b) => YamlView::Tagged(t@, Box::new(yaml_view(*b))),
    }
}

pub open spec fn yaml_views(s: Seq<YamlValue>) -> Seq<YamlView>
    decreases s, 0nat,
{
    if s.len() == 0 {
        Seq::empty()
    } else {
        seq![yaml_view(s[0])] + yaml_views(s.subrange(1, s.len() as int))
    }
}

pub open spec fn yaml_pair_views(s: Seq<(YamlValue, YamlValue)>) -> Seq<(YamlView, YamlView)>
    decreases s, 0nat,
{
    if s.len() == 0 {
        Seq::empty()
    } else {
        seq![(yaml_view(s[0].0), yaml_view(s[0].1))] + yaml_pair_views(
            s.subrange(1, s.len() as int),
        )
    }
}

pub proof fn lemma_yaml_views(s: Seq<YamlValue>)
    ensures
        yaml_views(s).len() == s.len(),
        forall|i: int| 0 <= i < s.len() ==> #[trigger] yaml_views(s)[i] == yaml_view(s[i]),
    decreases s.len(),
{
    if s.len() > 0 {
        let t = s.subrange(1, s.len() as int);
        lemma_yaml_views(t);
        assert forall|i: int| 0 <= i < s.len() implies #[trigger] yaml_views(s)[i] == yaml_view(
            s[i],
        ) by {
            if i > 0 {
                assert(yaml_views(s)[i] == yaml_views(t)[i - 1]);
            }
        }
    }
}

pub proof fn lemma_yaml_pair_views(s: Seq<(YamlValue, YamlValue)>)
    ensures
        yaml_pair_views(s).len() == s.len(),
        forall|i: int|
            0 <= i < s.len() ==> #[trigger] yaml_pair_views(s)[i] == (
                yaml_view(s[i].0),
                yaml_view(s[i].1),
            ),
    decreases s.len(),
{
    if s.len() > 0 {
        let t = s.subrange(1, s.len() as int);
        lemma_yaml_pair_views(t);
        assert forall|i: int| 0 <= i < s.len() implies #[trigger] yaml_pair_views(s)[i] == (
            yaml_view(s[i].0),
            yaml_view(s[i].1),
        ) by {
            if i > 0 {
                assert(yaml_pair_views(s)[i] == yaml_pair_views(t)[i - 1]);
            }
        }
    }
}

/// The value under any tags.
pub open spec fn untag(v: YamlView) -> YamlView
    decreases v,
{
    match v {
        YamlView::Tagged(_, b) => untag(*b),
        _ => v,
    }
}

/// The value of the first entry whose key is the string `key`.
pub open spec fn lookup(entries: Seq<(YamlView, YamlView)>, key: Seq<char>) -> Option<YamlView>
    decreases entries.len(),
{
    if entries.len() == 0 {
        None
    } else if entries[0].0 == YamlView::Str(key) {
        Some(entries[0].1)
    } else {
        lookup(entries.drop_first(), key)
    }
}

/// What `Value::get(key)` gives: the value under `key` of a mapping (tags
/// looked through), none for anything else.
pub open spec fn yaml_get(v: YamlView, key: Seq<char>) -> Option<YamlView> {
    match untag(v) {
        YamlView::Mapping(m) => lookup(m, key),
        _ => None,
    }
}

/// What `Value::as_str` gives.
pub open spec fn yaml_as_str(v: YamlView) -> Option<Seq<char>> {
    match untag(v) {
        YamlView::Str(s) => Some(s),
        _ => None,
    }
}

/// The string under `key`, if there is one.
pub open spec fn field_str(v: YamlView, key: Seq<char>) -> Option<Seq<char>> {
    match yaml_get(v, key) {
        Some(x) => yaml_as_str(x),
        None => None,
    }
}

/// The strings among `items`, in order.
pub open spec fn str_items(items: Seq<YamlView>) -> Seq<Seq<char>>
    decreases items.len(),
{
    if items.len() == 0 {
        Seq::empty()
    } else {
        let prev = str_items(items.drop_last());
        match yaml_as_str(items.last()) {
            Some(s) => prev.push(s),
            None => prev,
        }
    }
}

/// The entries of `entries` whose key and value are both strings, in order.
pub open spec fn str_pairs(entries: Seq<(YamlView, YamlView)>) -> Seq<(Seq<char>, Seq<char>)>
    decreases entries.len(),
{
    if entries.len() == 0 {
        Seq::empty()
    } else {
        let prev = str_pairs(entries.drop_last());
        match (yaml_as_str(entries.last().0), yaml_as_str(entries.last().1)) {
            (Some(k), Some(x)) => prev.push((k, x)),
            _ => prev,
        }
    }
}

/// The strings of the sequence under `key`, if there is a sequence.
pub open spec fn field_str_arr(v: YamlView, key: Seq<char>) -> Option<Seq<Seq<char>>> {
    match yaml_get(v, key) {
        Some(x) => match untag(x) {
            YamlView::Sequence(items) => Some(str_items(items)),
            _ => None,
        },
        None => None,
    }
}

/// The string entries of the mapping under `key`, if there is a mapping.
pub open spec fn field_str_map(v: YamlView, key: Seq<char>) -> Option<Seq<(Seq<char>, Seq<char>)>> {
    match yaml_get(v, key) {
        Some(x) => match untag(x) {
            YamlView::Mapping(m) => Some(str_pairs(m)),
            _ => None,
        },
        None => None,
    }
}

pub fn untag_exec(v: &YamlValue) -> (r: &YamlValue)
    ensures
        yaml_view(*r) == untag(yaml_view(*v)),
    decreases v,
{
    match v {
        YamlValue::Tagged(_, b) => untag_exec(b),
        _ => v,
    }
}

fn is_key_exec(k: &YamlValue, key: &Vec<char>) -> (r: bool)
    ensures
        r == (yaml_view(*k) == YamlView::Str(key@)),
{
    match k {
        YamlValue::Str(s) => eq_exec(&chars_of(s.as_str()), key),
        _ => false,
    }
}

/// `Value::get(key)`.
pub fn yaml_get_exec<'a>(v: &'a YamlValue, key: &str) -> (r: Option<&'a YamlValue>)
    ensures
        match r {
            Some(x) => yaml_get(yaml_view(*v), key@) == Some(yaml_view(*x)),
            None => yaml_get(yaml_view(*v), key@) is None,
        },
{
    let k = chars_of(key);
    let u = untag_exec(v);
    match u {
        YamlValue::Mapping(entries) => {
            let ghost mv = yaml_pair_views(entries@);
            proof {
                lemma_yaml_pair_views(entries@);
                assert(mv.skip(0) =~= mv);
                assert(yaml_view(*u) == YamlView::Mapping(mv));
                assert(yaml_get(yaml_view(*v), k@) == lookup(mv, k@));
            }
            let mut i: usize = 0;
            while i < entries.len()
                invariant
                    i <= entries.len(),
                    mv == yaml_pair_views(entries@),
                    mv.len() == entries@.len(),
                    forall|j: int|
                        0 <= j < entries@.len() ==> #[trigger] mv[j] == (
                            yaml_view(entries@[j].0),
                            yaml_view(entries@[j].1),
                        ),
                    lookup(mv, k@) == lookup(mv.skip(i as int), k@),
                    yaml_get(yaml_view(*v), k@) == lookup(mv, k@),
                    k@ == key@,
                decreases entries.len() - i,
            {
                assert(mv.skip(i as int)[0] == mv[i as int]);
                if is_key_exec(&entries[i].0, &k) {
                    assert(lookup(mv.skip(i as int), k@) == Some(mv[i as int].1));
                    return Some(&entries[i].1);
                }
                assert(mv.skip(i as int).drop_first() =~= mv.skip(i + 1));
                i += 1;
            }
            None
        },
        _ => None,
    }
}

/// `Value::as_str`, as an owned string.
pub fn yaml_as_str_exec(v: &YamlValue) -> (r: Option<String>)
    ensures
        match r {
            Some(s) => yaml_as_str(yaml_view(*v)) == Some(s@),
            None => yaml_as_str(yaml_view(*v)) is None,
        },
{
    match untag_exec(v) {
        YamlValue::Str(s) => Some(s.clone()),
        _ => None,
    }
}

/// The string under `key`.
pub fn field_str_exec(v: &YamlValue, key: &str) -> (r: Option<String>)
    ensures
        opt_view(r) == field_str(yaml_view(*v), key@),
{
    match yaml_get_exec(v, key) {
        Some(x) => yaml_as_str_exec(x),
        None => None,
    }
}

pub open spec fn pair_views(v: Seq<(String, String)>) -> Seq<(Seq<char>, Seq<char>)> {
    v.map_values(|p: (String, String)| (p.0@, p.1@))
}

/// The strings of the sequence under `key`.
pub fn field_str_arr_exec(v: &YamlValue, key: &str) -> (r: Option<Vec<String>>)
    ensures
        match r {
            Some(a) => field_str_arr(yaml_view(*v), key@) == Some(string_views(a@)),
            None => field_str_arr(yaml_view(*v), key@) is None,
        },
{
    match yaml_get_exec(v, key) {
        None => None,
        Some(x) => match untag_exec(x) {
            YamlValue::Sequence(items) => {
                let ghost iv = yaml_views(items@);
                proof {
                    lemma_yaml_views(items@);
                }
                let mut out: Vec<String> = Vec::new();
                let mut i: usize = 0;
                while i < items.len()
                    invariant
                        i <= items.len(),
                        iv == yaml_views(items@),
                        iv.len() == items@.len(),
                        forall|j: int| 0 <= j < items@.len() ==> #[trigger] iv[j] == yaml_view(items@[j]),
                        string_views(out@) =~= str_items(iv.take(i as int)),
                    decreases items.len() - i,
                {
                    assert(iv.take(i + 1).drop_last() =~= iv.take(i as int));
                    assert(iv.take(i + 1).last() == iv[i as int]);
                    match yaml_as_str_exec(&items[i]) {
                        Some(s) => {
                            let ghost before = out@;
                            out.push(s);
                            assert(string_views(out@) =~= string_views(before).push(
                                out@[before.len() as int]@,
                            ));
                        },
                        None => {},
                    }
                    i += 1;
                }
                assert(iv.take(iv.len() as int) =~= iv);
                Some(out)
            },
            _ => None,
        },
    }
}

/// The string entries of the mapping under `key`.
pub fn field_str_map_exec(v: &YamlValue, key: &str) -> (r: Option<Vec<(String, String)>>)
    ensures
        match r {
            Some(a) => field_str_map(yaml_view(*v), key@) == Some(pair_views(a@)),
            None => field_str_map(yaml_view(*v), key@) is None,
        },
{
    match yaml_get_exec(v, key) {
        None => None,
        Some(x) => match untag_exec(x) {
            YamlValue::Mapping(entries) => {
                let ghost mv = yaml_pair_views(entries@);
                proof {
                    lemma_yaml_pair_views(entries@);
                }
                let mut out: Vec<(String, String)> = Vec::new();
                let mut i: usize = 0;
                while i < entries.len()
                    invariant
                        i <= entries.len(),
                        mv == yaml_pair_views(entries@),
                        mv.len() == entries@.len(),
                        forall|j: int|
                            0 <= j < entries@.len() ==> #[trigger] mv[j] == (
                                yaml_view(entries@[j].0),
                                yaml_view(entries@[j].1),
                            ),
                        pair_views(out@) =~= str_pairs(mv.take(i as int)),
                    decreases entries.len() - i,
                {
                    assert(mv.take(i + 1).drop_last() =~= mv.take(i as int));
                    assert(mv.take(i + 1).last() == mv[i as int]);
                    let k = yaml_as_str_exec(&entries[i].0);
                    let val = yaml_as_str_exec(&entries[i].1);
                    match (k, val) {
                        (Some(k), Some(val)) => {
                            let ghost before = out@;
                            out.push((k, val));
                            assert(pair_views(out@) =~= pair_views(before).push(
                                (out@[before.len() as int].0@, out@[before.len() as int].1@),
                            ));
                        },
                        _ => {},
                    }
                    i += 1;
                }
                assert(mv.take(mv.len() as int) =~= mv);
                Some(out)
            },
            _ => None,
        },
    }
}

/* ---------------------------------------------------------------------
   Server entries
   --------------------------------------------------------------------- */

/// The plugin that connects dsh to MCP servers.
pub open spec fn mcp_plugin() -> Seq<char> {
    "@deepseek-ai/dsh-mcp-client"@
}

/// Where the configuration file stands and whether it exists.
#[derive(Debug, Clone)]
pub struct McpConfigPath {
    pub path: String,
    pub exists: bool,
}

/// An MCP server as listed.
#[derive(Debug)]
pub struct McpServerEntry {
    pub id: String,
    pub server_name: String,
    pub transport: String,
    pub command: Option<String>,
    pub args: Option<Vec<String>>,
    /// Environment variables, in the file's order.
    pub env: Option<Vec<(String, String)>>,
    pub url: Option<String>,
    /// HTTP headers, in the file's order.
    pub headers: Option<Vec<(String, String)>>,
}

/// An MCP server to add; without `id`, it is `mcp-<server_name>`.
#[derive(Debug)]
pub struct McpServerInput {
    pub id: Option<String>,
    pub server_name: String,
    pub transport: String,
    pub command: Option<String>,
    pub args: Option<Vec<String>>,
    /// Environment variables, by distinct names (see [`input_keys_distinct`]).
    pub env: Option<Vec<(String, String)>>,
    pub url: Option<String>,
    /// HTTP headers, by distinct names.
    pub headers: Option<Vec<(String, String)>>,
}

/// No two entries share a name.
pub open spec fn keys_distinct(pairs: Option<Seq<(Seq<char>, Seq<char>)>>) -> bool {
    match pairs {
        Some(p) => names_distinct(p),
        None => true,
    }
}

pub open spec fn names_distinct(p: Seq<(Seq<char>, Seq<char>)>) -> bool {
    forall|i: int, j: int| #![trigger p[i], p[j]] 0 <= i < j < p.len() ==> p[i].0 != p[j].0
}

/// The environment variables and the headers of an input are each named
/// once, as the maps that they stand for are.
pub open spec fn input_keys_distinct(input: McpInputModel) -> bool {
    keys_distinct(input.env) && keys_distinct(input.headers)
}

proof fn lemma_keys_distinct(p: Seq<(Seq<char>, Seq<char>)>, i: int, j: int)
    requires
        names_distinct(p),
        0 <= i < j < p.len(),
    ensures
        p[i].0 != p[j].0,
{
    assert(p[i].0 != p[j].0);
}

fn keys_distinct_exec(pairs: &Option<Vec<(String, String)>>) -> (r: bool)
    ensures
        r == keys_distinct(opt_pairs_view(*pairs)),
{
    match pairs {
        None => true,
        Some(v) => {
            let ghost pv = pair_views(v@);
            assert(opt_pairs_view(*pairs) == Some(pv));
            let mut j: usize = 0;
            while j < v.len()
                invariant
                    j <= v.len(),
                    pv == pair_views(v@),
                    opt_pairs_view(*pairs) == Some(pv),
                    forall|a: int, b: int| #![trigger pv[a], pv[b]] 0 <= a < b < j ==> pv[a].0 != pv[b].0,
                decreases v.len() - j,
            {
                let kj = chars_of(v[j].0.as_str());
                let mut i: usize = 0;
                while i < j
                    invariant
                        i <= j < v.len(),
                        pv == pair_views(v@),
                        opt_pairs_view(*pairs) == Some(pv),
                        kj@ == pv[j as int].0,
                        forall|a: int| #![trigger pv[a]] 0 <= a < i ==> pv[a].0 != pv[j as int].0,
                    decreases j - i,
                {
                    if eq_exec(&chars_of(v[i].0.as_str()), &kj) {
                        assert(pv[i as int].0 == pv[j as int].0);
                        assert(pv.len() == v@.len());
                        assert(0 <= i < j < pv.len());
                        proof {
                            if names_distinct(pv) {
                                lemma_keys_distinct(pv, i as int, j as int);
                            }
                        }
                        return false;
                    }
                    i += 1;
                }
                j += 1;
            }
            true
        },
    }
}

/// Whether the input's environment variables and headers are each named
/// once.
pub fn server_keys_distinct(input: &McpServerInput) -> (r: bool)
    ensures
        r == input_keys_distinct(input_view(*input)),
{
    keys_distinct_exec(&input.env) && keys_distinct_exec(&input.headers)
}

/// A server's fields as plain values.
pub struct McpServerModel {
    pub id: Seq<char>,
    pub server_name: Seq<char>,
    pub transport: Seq<char>,
    pub command: Option<Seq<char>>,
    pub args: Option<Seq<Seq<char>>>,
    pub env: Option<Seq<(Seq<char>, Seq<char>)>>,
    pub url: Option<Seq<char>>,
    pub headers: Option<Seq<(Seq<char>, Seq<char>)>>,
}

/// An input's fields as plain values.
pub struct McpInputModel {
    pub id: Option<Seq<char>>,
    pub server_name: Seq<char>,
    pub transport: Seq<char>,
    pub command: Option<Seq<char>>,
    pub args: Option<Seq<Seq<char>>>,
    pub env: Option<Seq<(Seq<char>, Seq<char>)>>,
    pub url: Option<Seq<char>>,
    pub headers: Option<Seq<(Seq<char>, Seq<char>)>>,
}

pub open spec fn opt_strings_view(o: Option<Vec<String>>) -> Option<Seq<Seq<char>>> {
    match o {
        Some(v) => Some(string_views(v@)),
        None => None,
    }
}

pub open spec fn opt_pairs_view(o: Option<Vec<(String, String)>>) -> Option<Seq<(Seq<char>, Seq<char>)>> {
    match o {
        Some(v) => Some(pair_views(v@)),
        None => None,
    }
}

pub open spec fn entry_view(e: McpServerEntry) -> McpServerModel {
    McpServerModel {
        id: e.id@,
        server_name: e.server_name@,
        transport: e.transport@,
        command: opt_view(e.command),
        args: opt_strings_view(e.args),
        env: opt_pairs_view(e.env),
        url: opt_view(e.url),
        headers: opt_pairs_view(e.headers),
    }
}

pub open spec fn input_view(i: McpServerInput) -> McpInputModel {
    McpInputModel {
        id: opt_view(i.id),
        server_name: i.server_name@,
        transport: i.transport@,
        command: opt_view(i.command),
        args: opt_strings_view(i.args),
        env: opt_pairs_view(i.env),
        url: opt_view(i.url),
        headers: opt_pairs_view(i.headers),
    }
}

pub open spec fn unwrap_or_seq(o: Option<Seq<char>>, d: Seq<char>) -> Seq<char> {
    match o {
        Some(s) => s,
        None => d,
    }
}

/// The server described by the `config` of the patch `id`: a missing
/// `serverName` is empty, a missing `transport` is `stdio`.
pub open spec fn spec_parse_entry(id: Seq<char>, config: YamlView) -> McpServerModel {
    McpServerModel {
        id,
        server_name: unwrap_or_seq(field_str(config, "serverName"@), Seq::empty()),
        transport: unwrap_or_seq(field_str(config, "transport"@), "stdio"@),
        command: field_str(config, "command"@),
        args: field_str_arr(config, "args"@),
        env: field_str_map(config, "env"@),
        url: field_str(config, "url"@),
        headers: field_str_map(config, "headers"@),
    }
}

/// A patch of the MCP client plugin.
pub open spec fn is_mcp_patch(p: YamlView) -> bool {
    field_str(p, "name"@) == Some(mcp_plugin())
}

/// The server of an MCP patch: its `id` (empty if none) and its `config`
/// (null if none).
pub open spec fn server_of_patch(p: YamlView) -> McpServerModel {
    spec_parse_entry(
        unwrap_or_seq(field_str(p, "id"@), Seq::empty()),
        match yaml_get(p, "config"@) {
            Some(c) => c,
            None => YamlView::Null,
        },
    )
}

/// The servers of the MCP patches, in the file's order.
pub open spec fn spec_mcp_servers(patches: Seq<YamlView>) -> Seq<McpServerModel>
    decreases patches.len(),
{
    if patches.len() == 0 {
        Seq::empty()
    } else {
        let prev = spec_mcp_servers(patches.drop_last());
        if is_mcp_patch(patches.last()) {
            prev.push(server_of_patch(patches.last()))
        } else {
            prev
        }
    }
}

/// The server described by `config`.
pub fn parse_mcp_entry(id: &str, config: &YamlValue) -> (r: McpServerEntry)
    ensures
        entry_view(r) == spec_parse_entry(id@, yaml_view(*config)),
{
    let server_name = match field_str_exec(config, "serverName") {
        Some(s) => s,
        None => String::new(),
    };
    let transport = match field_str_exec(config, "transport") {
        Some(s) => s,
        None => lit("stdio"),
    };
    McpServerEntry {
        id: lit(id),
        server_name,
        transport,
        command: field_str_exec(config, "command"),
        args: field_str_arr_exec(config, "args"),
        env: field_str_map_exec(config, "env"),
        url: field_str_exec(config, "url"),
        headers: field_str_map_exec(config, "headers"),
    }
}

pub open spec fn entry_views(v: Seq<McpServerEntry>) -> Seq<McpServerModel> {
    v.map_values(|e: McpServerEntry| entry_view(e))
}

/// The MCP servers among the patches.
pub fn list_mcp_servers(patches: &Vec<YamlValue>) -> (r: Vec<McpServerEntry>)
    ensures
        entry_views(r@) == spec_mcp_servers(yaml_views(patches@)),
{
    let ghost pv = yaml_views(patches@);
    proof {
        lemma_yaml_views(patches@);
    }
    let mut out: Vec<McpServerEntry> = Vec::new();
    let mut i: usize = 0;
    while i < patches.len()
        invariant
            i <= patches.len(),
            pv == yaml_views(patches@),
            pv.len() == patches@.len(),
            forall|j: int| 0 <= j < patches@.len() ==> #[trigger] pv[j] == yaml_view(patches@[j]),
            entry_views(out@) =~= spec_mcp_servers(pv.take(i as int)),
        decreases patches.len() - i,
    {
        assert(pv.take(i + 1).drop_last() =~= pv.take(i as int));
        assert(pv.take(i + 1).last() == pv[i as int]);
        let p = &patches[i];
        let name = field_str_exec(p, "name");
        let is_mcp = match &name {
            Some(n) => eq_exec(&chars_of(n.as_str()), &chars_of("@deepseek-ai/dsh-mcp-client")),
            None => false,
        };
        if is_mcp {
            let id = match field_str_exec(p, "id") {
                Some(s) => s,
                None => String::new(),
            };
            let entry = match yaml_get_exec(p, "config") {
                Some(c) => parse_mcp_entry(id.as_str(), c),
                None => parse_mcp_entry(id.as_str(), &YamlValue::Null),
            };
            let ghost before = out@;
            out.push(entry);
            assert(entry_views(out@) =~= entry_views(before).push(entry_view(out@[before.len() as int])));
        }
        i += 1;
    }
    assert(pv.take(pv.len() as int) =~= pv);
    out
}

/* ---------------------------------------------------------------------
   Building a patch
   --------------------------------------------------------------------- */

/// A valid server name: 1 to 32 characters among `A-Za-z0-9_-`.
pub open spec fn spec_valid_server_name(s: Seq<char>) -> bool {
    &&& 0 < s.len() <= 32
    &&& forall|i: int| 0 <= i < s.len() ==> is_name_char(#[trigger] s[i])
}

pub open spec fn is_name_char(c: char) -> bool {
    is_ascii_alphanumeric(c) || c == '_' || c == '-'
}

/// Whether `s` is a valid server name (its length counted in bytes, as all
/// valid names are ASCII).
pub fn is_valid_server_name(s: &str) -> (r: bool)
    ensures
        r == spec_valid_server_name(s@),
{
    let v = chars_of(s);
    if v.len() == 0 || v.len() > 32 {
        return false;
    }
    let mut i: usize = 0;
    while i < v.len()
        invariant
            i <= v.len(),
            v@ == s@,
            forall|j: int| 0 <= j < i ==> is_name_char(#[trigger] v@[j]),
        decreases v.len() - i,
    {
        let c = v[i];
        if !(('0' <= c && c <= '9') || ('a' <= c && c <= 'z') || ('A' <= c && c <= 'Z') || c == '_'
            || c == '-') {
            assert(!is_name_char(s@[i as int]));
            return false;
        }
        i += 1;
    }
    true
}

pub open spec fn ystr(s: Seq<char>) -> YamlView {
    YamlView::Str(s)
}

pub open spec fn str_seq_yaml(items: Seq<Seq<char>>) -> Seq<YamlView> {
    items.map_values(|s: Seq<char>| ystr(s))
}

pub open spec fn str_map_yaml(pairs: Seq<(Seq<char>, Seq<char>)>) -> Seq<(YamlView, YamlView)> {
    pairs.map_values(|p: (Seq<char>, Seq<char>)| (ystr(p.0), ystr(p.1)))
}

/// The entries of the patch's `config`, in the order they are written:
/// name and transport, then for `stdio` the command, arguments and
/// environment, and for `streamable-http` the URL and headers; optional
/// ones only when given.
pub open spec fn spec_config_entries(input: McpInputModel) -> Seq<(YamlView, YamlView)> {
    let base = seq![
        (ystr("serverName"@), ystr(input.server_name)),
        (ystr("transport"@), ystr(input.transport)),
    ];
    if input.transport == "stdio"@ {
        base + seq![(ystr("command"@), ystr(unwrap_or_seq(input.command, Seq::empty())))] + (
        match input.args {
            Some(a) => seq![(ystr("args"@), YamlView::Sequence(str_seq_yaml(a)))],
            None => Seq::empty(),
        }) + (match input.env {
            Some(e) => seq![(ystr("env"@), YamlView::Mapping(str_map_yaml(e)))],
            None => Seq::empty(),
        })
    } else {
        base + seq![(ystr("url"@), ystr(unwrap_or_seq(input.url, Seq::empty())))] + (
        match input.headers {
            Some(h) => seq![(ystr("headers"@), YamlView::Mapping(str_map_yaml(h)))],
            None => Seq::empty(),
        })
    }
}

/// The patch that adds the server `input` under `id`, or why it cannot be
/// added: an invalid name, an unknown transport, or a missing command
/// (`stdio`) or URL (`streamable-http`).
pub open spec fn spec_build_patch(id: Seq<char>, input: McpInputModel) -> Result<YamlView, Seq<char>> {
    if !spec_valid_server_name(input.server_name) {
        Err("serverName '"@ + input.server_name + "' 不合法（仅 A-Za-z0-9_-，1-32 字符）"@)
    } else if input.transport != "stdio"@ && input.transport != "streamable-http"@ {
        Err("transport '"@ + input.transport + "' 不支持（仅 stdio / streamable-http）"@)
    } else if input.transport == "stdio"@ && input.command is None {
        Err("stdio 模式必须提供 command"@)
    } else if input.transport != "stdio"@ && input.url is None {
        Err("streamable-http 模式必须提供 url"@)
    } else {
        Ok(
            YamlView::Mapping(
                seq![
                    (ystr("id"@), ystr(id)),
                    (ystr("name"@), ystr(mcp_plugin())),
                    (ystr("config"@), YamlView::Mapping(spec_config_entries(input))),
                ],
            ),
        )
    }
}

fn ykey(s: &str) -> (r: YamlValue)
    ensures
        yaml_view(r) == ystr(s@),
{
    YamlValue::Str(lit(s))
}

fn str_seq_exec(items: &Vec<String>) -> (r: Vec<YamlValue>)
    ensures
        yaml_views(r@) == str_seq_yaml(string_views(items@)),
{
    let mut out: Vec<YamlValue> = Vec::new();
    let mut i: usize = 0;
    while i < items.len()
        invariant
            i <= items.len(),
            out@.len() == i,
            forall|j: int| 0 <= j < i ==> #[trigger] yaml_view(out@[j]) == ystr(items@[j]@),
        decreases items.len() - i,
    {
        out.push(YamlValue::Str(items[i].clone()));
        i += 1;
    }
    proof {
        lemma_yaml_views(out@);
        assert(yaml_views(out@) =~= str_seq_yaml(string_views(items@)));
    }
    out
}

fn str_map_exec(pairs: &Vec<(String, String)>) -> (r: Vec<(YamlValue, YamlValue)>)
    ensures
        yaml_pair_views(r@) == str_map_yaml(pair_views(pairs@)),
{
    let mut out: Vec<(YamlValue, YamlValue)> = Vec::new();
    let mut i: usize = 0;
    while i < pairs.len()
        invariant
            i <= pairs.len(),
            out@.len() == i,
            forall|j: int|
                #![trigger out@[j]]
                0 <= j < i ==> yaml_view(out@[j].0) == ystr(pairs@[j].0@) && yaml_view(out@[j].1)
                    == ystr(pairs@[j].1@),
        decreases pairs.len() - i,
    {
        let k = pairs[i].0.clone();
        let v = pairs[i].1.clone();
        let ghost before = out@;
        out.push((YamlValue::Str(k), YamlValue::Str(v)));
        assert(out@[i as int] == (YamlValue::Str(k), YamlValue::Str(v)));
        assert(yaml_view(out@[i as int].0) == ystr(pairs@[i as int].0@));
        assert(yaml_view(out@[i as int].1) == ystr(pairs@[i as int].1@));
        assert(forall|j: int| 0 <= j < i ==> out@[j] == before[j]);
        i += 1;
    }
    proof {
        lemma_yaml_pair_views(out@);
        assert(yaml_pair_views(out@) =~= str_map_yaml(pair_views(pairs@)));
    }
    out
}

fn quoted_error(before: &str, middle: &String, after: &str) -> (r: String)
    ensures
        r@ == before@ + middle@ + after@,
{
    let a = concat(&chars_of(before), &chars_of(middle.as_str()));
    string_from(&concat(&a, &chars_of(after)))
}

/// Builds the patch that adds the server `input` under `id`.
pub fn build_patch_entry(id: &str, input: &McpServerInput) -> (r: Result<YamlValue, String>)
    requires
        input_keys_distinct(input_view(*input)),
    ensures
        match r {
            Ok(v) => spec_build_patch(id@, input_view(*input)) == Ok::<YamlView, Seq<char>>(
                yaml_view(v),
            ),
            Err(e) => spec_build_patch(id@, input_view(*input)) == Err::<YamlView, Seq<char>>(e@),
        },
{
    if !is_valid_server_name(input.server_name.as_str()) {
        return Err(quoted_error("serverName '", &input.server_name, "' 不合法（仅 A-Za-z0-9_-，1-32 字符）"));
    }
    let t = chars_of(input.transport.as_str());
    let stdio = eq_exec(&t, &chars_of("stdio"));
    let http = eq_exec(&t, &chars_of("streamable-http"));
    if !stdio && !http {
        return Err(quoted_error("transport '", &input.transport, "' 不支持（仅 stdio / streamable-http）"));
    }
    let mut config: Vec<(YamlValue, YamlValue)> = Vec::new();
    config.push((ykey("serverName"), YamlValue::Str(input.server_name.clone())));
    config.push((ykey("transport"), YamlValue::Str(input.transport.clone())));
    let ghost base = seq![
        (ystr("serverName"@), ystr(input.server_name@)),
        (ystr("transport"@), ystr(input.transport@)),
    ];
    proof {
        lemma_yaml_pair_views(config@);
        assert(yaml_pair_views(config@) =~= base);
    }
    if stdio {
        let cmd = match &input.command {
            Some(c) => c.clone(),
            None => {
                return Err(lit("stdio 模式必须提供 command"));
            },
        };
        config.push((ykey("command"), YamlValue::Str(cmd)));
        let ghost with_cmd = base + seq![(ystr("command"@), ystr(unwrap_or_seq(input_view(*input).command, Seq::empty())))];
        proof {
            lemma_yaml_pair_views(config@);
            assert(yaml_pair_views(config@) =~= with_cmd);
        }
        let ghost with_args = with_cmd + (match input_view(*input).args {
            Some(a) => seq![(ystr("args"@), YamlView::Sequence(str_seq_yaml(a)))],
            None => Seq::empty(),
        });
        match &input.args {
            Some(args) => {
                config.push((ykey("args"), YamlValue::Sequence(str_seq_exec(args))));
            },
            None => {},
        }
        proof {
            lemma_yaml_pair_views(config@);
            assert(yaml_pair_views(config@) =~= with_args);
        }
        match &input.env {
            Some(env) => {
                config.push((ykey("env"), YamlValue::Mapping(str_map_exec(env))));
            },
            None => {},
        }
        proof {
            lemma_yaml_pair_views(config@);
            assert(yaml_pair_views(config@) =~= spec_config_entries(input_view(*input)));
        }
    } else {
        let url = match &input.url {
            Some(u) => u.clone(),
            None => {
                return Err(lit("streamable-http 模式必须提供 url"));
            },
        };
        config.push((ykey("url"), YamlValue::Str(url)));
        let ghost with_url = base + seq![(ystr("url"@), ystr(unwrap_or_seq(input_view(*input).url, Seq::empty())))];
        proof {
            lemma_yaml_pair_views(config@);
            assert(yaml_pair_views(config@) =~= with_url);
        }
        match &input.headers {
            Some(h) => {
                config.push((ykey("headers"), YamlValue::Mapping(str_map_exec(h))));
            },
            None => {},
        }
        proof {
            lemma_yaml_pair_views(config@);
            assert(yaml_pair_views(config@) =~= spec_config_entries(input_view(*input)));
        }
    }
    let mut entry: Vec<(YamlValue, YamlValue)> = Vec::new();
    entry.push((ykey("id"), YamlValue::Str(lit(id))));
    entry.push((ykey("name"), YamlValue::Str(lit("@deepseek-ai/dsh-mcp-client"))));
    entry.push((ykey("config"), YamlValue::Mapping(config)));
    proof {
        lemma_yaml_pair_views(entry@);
        assert(yaml_pair_views(entry@) =~= seq![
            (ystr("id"@), ystr(id@)),
            (ystr("name"@), ystr(mcp_plugin())),
            (ystr("config"@), YamlView::Mapping(spec_config_entries(input_view(*input)))),
        ]);
    }
    Ok(YamlValue::Mapping(entry))
}

/* ---------------------------------------------------------------------
   The patch file
   --------------------------------------------------------------------- */

/// A file holding only white space has no patches.
pub fn is_blank(content: &str) -> (r: bool)
    ensures
        r == (trim(content@).len() == 0),
{
    trim_exec(&chars_of(content)).len() == 0
}

/// The patches of a parsed file: its sequence, none for a null document;
/// any other root is refused.
pub open spec fn spec_patches_of(root: YamlView) -> Result<Seq<YamlView>, Seq<char>> {
    match root {
        YamlView::Sequence(items) => Ok(items),
        YamlView::Null => Ok(Seq::empty()),
        _ => Err("cordis.patch.yml 根节点必须是数组"@),
    }
}

pub fn patches_of(root: YamlValue) -> (r: Result<Vec<YamlValue>, String>)
    ensures
        match r {
            Ok(v) => spec_patches_of(yaml_view(root)) == Ok::<Seq<YamlView>, Seq<char>>(
                yaml_views(v@),
            ),
            Err(e) => spec_patches_of(yaml_view(root)) == Err::<Seq<YamlView>, Seq<char>>(e@),
        },
{
    match root {
        YamlValue::Sequence(items) => Ok(items),
        YamlValue::Null => {
            let v: Vec<YamlValue> = Vec::new();
            proof {
                lemma_yaml_views(v@);
                assert(yaml_views(v@) =~= Seq::<YamlView>::empty());
            }
            Ok(v)
        },
        _ => Err(lit("cordis.patch.yml 根节点必须是数组")),
    }
}

/// The patches out of what parsing the file gave: the parse error is
/// reported, a parsed document gives its patches.
pub open spec fn spec_patches_from_parse(parsed: Result<YamlView, Seq<char>>) -> Result<
    Seq<YamlView>,
    Seq<char>,
> {
    match parsed {
        Err(e) => Err("解析 YAML 失败: "@ + e),
        Ok(root) => spec_patches_of(root),
    }
}

pub open spec fn patches_view(r: Result<Vec<YamlValue>, String>) -> Result<Seq<YamlView>, Seq<char>> {
    match r {
        Ok(v) => Ok(yaml_views(v@)),
        Err(e) => Err(e@),
    }
}

pub fn patches_from_parse(parsed: Result<YamlValue, String>) -> (r: Result<Vec<YamlValue>, String>)
    ensures
        patches_view(r) == spec_patches_from_parse(yaml_result_view(parsed)),
        (parsed matches Ok(root) ==> tags_named(yaml_view(root))) ==> (r matches Ok(v)
            ==> all_tags_named(yaml_views(v@))),
{
    match parsed {
        Err(e) => Err(string_from(&concat(&chars_of("解析 YAML 失败: "), &chars_of(e.as_str())))),
        Ok(root) => patches_of(root),
    }
}

/// The patches in the text of `cordis.patch.yml`: none for a blank file,
/// else those of the parsed document.
pub open spec fn spec_patches_from_text(content: Seq<char>) -> Result<Seq<YamlView>, Seq<char>> {
    if trim(content).len() == 0 {
        Ok(Seq::empty())
    } else {
        spec_patches_from_parse(yaml_parse(content))
    }
}

pub fn patches_from_text(content: &str) -> (r: Result<Vec<YamlValue>, String>)
    ensures
        patches_view(r) == spec_patches_from_text(content@),
        r matches Ok(v) ==> all_tags_named(yaml_views(v@)),
{
    if is_blank(content) {
        let v: Vec<YamlValue> = Vec::new();
        proof {
            lemma_yaml_views(v@);
        }
        assert(yaml_views(v@) =~= Seq::<YamlView>::empty());
        return Ok(v);
    }
    patches_from_parse(parse_yaml(content))
}

/// The text written for the patches, or why it could not be written. Every
/// tag must have a name (see [`all_tags_named`]); patches read from a file
/// and changed by adding and removing servers always do.
pub open spec fn spec_patches_text(ps: Seq<YamlView>) -> Result<Seq<char>, Seq<char>> {
    match yaml_render(ps) {
        Ok(t) => Ok(t),
        Err(e) => Err("序列化失败: "@ + e),
    }
}

pub fn patches_to_text(patches: &Vec<YamlValue>) -> (r: Result<String, String>)
    requires
        all_tags_named(yaml_views(patches@)),
    ensures
        result_view(r) == spec_patches_text(yaml_views(patches@)),
{
    match render_yaml(patches) {
        Ok(t) => Ok(t),
        Err(e) => Err(string_from(&concat(&chars_of("序列化失败: "), &chars_of(e.as_str())))),
    }
}

/// The id of a server added from `input`: its own, or `mcp-<server_name>`.
pub open spec fn spec_new_id(input: McpInputModel) -> Seq<char> {
    match input.id {
        Some(i) => i,
        None => "mcp-"@ + input.server_name,
    }
}

/// Why `p` stands in the way of adding server `name` under `id`: it has
/// that id, or it is an MCP patch whose server has that name.
pub open spec fn conflict_of(p: YamlView, id: Seq<char>, name: Seq<char>) -> Option<Seq<char>> {
    if field_str(p, "id"@) == Some(id) {
        Some("id '"@ + id + "' 已存在"@)
    } else if is_mcp_patch(p) && (match yaml_get(p, "config"@) {
        Some(cfg) => field_str(cfg, "serverName"@) == Some(name),
        None => false,
    }) {
        Some("serverName '"@ + name + "' 已存在"@)
    } else {
        None
    }
}

/// The first conflict among `ps`, in the file's order.
pub open spec fn first_conflict(ps: Seq<YamlView>, id: Seq<char>, name: Seq<char>) -> Option<
    Seq<char>,
>
    decreases ps.len(),
{
    if ps.len() == 0 {
        None
    } else {
        match conflict_of(ps[0], id, name) {
            Some(e) => Some(e),
            None => first_conflict(ps.drop_first(), id, name),
        }
    }
}

/// The patches after adding `input`, and the new id; or why not: the first
/// conflicting patch, else why the patch cannot be built.
pub open spec fn spec_add(ps: Seq<YamlView>, input: McpInputModel) -> Result<
    (Seq<YamlView>, Seq<char>),
    Seq<char>,
> {
    let id = spec_new_id(input);
    match first_conflict(ps, id, input.server_name) {
        Some(e) => Err(e),
        None => match spec_build_patch(id, input) {
            Err(e) => Err(e),
            Ok(entry) => Ok((ps.push(entry), id)),
        },
    }
}

fn conflict_exec(p: &YamlValue, id: &String, name: &String) -> (r: Option<String>)
    ensures
        opt_view(r) == conflict_of(yaml_view(*p), id@, name@),
{
    match field_str_exec(p, "id") {
        Some(existing) => {
            if eq_exec(&chars_of(existing.as_str()), &chars_of(id.as_str())) {
                return Some(quoted_error("id '", id, "' 已存在"));
            }
        },
        None => {},
    }
    let is_mcp = match field_str_exec(p, "name") {
        Some(n) => eq_exec(&chars_of(n.as_str()), &chars_of("@deepseek-ai/dsh-mcp-client")),
        None => false,
    };
    if is_mcp {
        match yaml_get_exec(p, "config") {
            Some(cfg) => match field_str_exec(cfg, "serverName") {
                Some(sn) => {
                    if eq_exec(&chars_of(sn.as_str()), &chars_of(name.as_str())) {
                        return Some(quoted_error("serverName '", name, "' 已存在"));
                    }
                },
                None => {},
            },
            None => {},
        }
    }
    None
}

/// Adds the server `input` to the patches, refusing an id or a server name
/// that is taken; returns the new id.
pub fn add_mcp_server(patches: &mut Vec<YamlValue>, input: &McpServerInput) -> (r: Result<String, String>)
    requires
        input_keys_distinct(input_view(*input)),
    ensures
        match r {
            Ok(id) => spec_add(yaml_views(old(patches)@), input_view(*input)) == Ok::<
                (Seq<YamlView>, Seq<char>),
                Seq<char>,
            >((yaml_views(final(patches)@), id@)),
            Err(e) => spec_add(yaml_views(old(patches)@), input_view(*input)) == Err::<
                (Seq<YamlView>, Seq<char>),
                Seq<char>,
            >(e@) && final(patches)@ == old(patches)@,
        },
{
    let id = match &input.id {
        Some(i) => i.clone(),
        None => string_from(&concat(&chars_of("mcp-"), &chars_of(input.server_name.as_str()))),
    };
    let ghost pv = yaml_views(patches@);
    proof {
        lemma_yaml_views(patches@);
        assert(pv.skip(0) =~= pv);
    }
    let mut i: usize = 0;
    while i < patches.len()
        invariant
            i <= patches.len(),
            pv == yaml_views(patches@),
            pv.len() == patches@.len(),
            forall|j: int| 0 <= j < patches@.len() ==> #[trigger] pv[j] == yaml_view(patches@[j]),
            first_conflict(pv, id@, input.server_name@) == first_conflict(
                pv.skip(i as int),
                id@,
                input.server_name@,
            ),
            patches@ == old(patches)@,
            id@ == spec_new_id(input_view(*input)),
        decreases patches.len() - i,
    {
        assert(pv.skip(i as int)[0] == pv[i as int]);
        match conflict_exec(&patches[i], &id, &input.server_name) {
            Some(e) => {
                return Err(e);
            },
            None => {},
        }
        assert(pv.skip(i as int).drop_first() =~= pv.skip(i + 1));
        i += 1;
    }
    assert(pv.skip(i as int) =~= Seq::<YamlView>::empty());
    let entry = match build_patch_entry(id.as_str(), input) {
        Ok(e) => e,
        Err(e) => {
            return Err(e);
        },
    };
    patches.push(entry);
    proof {
        lemma_yaml_views(patches@);
        assert(yaml_views(patches@) =~= pv.push(yaml_view(entry)));
    }
    Ok(id)
}

/// The patches without those whose id is `id`, in order.
pub open spec fn without_id(ps: Seq<YamlView>, id: Seq<char>) -> Seq<YamlView>
    decreases ps.len(),
{
    if ps.len() == 0 {
        Seq::empty()
    } else {
        let prev = without_id(ps.drop_last(), id);
        if field_str(ps.last(), "id"@) == Some(id) {
            prev
        } else {
            prev.push(ps.last())
        }
    }
}

/// The patches after removing the server `id`, or an error when no patch
/// has that id.
pub open spec fn spec_remove(ps: Seq<YamlView>, id: Seq<char>) -> Result<Seq<YamlView>, Seq<char>> {
    if without_id(ps, id).len() == ps.len() {
        Err("未找到 id='"@ + id + "' 的 MCP server"@)
    } else {
        Ok(without_id(ps, id))
    }
}

/// Removes every patch with id `id`; an error when there is none.
pub fn remove_mcp_server(patches: Vec<YamlValue>, id: &String) -> (r: Result<Vec<YamlValue>, String>)
    ensures
        match r {
            Ok(v) => spec_remove(yaml_views(patches@), id@) == Ok::<Seq<YamlView>, Seq<char>>(
                yaml_views(v@),
            ),
            Err(e) => spec_remove(yaml_views(patches@), id@) == Err::<Seq<YamlView>, Seq<char>>(
                e@,
            ),
        },
{
    let ghost pv = yaml_views(patches@);
    let ghost orig = patches@;
    proof {
        lemma_yaml_views(patches@);
    }
    let before = patches.len();
    let mut rest = patches;
    let mut kept: Vec<YamlValue> = Vec::new();
    let mut taken: usize = 0;
    let key = chars_of(id.as_str());
    proof {
        lemma_yaml_views(kept@);
        assert(pv.take(0) =~= Seq::<YamlView>::empty());
        assert(rest@ =~= orig.skip(0));
    }
    while rest.len() > 0
        invariant
            taken + rest@.len() == orig.len(),
            before == orig.len(),
            rest@ == orig.skip(taken as int),
            pv == yaml_views(orig),
            pv.len() == orig.len(),
            forall|j: int| 0 <= j < orig.len() ==> #[trigger] pv[j] == yaml_view(orig[j]),
            key@ == id@,
            yaml_views(kept@) == without_id(pv.take(taken as int), id@),
        decreases rest.len(),
    {
        let p = rest.remove(0);
        assert(p == orig[taken as int]);
        assert(pv.take(taken + 1).drop_last() =~= pv.take(taken as int));
        assert(pv.take(taken + 1).last() == pv[taken as int]);
        let matches = match field_str_exec(&p, "id") {
            Some(pid) => eq_exec(&chars_of(pid.as_str()), &key),
            None => false,
        };
        if !matches {
            let ghost kb = kept@;
            kept.push(p);
            proof {
                lemma_yaml_views(kb);
                lemma_yaml_views(kept@);
                assert(yaml_views(kept@) =~= yaml_views(kb).push(yaml_view(p)));
            }
        }
        taken += 1;
        assert(rest@ =~= orig.skip(taken as int));
    }
    assert(pv.take(taken as int) =~= pv);
    proof {
        lemma_yaml_views(kept@);
    }
    if kept.len() == before {
        return Err(quoted_error("未找到 id='", id, "' 的 MCP server"));
    }
    Ok(kept)
}

/* ---------------------------------------------------------------------
   Where the file stands
   --------------------------------------------------------------------- */

/// A directory under `profiles/`, and whether it holds `cordis.patch.yml`.
pub struct ProfileDir {
    pub name: String,
    pub has_patch: bool,
}

pub open spec fn profile_names(ds: Seq<ProfileDir>) -> Seq<Seq<char>> {
    ds.map_values(|d: ProfileDir| d.name@)
}

/// The name of the last directory, in listing order, that holds a patch file.
pub open spec fn last_patched(ds: Seq<ProfileDir>) -> Option<Seq<char>>
    decreases ds.len(),
{
    if ds.len() == 0 {
        None
    } else if ds.last().has_patch {
        Some(ds.last().name@)
    } else {
        last_patched(ds.drop_last())
    }
}

/// Some directory named `web` holds a patch file.
pub open spec fn web_patched(ds: Seq<ProfileDir>) -> bool {
    exists|i: int| 0 <= i < ds.len() && ds[i].name@ == "web"@ && #[trigger] ds[i].has_patch
}

/// The profile that dsh really uses, from the directories under
/// `profiles/` in listing order: `web`, the launcher's own profile, whenever
/// it holds a patch file; else the last other one that holds one; else
/// `web`, then `headless` if present; else the first directory; and `web`
/// when there is none.
pub open spec fn spec_active_profile(ds: Seq<ProfileDir>) -> Seq<char> {
    let names = profile_names(ds);
    let patched = last_patched(ds);
    if web_patched(ds) {
        "web"@
    } else if patched is Some {
        patched->0
    } else if names.contains("web"@) {
        "web"@
    } else if names.contains("headless"@) {
        "headless"@
    } else if ds.len() > 0 {
        ds[0].name@
    } else {
        "web"@
    }
}

fn has_name(ds: &Vec<ProfileDir>, name: &str) -> (r: bool)
    ensures
        r == profile_names(ds@).contains(name@),
{
    let n = chars_of(name);
    let mut i: usize = 0;
    while i < ds.len()
        invariant
            i <= ds.len(),
            n@ == name@,
            forall|j: int| 0 <= j < i ==> ds@[j].name@ != n@,
        decreases ds.len() - i,
    {
        if eq_exec(&chars_of(ds[i].name.as_str()), &n) {
            assert(profile_names(ds@)[i as int] == name@);
            return true;
        }
        i += 1;
    }
    proof {
        if profile_names(ds@).contains(name@) {
            let k = choose|k: int| 0 <= k < profile_names(ds@).len() && profile_names(ds@)[k] == name@;
            assert(ds@[k].name@ == name@);
        }
    }
    false
}

/// Picks the profile whose patch file is read and written.
pub fn active_profile(ds: &Vec<ProfileDir>) -> (r: String)
    ensures
        r@ == spec_active_profile(ds@),
{
    let web_name = chars_of("web");
    let mut patched: Option<String> = None;
    let mut web_has_patch = false;
    let mut i: usize = 0;
    while i < ds.len()
        invariant
            i <= ds.len(),
            web_name@ == "web"@,
            opt_view(patched) == last_patched(ds@.take(i as int)),
            web_has_patch == exists|j: int|
                0 <= j < i && ds@[j].name@ == "web"@ && #[trigger] ds@[j].has_patch,
        decreases ds.len() - i,
    {
        assert(ds@.take(i + 1).drop_last() =~= ds@.take(i as int));
        if ds[i].has_patch {
            patched = Some(ds[i].name.clone());
            if eq_exec(&chars_of(ds[i].name.as_str()), &web_name) {
                web_has_patch = true;
            }
        }
        i += 1;
    }
    assert(ds@.take(ds@.len() as int) =~= ds@);
    if web_has_patch {
        return lit("web");
    }
    match &patched {
        Some(p) => {
            return p.clone();
        },
        None => {},
    }
    if has_name(ds, "web") {
        lit("web")
    } else if has_name(ds, "headless") {
        lit("headless")
    } else if ds.len() > 0 {
        ds[0].name.clone()
    } else {
        lit("web")
    }
}

/// dsh's home: `$DSH_HOME` (trimmed) when set and not blank, else `.dsh` in
/// the user's home directory, else `.dsh`.
pub open spec fn spec_dsh_home(env: Option<Seq<char>>, home: Option<Seq<char>>) -> Seq<char> {
    if env is Some && trim(env->0).len() > 0 {
        trim(env->0)
    } else {
        match home {
            Some(h) => path_join(h, ".dsh"@),
            None => ".dsh"@,
        }
    }
}

pub fn dsh_home(env: Option<String>, home: Option<String>) -> (r: String)
    ensures
        r@ == spec_dsh_home(opt_view(env), opt_view(home)),
{
    match &env {
        Some(v) => {
            let t = trim_exec(&chars_of(v.as_str()));
            if t.len() > 0 {
                return string_from(&t);
            }
        },
        None => {},
    }
    match home {
        Some(h) => join_path(h.as_str(), ".dsh"),
        None => lit(".dsh"),
    }
}

/// `<dsh home>/profiles/<profile>`.
pub fn profile_path(dsh_home: &str, profile: &str) -> (r: String)
    ensures
        r@ == path_join(path_join(dsh_home@, "profiles"@), profile@),
{
    let p = join_path(dsh_home, "profiles");
    join_path(p.as_str(), profile)
}

/// `<dsh home>/profiles/<profile>/cordis.patch.yml`.
pub fn get_mcp_config_path(dsh_home: &str, profile: &str) -> (r: String)
    ensures
        r@ == path_join(path_join(path_join(dsh_home@, "profiles"@), profile@), "cordis.patch.yml"@),
{
    let p = profile_path(dsh_home, profile);
    join_path(p.as_str(), "cordis.patch.yml")
}

/// Where the previous file is kept before a write: `cordis.patch.yml.bak`.
pub fn mcp_backup_path(config_path: &str) -> (r: String)
    ensures
        r@ == path_with_extension(config_path@, "yml.bak"@),
{
    proof {
        reveal_strlit("yml.bak");
    }
    with_extension(config_path, "yml.bak")
}

/* ---------------------------------------------------------------------
   Laws
   --------------------------------------------------------------------- */

pub proof fn lemma_without_id_all(ps: Seq<YamlView>, id: Seq<char>)
    requires
        forall|j: int| 0 <= j < ps.len() ==> field_str(#[trigger] ps[j], "id"@) != Some(id),
    ensures
        without_id(ps, id) == ps,
    decreases ps.len(),
{
    if ps.len() > 0 {
        lemma_without_id_all(ps.drop_last(), id);
        assert(ps.drop_last().push(ps.last()) =~= ps);
    }
}

pub proof fn lemma_no_conflict_ids(ps: Seq<YamlView>, id: Seq<char>, name: Seq<char>)
    requires
        first_conflict(ps, id, name) is None,
    ensures
        forall|j: int| 0 <= j < ps.len() ==> field_str(#[trigger] ps[j], "id"@) != Some(id),
    decreases ps.len(),
{
    if ps.len() > 0 {
        lemma_no_conflict_ids(ps.drop_first(), id, name);
        assert forall|j: int| 0 <= j < ps.len() implies field_str(#[trigger] ps[j], "id"@) != Some(
            id,
        ) by {
            if j > 0 {
                assert(ps[j] == ps.drop_first()[j - 1]);
            }
        }
    }
}

/// Removing a server right after adding it gives back the patches as they
/// were: the new id was taken by no patch before, and only the new patch
/// carries it.
pub proof fn law_add_then_remove(ps: Seq<YamlView>, input: McpInputModel)
    requires
        spec_add(ps, input) is Ok,
    ensures
        spec_remove(spec_add(ps, input)->Ok_0.0, spec_add(ps, input)->Ok_0.1) == Ok::<
            Seq<YamlView>,
            Seq<char>,
        >(ps),
{
    let id = spec_new_id(input);
    let entry = spec_build_patch(id, input)->Ok_0;
    lemma_no_conflict_ids(ps, id, input.server_name);
    lemma_without_id_all(ps, id);
    let added = ps.push(entry);
    assert(added.drop_last() =~= ps);
    reveal_strlit("id");
    reveal_strlit("name");
    reveal_strlit("config");
    assert(lookup(
        seq![
            (ystr("id"@), ystr(id)),
            (ystr("name"@), ystr(mcp_plugin())),
            (ystr("config"@), YamlView::Mapping(spec_config_entries(input))),
        ],
        "id"@,
    ) == Some(ystr(id)));
    assert(without_id(added, id) == ps);
}

/// No patch that is kept carries the removed id.
pub proof fn lemma_without_id_none(ps: Seq<YamlView>, id: Seq<char>)
    ensures
        forall|j: int|
            0 <= j < without_id(ps, id).len() ==> field_str(#[trigger] without_id(ps, id)[j], "id"@)
                != Some(id),
    decreases ps.len(),
{
    if ps.len() > 0 {
        lemma_without_id_none(ps.drop_last(), id);
    }
}

/// After a server is removed, no patch carries its id any more, and the
/// other patches are all kept.
pub proof fn law_remove_leaves_no_such_id(ps: Seq<YamlView>, id: Seq<char>)
    requires
        spec_remove(ps, id) is Ok,
    ensures
        forall|j: int|
            0 <= j < spec_remove(ps, id)->Ok_0.len() ==> field_str(
                #[trigger] spec_remove(ps, id)->Ok_0[j],
                "id"@,
            ) != Some(id),
        spec_remove(ps, id)->Ok_0.len() < ps.len(),
{
    lemma_without_id_none(ps, id);
    lemma_without_id_len(ps, id);
}

pub proof fn lemma_without_id_len(ps: Seq<YamlView>, id: Seq<char>)
    ensures
        without_id(ps, id).len() <= ps.len(),
    decreases ps.len(),
{
    if ps.len() > 0 {
        lemma_without_id_len(ps.drop_last(), id);
    }
}

pub proof fn lemma_strings_named(items: Seq<Seq<char>>, pairs: Seq<(Seq<char>, Seq<char>)>)
    ensures
        tags_named(YamlView::Sequence(str_seq_yaml(items))),
        tags_named(YamlView::Mapping(str_map_yaml(pairs))),
{
    lemma_all_tags_named(str_seq_yaml(items));
    assert forall|i: int| 0 <= i < str_seq_yaml(items).len() implies #[trigger] tags_named(
        str_seq_yaml(items)[i],
    ) by {
        assert(str_seq_yaml(items)[i] == ystr(items[i]));
    }
    let m = str_map_yaml(pairs);
    lemma_pair_tags_named(m);
    assert forall|i: int| #![trigger m[i]] 0 <= i < m.len() implies tags_named(m[i].0) && tags_named(
        m[i].1,
    ) by {
        assert(m[i] == (ystr(pairs[i].0), ystr(pairs[i].1)));
    }
}

/// A patch built for a server holds no tag.
pub proof fn lemma_built_patch_named(id: Seq<char>, input: McpInputModel)
    requires
        spec_build_patch(id, input) is Ok,
    ensures
        tags_named(spec_build_patch(id, input)->Ok_0),
{
    let cfg = spec_config_entries(input);
    lemma_strings_named(
        match input.args {
            Some(a) => a,
            None => Seq::empty(),
        },
        match input.env {
            Some(e) => e,
            None => Seq::empty(),
        },
    );
    lemma_strings_named(
        Seq::empty(),
        match input.headers {
            Some(h) => h,
            None => Seq::empty(),
        },
    );
    lemma_pair_tags_named(cfg);
    assert forall|j: int| #![trigger cfg[j]] 0 <= j < cfg.len() implies tags_named(cfg[j].0) && tags_named(
        cfg[j].1,
    ) by {}
    let top = seq![
        (ystr("id"@), ystr(id)),
        (ystr("name"@), ystr(mcp_plugin())),
        (ystr("config"@), YamlView::Mapping(cfg)),
    ];
    lemma_pair_tags_named(top);
    assert forall|j: int| #![trigger top[j]] 0 <= j < top.len() implies tags_named(top[j].0) && tags_named(
        top[j].1,
    ) by {}
}

/// No patch that is kept has a tag without a name, if none had.
pub proof fn lemma_without_id_named(ps: Seq<YamlView>, id: Seq<char>)
    requires
        all_tags_named(ps),
    ensures
        all_tags_named(without_id(ps, id)),
    decreases ps.len(),
{
    lemma_all_tags_named(ps);
    if ps.len() > 0 {
        let prev = ps.drop_last();
        lemma_all_tags_named(prev);
        assert forall|i: int| 0 <= i < prev.len() implies #[trigger] tags_named(prev[i]) by {
            assert(prev[i] == ps[i]);
        }
        lemma_without_id_named(prev, id);
        let w = without_id(prev, id);
        lemma_all_tags_named(w);
        lemma_all_tags_named(w.push(ps.last()));
        assert(tags_named(ps[ps.len() - 1]));
        assert forall|i: int| 0 <= i < w.push(ps.last()).len() implies #[trigger] tags_named(
            w.push(ps.last())[i],
        ) by {
            if i < w.len() {
                assert(w.push(ps.last())[i] == w[i]);
            }
        }
    }
}

/// Every tag keeps a name across adding and removing servers, so patches
/// read from a file can always be written back: a server's patch holds no
/// tag, and a removal only drops patches.
pub proof fn law_patch_tags_stay_named(ps: Seq<YamlView>, input: McpInputModel, id: Seq<char>)
    requires
        all_tags_named(ps),
    ensures
        spec_add(ps, input) matches Ok((added, _)) ==> all_tags_named(added),
        spec_remove(ps, id) matches Ok(kept) ==> all_tags_named(kept),
{
    lemma_without_id_named(ps, id);
    if spec_add(ps, input) is Ok {
        let nid = spec_new_id(input);
        lemma_built_patch_named(nid, input);
        let e = spec_build_patch(nid, input)->Ok_0;
        lemma_all_tags_named(ps);
        lemma_all_tags_named(ps.push(e));
        assert forall|i: int| 0 <= i < ps.push(e).len() implies #[trigger] tags_named(ps.push(e)[i]) by {
            if i < ps.len() {
                assert(ps.push(e)[i] == ps[i]);
            }
        }
    }
}

pub proof fn lemma_lookup_concat(a: Seq<(YamlView, YamlView)>, b: Seq<(YamlView, YamlView)>, key: Seq<char>)
    ensures
        lookup(a + b, key) == (if lookup(a, key) is Some {
            lookup(a, key)
        } else {
            lookup(b, key)
        }),
    decreases a.len(),
{
    if a.len() == 0 {
        assert(a + b =~= b);
    } else {
        assert((a + b)[0] == a[0]);
        assert((a + b).drop_first() =~= a.drop_first() + b);
        lemma_lookup_concat(a.drop_first(), b, key);
    }
}

pub proof fn lemma_str_items(items: Seq<Seq<char>>)
    ensures
        str_items(str_seq_yaml(items)) == items,
    decreases items.len(),
{
    if items.len() > 0 {
        lemma_str_items(items.drop_last());
        assert(str_seq_yaml(items).drop_last() =~= str_seq_yaml(items.drop_last()));
        assert(items.drop_last().push(items.last()) =~= items);
    }
}

pub proof fn lemma_str_pairs(pairs: Seq<(Seq<char>, Seq<char>)>)
    ensures
        str_pairs(str_map_yaml(pairs)) == pairs,
    decreases pairs.len(),
{
    if pairs.len() > 0 {
        lemma_str_pairs(pairs.drop_last());
        assert(str_map_yaml(pairs).drop_last() =~= str_map_yaml(pairs.drop_last()));
        assert(pairs.drop_last().push(pairs.last()) =~= pairs);
    }
}

/// The server that adding `input` under `id` lists: the fields of its
/// transport as given, the others absent.
pub open spec fn added_server(id: Seq<char>, input: McpInputModel) -> McpServerModel {
    let stdio = input.transport == "stdio"@;
    McpServerModel {
        id,
        server_name: input.server_name,
        transport: input.transport,
        command: if stdio { input.command } else { None },
        args: if stdio { input.args } else { None },
        env: if stdio { input.env } else { None },
        url: if stdio { None } else { input.url },
        headers: if stdio { None } else { input.headers },
    }
}

pub open spec fn opt_entry(k: Seq<char>, v: Option<YamlView>) -> Seq<(YamlView, YamlView)> {
    match v {
        Some(x) => seq![(ystr(k), x)],
        None => Seq::empty(),
    }
}

pub proof fn lemma_lookup_one(k: Seq<char>, v: YamlView, key: Seq<char>)
    ensures
        lookup(seq![(ystr(k), v)], key) == (if k == key { Some(v) } else { None }),
{
    let s = seq![(ystr(k), v)];
    assert(s.drop_first() =~= Seq::<(YamlView, YamlView)>::empty());
    assert(lookup(Seq::<(YamlView, YamlView)>::empty(), key) is None);
    assert(s[0].0 == ystr(k));
}

pub proof fn lemma_lookup_opt(k: Seq<char>, v: Option<YamlView>, key: Seq<char>)
    ensures
        lookup(opt_entry(k, v), key) == (if k == key { v } else { None }),
{
    match v {
        Some(x) => lemma_lookup_one(k, x, key),
        None => {},
    }
}


/// The keys of a server's configuration are distinct.
pub proof fn lemma_config_keys_distinct()
    ensures
        "serverName"@ != "transport"@,
        "serverName"@ != "command"@,
        "serverName"@ != "args"@,
        "serverName"@ != "env"@,
        "serverName"@ != "url"@,
        "serverName"@ != "headers"@,
        "transport"@ != "command"@,
        "transport"@ != "args"@,
        "transport"@ != "env"@,
        "transport"@ != "url"@,
        "transport"@ != "headers"@,
        "command"@ != "args"@,
        "command"@ != "env"@,
        "command"@ != "url"@,
        "command"@ != "headers"@,
        "args"@ != "env"@,
        "args"@ != "url"@,
        "args"@ != "headers"@,
        "env"@ != "url"@,
        "env"@ != "headers"@,
        "url"@ != "headers"@,
{
    reveal_strlit("serverName");
    reveal_strlit("transport");
    reveal_strlit("command");
    reveal_strlit("args");
    reveal_strlit("env");
    reveal_strlit("url");
    reveal_strlit("headers");
    assert("serverName"@.len() == 10);
    assert("transport"@.len() == 9);
    assert("command"@.len() == 7);
    assert("args"@.len() == 4);
    assert("env"@.len() == 3);
    assert("url"@.len() == 3);
    assert("headers"@.len() == 7);
    assert("env"@[0] != "url"@[0]);
    assert("command"@[0] != "headers"@[0]);
}

pub open spec fn opt_args_yaml(input: McpInputModel) -> Option<YamlView> {
    match input.args {
        Some(a) => Some(YamlView::Sequence(str_seq_yaml(a))),
        None => None,
    }
}

pub open spec fn opt_map_yaml(m: Option<Seq<(Seq<char>, Seq<char>)>>) -> Option<YamlView> {
    match m {
        Some(e) => Some(YamlView::Mapping(str_map_yaml(e))),
        None => None,
    }
}

/// What the configuration written for `input` holds under `key`.
pub open spec fn config_value(input: McpInputModel, key: Seq<char>) -> Option<YamlView> {
    let stdio = input.transport == "stdio"@;
    if key == "serverName"@ {
        Some(ystr(input.server_name))
    } else if key == "transport"@ {
        Some(ystr(input.transport))
    } else if stdio && key == "command"@ {
        Some(ystr(unwrap_or_seq(input.command, Seq::empty())))
    } else if stdio && key == "args"@ {
        opt_args_yaml(input)
    } else if stdio && key == "env"@ {
        opt_map_yaml(input.env)
    } else if !stdio && key == "url"@ {
        Some(ystr(unwrap_or_seq(input.url, Seq::empty())))
    } else if !stdio && key == "headers"@ {
        opt_map_yaml(input.headers)
    } else {
        None
    }
}

pub proof fn lemma_config_lookup(input: McpInputModel, key: Seq<char>)
    requires
        key == "serverName"@ || key == "transport"@ || key == "command"@ || key == "args"@ || key
            == "env"@ || key == "url"@ || key == "headers"@,
    ensures
        lookup(spec_config_entries(input), key) == config_value(input, key),
{
    lemma_config_keys_distinct();
    let stdio = input.transport == "stdio"@;
    let a = seq![(ystr("serverName"@), ystr(input.server_name))];
    let b = seq![(ystr("transport"@), ystr(input.transport))];
    if stdio {
        let c = seq![(ystr("command"@), ystr(unwrap_or_seq(input.command, Seq::empty())))];
        let d = opt_entry("args"@, opt_args_yaml(input));
        let e = opt_entry("env"@, opt_map_yaml(input.env));
        assert(spec_config_entries(input) =~= a + (b + (c + (d + e))));
        lemma_lookup_concat(a, b + (c + (d + e)), key);
        lemma_lookup_concat(b, c + (d + e), key);
        lemma_lookup_concat(c, d + e, key);
        lemma_lookup_concat(d, e, key);
        lemma_lookup_one("serverName"@, ystr(input.server_name), key);
        lemma_lookup_one("transport"@, ystr(input.transport), key);
        lemma_lookup_one("command"@, ystr(unwrap_or_seq(input.command, Seq::empty())), key);
        lemma_lookup_opt("args"@, opt_args_yaml(input), key);
        lemma_lookup_opt("env"@, opt_map_yaml(input.env), key);
    } else {
        let c = seq![(ystr("url"@), ystr(unwrap_or_seq(input.url, Seq::empty())))];
        let d = opt_entry("headers"@, opt_map_yaml(input.headers));
        assert(spec_config_entries(input) =~= a + (b + (c + d)));
        lemma_lookup_concat(a, b + (c + d), key);
        lemma_lookup_concat(b, c + d, key);
        lemma_lookup_concat(c, d, key);
        lemma_lookup_one("serverName"@, ystr(input.server_name), key);
        lemma_lookup_one("transport"@, ystr(input.transport), key);
        lemma_lookup_one("url"@, ystr(unwrap_or_seq(input.url, Seq::empty())), key);
        lemma_lookup_opt("headers"@, opt_map_yaml(input.headers), key);
    }
}

/// The server just added is what a listing then shows last, after the
/// servers that were listed before: a read gives back what the write wrote.
pub proof fn law_add_then_list(ps: Seq<YamlView>, input: McpInputModel)
    requires
        spec_add(ps, input) is Ok,
    ensures
        spec_mcp_servers(spec_add(ps, input)->Ok_0.0) == spec_mcp_servers(ps).push(
            added_server(spec_add(ps, input)->Ok_0.1, input),
        ),
{
    let id = spec_new_id(input);
    let cfg = spec_config_entries(input);
    let entry = spec_build_patch(id, input)->Ok_0;
    let added = ps.push(entry);
    assert(added.drop_last() =~= ps);
    reveal_strlit("id");
    reveal_strlit("name");
    reveal_strlit("config");
    reveal_strlit("serverName");
    reveal_strlit("transport");
    reveal_strlit("command");
    reveal_strlit("args");
    reveal_strlit("env");
    reveal_strlit("url");
    reveal_strlit("headers");
    reveal_strlit("stdio");
    let top = seq![
        (ystr("id"@), ystr(id)),
        (ystr("name"@), ystr(mcp_plugin())),
        (ystr("config"@), YamlView::Mapping(cfg)),
    ];
    assert(top =~= seq![(ystr("id"@), ystr(id))] + (seq![(ystr("name"@), ystr(mcp_plugin()))] + seq![(ystr("config"@), YamlView::Mapping(cfg))]));
    let rest = seq![(ystr("name"@), ystr(mcp_plugin()))] + seq![(ystr("config"@), YamlView::Mapping(cfg))];
    let k_id: Seq<char> = "id"@;
    let k_name: Seq<char> = "name"@;
    let k_config: Seq<char> = "config"@;
    lemma_lookup_concat(seq![(ystr(k_id), ystr(id))], rest, k_id);
    lemma_lookup_concat(seq![(ystr(k_id), ystr(id))], rest, k_name);
    lemma_lookup_concat(seq![(ystr(k_id), ystr(id))], rest, k_config);
    lemma_lookup_concat(seq![(ystr(k_name), ystr(mcp_plugin()))], seq![(ystr(k_config), YamlView::Mapping(cfg))], k_name);
    lemma_lookup_concat(seq![(ystr(k_name), ystr(mcp_plugin()))], seq![(ystr(k_config), YamlView::Mapping(cfg))], k_config);
    lemma_lookup_one(k_id, ystr(id), k_id);
    lemma_lookup_one(k_id, ystr(id), k_name);
    lemma_lookup_one(k_id, ystr(id), k_config);
    lemma_lookup_one(k_name, ystr(mcp_plugin()), k_name);
    lemma_lookup_one(k_name, ystr(mcp_plugin()), k_config);
    lemma_lookup_one(k_config, YamlView::Mapping(cfg), k_config);
    assert(k_id.len() == 2);
    assert(k_name.len() == 4);
    assert(k_id != k_name);
    assert(k_id != k_config);
    assert(k_name != k_config);
    assert(entry == YamlView::Mapping(top));
    assert(is_mcp_patch(entry));
    assert(field_str(entry, "id"@) == Some(id));
    assert(yaml_get(entry, "config"@) == Some(YamlView::Mapping(cfg)));
    let c = YamlView::Mapping(cfg);
    lemma_config_keys_distinct();
    lemma_config_lookup(input, "serverName"@);
    lemma_config_lookup(input, "transport"@);
    lemma_config_lookup(input, "command"@);
    lemma_config_lookup(input, "args"@);
    lemma_config_lookup(input, "env"@);
    lemma_config_lookup(input, "url"@);
    lemma_config_lookup(input, "headers"@);
    match input.args {
        Some(a) => lemma_str_items(a),
        None => {},
    }
    match input.env {
        Some(e) => lemma_str_pairs(e),
        None => {},
    }
    match input.headers {
        Some(h) => lemma_str_pairs(h),
        None => {},
    }
    assert(spec_parse_entry(id, c) == added_server(id, input));
}

/// An id already carried by a patch is refused: adding a server under it
/// fails, and nothing is written. So is a server name that an MCP patch
/// already uses.
pub proof fn law_add_refuses_taken(ps: Seq<YamlView>, input: McpInputModel, j: int)
    requires
        0 <= j < ps.len(),
        field_str(ps[j], "id"@) == Some(spec_new_id(input)) || (is_mcp_patch(ps[j]) && (match yaml_get(
            ps[j],
            "config"@,
        ) {
            Some(cfg) => field_str(cfg, "serverName"@) == Some(input.server_name),
            None => false,
        })),
    ensures
        spec_add(ps, input) is Err,
{
    if first_conflict(ps, spec_new_id(input), input.server_name) is None {
        lemma_no_conflict_at(ps, spec_new_id(input), input.server_name, j);
    }
}

proof fn lemma_no_conflict_at(ps: Seq<YamlView>, id: Seq<char>, name: Seq<char>, j: int)
    requires
        first_conflict(ps, id, name) is None,
        0 <= j < ps.len(),
    ensures
        conflict_of(ps[j], id, name) is None,
    decreases ps.len(),
{
    if j > 0 {
        lemma_no_conflict_at(ps.drop_first(), id, name, j - 1);
        assert(ps[j] == ps.drop_first()[j - 1]);
    }
}

/// A server added without an id of its own gets `mcp-<server_name>`; with
/// one, it keeps it.
pub proof fn law_new_id(input: McpInputModel)
    ensures
        input.id is None ==> spec_new_id(input) == "mcp-"@ + input.server_name,
        input.id matches Some(i) ==> spec_new_id(input) == i,
{
}

/// Removing an id that no patch carries fails, with the id in the message,
/// and changes nothing.
pub proof fn law_remove_missing_id(ps: Seq<YamlView>, id: Seq<char>)
    requires
        forall|j: int| 0 <= j < ps.len() ==> field_str(#[trigger] ps[j], "id"@) != Some(id),
    ensures
        spec_remove(ps, id) == Err::<Seq<YamlView>, Seq<char>>(
            "未找到 id='"@ + id + "' 的 MCP server"@,
        ),
{
    lemma_without_id_all(ps, id);
}

proof fn lemma_last_patched(ds: Seq<ProfileDir>)
    ensures
        last_patched(ds) is None <==> forall|k: int| 0 <= k < ds.len() ==> !(#[trigger] ds[k]).has_patch,
        last_patched(ds) matches Some(n) ==> exists|j: int|
            0 <= j < ds.len() && (#[trigger] ds[j]).has_patch && ds[j].name@ == n && forall|k: int|
                j < k < ds.len() ==> !(#[trigger] ds[k]).has_patch,
    decreases ds.len(),
{
    if ds.len() > 0 {
        let d = ds.drop_last();
        lemma_last_patched(d);
        assert forall|k: int| 0 <= k < d.len() implies #[trigger] d[k] == ds[k] by {}
        if ds.last().has_patch {
            let j = ds.len() - 1;
            assert(ds[j].has_patch);
        } else if last_patched(d) is Some {
            let j = choose|j: int|
                0 <= j < d.len() && (#[trigger] d[j]).has_patch && d[j].name@ == last_patched(d)->0
                    && forall|k: int| j < k < d.len() ==> !(#[trigger] d[k]).has_patch;
            assert(ds[j] == d[j]);
            assert forall|k: int| j < k < ds.len() implies !(#[trigger] ds[k]).has_patch by {
                if k < d.len() {
                    assert(ds[k] == d[k]);
                }
            }
        } else {
            assert forall|k: int| 0 <= k < ds.len() implies !(#[trigger] ds[k]).has_patch by {
                if k < d.len() {
                    assert(ds[k] == d[k]);
                }
            }
        }
    }
}

/// The profile in use: `web` whenever a `web` directory holds a patch file;
/// else the last directory (in listing order) that holds one; with no patch
/// file anywhere, `web` if that directory exists, then `headless`, then the
/// first directory, and `web` when there is none.
pub proof fn law_active_profile(ds: Seq<ProfileDir>)
    ensures
        (exists|i: int| 0 <= i < ds.len() && ds[i].name@ == "web"@ && #[trigger] ds[i].has_patch)
            ==> spec_active_profile(ds) == "web"@,
        !(exists|i: int| 0 <= i < ds.len() && ds[i].name@ == "web"@ && #[trigger] ds[i].has_patch)
            && (exists|i: int| 0 <= i < ds.len() && #[trigger] ds[i].has_patch) ==> exists|j: int|
            0 <= j < ds.len() && (#[trigger] ds[j]).has_patch && spec_active_profile(ds) == ds[j].name@
                && forall|k: int| j < k < ds.len() ==> !(#[trigger] ds[k]).has_patch,
        (forall|i: int| 0 <= i < ds.len() ==> !(#[trigger] ds[i]).has_patch) ==> spec_active_profile(ds)
            == if (exists|i: int| 0 <= i < ds.len() && (#[trigger] ds[i]).name@ == "web"@) {
            "web"@
        } else if (exists|i: int| 0 <= i < ds.len() && (#[trigger] ds[i]).name@ == "headless"@) {
            "headless"@
        } else if ds.len() > 0 {
            ds[0].name@
        } else {
            "web"@
        },
{
    lemma_last_patched(ds);
    let names = profile_names(ds);
    assert forall|i: int| 0 <= i < ds.len() implies #[trigger] names[i] == ds[i].name@ by {}
    if exists|i: int| 0 <= i < ds.len() && (#[trigger] ds[i]).name@ == "web"@ {
        let i = choose|i: int| 0 <= i < ds.len() && (#[trigger] ds[i]).name@ == "web"@;
        assert(names[i] == "web"@);
    }
    if exists|i: int| 0 <= i < ds.len() && (#[trigger] ds[i]).name@ == "headless"@ {
        let i = choose|i: int| 0 <= i < ds.len() && (#[trigger] ds[i]).name@ == "headless"@;
        assert(names[i] == "headless"@);
    }
    if exists|i: int| 0 <= i < ds.len() && #[trigger] ds[i].has_patch {
        let i = choose|i: int| 0 <= i < ds.len() && #[trigger] ds[i].has_patch;
        assert(ds[i].has_patch);
    }
}

} // verus!

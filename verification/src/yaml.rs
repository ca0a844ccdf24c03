//! Parsing and rendering YAML text with `serde_yaml`. The library works on
//! its own [`YamlValue`]; what `serde_yaml` makes of a text, and the text it
//! writes for values, are named here so that contracts can speak of them.
use vstd::prelude::*;
use crate::mcp::{lemma_yaml_pair_views, lemma_yaml_views, yaml_pair_views, yaml_view, yaml_views, YamlValue, YamlView};
use serde_yaml::value::{Tag, TaggedValue};
use serde_yaml::Value;

verus! {

#[verifier::external_type_specification]
#[verifier::external_body]
pub struct ExYamlDocument(Value);

/// What `serde_yaml::from_str` makes of `text`, as the library's values:
/// the document, or the parse error's message.
pub uninterp spec fn yaml_parse(text: Seq<char>) -> Result<YamlView, Seq<char>>;

/// What `serde_yaml::to_string` writes for the sequence `items`, or the
/// error's message.
pub uninterp spec fn yaml_render(items: Seq<YamlView>) -> Result<Seq<char>, Seq<char>>;

pub open spec fn yaml_result_view(r: Result<YamlValue, String>) -> Result<YamlView, Seq<char>> {
    match r {
        Ok(v) => Ok(yaml_view(v)),
        Err(e) => Err(e@),
    }
}

/// Every tag in `v` has a name: `serde_yaml` cannot write a tag without one.
pub open spec fn tags_named(v: YamlView) -> bool
    decreases v, 1nat,
{
    match v {
        YamlView::Sequence(items) => all_tags_named(items),
        YamlView::Mapping(entries) => pair_tags_named(entries),
        YamlView::Tagged(t, b) => t.len() > 0 && tags_named(*b),
        _ => true,
    }
}

pub open spec fn all_tags_named(s: Seq<YamlView>) -> bool
    decreases s, 0nat,
{
    if s.len() == 0 {
        true
    } else {
        tags_named(s[0]) && all_tags_named(s.subrange(1, s.len() as int))
    }
}

pub open spec fn pair_tags_named(s: Seq<(YamlView, YamlView)>) -> bool
    decreases s, 0nat,
{
    if s.len() == 0 {
        true
    } else {
        tags_named(s[0].0) && tags_named(s[0].1) && pair_tags_named(s.subrange(1, s.len() as int))
    }
}

pub proof fn lemma_all_tags_named(s: Seq<YamlView>)
    ensures
        all_tags_named(s) == forall|i: int| 0 <= i < s.len() ==> #[trigger] tags_named(s[i]),
    decreases s.len(),
{
    if s.len() > 0 {
        let t = s.subrange(1, s.len() as int);
        lemma_all_tags_named(t);
        assert(all_tags_named(s) == (tags_named(s[0]) && all_tags_named(t)));
        if forall|i: int| 0 <= i < s.len() ==> #[trigger] tags_named(s[i]) {
            assert(tags_named(s[0]));
            assert forall|i: int| 0 <= i < t.len() implies #[trigger] tags_named(t[i]) by {
                assert(t[i] == s[i + 1]);
                assert(tags_named(s[i + 1]));
            }
        }
        if tags_named(s[0]) && all_tags_named(t) {
            assert forall|i: int| 0 <= i < s.len() implies #[trigger] tags_named(s[i]) by {
                if i > 0 {
                    assert(s[i] == t[i - 1]);
                    assert(tags_named(t[i - 1]));
                }
            }
        }
    }
}

pub proof fn lemma_pair_tags_named(s: Seq<(YamlView, YamlView)>)
    ensures
        pair_tags_named(s) == forall|i: int|
            #![trigger s[i]]
            0 <= i < s.len() ==> tags_named(s[i].0) && tags_named(s[i].1),
    decreases s.len(),
{
    if s.len() > 0 {
        let t = s.subrange(1, s.len() as int);
        lemma_pair_tags_named(t);
        assert(pair_tags_named(s) == (tags_named(s[0].0) && tags_named(s[0].1) && pair_tags_named(t)));
        if forall|i: int| #![trigger s[i]] 0 <= i < s.len() ==> tags_named(s[i].0) && tags_named(s[i].1) {
            assert(tags_named(s[0].0) && tags_named(s[0].1));
            assert forall|i: int| #![trigger t[i]] 0 <= i < t.len() implies tags_named(t[i].0) && tags_named(t[i].1) by {
                assert(t[i] == s[i + 1]);
                assert(tags_named(s[i + 1].0) && tags_named(s[i + 1].1));
            }
        }
        if tags_named(s[0].0) && tags_named(s[0].1) && pair_tags_named(t) {
            assert(forall|j: int| #![trigger t[j]] 0 <= j < t.len() ==> tags_named(t[j].0) && tags_named(t[j].1));
            assert forall|i: int| #![trigger s[i]] 0 <= i < s.len() implies tags_named(s[i].0) && tags_named(s[i].1) by {
                if i > 0 {
                    assert(s[i] == t[i - 1]);
                    assert(tags_named(t[i - 1].0) && tags_named(t[i - 1].1));
                }
            }
        }
    }
}

/// Whether every tag in `v` has a name.
pub fn tags_named_exec(v: &YamlValue) -> (r: bool)
    ensures
        r == tags_named(yaml_view(*v)),
    decreases v, 1nat,
{
    match v {
        YamlValue::Tagged(t, b) => crate::text::chars_of(t.as_str()).len() > 0 && tags_named_exec(b),
        YamlValue::Sequence(items) => items_named_exec(items),
        YamlValue::Mapping(entries) => entries_named_exec(entries),
        _ => true,
    }
}

fn items_named_exec(items: &Vec<YamlValue>) -> (r: bool)
    ensures
        r == all_tags_named(yaml_views(items@)),
    decreases items, 0nat,
{
    proof {
        lemma_yaml_views(items@);
        lemma_all_tags_named(yaml_views(items@));
    }
    let mut i: usize = 0;
    while i < items.len()
        invariant
            i <= items.len(),
            yaml_views(items@).len() == items@.len(),
            forall|j: int| 0 <= j < items@.len() ==> #[trigger] yaml_views(items@)[j] == yaml_view(items@[j]),
            forall|j: int| 0 <= j < i ==> tags_named(#[trigger] yaml_view(items@[j])),
            all_tags_named(yaml_views(items@)) == forall|j: int|
                0 <= j < yaml_views(items@).len() ==> #[trigger] tags_named(yaml_views(items@)[j]),
        decreases items.len() - i,
    {
        assert(decreases_to!(items => items@));
        assert(decreases_to!(items@ => items@[i as int]));
        if !tags_named_exec(&items[i]) {
            assert(!tags_named(yaml_views(items@)[i as int]));
            return false;
        }
        i += 1;
    }
    assert forall|j: int| 0 <= j < yaml_views(items@).len() implies #[trigger] tags_named(yaml_views(items@)[j]) by {
        assert(tags_named(yaml_view(items@[j])));
    }
    true
}

fn entries_named_exec(entries: &Vec<(YamlValue, YamlValue)>) -> (r: bool)
    ensures
        r == pair_tags_named(yaml_pair_views(entries@)),
    decreases entries, 0nat,
{
    proof {
        lemma_yaml_pair_views(entries@);
        lemma_pair_tags_named(yaml_pair_views(entries@));
    }
    let mut i: usize = 0;
    while i < entries.len()
        invariant
            i <= entries.len(),
            yaml_pair_views(entries@).len() == entries@.len(),
            forall|j: int| 0 <= j < entries@.len() ==> #[trigger] yaml_pair_views(entries@)[j] == (yaml_view(entries@[j].0), yaml_view(entries@[j].1)),
            forall|j: int| 0 <= j < i ==> tags_named(#[trigger] yaml_view(entries@[j].0)) && tags_named(yaml_view(entries@[j].1)),
        decreases entries.len() - i,
    {
        assert(decreases_to!(entries => entries@));
        assert(decreases_to!(entries@ => entries@[i as int]));
        assert(decreases_to!(entries@[i as int] => entries@[i as int].0));
        assert(decreases_to!(entries@[i as int] => entries@[i as int].1));
        let ok = tags_named_exec(&entries[i].0) && tags_named_exec(&entries[i].1);
        if !ok {
            proof {
                lemma_pair_tags_named(yaml_pair_views(entries@));
                let p = yaml_pair_views(entries@)[i as int];
                assert(p == (yaml_view(entries@[i as int].0), yaml_view(entries@[i as int].1)));
                assert(!(tags_named(p.0) && tags_named(p.1)));
                if pair_tags_named(yaml_pair_views(entries@)) {
                    assert(tags_named(yaml_pair_views(entries@)[i as int].0) && tags_named(
                        yaml_pair_views(entries@)[i as int].1,
                    ));
                }
            }
            return false;
        }
        i += 1;
    }
    proof {
        lemma_pair_tags_named(yaml_pair_views(entries@));
    }
    assert forall|j: int| #![trigger yaml_pair_views(entries@)[j]] 0 <= j < yaml_pair_views(entries@).len() implies tags_named(yaml_pair_views(entries@)[j].0) && tags_named(yaml_pair_views(entries@)[j].1) by {
        assert(yaml_pair_views(entries@)[j] == (yaml_view(entries@[j].0), yaml_view(entries@[j].1)));
    }
    true
}

/// Whether every tag in the patches has a name, as writing them needs.
pub fn patches_tags_named(ps: &Vec<YamlValue>) -> (r: bool)
    ensures
        r == all_tags_named(yaml_views(ps@)),
{
    proof {
        lemma_yaml_views(ps@);
        lemma_all_tags_named(yaml_views(ps@));
    }
    let mut i: usize = 0;
    while i < ps.len()
        invariant
            i <= ps.len(),
            yaml_views(ps@).len() == ps@.len(),
            forall|j: int| 0 <= j < ps@.len() ==> #[trigger] yaml_views(ps@)[j] == yaml_view(ps@[j]),
            forall|j: int| 0 <= j < i ==> tags_named(#[trigger] yaml_view(ps@[j])),
            all_tags_named(yaml_views(ps@)) == forall|j: int|
                0 <= j < yaml_views(ps@).len() ==> #[trigger] tags_named(yaml_views(ps@)[j]),
        decreases ps.len() - i,
    {
        if !tags_named_exec(&ps[i]) {
            assert(!tags_named(yaml_views(ps@)[i as int]));
            return false;
        }
        i += 1;
    }
    assert forall|j: int| 0 <= j < ps@.len() implies #[trigger] tags_named(yaml_views(ps@)[j]) by {
        assert(tags_named(yaml_view(ps@[j])));
    }
    true
}

/// `serde_yaml::Value` as the library's value, variant by variant (a
/// number by its text, a tag by its text with `!`).
#[verifier::external_body]
fn from_document(v: &Value) -> YamlValue {
    match v {
        Value::Null => YamlValue::Null,
        Value::Bool(b) => YamlValue::Bool(*b),
        Value::Number(n) => YamlValue::Number(n.to_string()),
        Value::String(s) => YamlValue::Str(s.clone()),
        Value::Sequence(items) => YamlValue::Sequence(items.iter().map(from_document).collect()),
        Value::Mapping(m) => YamlValue::Mapping(m.iter().map(|(k, x)| (from_document(k), from_document(x))).collect()),
        Value::Tagged(t) => YamlValue::Tagged(t.tag.to_string(), Box::new(from_document(&t.value))),
    }
}

/// The library's value as `serde_yaml::Value`, variant by variant (a number
/// whose text `serde_yaml::Number` does not read stays a string).
#[verifier::external_body]
fn to_document(v: &YamlValue) -> Value {
    match v {
        YamlValue::Null => Value::Null,
        YamlValue::Bool(b) => Value::Bool(*b),
        YamlValue::Number(n) => n.parse().map(Value::Number).unwrap_or_else(|_| Value::String(n.clone())),
        YamlValue::Str(s) => Value::String(s.clone()),
        YamlValue::Sequence(items) => Value::Sequence(items.iter().map(to_document).collect()),
        YamlValue::Mapping(es) => Value::Mapping(es.iter().map(|(k, x)| (to_document(k), to_document(x))).collect()),
        YamlValue::Tagged(t, x) => Value::Tagged(Box::new(TaggedValue { tag: Tag::new(t.clone()), value: to_document(x) })),
    }
}

/// Calls `serde_yaml::from_str` for a `serde_yaml::Value`; the outcome, as
/// the library's value or the error's message, is named `yaml_parse`. A tag
/// read is written with its leading `!` (`Tag`'s `Display`), so it is never
/// empty.
#[verifier::external_body]
pub(crate) fn parse_yaml(text: &str) -> (r: Result<YamlValue, String>)
    ensures
        yaml_result_view(r) == yaml_parse(text@),
        r matches Ok(v) ==> tags_named(yaml_view(v)),
{
    match serde_yaml::from_str::<Value>(text) {
        Ok(v) => Ok(from_document(&v)),
        Err(e) => Err(e.to_string()),
    }
}

/// Calls `serde_yaml::to_string` on the sequence of `items`; the outcome,
/// the text or the error's message, is named `yaml_render`. `Tag::new`
/// panics on an empty tag, so every tag must have a name.
#[verifier::external_body]
pub(crate) fn render_yaml(items: &Vec<YamlValue>) -> (r: Result<String, String>)
    requires
        all_tags_named(yaml_views(items@)),
    ensures
        crate::text::result_view(r) == yaml_render(yaml_views(items@)),
{
    let values: Vec<Value> = items.iter().map(to_document).collect();
    serde_yaml::to_string(&values).map_err(|e| e.to_string())
}

} // verus!

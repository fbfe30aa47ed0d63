//! YAML values.

use serde_yaml::Value;
use vstd::prelude::*;

verus! {

/// `serde_yaml::Value`, carried as it is.
#[verifier::external_type_specification]
#[verifier::external_body]
pub struct ExValue(serde_yaml::Value);

/// A YAML value.
#[derive(Debug)]
pub enum Yaml {
    Null,
    Bool(bool),
    /// A number, as it is written.
    Number(String),
    Text(String),
    Sequence(Vec<Yaml>),
    Mapping(Vec<YamlEntry>),
    /// A tag and the value behind it.
    Tagged(String, Box<Yaml>),
}

/// One entry of a YAML mapping.
#[derive(Debug, Clone)]
pub struct YamlEntry {
    pub key: Yaml,
    pub value: Yaml,
}

/// A [`Yaml`] in terms of characters.
pub enum YamlView {
    Null,
    Bool(bool),
    Number(Seq<char>),
    Text(Seq<char>),
    Sequence(Seq<YamlView>),
    Mapping(Seq<(YamlView, YamlView)>),
    Tagged(Seq<char>, Box<YamlView>),
}

/// What a value is in terms of characters.
pub open spec fn yaml_view(yaml: Yaml) -> YamlView
    decreases yaml,
{
    match yaml {
        Yaml::Null => YamlView::Null,
        Yaml::Bool(b) => YamlView::Bool(b),
        Yaml::Number(s) => YamlView::Number(s@),
        Yaml::Text(s) => YamlView::Text(s@),
        Yaml::Sequence(items) => YamlView::Sequence(
            Seq::new(
                items@.len(),
                |i: int|
                    if 0 <= i < items@.len() {
                        yaml_view(items@[i])
                    } else {
                        YamlView::Null
                    },
            ),
        ),
        Yaml::Mapping(entries) => YamlView::Mapping(
            Seq::new(
                entries@.len(),
                |i: int|
                    if 0 <= i < entries@.len() {
                        (yaml_view(entries@[i].key), yaml_view(entries@[i].value))
                    } else {
                        (YamlView::Null, YamlView::Null)
                    },
            ),
        ),
        Yaml::Tagged(tag, value) => YamlView::Tagged(tag@, Box::new(yaml_view(*value))),
    }
}

impl View for Yaml {
    type V = YamlView;

    open spec fn view(&self) -> YamlView {
        yaml_view(*self)
    }
}

fn copy_of(yaml: &Yaml) -> (res: Yaml)
    ensures
        res@ == yaml@,
    decreases yaml,
{
    match yaml {
        Yaml::Null => Yaml::Null,
        Yaml::Bool(b) => Yaml::Bool(*b),
        Yaml::Number(s) => Yaml::Number(s.clone()),
        Yaml::Text(s) => Yaml::Text(s.clone()),
        Yaml::Sequence(items) => {
            let mut copies: Vec<Yaml> = Vec::new();
            let mut i: usize = 0;
            while i < items.len()
                invariant
                    yaml == Yaml::Sequence(*items),
                    0 <= i <= items@.len(),
                    copies@.len() == i,
                    forall|j: int| 0 <= j < i ==> (#[trigger] copies@[j])@ == items@[j]@,
                decreases items@.len() - i,
            {
                assert(decreases_to!(*yaml => yaml->Sequence_0));
                assert(decreases_to!(*items => items@));
                assert(decreases_to!(items@ => items@[i as int]));
                copies.push(copy_of(&items[i]));
                i += 1;
            }
            let res = Yaml::Sequence(copies);
            assert(res@->Sequence_0 =~= yaml@->Sequence_0);
            res
        },
        Yaml::Mapping(entries) => {
            let mut copies: Vec<YamlEntry> = Vec::new();
            let mut i: usize = 0;
            while i < entries.len()
                invariant
                    yaml == Yaml::Mapping(*entries),
                    0 <= i <= entries@.len(),
                    copies@.len() == i,
                    forall|j: int|
                        0 <= j < i ==> (#[trigger] copies@[j]).key@ == entries@[j].key@
                            && copies@[j].value@ == entries@[j].value@,
                decreases entries@.len() - i,
            {
                let entry = &entries[i];
                assert(decreases_to!(*yaml => yaml->Mapping_0));
                assert(decreases_to!(*entries => entries@));
                assert(decreases_to!(entries@ => entries@[i as int]));
                assert(decreases_to!(*entry => entry.key));
                assert(decreases_to!(*entry => entry.value));
                copies.push(YamlEntry { key: copy_of(&entry.key), value: copy_of(&entry.value) });
                i += 1;
            }
            let res = Yaml::Mapping(copies);
            assert(res@->Mapping_0 =~= yaml@->Mapping_0);
            res
        },
        Yaml::Tagged(tag, value) => Yaml::Tagged(tag.clone(), Box::new(copy_of(value))),
    }
}

impl Clone for Yaml {
    fn clone(&self) -> (res: Self)
        ensures
            res@ == self@,
    {
        copy_of(self)
    }
}

/// Whether a tag stands anywhere in a value.
pub open spec fn has_tag(yaml: YamlView) -> bool
    decreases yaml,
{
    match yaml {
        YamlView::Sequence(items) => exists|i: int|
            0 <= i < items.len() && has_tag(#[trigger] items[i]),
        YamlView::Mapping(entries) => exists|i: int|
            0 <= i < entries.len() && (has_tag((#[trigger] entries[i]).0) || has_tag(entries[i].1)),
        YamlView::Tagged(..) => true,
        _ => false,
    }
}

proof fn lemma_tag_in_sequence(items: Seq<YamlView>, i: int)
    requires
        0 <= i < items.len(),
        has_tag(items[i]),
    ensures
        has_tag(YamlView::Sequence(items)),
{
    let whole = YamlView::Sequence(items);
    assert(whole->Sequence_0 == items);
    assert(has_tag(whole) == exists|j: int| 0 <= j < items.len() && has_tag(#[trigger] items[j]));
}

proof fn lemma_tag_in_mapping(entries: Seq<(YamlView, YamlView)>, i: int)
    requires
        0 <= i < entries.len(),
        has_tag(entries[i].0) || has_tag(entries[i].1),
    ensures
        has_tag(YamlView::Mapping(entries)),
{
    let whole = YamlView::Mapping(entries);
    assert(whole->Mapping_0 == entries);
    assert(has_tag(whole) == exists|j: int|
        0 <= j < entries.len() && (has_tag((#[trigger] entries[j]).0) || has_tag(entries[j].1)));
}

/// Finds whether a tag stands anywhere in a value.
pub fn holds_tag(yaml: &Yaml) -> (res: bool)
    ensures
        res == has_tag(yaml@),
    decreases yaml,
{
    match yaml {
        Yaml::Sequence(items) => {
            let ghost views = yaml@->Sequence_0;
            let mut i: usize = 0;
            while i < items.len()
                invariant
                    yaml == Yaml::Sequence(*items),
                    yaml@ == YamlView::Sequence(views),
                    0 <= i <= items@.len(),
                    views.len() == items@.len(),
                    forall|j: int| 0 <= j < i ==> !has_tag(#[trigger] views[j]),
                decreases items@.len() - i,
            {
                assert(views[i as int] == items@[i as int]@);
                if holds_tag(&items[i]) {
                    proof {
                        lemma_tag_in_sequence(views, i as int);
                    }
                    return true;
                }
                i += 1;
            }
            false
        },
        Yaml::Mapping(entries) => {
            let ghost views = yaml@->Mapping_0;
            let mut i: usize = 0;
            while i < entries.len()
                invariant
                    yaml == Yaml::Mapping(*entries),
                    yaml@ == YamlView::Mapping(views),
                    0 <= i <= entries@.len(),
                    views.len() == entries@.len(),
                    forall|j: int|
                        0 <= j < i ==> !has_tag((#[trigger] views[j]).0) && !has_tag(views[j].1),
                decreases entries@.len() - i,
            {
                assert(views[i as int] == (entries@[i as int].key@, entries@[i as int].value@));
                if holds_tag(&entries[i].key) || holds_tag(&entries[i].value) {
                    proof {
                        lemma_tag_in_mapping(views, i as int);
                    }
                    return true;
                }
                i += 1;
            }
            false
        },
        Yaml::Tagged(_, _) => true,
        _ => false,
    }
}

/// A `serde_yaml::Value` as a tree of plain values, variant by variant. Nothing
/// is promised of the result on its own: what reads YAML promises it as part of
/// what it hands out.
#[verifier::external_body]
pub(crate) fn tree_of(value: Value) -> Yaml {
    match value {
        Value::Null => Yaml::Null,
        Value::Bool(b) => Yaml::Bool(b),
        Value::Number(n) => Yaml::Number(n.to_string()),
        Value::String(s) => Yaml::Text(s),
        Value::Sequence(items) => Yaml::Sequence(items.into_iter().map(tree_of).collect()),
        Value::Mapping(entries) => Yaml::Mapping(
            entries.into_iter().map(
                |(key, value)| YamlEntry { key: tree_of(key), value: tree_of(value) },
            ).collect(),
        ),
        Value::Tagged(it) => Yaml::Tagged(it.tag.to_string(), Box::new(tree_of(it.value))),
    }
}

}

//! The configuration of a model, read from YAML.

use std::collections::HashMap;

use serde_yaml::{from_value, Mapping, Value};
use vstd::prelude::*;
use vstd::string::*;

use crate::parser;
use crate::parser::{ExtraEntry, ModelConfig};
use crate::text;
use crate::yaml;
use crate::yaml::{Yaml, YamlView};

verus! {

/// One entry of a YAML mapping: its key read as a string, its value, and the
/// value without its tag read as a string, where it is not null. Where that
/// cannot be done, the message says why.
#[derive(Debug)]
pub struct ConfigEntry {
    pub key: Result<String, String>,
    pub value: Yaml,
    pub text: Result<Option<String>, String>,
}

/// What stands under a key at the top of a YAML text.
#[derive(Debug)]
pub enum ConfigBlock {
    /// The text is no YAML mapping with string keys.
    Malformed(String),
    /// The key is not there.
    Absent,
    /// What stands under the key is no mapping.
    Unreadable(String),
    /// A mapping. An empty value counts as one without entries.
    Entries(Vec<ConfigEntry>),
}

/// A [`ConfigEntry`] in terms of characters.
pub struct EntryView {
    pub key: Result<Seq<char>, Seq<char>>,
    pub value: YamlView,
    pub text: Result<Option<Seq<char>>, Seq<char>>,
}

/// A [`ConfigBlock`] in terms of characters.
pub enum BlockView {
    Malformed(Seq<char>),
    Absent,
    Unreadable(Seq<char>),
    Entries(Seq<EntryView>),
}

/// A [`ModelConfig`] in terms of characters.
pub struct ConfigView {
    pub materialized: Seq<char>,
    pub schema: Option<Seq<char>>,
    pub extra: Seq<(Seq<char>, YamlView)>,
}

/// The characters of what was read as a string.
pub open spec fn read_view(read: Result<String, String>) -> Result<Seq<char>, Seq<char>> {
    match read {
        Ok(s) => Ok(s@),
        Err(message) => Err(message@),
    }
}

impl View for ConfigEntry {
    type V = EntryView;

    open spec fn view(&self) -> EntryView {
        EntryView {
            key: read_view(self.key),
            value: self.value@,
            text: match self.text {
                Ok(s) => Ok(parser::option_view(s)),
                Err(message) => Err(message@),
            },
        }
    }
}

/// The entries of a mapping in terms of characters.
pub open spec fn entry_views(entries: Seq<ConfigEntry>) -> Seq<EntryView> {
    entries.map_values(|entry: ConfigEntry| entry@)
}

impl View for ConfigBlock {
    type V = BlockView;

    open spec fn view(&self) -> BlockView {
        match self {
            ConfigBlock::Malformed(message) => BlockView::Malformed(message@),
            ConfigBlock::Absent => BlockView::Absent,
            ConfigBlock::Unreadable(message) => BlockView::Unreadable(message@),
            ConfigBlock::Entries(entries) => BlockView::Entries(entry_views(entries@)),
        }
    }
}

/// The extra entries of a configuration in terms of characters.
pub open spec fn extra_views(extra: Seq<ExtraEntry>) -> Seq<(Seq<char>, YamlView)> {
    extra.map_values(|entry: ExtraEntry| (entry.key@, entry.value@))
}

impl View for ModelConfig {
    type V = ConfigView;

    open spec fn view(&self) -> ConfigView {
        ConfigView {
            materialized: self.materialized@,
            schema: parser::option_view(self.schema),
            extra: extra_views(self.extra@),
        }
    }
}

/// What stands under `key` at the top of the YAML text `yaml`.
pub uninterp spec fn yaml_block(yaml: Seq<char>, key: Seq<char>) -> BlockView;

/// `serde_yaml::from_str` into a map with string keys, then
/// `serde_yaml::from_value` of what stands under `key` into a mapping, and of
/// its keys into strings and its values into optional strings; the values come
/// as trees too. The entries come in the order of the text.
#[verifier::external_body]
pub(crate) fn read_yaml(yaml: &str, key: &str) -> (res: ConfigBlock)
    ensures
        res@ == yaml_block(yaml@, key@),
{
    let top: HashMap<String, Value> = match serde_yaml::from_str(yaml) {
        Ok(top) => top,
        Err(error) => return ConfigBlock::Malformed(error.to_string()),
    };
    match top.get(key).map(|value| from_value::<Mapping>(value.clone())) {
        None => ConfigBlock::Absent,
        Some(Err(error)) => ConfigBlock::Unreadable(error.to_string()),
        Some(Ok(mapping)) => ConfigBlock::Entries(mapping.into_iter().map(|(key, value)| ConfigEntry {
            key: from_value(key).map_err(|error| error.to_string()),
            value: yaml::tree_of(value.clone()),
            text: from_value(value).map_err(|error| error.to_string()),
        }).collect()),
    }
}

/// The configuration of a model without frontmatter.
pub open spec fn empty_config() -> ConfigView {
    ConfigView { materialized: Seq::empty(), schema: None, extra: Seq::empty() }
}

/// What is said of a value in which a tag stands.
pub open spec fn tag_text() -> Seq<char> {
    "untagged and internally tagged enums do not support enum input"@
}

/// `message` with `wanted` in the place of `expected` at its end.
pub open spec fn expecting(
    message: Seq<char>,
    expected: Seq<char>,
    wanted: Seq<char>,
) -> Seq<char> {
    if expected.is_suffix_of(message) {
        message.take(message.len() - expected.len()) + wanted
    } else {
        message
    }
}

fn expect(message: &str, expected: &str, wanted: &str) -> (res: String)
    ensures
        res@ == expecting(message@, expected@, wanted@),
{
    let n: usize = message.unicode_len();
    let m: usize = expected.unicode_len();
    if m <= n && text::same(text::skip(message, n - m), expected) {
        assert(message@.skip(n - m) =~= message@.subrange(n - m, n as int));
        assert(message@.subrange(0, n - m) =~= message@.take(n - m));
        text::cat2(message.substring_char(0, n - m), wanted)
    } else {
        assert(m <= n ==> message@.skip(n - m) =~= message@.subrange(n - m, n as int));
        message.to_owned()
    }
}

/// A configuration with one more entry. The keys `materialized` and `schema`
/// are fields of their own; any other key is extra.
pub open spec fn with_entry(config: ConfigView, entry: EntryView) -> Result<
    ConfigView,
    Seq<char>,
> {
    match entry.key {
        Err(message) => Err(expecting(message, "a string"@, "field identifier"@)),
        Ok(key) => if key == "materialized"@ {
            match entry.text {
                Ok(Some(materialized)) => Ok(ConfigView { materialized, ..config }),
                Ok(None) => Err("invalid type: unit value, expected a string"@),
                Err(message) => Err(message),
            }
        } else if key == "schema"@ {
            match entry.text {
                Ok(schema) => Ok(ConfigView { schema, ..config }),
                Err(message) => Err(message),
            }
        } else if yaml::has_tag(entry.value) {
            Err(tag_text())
        } else {
            Ok(ConfigView { extra: config.extra.push((key, entry.value)), ..config })
        },
    }
}

/// Whether one of the first `n` entries has the key `key`.
pub open spec fn has_key(entries: Seq<EntryView>, n: int, key: Seq<char>) -> bool {
    exists|k: int|
        0 <= k < n && (#[trigger] entries[k]).key == Ok::<Seq<char>, Seq<char>>(key)
}

/// Whether `key` is that of a field of its own.
pub open spec fn is_field(key: Seq<char>) -> bool {
    key == "materialized"@ || key == "schema"@
}

/// What is said of a field that is there twice.
pub open spec fn duplicate_text(key: Seq<char>) -> Seq<char> {
    "duplicate field `"@ + key + "`"@
}

/// The configuration that the first `n` entries of a mapping give. A model is
/// a view unless it says otherwise. A field may be there once.
pub open spec fn entries_config(entries: Seq<EntryView>, n: int) -> Result<ConfigView, Seq<char>>
    decreases n,
{
    if n <= 0 {
        Ok(ConfigView { materialized: "view"@, schema: None, extra: Seq::empty() })
    } else {
        match entries_config(entries, n - 1) {
            Ok(config) => match entries[n - 1].key {
                Ok(key) => if is_field(key) && has_key(entries, n - 1, key) {
                    Err(duplicate_text(key))
                } else {
                    with_entry(config, entries[n - 1])
                },
                Err(_) => with_entry(config, entries[n - 1]),
            },
            Err(message) => Err(message),
        }
    }
}

/// The configuration that a block gives, or what is said of it.
pub open spec fn block_config(block: BlockView) -> Result<ConfigView, Seq<char>> {
    match block {
        BlockView::Malformed(message) => Err("Failed to parse YAML frontmatter: "@ + message),
        BlockView::Absent => Ok(empty_config()),
        BlockView::Unreadable(message) => Err(
            "Failed to deserialize model config: "@ + expecting(
                message,
                "a YAML mapping"@,
                "struct ModelConfig"@,
            ),
        ),
        BlockView::Entries(entries) => match entries_config(entries, entries.len() as int) {
            Ok(config) => Ok(config),
            Err(message) => Err("Failed to deserialize model config: "@ + message),
        },
    }
}

/// The way a model is materialized unless its configuration says otherwise.
pub fn default_materialized() -> (res: String)
    ensures
        res@ == "view"@,
{
    "view".to_owned()
}

fn add_entry(config: ModelConfig, entry: &ConfigEntry) -> (res: Result<ModelConfig, String>)
    ensures
        match res {
            Ok(config_after) => with_entry(config@, entry@) == Ok::<ConfigView, Seq<char>>(
                config_after@,
            ),
            Err(message) => with_entry(config@, entry@) == Err::<ConfigView, Seq<char>>(message@),
        },
{
    let mut config = config;
    match &entry.key {
        Err(message) => Err(expect(message.as_str(), "a string", "field identifier")),
        Ok(key) => if text::same(key.as_str(), "materialized") {
            match &entry.text {
                Ok(Some(materialized)) => {
                    config.materialized = materialized.clone();
                    Ok(config)
                },
                Ok(None) => Err("invalid type: unit value, expected a string".to_owned()),
                Err(message) => Err(message.clone()),
            }
        } else if text::same(key.as_str(), "schema") {
            match &entry.text {
                Ok(schema) => {
                    config.schema = match schema {
                        Some(schema) => Some(schema.clone()),
                        None => None,
                    };
                    Ok(config)
                },
                Err(message) => Err(message.clone()),
            }
        } else if yaml::holds_tag(&entry.value) {
            Err("untagged and internally tagged enums do not support enum input".to_owned())
        } else {
            let value = entry.value.clone();
            let ghost before = config@;
            config.extra.push(ExtraEntry { key: key.clone(), value });
            assert(config@.extra =~= before.extra.push((key@, value@)));
            Ok(config)
        },
    }
}

fn seen_before(entries: &Vec<ConfigEntry>, n: usize, key: &str) -> (res: bool)
    requires
        n <= entries@.len(),
    ensures
        res == has_key(entry_views(entries@), n as int, key@),
{
    let ghost views = entry_views(entries@);
    let mut k: usize = 0;
    while k < n
        invariant
            views == entry_views(entries@),
            0 <= k <= n <= entries@.len(),
            !has_key(views, k as int, key@),
        decreases n - k,
    {
        assert(views[k as int] == entries@[k as int]@);
        if let Ok(other) = &entries[k].key {
            if text::same(other.as_str(), key) {
                assert(views[k as int].key == Ok::<Seq<char>, Seq<char>>(key@));
                return true;
            }
        }
        k += 1;
    }
    false
}

fn read_entries(entries: &Vec<ConfigEntry>) -> (res: Result<ModelConfig, String>)
    ensures
        match res {
            Ok(config) => entries_config(entry_views(entries@), entries@.len() as int) == Ok::<
                ConfigView,
                Seq<char>,
            >(config@),
            Err(message) => entries_config(entry_views(entries@), entries@.len() as int) == Err::<
                ConfigView,
                Seq<char>,
            >(message@),
        },
{
    let ghost views = entry_views(entries@);
    let mut config = ModelConfig {
        materialized: default_materialized(),
        schema: None,
        extra: Vec::new(),
    };
    assert(config@.extra =~= Seq::empty());
    let mut i: usize = 0;
    while i < entries.len()
        invariant
            views == entry_views(entries@),
            i <= entries@.len(),
            entries_config(views, i as int) == Ok::<ConfigView, Seq<char>>(config@),
        decreases entries@.len() - i,
    {
        assert(views[i as int] == entries@[i as int]@);
        if let Ok(key) = &entries[i].key {
            if (text::same(key.as_str(), "materialized") || text::same(key.as_str(), "schema"))
                && seen_before(entries, i, key.as_str()) {
                proof {
                    lemma_first_error(views, i + 1, entries@.len() as int);
                }
                return Err(text::cat3("duplicate field `", key.as_str(), "`"));
            }
        }
        match add_entry(config, &entries[i]) {
            Ok(next) => {
                config = next;
            },
            Err(message) => {
                proof {
                    lemma_first_error(views, i + 1, entries@.len() as int);
                }
                return Err(message);
            },
        }
        i += 1;
    }
    Ok(config)
}

proof fn lemma_first_error(entries: Seq<EntryView>, k: int, n: int)
    requires
        0 <= k <= n,
        entries_config(entries, k) is Err,
    ensures
        entries_config(entries, n) == entries_config(entries, k),
    decreases n - k,
{
    if k < n {
        lemma_first_error(entries, k, n - 1);
    }
}

/// Reads the configuration of a model from what stands in its frontmatter.
pub fn read_config(block: ConfigBlock) -> (res: Result<ModelConfig, String>)
    ensures
        match res {
            Ok(config) => block_config(block@) == Ok::<ConfigView, Seq<char>>(config@),
            Err(message) => block_config(block@) == Err::<ConfigView, Seq<char>>(message@),
        },
{
    match block {
        ConfigBlock::Malformed(message) => Err(
            text::cat2("Failed to parse YAML frontmatter: ", message.as_str()),
        ),
        ConfigBlock::Absent => {
            let config = ModelConfig::default();
            assert(config@.extra =~= Seq::empty());
            Ok(config)
        },
        ConfigBlock::Unreadable(message) => Err(
            text::cat2(
                "Failed to deserialize model config: ",
                expect(message.as_str(), "a YAML mapping", "struct ModelConfig").as_str(),
            ),
        ),
        ConfigBlock::Entries(entries) => match read_entries(&entries) {
            Ok(config) => Ok(config),
            Err(message) => Err(
                text::cat2("Failed to deserialize model config: ", message.as_str()),
            ),
        },
    }
}

}

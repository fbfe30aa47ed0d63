//! Models: SQL with a configuration.

use vstd::prelude::*;
use vstd::string::*;

use crate::config;
use crate::frontmatter;
use crate::pattern;
use crate::pattern::{Capture, CaptureView};
use crate::text;
use crate::yaml::{Yaml, YamlView};

pub use crate::pattern::NQL_FUNCTIONS;

verus! {

/// Represents a parsed NQL model file.
#[derive(Debug, Clone)]
pub struct NqlModel {
    /// Name of the model (derived from filename).
    pub name: String,
    /// Configuration from YAML frontmatter.
    pub config: ModelConfig,
    /// Raw SQL body (with nql.* calls and {{ ref() }} intact).
    pub raw_sql: String,
    /// All nql.* function calls found in the SQL.
    pub nql_calls: Vec<NqlCall>,
    /// All {{ ref('...') }} references found in the SQL.
    pub refs: Vec<String>,
}

/// Model configuration extracted from YAML frontmatter comments.
#[derive(Debug, Clone)]
pub struct ModelConfig {
    pub materialized: String,
    pub schema: Option<String>,
    /// Extra key-value pairs.
    pub extra: Vec<ExtraEntry>,
}

/// An extra key of a configuration, and its value.
#[derive(Debug, Clone)]
pub struct ExtraEntry {
    pub key: String,
    pub value: Yaml,
}

/// A single nql.* function call extracted from SQL.
#[derive(Debug, Clone)]
pub struct NqlCall {
    /// The full matched text, e.g. `nql.analyze_sentiment(feedback_text)`
    pub full_match: String,
    /// Function name without the `nql.` prefix, e.g. `analyze_sentiment`
    pub function_name: String,
    /// The arguments string (everything inside the parentheses).
    pub args: String,
}

/// The characters of an optional string.
pub open spec fn option_view(s: Option<String>) -> Option<Seq<char>> {
    match s {
        Some(s) => Some(s@),
        None => None,
    }
}

/// The string that `key` has among extra entries, where it has one. The last
/// entry of a key counts.
pub open spec fn extra_text(
    extra: Seq<(Seq<char>, YamlView)>,
    key: Seq<char>,
) -> Option<Seq<char>>
    decreases extra.len(),
{
    if extra.len() == 0 {
        None
    } else if extra.last().0 == key {
        match extra.last().1 {
            YamlView::Text(s) => Some(s),
            _ => None,
        }
    } else {
        extra_text(extra.drop_last(), key)
    }
}

impl Default for ModelConfig {
    /// The configuration of a model without frontmatter: every field empty.
    fn default() -> (res: Self)
        ensures
            res.materialized@ == Seq::<char>::empty(),
            res.schema is None,
            res.extra@.len() == 0,
    {
        ModelConfig { materialized: String::new(), schema: None, extra: Vec::new() }
    }
}

impl ModelConfig {
    /// The string that `key` has among the extra entries, where it has one.
    pub fn extra_str(&self, key: &str) -> (res: Option<&str>)
        ensures
            match res {
                Some(value) => extra_text(self@.extra, key@) == Some(value@),
                None => extra_text(self@.extra, key@) is None,
            },
    {
        let ghost extra = self@.extra;
        let mut i: usize = self.extra.len();
        assert(extra.take(i as int) == extra);
        while i > 0
            invariant
                extra == self@.extra,
                i <= self.extra@.len(),
                extra_text(extra, key@) == extra_text(extra.take(i as int), key@),
            decreases i,
        {
            i -= 1;
            let ghost before = extra.take(i + 1);
            assert(before.drop_last() == extra.take(i as int));
            assert(before.last() == extra[i as int]);
            if text::same(self.extra[i].key.as_str(), key) {
                return match &self.extra[i].value {
                    Yaml::Text(value) => Some(value.as_str()),
                    _ => None,
                };
            }
        }
        None
    }
}

/// A [`NqlModel`] in terms of characters.
pub struct ModelView {
    pub name: Seq<char>,
    pub config: config::ConfigView,
    pub raw_sql: Seq<char>,
    pub nql_calls: Seq<CallView>,
    pub refs: Seq<Seq<char>>,
}

impl View for NqlModel {
    type V = ModelView;

    open spec fn view(&self) -> ModelView {
        ModelView {
            name: self.name@,
            config: self.config@,
            raw_sql: self.raw_sql@,
            nql_calls: call_views(self.nql_calls@),
            refs: text::views(self.refs@),
        }
    }
}

/// A [`NqlCall`] in terms of characters.
pub struct CallView {
    pub full_match: Seq<char>,
    pub function_name: Seq<char>,
    pub args: Seq<char>,
}

impl View for NqlCall {
    type V = CallView;

    open spec fn view(&self) -> CallView {
        CallView {
            full_match: self.full_match@,
            function_name: self.function_name@,
            args: self.args@,
        }
    }
}

/// The calls of a list in terms of characters.
pub open spec fn call_views(calls: Seq<NqlCall>) -> Seq<CallView> {
    calls.map_values(|call: NqlCall| call@)
}

/// The call whose head a match in `sql` is, where it is a call.
pub open spec fn call_at(sql: Seq<char>, head: CaptureView) -> Option<CallView> {
    match pattern::call_end(sql, head.end - 1) {
        Some(e) => Some(
            CallView {
                full_match: sql.subrange(head.start, e + 1),
                function_name: head.groups[1],
                args: sql.subrange(head.end, e),
            },
        ),
        None => None,
    }
}

/// Whether one of the calls was matched as `full_match`.
pub open spec fn is_listed(calls: Seq<CallView>, full_match: Seq<char>) -> bool {
    exists|i: int| 0 <= i < calls.len() && (#[trigger] calls[i]).full_match == full_match
}

/// The calls in `sql` that the first `n` heads of prefixed calls give: each
/// text once, at its first place.
pub open spec fn prefixed_calls(sql: Seq<char>, prefixed: Seq<CaptureView>, n: int) -> Seq<CallView>
    decreases n,
{
    if n <= 0 {
        Seq::empty()
    } else {
        let before = prefixed_calls(sql, prefixed, n - 1);
        match call_at(sql, prefixed[n - 1]) {
            Some(call) => if is_listed(before, call.full_match) {
                before
            } else {
                before.push(call)
            },
            None => before,
        }
    }
}

/// `calls` and the calls in `sql` that the first `n` heads of bare calls add:
/// each text once, and none that is listed with its prefix.
pub open spec fn with_bare_calls(
    calls: Seq<CallView>,
    sql: Seq<char>,
    bare: Seq<CaptureView>,
    n: int,
) -> Seq<CallView>
    decreases n,
{
    if n <= 0 {
        calls
    } else {
        let before = with_bare_calls(calls, sql, bare, n - 1);
        match call_at(sql, bare[n - 1]) {
            Some(call) => if is_listed(before, "nql."@ + call.full_match) || is_listed(
                before,
                call.full_match,
            ) {
                before
            } else {
                before.push(call)
            },
            None => before,
        }
    }
}

/// The calls in `sql` that the heads of prefixed and of bare calls give.
pub open spec fn collected(
    sql: Seq<char>,
    prefixed: Seq<CaptureView>,
    bare: Seq<CaptureView>,
) -> Seq<CallView> {
    with_bare_calls(
        prefixed_calls(sql, prefixed, prefixed.len() as int),
        sql,
        bare,
        bare.len() as int,
    )
}

/// The calls of AI functions in `sql`.
pub open spec fn calls_in(sql: Seq<char>) -> Seq<CallView> {
    collected(
        sql,
        pattern::regex_captures(pattern::head_pattern(), sql),
        pattern::regex_captures(pattern::bare_pattern(), sql),
    )
}

/// The names of the models that `sql` refers to, one for each reference.
pub open spec fn refs_in(sql: Seq<char>) -> Seq<Seq<char>> {
    pattern::regex_captures(pattern::reference_pattern(), sql).map_values(
        |c: CaptureView| c.groups[1],
    )
}

fn lists(calls: &Vec<NqlCall>, full_match: &str) -> (res: bool)
    ensures
        res == is_listed(call_views(calls@), full_match@),
{
    let mut i: usize = 0;
    while i < calls.len()
        invariant
            0 <= i <= calls@.len(),
            forall|j: int| 0 <= j < i ==> (#[trigger] calls@[j]).full_match@ != full_match@,
        decreases calls@.len() - i,
    {
        if text::same(calls[i].full_match.as_str(), full_match) {
            assert(call_views(calls@)[i as int].full_match == full_match@);
            return true;
        }
        i += 1;
    }
    proof {
        let views = call_views(calls@);
        assert forall|j: int| 0 <= j < views.len() implies (#[trigger] views[j]).full_match
            != full_match@ by {
            assert(views[j] == calls@[j]@);
        }
    }
    false
}

/// Reads the call whose head stands from the place `start` of `sql` up to the
/// place `end`.
fn read_call(sql: &str, start: usize, end: usize, name: &str) -> (res: Option<NqlCall>)
    requires
        start < end <= sql@.len(),
    ensures
        forall|head: CaptureView|
            head.start == start && head.end == end && head.groups[1] == name@ ==> match res {
                Some(call) => #[trigger] call_at(sql@, head) == Some(call@),
                None => call_at(sql@, head) is None,
            },
{
    proof {
        pattern::lemma_call_end(sql@, end - 1);
    }
    let len: usize = sql.unicode_len();
    match pattern::end_of_call(sql, end - 1) {
        Some(e) => {
            assert(e < len);
            Some(
                NqlCall {
                    full_match: sql.substring_char(start, e + 1).to_owned(),
                    function_name: name.to_owned(),
                    args: sql.substring_char(end, e).to_owned(),
                },
            )
        },
        None => None,
    }
}

fn push_call(calls: &mut Vec<NqlCall>, call: NqlCall)
    ensures
        call_views(final(calls)@) == call_views(old(calls)@).push(call@),
{
    let ghost before = calls@;
    calls.push(call);
    assert(call_views(calls@) =~= call_views(before).push(call@));
}

/// Lists the calls that the heads of prefixed and of bare calls give: each
/// text once, and no bare text that is listed with its prefix.
pub fn collect_calls(sql: &str, prefixed: &Vec<Capture>, bare: &Vec<Capture>) -> (res: Vec<NqlCall>)
    requires
        pattern::are_usable(sql@, prefixed@),
        pattern::are_usable(sql@, bare@),
    ensures
        call_views(res@) == collected(
            sql@,
            pattern::captures_view(sql@, prefixed@),
            pattern::captures_view(sql@, bare@),
        ),
{
    let ghost prefixed_views = pattern::captures_view(sql@, prefixed@);
    let ghost bare_views = pattern::captures_view(sql@, bare@);
    let mut calls: Vec<NqlCall> = Vec::new();
    assert(call_views(calls@) =~= Seq::empty());
    let places = pattern::places(sql, prefixed);
    let mut i: usize = 0;
    while i < prefixed.len()
        invariant
            pattern::are_usable(sql@, prefixed@),
            prefixed_views == pattern::captures_view(sql@, prefixed@),
            places@.len() == prefixed@.len(),
            forall|k: int|
                0 <= k < prefixed@.len() ==> (#[trigger] places@[k]).0 == prefixed_views[k].start
                    && places@[k].1 == prefixed_views[k].end,
            0 <= i <= prefixed@.len(),
            call_views(calls@) == prefixed_calls(sql@, prefixed_views, i as int),
        decreases prefixed@.len() - i,
    {
        let head = &prefixed[i];
        let place = places[i];
        proof {
            assert(prefixed_views[i as int] == pattern::capture_view(sql@, *head));
            assert(prefixed_views[i as int].groups[1] == head.groups@[1]@);
        }
        if let Some(call) = read_call(sql, place.0, place.1, head.groups[1].as_str()) {
            assert(call_at(sql@, prefixed_views[i as int]) == Some(call@));
            if !lists(&calls, call.full_match.as_str()) {
                push_call(&mut calls, call);
            }
        } else {
            assert(call_at(sql@, prefixed_views[i as int]) is None);
        }
        i += 1;
    }
    let ghost first = call_views(calls@);
    let places = pattern::places(sql, bare);
    let mut i: usize = 0;
    while i < bare.len()
        invariant
            pattern::are_usable(sql@, bare@),
            bare_views == pattern::captures_view(sql@, bare@),
            places@.len() == bare@.len(),
            forall|k: int|
                0 <= k < bare@.len() ==> (#[trigger] places@[k]).0 == bare_views[k].start
                    && places@[k].1 == bare_views[k].end,
            0 <= i <= bare@.len(),
            call_views(calls@) == with_bare_calls(first, sql@, bare_views, i as int),
        decreases bare@.len() - i,
    {
        let head = &bare[i];
        let place = places[i];
        proof {
            assert(bare_views[i as int] == pattern::capture_view(sql@, *head));
            assert(bare_views[i as int].groups[1] == head.groups@[1]@);
        }
        if let Some(call) = read_call(sql, place.0, place.1, head.groups[1].as_str()) {
            assert(call_at(sql@, bare_views[i as int]) == Some(call@));
            let prefixed_form = text::cat2("nql.", call.full_match.as_str());
            if !lists(&calls, prefixed_form.as_str()) && !lists(&calls, call.full_match.as_str()) {
                push_call(&mut calls, call);
            }
        } else {
            assert(call_at(sql@, bare_views[i as int]) is None);
        }
        i += 1;
    }
    calls
}

/// The calls and the references in `sql` are found.
pub open spec fn all_found(sql: Seq<char>) -> bool {
    pattern::heads_found(sql) && pattern::calls_found(sql) && pattern::references_found(sql)
}

/// Extract all AI function calls from SQL text.
/// Supports both `nql.func_name(args)` (legacy) and bare `func_name(args)` syntax.
pub fn extract_nql_calls(sql: &str) -> (res: Vec<NqlCall>)
    ensures
        call_views(res@) == calls_in(sql@),
        pattern::heads_found(sql@),
        pattern::calls_found(sql@),
{
    let prefixed = pattern::captures(pattern::head_pattern_text().as_str(), sql);
    let bare = pattern::captures(pattern::bare_pattern_text().as_str(), sql);
    proof {
        pattern::lemma_heads_usable(sql@, prefixed@);
        pattern::lemma_heads_usable(sql@, bare@);
    }
    collect_calls(sql, &prefixed, &bare)
}

/// Lists the names in references that were found.
pub fn referred_names(refs: &Vec<Capture>) -> (res: Vec<String>)
    requires
        pattern::have_groups(refs@, 2),
    ensures
        forall|hay: Seq<char>|
            text::views(res@) == (#[trigger] pattern::captures_view(hay, refs@)).map_values(
                |c: CaptureView| c.groups[1],
            ),
{
    let mut res: Vec<String> = Vec::new();
    let mut k: usize = 0;
    while k < refs.len()
        invariant
            pattern::have_groups(refs@, 2),
            0 <= k <= refs@.len(),
            res@.len() == k,
            forall|j: int| 0 <= j < k ==> (#[trigger] res@[j])@ == refs@[j].groups@[1]@,
        decreases refs@.len() - k,
    {
        res.push(refs[k].groups[1].clone());
        k += 1;
    }
    proof {
        assert forall|hay: Seq<char>|
            text::views(res@) == (#[trigger] pattern::captures_view(hay, refs@)).map_values(
                |c: CaptureView| c.groups[1],
            ) by {
            assert(text::views(res@) =~= pattern::captures_view(hay, refs@).map_values(
                |c: CaptureView| c.groups[1],
            ));
        }
    }
    res
}

/// Extract all {{ ref('...') }} references from SQL text.
pub fn extract_refs(sql: &str) -> (res: Vec<String>)
    ensures
        text::views(res@) == refs_in(sql@),
        pattern::references_found(sql@),
{
    let refs = pattern::captures(pattern::reference_pattern_text().as_str(), sql);
    proof {
        pattern::lemma_have_groups(sql@, refs@, 2);
    }
    referred_names(&refs)
}

/// The configuration that the frontmatter of a model gives, or what is said
/// of it.
pub open spec fn config_of(content: Seq<char>) -> Result<config::ConfigView, Seq<char>> {
    match frontmatter::yaml_of(content) {
        Some(yaml) => config::block_config(config::yaml_block(yaml, "config"@)),
        None => Ok(config::empty_config()),
    }
}

/// Extract YAML frontmatter from SQL comment lines.
pub fn extract_frontmatter(content: &str) -> (res: Result<ModelConfig, String>)
    ensures
        match res {
            Ok(config) => config_of(content@) == Ok::<config::ConfigView, Seq<char>>(config@),
            Err(message) => config_of(content@) == Err::<config::ConfigView, Seq<char>>(message@),
        },
{
    match frontmatter::frontmatter_yaml(content) {
        // The YAML is nested under "config:".
        Some(yaml) => config::read_config(config::read_yaml(yaml.as_str(), "config")),
        None => {
            let config = ModelConfig::default();
            assert(config@.extra =~= Seq::empty());
            Ok(config)
        },
    }
}

/// The model that a name and a content give, or what is said of its
/// configuration.
pub open spec fn parsed(name: Seq<char>, content: Seq<char>) -> Result<ModelView, Seq<char>> {
    let sql = frontmatter::body_of(content);
    match config_of(content) {
        Ok(config) => Ok(
            ModelView {
                name,
                config,
                raw_sql: sql,
                nql_calls: calls_in(sql),
                refs: refs_in(sql),
            },
        ),
        Err(message) => Err(message),
    }
}

/// Parse a model from its name and SQL content string.
pub fn parse_model(name: &str, content: &str) -> (res: Result<NqlModel, String>)
    ensures
        match res {
            Ok(model) => parsed(name@, content@) == Ok::<ModelView, Seq<char>>(model@)
                && all_found(model@.raw_sql),
            Err(message) => parsed(name@, content@) == Err::<ModelView, Seq<char>>(message@),
        },
{
    let config = match extract_frontmatter(content) {
        Ok(config) => config,
        Err(message) => return Err(message),
    };
    let raw_sql = frontmatter::strip_frontmatter(content);
    let nql_calls = extract_nql_calls(raw_sql.as_str());
    let refs = extract_refs(raw_sql.as_str());
    Ok(NqlModel { name: name.to_owned(), config, raw_sql, nql_calls, refs })
}

}

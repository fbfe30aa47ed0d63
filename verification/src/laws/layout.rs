//! Laws of the layout of a model file.

use vstd::prelude::*;

use crate::config;
use crate::config::{ConfigView, EntryView};
use crate::frontmatter;
use crate::laws::arguments;
use crate::parser;
use crate::text;
use crate::yaml;
use crate::yaml::YamlView;

verus! {

proof fn lemma_preamble(lines: Seq<Seq<char>>, i: int)
    requires
        0 <= i <= lines.len(),
    ensures
        ({
            let end = frontmatter::preamble_end(lines, i);
            &&& i <= end <= lines.len()
            &&& forall|j: int| i <= j < end ==> frontmatter::may_precede(#[trigger] lines[j])
            &&& end < lines.len() ==> !frontmatter::may_precede(lines[end])
        }),
    decreases lines.len() - i,
{
    if i < lines.len() && frontmatter::may_precede(lines[i]) {
        lemma_preamble(lines, i + 1);
    }
}

proof fn lemma_block(lines: Seq<Seq<char>>, i: int)
    requires
        0 <= i <= lines.len(),
    ensures
        ({
            let end = frontmatter::block_end(lines, i);
            &&& i <= end <= lines.len()
            &&& forall|j: int|
                i <= j < end ==> frontmatter::begins_config(#[trigger] lines[j])
                    || frontmatter::continues_config(lines[j])
            &&& end < lines.len() ==> !frontmatter::begins_config(lines[end])
                && !frontmatter::continues_config(lines[end])
        }),
    decreases lines.len() - i,
{
    if i < lines.len() && (frontmatter::begins_config(lines[i]) || frontmatter::continues_config(
        lines[i],
    )) {
        lemma_block(lines, i + 1);
    }
}

/// The lines of a model file are the comments and blank lines at its top, the
/// lines of the configuration, and those of the SQL, each as far as they go.
/// The configuration is there just where its first line begins one.
pub proof fn law_lines_divided(content: Seq<char>)
    ensures
        ({
            let lines = text::lines_of(content);
            let begin = frontmatter::config_begin(lines);
            let end = frontmatter::config_end(lines);
            &&& 0 <= begin <= end <= lines.len()
            &&& lines == lines.take(begin) + frontmatter::config_lines(content) + lines.skip(end)
            &&& forall|i: int| 0 <= i < begin ==> frontmatter::may_precede(#[trigger] lines[i])
            &&& forall|i: int|
                begin <= i < end ==> frontmatter::begins_config(#[trigger] lines[i])
                    || frontmatter::continues_config(lines[i])
            &&& frontmatter::yaml_of(content) is Some <==> begin < end
            &&& begin < end <==> begin < lines.len() && frontmatter::begins_config(lines[begin])
            &&& begin < end < lines.len() ==> !frontmatter::begins_config(lines[end])
                && !frontmatter::continues_config(lines[end])
            &&& begin == end < lines.len() ==> !frontmatter::may_precede(lines[end])
        }),
{
    let lines = text::lines_of(content);
    let begin = frontmatter::config_begin(lines);
    let end = frontmatter::config_end(lines);
    lemma_preamble(lines, 0);
    lemma_block(lines, begin);
    assert(lines =~= lines.take(begin) + lines.subrange(begin, end) + lines.skip(end));
}

/// A file that begins with SQL has no configuration, and all of it is SQL.
pub proof fn law_no_frontmatter(content: Seq<char>)
    requires
        text::lines_of(content).len() > 0,
        !frontmatter::may_precede(text::lines_of(content)[0]),
        !frontmatter::begins_config(text::lines_of(content)[0]),
    ensures
        frontmatter::yaml_of(content) is None,
        parser::config_of(content) == Ok::<ConfigView, Seq<char>>(config::empty_config()),
        frontmatter::body_of(content) == text::trimmed(
            text::joined(text::lines_of(content), "\n"@),
        ),
{
    let lines = text::lines_of(content);
    law_lines_divided(content);
    assert(frontmatter::config_begin(lines) == 0);
    assert(lines.skip(0) =~= lines);
}

/// A model whose configuration does not say how it is materialized is a view,
/// and one whose configuration names no schema has none.
pub proof fn law_config_defaults(entries: Seq<EntryView>, n: int)
    requires
        0 <= n <= entries.len(),
    ensures
        config::entries_config(entries, n) matches Ok(config) ==> {
            &&& !config::has_key(entries, n, "materialized"@) ==> config.materialized == "view"@
            &&& !config::has_key(entries, n, "schema"@) ==> config.schema is None
        },
    decreases n,
{
    if n > 0 {
        law_config_defaults(entries, n - 1);
        if !config::has_key(entries, n, "materialized"@) {
            assert(entries[n - 1].key != Ok::<Seq<char>, Seq<char>>("materialized"@));
        }
        if !config::has_key(entries, n, "schema"@) {
            assert(entries[n - 1].key != Ok::<Seq<char>, Seq<char>>("schema"@));
        }
    }
}

/// A field that is there twice is an error.
pub proof fn law_field_is_there_once(entries: Seq<EntryView>, i: int, j: int, key: Seq<char>)
    requires
        0 <= i < j < entries.len(),
        config::is_field(key),
        entries[i].key == Ok::<Seq<char>, Seq<char>>(key),
        entries[j].key == Ok::<Seq<char>, Seq<char>>(key),
    ensures
        config::entries_config(entries, entries.len() as int) is Err,
{
    assert(config::has_key(entries, j, key));
    assert(config::entries_config(entries, j + 1) is Err);
    lemma_error_stays(entries, j + 1, entries.len() as int);
}

proof fn lemma_error_stays(entries: Seq<EntryView>, k: int, n: int)
    requires
        0 <= k <= n,
        config::entries_config(entries, k) is Err,
    ensures
        config::entries_config(entries, n) is Err,
    decreases n - k,
{
    if k < n {
        lemma_error_stays(entries, k, n - 1);
    }
}

/// A configuration with an extra value in which a tag stands is an error.
pub proof fn law_tag_is_refused(entries: Seq<EntryView>, i: int, key: Seq<char>)
    requires
        0 <= i < entries.len(),
        !config::is_field(key),
        entries[i].key == Ok::<Seq<char>, Seq<char>>(key),
        yaml::has_tag(entries[i].value),
    ensures
        config::entries_config(entries, entries.len() as int) is Err,
{
    assert(config::entries_config(entries, i + 1) is Err);
    lemma_error_stays(entries, i + 1, entries.len() as int);
}

/// What is configured under a key is what is read back: how the model is
/// materialized, its schema, and each extra string.
pub proof fn law_config_reads_back(config: ConfigView, key: Seq<char>, value: Seq<char>)
    ensures
        ({
            let entry = EntryView {
                key: Ok(key),
                value: YamlView::Text(value),
                text: Ok(Some(value)),
            };
            match config::with_entry(config, entry) {
                Ok(after) => if key == "materialized"@ {
                    after == ConfigView { materialized: value, ..config }
                } else if key == "schema"@ {
                    after == ConfigView { schema: Some(value), ..config }
                } else {
                    &&& after.materialized == config.materialized
                    &&& after.schema == config.schema
                    &&& parser::extra_text(after.extra, key) == Some(value)
                    &&& forall|other: Seq<char>|
                        other != key ==> #[trigger] parser::extra_text(after.extra, other)
                            == parser::extra_text(config.extra, other)
                },
                Err(_) => false,
            }
        }),
{
    let extra = config.extra.push((key, YamlView::Text(value)));
    assert(extra.drop_last() =~= config.extra);
}

/// Whether a carriage return stands in `s` right before a newline.
pub open spec fn holds_return(s: Seq<char>) -> bool {
    exists|i: int| 0 < i < s.len() && #[trigger] s[i] == '\n' && s[i - 1] == '\r'
}

proof fn lemma_place_of_bounds(s: Seq<char>, c: char)
    ensures
        0 <= text::place_of(s, c) <= s.len(),
        text::place_of(s, c) < s.len() ==> s[text::place_of(s, c)] == c,
    decreases s.len(),
{
    if s.len() > 0 && s[0] != c {
        lemma_place_of_bounds(s.drop_first(), c);
    }
}

/// Joining one more part in front puts it and a separator there.
proof fn lemma_joined_front(first: Seq<char>, parts: Seq<Seq<char>>, sep: Seq<char>)
    requires
        parts.len() > 0,
    ensures
        text::joined(seq![first] + parts, sep) == first + sep + text::joined(parts, sep),
    decreases parts.len(),
{
    let all = seq![first] + parts;
    assert(all.last() == parts.last());
    assert(all.drop_last() =~= seq![first] + parts.drop_last());
    if parts.len() == 1 {
        assert(all.drop_last() =~= seq![first]);
        assert(text::joined(seq![first], sep) == first);
    } else {
        lemma_joined_front(first, parts.drop_last(), sep);
        let before = text::joined(parts.drop_last(), sep);
        assert(first + sep + before + sep + parts.last() =~= first + sep + (before + sep
            + parts.last()));
    }
}

/// The lines of a text that does not end with a newline make up the text.
proof fn lemma_lines_joined(s: Seq<char>)
    requires
        s.len() > 0,
        s.last() != '\n',
        !holds_return(s),
    ensures
        text::lines_of(s).len() > 0,
        text::joined(text::lines_of(s), "\n"@) == s,
    decreases s.len(),
{
    let n = text::place_of(s, '\n');
    lemma_place_of_bounds(s, '\n');
    reveal_strlit("\n");
    if n < s.len() {
        let rest = s.skip(n + 1);
        let line = s.take(n);
        assert(rest.last() == s.last());
        assert(!holds_return(rest)) by {
            if holds_return(rest) {
                let i = choose|i: int|
                    0 < i < rest.len() && #[trigger] rest[i] == '\n' && rest[i - 1] == '\r';
                assert(s[n + 1 + i] == '\n');
            }
        }
        assert(text::without_return(line) == line) by {
            if line.len() > 0 && line.last() == '\r' {
                assert(s[n] == '\n' && s[n - 1] == '\r');
            }
        }
        lemma_lines_joined(rest);
        lemma_joined_front(line, text::lines_of(rest), "\n"@);
        assert(line + "\n"@ + rest =~= s);
    } else {
        assert(text::lines_of(s) == seq![s]);
    }
}

/// Stripping a body that starts with SQL leaves it as it is: a text without
/// white space around it, and without a carriage return before a newline.
pub proof fn law_body_is_kept(body: Seq<char>)
    requires
        body.len() > 0,
        text::trimmed(body) == body,
        !holds_return(body),
        !frontmatter::may_precede(text::lines_of(body)[0]),
        !frontmatter::begins_config(text::lines_of(body)[0]),
    ensures
        frontmatter::body_of(body) == body,
        frontmatter::yaml_of(body) is None,
{
    arguments::lemma_trimmed_ends(body);
    lemma_lines_joined(body);
    law_no_frontmatter(body);
}

}

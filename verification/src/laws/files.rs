//! Laws of model files: from the text of a file to its configuration and its SQL.

use vstd::prelude::*;

use crate::config;
use crate::config::{BlockView, ConfigView, EntryView};
use crate::frontmatter;
use crate::laws::prompts;
use crate::parser;
use crate::text;
use crate::yaml;
use crate::yaml::YamlView;

verus! {

proof fn lemma_place(a: Seq<char>, c: char, b: Seq<char>)
    requires
        !a.contains(c),
    ensures
        text::place_of(a + seq![c] + b, c) == a.len(),
        text::place_of(a, c) == a.len(),
    decreases a.len(),
{
    let s = a + seq![c] + b;
    if a.len() > 0 {
        assert(a.contains(a[0]));
        let rest = a.drop_first();
        assert(!rest.contains(c)) by {
            if rest.contains(c) {
                let i = rest.index_of(c);
                assert(a[i + 1] == c);
            }
        }
        lemma_place(rest, c, b);
        assert(s.drop_first() =~= rest + seq![c] + b);
    }
}

/// A text is cut into lines at its newlines: what stands before the first one is
/// the first line, without a carriage return at its end, and the others are the
/// lines of what follows. A text without a newline is one line, and none where it
/// is empty.
pub proof fn law_lines(line: Seq<char>, rest: Seq<char>)
    requires
        !line.contains('\n'),
    ensures
        line.len() == 0 || line.last() != '\r' ==> text::lines_of(line + seq!['\n'] + rest)
            == seq![line] + text::lines_of(rest),
        text::lines_of(line + seq!['\r', '\n'] + rest) == seq![line] + text::lines_of(rest),
        line.len() > 0 ==> text::lines_of(line) == seq![line],
        text::lines_of(Seq::empty()) == Seq::<Seq<char>>::empty(),
{
    lemma_place(line, '\n', rest);
    let a = line + seq!['\n'] + rest;
    assert(a.take(line.len() as int) =~= line);
    assert(a.skip((line.len() + 1) as int) =~= rest);
    let returned = line.push('\r');
    assert(!returned.contains('\n')) by {
        if returned.contains('\n') {
            let i = returned.index_of('\n');
            assert(line[i] == '\n');
        }
    }
    lemma_place(returned, '\n', rest);
    let b = line + seq!['\r', '\n'] + rest;
    assert(b =~= returned + seq!['\n'] + rest);
    assert(b.take(returned.len() as int) =~= returned);
    assert(b.skip((returned.len() + 1) as int) =~= rest);
    assert(returned.drop_last() =~= line);
}

/// Joining parts puts them one after the other with the separator between each
/// two.
pub proof fn law_joined(parts: Seq<Seq<char>>, sep: Seq<char>, last: Seq<char>)
    ensures
        text::joined(Seq::empty(), sep) == Seq::<char>::empty(),
        text::joined(seq![last], sep) == last,
        parts.len() > 0 ==> text::joined(parts.push(last), sep) == text::joined(parts, sep) + sep
            + last,
{
    assert(parts.push(last).drop_last() =~= parts);
}

/// Whether a line may stand before the configuration of a file: it is blank, or a
/// comment that does not begin one.
pub open spec fn is_preamble(line: Seq<char>) -> bool {
    let said = text::trimmed(line);
    ||| said.len() == 0
    ||| "--"@.is_prefix_of(said) && !"-- config:"@.is_prefix_of(said)
        && !"--config:"@.is_prefix_of(said)
}

/// Whether a line begins a configuration, with `more` behind the colon.
pub open spec fn is_opening(line: Seq<char>, more: Seq<char>) -> bool {
    text::trimmed(line) == "-- config:"@ + more || text::trimmed(line) == "--config:"@ + more
}

/// Whether a line goes on with a configuration that says `said` there: a comment
/// that is indented by two spaces or by a tab.
pub open spec fn is_continuation(line: Seq<char>, said: Seq<char>) -> bool {
    &&& text::trimmed(line) == "--"@ + said
    &&& said.len() > 0
    &&& said[0] == '\t' || (said.len() > 1 && said[0] == ' ' && said[1] == ' ')
}

/// Whether a line is neither blank nor a comment.
pub open spec fn is_sql(line: Seq<char>) -> bool {
    text::trimmed(line).len() > 0 && !"--"@.is_prefix_of(text::trimmed(line))
}

/// Whether a line ends a configuration: it neither opens one nor is an indented
/// comment.
pub open spec fn ends_configuration(line: Seq<char>) -> bool {
    let said = text::trimmed(line);
    &&& !"-- config:"@.is_prefix_of(said)
    &&& !"--config:"@.is_prefix_of(said)
    &&& !"--  "@.is_prefix_of(said)
    &&& !"--\t"@.is_prefix_of(said)
}

proof fn lemma_ends_configuration(line: Seq<char>)
    requires
        ends_configuration(line),
    ensures
        !frontmatter::begins_config(line),
        !frontmatter::continues_config(line),
{
    let t = text::trimmed(line);
    reveal_strlit("--");
    reveal_strlit("  ");
    reveal_strlit("\t");
    reveal_strlit("--  ");
    reveal_strlit("--\t");
    if frontmatter::continues_config(line) {
        lemma_prefix("--"@, t);
        if "  "@.is_prefix_of(t.skip(2)) {
            lemma_prefix("  "@, t.skip(2));
            assert(t[2] == t.skip(2)[0] && t[3] == t.skip(2)[1]);
            assert(t.subrange(0, 4) =~= "--  "@);
        } else {
            lemma_prefix("\t"@, t.skip(2));
            assert(t[2] == t.skip(2)[0]);
            assert(t.subrange(0, 3) =~= "--\t"@);
        }
    }
}

proof fn lemma_prefix(prefix: Seq<char>, s: Seq<char>)
    requires
        prefix.is_prefix_of(s),
    ensures
        prefix.len() <= s.len(),
        forall|i: int| 0 <= i < prefix.len() ==> #[trigger] s[i] == prefix[i],
{
    assert forall|i: int| 0 <= i < prefix.len() implies #[trigger] s[i] == prefix[i] by {
        assert(s.subrange(0, prefix.len() as int)[i] == prefix[i]);
    }
}

proof fn lemma_is_prefix(prefix: Seq<char>, more: Seq<char>)
    ensures
        prefix.is_prefix_of(prefix + more),
        (prefix + more).skip(prefix.len() as int) == more,
{
    assert((prefix + more).subrange(0, prefix.len() as int) =~= prefix);
    assert((prefix + more).skip(prefix.len() as int) =~= more);
}

/// What the lines of a file are: before the configuration, its first line, one
/// that continues it, or SQL.
proof fn lemma_line(line: Seq<char>, said: Seq<char>)
    ensures
        is_preamble(line) <==> frontmatter::may_precede(line),
        is_opening(line, said) ==> frontmatter::begins_config(line) && frontmatter::yaml_line(line)
            == "config:"@ + said && !is_preamble(line),
        is_continuation(line, said) ==> !frontmatter::begins_config(line)
            && frontmatter::continues_config(line) && frontmatter::yaml_line(line) == said,
        is_sql(line) ==> !frontmatter::begins_config(line) && !frontmatter::continues_config(line)
            && !frontmatter::may_precede(line),
{
    reveal_strlit("-- config:");
    reveal_strlit("--config:");
    reveal_strlit("--");
    reveal_strlit("  ");
    reveal_strlit("\t");
    reveal_strlit("config:");
    let t = text::trimmed(line);
    if "-- config:"@.is_prefix_of(t) {
        lemma_prefix("-- config:"@, t);
        assert(t.subrange(0, 2) =~= "--"@);
    }
    if "--config:"@.is_prefix_of(t) {
        lemma_prefix("--config:"@, t);
        assert(t.subrange(0, 2) =~= "--"@);
    }
    if is_opening(line, said) {
        lemma_is_prefix("-- config:"@, said);
        lemma_is_prefix("--config:"@, said);
        lemma_opening(line, said);
    }
    if is_continuation(line, said) {
        lemma_is_prefix("--"@, said);
        assert(t[2] == said[0]);
        if said[0] == '\t' {
            assert(said.subrange(0, 1) =~= "\t"@);
        } else {
            assert(t[3] == said[1]);
            assert(said.subrange(0, 2) =~= "  "@);
        }
        if "-- config:"@.is_prefix_of(t) {
            assert(t[3] == 'c');
        }
        if "--config:"@.is_prefix_of(t) {
            assert(t[2] == 'c');
        }
    }
}

proof fn lemma_opening(line: Seq<char>, said: Seq<char>)
    requires
        is_opening(line, said),
    ensures
        text::trimmed(frontmatter::without_dashes(text::trimmed(line))) == "config:"@ + said,
{
    reveal_strlit("-- config:");
    reveal_strlit("--config:");
    reveal_strlit("config:");
    reveal_with_fuel(frontmatter::without_dashes, 2);
    let t = text::trimmed(line);
    let wanted = "config:"@ + said;
    let i = prompts::law_trimmed(line);
    assert(t[0] == '-');
    assert(!text::is_white_space(t.last()));
    let rest = t.skip(2);
    assert(wanted[0] == 'c');
    assert(wanted.last() == t.last());
    if t == "-- config:"@ + said {
        assert(rest[0] == ' ');
        assert(rest.drop_first() =~= wanted);
        reveal_with_fuel(text::trimmed_start, 3);
        assert(text::trimmed_start(rest) == wanted);
    } else {
        assert(rest =~= wanted);
        assert(text::trimmed_start(rest) == wanted);
    }
    assert(text::trimmed_end(wanted) == wanted);
}

proof fn lemma_preamble_runs(lines: Seq<Seq<char>>, i: int, n: int)
    requires
        0 <= i <= n <= lines.len(),
        forall|j: int| i <= j < n ==> is_preamble(#[trigger] lines[j]),
        n < lines.len() ==> !frontmatter::may_precede(lines[n]),
    ensures
        frontmatter::preamble_end(lines, i) == n,
    decreases n - i,
{
    if i < n {
        assert(is_preamble(lines[i]));
        lemma_line(lines[i], Seq::empty());
        lemma_preamble_runs(lines, i + 1, n);
    }
}

proof fn lemma_block_runs(lines: Seq<Seq<char>>, i: int, n: int)
    requires
        0 <= i <= n <= lines.len(),
        forall|j: int|
            i <= j < n ==> frontmatter::begins_config(#[trigger] lines[j])
                || frontmatter::continues_config(lines[j]),
        n < lines.len() ==> !frontmatter::begins_config(lines[n]) && !frontmatter::continues_config(
            lines[n],
        ),
    ensures
        frontmatter::block_end(lines, i) == n,
    decreases n - i,
{
    if i < n {
        assert(frontmatter::begins_config(lines[i]) || frontmatter::continues_config(lines[i]));
        lemma_block_runs(lines, i + 1, n);
    }
}

/// The configuration of a file is read back as it was written in comments, and
/// the SQL below it too. The lines of the file are a preamble of comments and
/// blank lines, a line that opens the configuration, those that continue it, and
/// those from the first one on that does not. Its YAML is then what is said behind
/// the dashes, line by line, and its SQL all that follows, without the white space
/// around it.
pub proof fn law_configuration_is_read(
    content: Seq<char>,
    preamble: Seq<Seq<char>>,
    opening: Seq<char>,
    more: Seq<char>,
    block: Seq<Seq<char>>,
    said: Seq<Seq<char>>,
    sql: Seq<Seq<char>>,
)
    requires
        text::lines_of(content) == preamble + seq![opening] + block + sql,
        forall|k: int| 0 <= k < preamble.len() ==> is_preamble(#[trigger] preamble[k]),
        is_opening(opening, more),
        block.len() == said.len(),
        forall|k: int| 0 <= k < block.len() ==> is_continuation(#[trigger] block[k], said[k]),
        sql.len() > 0 ==> ends_configuration(sql[0]),
    ensures
        frontmatter::yaml_of(content) == Some(
            text::joined(seq!["config:"@ + more] + said, seq!['\n']),
        ),
        frontmatter::body_of(content) == text::trimmed(text::joined(sql, seq!['\n'])),
{
    let lines = text::lines_of(content);
    let m = preamble.len() as int;
    let n = m + 1 + block.len();
    reveal_strlit("\n");
    assert("\n"@ =~= seq!['\n']);
    assert forall|j: int| 0 <= j < m implies is_preamble(#[trigger] lines[j]) by {
        assert(lines[j] == preamble[j]);
    }
    assert(lines[m] == opening);
    lemma_line(opening, more);
    lemma_preamble_runs(lines, 0, m);
    assert forall|j: int| m <= j < n implies frontmatter::begins_config(#[trigger] lines[j])
        || frontmatter::continues_config(lines[j]) by {
        if j > m {
            assert(lines[j] == block[j - m - 1]);
            lemma_line(block[j - m - 1], said[j - m - 1]);
        }
    }
    if n < lines.len() {
        assert(lines[n] == sql[0]);
        lemma_ends_configuration(sql[0]);
    }
    lemma_block_runs(lines, m, n);
    assert(lines.skip(n) =~= sql);
    let found = frontmatter::config_lines(content);
    assert(found =~= seq![opening] + block);
    let wanted = seq!["config:"@ + more] + said;
    let read = found.map_values(|line: Seq<char>| frontmatter::yaml_line(line));
    assert forall|k: int| 0 <= k < read.len() implies read[k] == wanted[k] by {
        if k > 0 {
            assert(found[k] == block[k - 1]);
            lemma_line(block[k - 1], said[k - 1]);
        }
    }
    assert(read =~= wanted);
}

/// A file without a configuration is all SQL but for the comments and blank lines
/// at its top, and its model has the configuration in which every field is empty.
pub proof fn law_file_without_configuration(
    content: Seq<char>,
    preamble: Seq<Seq<char>>,
    sql: Seq<Seq<char>>,
)
    requires
        text::lines_of(content) == preamble + sql,
        forall|k: int| 0 <= k < preamble.len() ==> is_preamble(#[trigger] preamble[k]),
        sql.len() > 0 ==> is_sql(sql[0]),
    ensures
        frontmatter::yaml_of(content) is None,
        frontmatter::body_of(content) == text::trimmed(text::joined(sql, seq!['\n'])),
        parser::config_of(content) matches Ok(config) && config.materialized.len() == 0
            && config.schema is None && config.extra.len() == 0,
{
    let lines = text::lines_of(content);
    let m = preamble.len() as int;
    reveal_strlit("\n");
    assert("\n"@ =~= seq!['\n']);
    assert forall|j: int| 0 <= j < m implies is_preamble(#[trigger] lines[j]) by {
        assert(lines[j] == preamble[j]);
    }
    if m < lines.len() {
        assert(lines[m] == sql[0]);
        lemma_line(sql[0], Seq::empty());
    }
    lemma_preamble_runs(lines, 0, m);
    assert(lines.skip(m) =~= sql);
}

/// The configuration of a model is what stands under `config` in the YAML of its
/// file. What cannot be read is an error that says so; where the key is missing,
/// every field is empty.
pub proof fn law_config_is_under_its_key(content: Seq<char>, yaml: Seq<char>)
    requires
        frontmatter::yaml_of(content) == Some(yaml),
    ensures
        match config::yaml_block(yaml, "config"@) {
            BlockView::Malformed(message) => parser::config_of(content) == Err::<
                ConfigView,
                Seq<char>,
            >("Failed to parse YAML frontmatter: "@ + message),
            BlockView::Absent => parser::config_of(content) matches Ok(config)
                && config.materialized.len() == 0 && config.schema is None && config.extra.len()
                == 0,
            BlockView::Unreadable(message) => parser::config_of(content) == Err::<
                ConfigView,
                Seq<char>,
            >(
                "Failed to deserialize model config: "@ + config::expecting(
                    message,
                    "a YAML mapping"@,
                    "struct ModelConfig"@,
                ),
            ),
            BlockView::Entries(entries) => match parser::config_of(content) {
                Ok(config) => are_read(entries, config),
                Err(message) => !are_readable(entries) && (config::entries_config(
                    entries,
                    entries.len() as int,
                ) matches Err(said) && message == "Failed to deserialize model config: "@ + said),
            },
        },
{
    if let BlockView::Entries(entries) = config::yaml_block(yaml, "config"@) {
        law_entries_are_read(entries);
    }
}

/// Whether an entry has the key `key`.
pub open spec fn is_under(entry: EntryView, key: Seq<char>) -> bool {
    entry.key == Ok::<Seq<char>, Seq<char>>(key)
}

/// Whether an entry is neither that of how a model is materialized nor that of its
/// schema.
pub open spec fn is_extra(entry: EntryView) -> bool {
    !is_under(entry, "materialized"@) && !is_under(entry, "schema"@)
}

/// Whether a configuration is what the entries say: how the model is materialized,
/// its schema, and each other entry under its key, in their order. A model of
/// which they do not say how it is materialized is a view; one of which they name
/// no schema has none.
pub open spec fn are_read(entries: Seq<EntryView>, config: ConfigView) -> bool {
    &&& forall|k: int|
        0 <= k < entries.len() && is_under(#[trigger] entries[k], "materialized"@)
            ==> entries[k].text == Ok::<Option<Seq<char>>, Seq<char>>(Some(config.materialized))
    &&& forall|k: int|
        0 <= k < entries.len() && is_under(#[trigger] entries[k], "schema"@) ==> entries[k].text
            == Ok::<Option<Seq<char>>, Seq<char>>(config.schema)
    &&& (forall|k: int|
        0 <= k < entries.len() ==> !is_under(#[trigger] entries[k], "materialized"@))
        ==> config.materialized == "view"@
    &&& (forall|k: int| 0 <= k < entries.len() ==> !is_under(#[trigger] entries[k], "schema"@))
        ==> config.schema is None
    &&& config.extra == entries.filter(|entry: EntryView| is_extra(entry)).map_values(
        |entry: EntryView| (entry.key->Ok_0, entry.value),
    )
}

/// Whether an entry can be read on its own: its key is a string; how the model is
/// materialized is a string, its schema one or null, and in no other value stands
/// a tag.
pub open spec fn is_readable(entry: EntryView) -> bool {
    &&& entry.key is Ok
    &&& is_under(entry, "materialized"@) ==> (entry.text matches Ok(text) && text is Some)
    &&& is_under(entry, "schema"@) ==> entry.text is Ok
    &&& is_extra(entry) ==> !yaml::has_tag(entry.value)
}

/// Whether entries can be read: each on its own, and neither field is there twice.
pub open spec fn are_readable(entries: Seq<EntryView>) -> bool {
    &&& forall|k: int| 0 <= k < entries.len() ==> is_readable(#[trigger] entries[k])
    &&& forall|j: int, k: int|
        0 <= j < k < entries.len() && !is_extra(#[trigger] entries[j]) ==> (
        #[trigger] entries[k]).key != entries[j].key
}

/// Entries give a configuration just where they can be read, and it is then what
/// they say.
pub proof fn law_entries_are_read(entries: Seq<EntryView>)
    ensures
        config::entries_config(entries, entries.len() as int) is Ok <==> are_readable(entries),
        config::entries_config(entries, entries.len() as int) matches Ok(config) ==> are_read(
            entries,
            config,
        ),
{
    lemma_entries_read(entries, entries.len() as int);
    assert(entries.take(entries.len() as int) =~= entries);
}

proof fn lemma_entries_read(entries: Seq<EntryView>, n: int)
    requires
        0 <= n <= entries.len(),
    ensures
        config::entries_config(entries, n) is Ok <==> are_readable(entries.take(n)),
        config::entries_config(entries, n) matches Ok(config) ==> are_read(entries.take(n), config),
    decreases n,
{
    let now = entries.take(n);
    if n == 0 {
        reveal(Seq::filter);
        assert(now =~= Seq::empty());
        assert(now.filter(|entry: EntryView| is_extra(entry)).map_values(
            |entry: EntryView| (entry.key->Ok_0, entry.value),
        ) =~= Seq::empty());
    } else {
        lemma_entries_read(entries, n - 1);
        let before = entries.take(n - 1);
        let entry = entries[n - 1];
        assert(now.drop_last() =~= before);
        assert(now =~= before.push(entry));
        assert forall|k: int| 0 <= k < n - 1 implies #[trigger] now[k] == before[k] by {
        }
        assert(now[n - 1] == entry);
        lemma_names_of_fields();
        lemma_one_more_readable(before, entry);
        if let Ok(key) = entry.key {
            assert(config::has_key(entries, n - 1, key) <==> exists|j: int|
                0 <= j < before.len() && (#[trigger] before[j]).key == entry.key) by {
                if config::has_key(entries, n - 1, key) {
                    let k = choose|k: int|
                        0 <= k < n - 1 && (#[trigger] entries[k]).key == Ok::<Seq<char>, Seq<char>>(
                            key,
                        );
                    assert(before[k].key == entry.key);
                }
                if exists|j: int| 0 <= j < before.len() && (#[trigger] before[j]).key == entry.key {
                    let j = choose|j: int|
                        0 <= j < before.len() && (#[trigger] before[j]).key == entry.key;
                    assert(entries[j].key == Ok::<Seq<char>, Seq<char>>(key));
                }
            }
        }
        if let Ok(config) = config::entries_config(entries, n) {
            lemma_one_more_read(
                before,
                entry,
                config::entries_config(entries, n - 1)->Ok_0,
                config,
            );
        }
    }
}

proof fn lemma_names_of_fields()
    ensures
        "materialized"@ != "schema"@,
{
    reveal_strlit("materialized");
    reveal_strlit("schema");
    assert("materialized"@.len() != "schema"@.len());
}

proof fn lemma_one_more_readable(before: Seq<EntryView>, entry: EntryView)
    ensures
        are_readable(before.push(entry)) <==> are_readable(before) && is_readable(entry) && (
        is_extra(entry) || !exists|j: int|
            0 <= j < before.len() && (#[trigger] before[j]).key == entry.key),
{
    let now = before.push(entry);
    let n = before.len() as int;
    assert(now[n] == entry);
    if are_readable(now) {
        assert forall|k: int| 0 <= k < n implies is_readable(#[trigger] before[k]) by {
            assert(is_readable(now[k]));
        }
        assert forall|j: int, k: int|
            0 <= j < k < n && !is_extra(#[trigger] before[j]) implies (#[trigger] before[k]).key
            != before[j].key by {
            assert(now[j] == before[j] && now[k] == before[k]);
        }
        assert(is_readable(now[n]));
        if !is_extra(entry) && exists|j: int|
            0 <= j < before.len() && (#[trigger] before[j]).key == entry.key {
            let j = choose|j: int| 0 <= j < before.len() && (#[trigger] before[j]).key == entry.key;
            assert(now[j] == before[j]);
            assert(!is_extra(now[j]));
            assert(now[n].key != now[j].key);
        }
    }
    if are_readable(before) && is_readable(entry) && (is_extra(entry) || !exists|j: int|
        0 <= j < before.len() && (#[trigger] before[j]).key == entry.key) {
        assert forall|k: int| 0 <= k < n + 1 implies is_readable(#[trigger] now[k]) by {
            if k < n {
                assert(is_readable(before[k]));
            }
        }
        assert forall|j: int, k: int|
            0 <= j < k < n + 1 && !is_extra(#[trigger] now[j]) implies (#[trigger] now[k]).key
            != now[j].key by {
            assert(now[j] == before[j]);
            if k < n {
                assert(now[k] == before[k]);
            } else if before[j].key == entry.key {
                assert(!is_extra(entry));
            }
        }
    }
}

proof fn lemma_one_more_read(
    before: Seq<EntryView>,
    entry: EntryView,
    old_config: ConfigView,
    config: ConfigView,
)
    requires
        are_read(before, old_config),
        are_readable(before.push(entry)),
        config::with_entry(old_config, entry) == Ok::<ConfigView, Seq<char>>(config),
    ensures
        are_read(before.push(entry), config),
{
    let now = before.push(entry);
    let n = before.len() as int;
    let test = |entry: EntryView| is_extra(entry);
    let pair = |entry: EntryView| (entry.key->Ok_0, entry.value);
    lemma_names_of_fields();
    assert(now[n] == entry);
    assert forall|k: int| 0 <= k < n implies #[trigger] now[k] == before[k] by {
    }
    assert(now.drop_last() =~= before);
    assert(now.last() == entry);
    assert(config.extra == now.filter(test).map_values(pair)) by {
        reveal(Seq::filter);
        if is_extra(entry) {
            assert(now.filter(test) == before.filter(test).push(entry));
            assert(now.filter(test).map_values(pair) =~= before.filter(test).map_values(pair).push(
                (entry.key->Ok_0, entry.value),
            ));
        } else {
            assert(now.filter(test) == before.filter(test));
        }
    }
    assert forall|k: int|
        0 <= k < n + 1 && is_under(#[trigger] now[k], "materialized"@) implies now[k].text == Ok::<
        Option<Seq<char>>,
        Seq<char>,
    >(Some(config.materialized)) by {
        if k < n && is_under(entry, "materialized"@) {
            assert(!is_extra(now[k]));
            assert(now[n].key != now[k].key);
        }
    }
    assert forall|k: int|
        0 <= k < n + 1 && is_under(#[trigger] now[k], "schema"@) implies now[k].text == Ok::<
        Option<Seq<char>>,
        Seq<char>,
    >(config.schema) by {
        if k < n && is_under(entry, "schema"@) {
            assert(!is_extra(now[k]));
            assert(now[n].key != now[k].key);
        }
    }
    if forall|k: int| 0 <= k < n + 1 ==> !is_under(#[trigger] now[k], "materialized"@) {
        assert(!is_under(now[n], "materialized"@));
        assert forall|k: int| 0 <= k < n implies !is_under(
            #[trigger] before[k],
            "materialized"@,
        ) by {
            assert(!is_under(now[k], "materialized"@));
        }
    }
    if forall|k: int| 0 <= k < n + 1 ==> !is_under(#[trigger] now[k], "schema"@) {
        assert(!is_under(now[n], "schema"@));
        assert forall|k: int| 0 <= k < n implies !is_under(#[trigger] before[k], "schema"@) by {
            assert(!is_under(now[k], "schema"@));
        }
    }
}

/// The first entry that cannot be read says why: its key, its value or its tag.
/// A field that is there for the second time is named.
pub proof fn law_unreadable_entry(entries: Seq<EntryView>, k: int)
    requires
        0 <= k < entries.len(),
        are_readable(entries.take(k)),
        !are_readable(entries.take(k + 1)),
    ensures
        config::entries_config(entries, entries.len() as int) matches Err(said) && match entries[k].key {
            Err(message) => said == config::expecting(message, "a string"@, "field identifier"@),
            Ok(key) => if is_extra(entries[k]) {
                said == "untagged and internally tagged enums do not support enum input"@
            } else if exists|j: int| 0 <= j < k && (#[trigger] entries[j]).key == entries[k].key {
                said == "duplicate field `"@ + key + "`"@
            } else {
                match entries[k].text {
                    Err(message) => said == message,
                    Ok(_) => said == "invalid type: unit value, expected a string"@,
                }
            },
        },
{
    lemma_entries_read(entries, k);
    lemma_entries_read(entries, k + 1);
    lemma_error_stays_same(entries, k + 1, entries.len() as int);
    lemma_names_of_fields();
    if let Ok(key) = entries[k].key {
        if config::has_key(entries, k, key) {
            let j = choose|j: int|
                0 <= j < k && (#[trigger] entries[j]).key == Ok::<Seq<char>, Seq<char>>(key);
            assert(entries[j].key == entries[k].key);
        }
        if exists|j: int| 0 <= j < k && (#[trigger] entries[j]).key == entries[k].key {
            let j = choose|j: int| 0 <= j < k && (#[trigger] entries[j]).key == entries[k].key;
            assert(entries[j].key == Ok::<Seq<char>, Seq<char>>(key));
            assert(config::has_key(entries, k, key));
        }
    }
}

proof fn lemma_error_stays_same(entries: Seq<EntryView>, k: int, n: int)
    requires
        0 <= k <= n,
        config::entries_config(entries, k) is Err,
    ensures
        config::entries_config(entries, n) == config::entries_config(entries, k),
    decreases n - k,
{
    if k < n {
        lemma_error_stays_same(entries, k, n - 1);
    }
}

/// Where a message ends with what was expected, the words for it are replaced,
/// and no other part of the message changes.
pub proof fn law_expected_is_reworded(
    before: Seq<char>,
    expected: Seq<char>,
    wanted: Seq<char>,
    message: Seq<char>,
)
    ensures
        config::expecting(before + expected, expected, wanted) == before + wanted,
        !expected.is_suffix_of(message) ==> config::expecting(message, expected, wanted)
            == message,
{
    let whole = before + expected;
    assert(whole.subrange(before.len() as int, whole.len() as int) =~= expected);
    assert(whole.take(before.len() as int) =~= before);
}

/// A tag stands in a value that has one, in an array one of whose items holds one,
/// and in a mapping one of whose keys or values holds one, and in no other value.
pub proof fn law_tags_are_found(
    items: Seq<YamlView>,
    entries: Seq<(YamlView, YamlView)>,
    tag: Seq<char>,
    value: YamlView,
)
    ensures
        yaml::has_tag(YamlView::Tagged(tag, Box::new(value))),
        yaml::has_tag(YamlView::Sequence(items)) <==> exists|i: int|
            0 <= i < items.len() && yaml::has_tag(#[trigger] items[i]),
        yaml::has_tag(YamlView::Mapping(entries)) <==> exists|i: int|
            0 <= i < entries.len() && (yaml::has_tag((#[trigger] entries[i]).0) || yaml::has_tag(
                entries[i].1,
            )),
        value is Null || value is Bool || value is Number || value is Text ==> !yaml::has_tag(
            value,
        ),
{
    let a = YamlView::Sequence(items);
    assert(a->Sequence_0 == items);
    let b = YamlView::Mapping(entries);
    assert(b->Mapping_0 == entries);
}

}

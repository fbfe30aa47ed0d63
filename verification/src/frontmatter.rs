//! Frontmatter: the configuration that stands in comments before the SQL.

use vstd::prelude::*;

use crate::text;

verus! {

/// Whether a line begins a configuration.
pub open spec fn begins_config(line: Seq<char>) -> bool {
    let trimmed = text::trimmed(line);
    "-- config:"@.is_prefix_of(trimmed) || "--config:"@.is_prefix_of(trimmed)
}

/// Whether a line is a comment.
pub open spec fn is_comment(line: Seq<char>) -> bool {
    "--"@.is_prefix_of(text::trimmed(line))
}

/// What a comment line says behind its dashes.
pub open spec fn behind_dashes(line: Seq<char>) -> Seq<char> {
    text::trimmed(line).skip("--"@.len() as int)
}

/// Whether a line continues a configuration: a comment whose text is indented.
pub open spec fn continues_config(line: Seq<char>) -> bool {
    is_comment(line) && ("  "@.is_prefix_of(behind_dashes(line)) || "\t"@.is_prefix_of(
        behind_dashes(line),
    ))
}

/// Whether a line may stand before a configuration: a comment or a blank line
/// that does not begin one.
pub open spec fn may_precede(line: Seq<char>) -> bool {
    !begins_config(line) && (is_comment(line) || text::trimmed(line).len() == 0)
}

/// Where the lines end that may stand before a configuration, from line `i` on.
pub open spec fn preamble_end(lines: Seq<Seq<char>>, i: int) -> int
    decreases lines.len() - i,
{
    if 0 <= i < lines.len() && may_precede(lines[i]) {
        preamble_end(lines, i + 1)
    } else {
        i
    }
}

/// Where the lines end that begin or continue a configuration, from line `i` on.
pub open spec fn block_end(lines: Seq<Seq<char>>, i: int) -> int
    decreases lines.len() - i,
{
    if 0 <= i < lines.len() && (begins_config(lines[i]) || continues_config(lines[i])) {
        block_end(lines, i + 1)
    } else {
        i
    }
}

/// The line at which the configuration begins, or the SQL where there is none.
pub open spec fn config_begin(lines: Seq<Seq<char>>) -> int {
    preamble_end(lines, 0)
}

/// The line at which the SQL begins.
pub open spec fn config_end(lines: Seq<Seq<char>>) -> int {
    let begin = config_begin(lines);
    if begin < lines.len() && begins_config(lines[begin]) {
        block_end(lines, begin)
    } else {
        begin
    }
}

/// A text without the pairs of dashes that it begins with.
pub open spec fn without_dashes(s: Seq<char>) -> Seq<char>
    decreases s.len(),
{
    if s.len() >= 2 && s[0] == '-' && s[1] == '-' {
        without_dashes(s.skip(2))
    } else {
        s
    }
}

/// What a line of a configuration says in YAML.
pub open spec fn yaml_line(line: Seq<char>) -> Seq<char> {
    if begins_config(line) {
        text::trimmed(without_dashes(text::trimmed(line)))
    } else {
        behind_dashes(line)
    }
}

/// The lines of the configuration of a model.
pub open spec fn config_lines(content: Seq<char>) -> Seq<Seq<char>> {
    let lines = text::lines_of(content);
    lines.subrange(config_begin(lines), config_end(lines))
}

/// The configuration of a model in YAML, where it has one.
pub open spec fn yaml_of(content: Seq<char>) -> Option<Seq<char>> {
    let lines = config_lines(content);
    if lines.len() == 0 {
        None
    } else {
        Some(text::joined(lines.map_values(|line: Seq<char>| yaml_line(line)), "\n"@))
    }
}

/// The SQL of a model: what follows the comments and blank lines at its top and
/// the configuration.
pub open spec fn body_of(content: Seq<char>) -> Seq<char> {
    let lines = text::lines_of(content);
    text::trimmed(text::joined(lines.skip(config_end(lines)), "\n"@))
}

fn line_begins_config(line: &str) -> (res: bool)
    ensures
        res == begins_config(line@),
{
    let trimmed = line.trim();
    text::starts_with(trimmed, "-- config:") || text::starts_with(trimmed, "--config:")
}

fn line_continues_config(line: &str) -> (res: bool)
    ensures
        res == continues_config(line@),
{
    let trimmed = line.trim();
    if text::starts_with(trimmed, "--") {
        proof {
            reveal_strlit("--");
        }
        let after_dashes = text::skip(trimmed, 2);
        text::starts_with(after_dashes, "  ") || text::starts_with(after_dashes, "\t")
    } else {
        false
    }
}

fn line_may_precede(line: &str) -> (res: bool)
    ensures
        res == may_precede(line@),
{
    let trimmed = line.trim();
    !line_begins_config(line) && (text::starts_with(trimmed, "--") || trimmed.is_empty())
}

fn strip_dashes<'a>(s: &'a str) -> (res: &'a str)
    ensures
        res@ == without_dashes(s@),
    decreases s@.len(),
{
    proof {
        reveal_strlit("--");
    }
    if text::starts_with(s, "--") {
        assert(s@.subrange(0, 2)[0] == s@[0] && s@.subrange(0, 2)[1] == s@[1]);
        strip_dashes(text::skip(s, 2))
    } else {
        assert(s@.len() >= 2 && s@[0] == '-' && s@[1] == '-' ==> s@.subrange(0, 2) =~= "--"@);
        s
    }
}

fn line_to_yaml(line: &str) -> (res: String)
    requires
        begins_config(line@) || continues_config(line@),
    ensures
        res@ == yaml_line(line@),
{
    let trimmed = line.trim();
    if line_begins_config(line) {
        strip_dashes(trimmed).trim().to_owned()
    } else {
        proof {
            reveal_strlit("--");
        }
        text::skip(trimmed, 2).to_owned()
    }
}

/// Finds the lines of the configuration: where they begin and end.
fn locate_config(lines: &Vec<String>) -> (res: (usize, usize))
    ensures
        res.0 == config_begin(text::views(lines@)),
        res.1 == config_end(text::views(lines@)),
        res.0 <= res.1 <= lines@.len(),
        forall|i: int|
            res.0 <= i < res.1 ==> begins_config((#[trigger] lines@[i])@) || continues_config(
                lines@[i]@,
            ),
{
    let ghost views = text::views(lines@);
    let mut begin: usize = 0;
    while begin < lines.len() && line_may_precede(lines[begin].as_str())
        invariant
            views == text::views(lines@),
            0 <= begin <= lines@.len(),
            preamble_end(views, 0) == preamble_end(views, begin as int),
        decreases lines@.len() - begin,
    {
        assert(views[begin as int] == lines@[begin as int]@);
        begin += 1;
    }
    assert(begin < lines@.len() ==> views[begin as int] == lines@[begin as int]@);
    if begin == lines.len() || !line_begins_config(lines[begin].as_str()) {
        return (begin, begin);
    }
    let mut end: usize = begin;
    while end < lines.len() && (line_begins_config(lines[end].as_str()) || line_continues_config(
        lines[end].as_str(),
    ))
        invariant
            views == text::views(lines@),
            0 <= begin <= end <= lines@.len(),
            block_end(views, begin as int) == block_end(views, end as int),
            forall|i: int|
                begin <= i < end ==> begins_config((#[trigger] lines@[i])@) || continues_config(
                    lines@[i]@,
                ),
        decreases lines@.len() - end,
    {
        assert(views[end as int] == lines@[end as int]@);
        end += 1;
    }
    assert(end < lines@.len() ==> views[end as int] == lines@[end as int]@);
    (begin, end)
}

/// Finds the YAML of the configuration of a model.
///
/// Frontmatter is encoded as consecutive `-- ` comment lines at the top of
/// the file. A line starting with `-- config:` begins the YAML block, and
/// subsequent indented `--   key: value` lines continue it.
pub fn frontmatter_yaml(content: &str) -> (res: Option<String>)
    ensures
        match res {
            Some(yaml) => yaml_of(content@) == Some(yaml@),
            None => yaml_of(content@) is None,
        },
{
    let lines = text::lines(content);
    let (begin, end) = locate_config(&lines);
    if begin == end {
        return None;
    }
    let ghost views = text::views(lines@);
    let ghost wanted = config_lines(content@).map_values(|line: Seq<char>| yaml_line(line));
    let mut yaml_lines: Vec<String> = Vec::new();
    let mut i: usize = begin;
    while i < end
        invariant
            views == text::views(lines@),
            views.subrange(begin as int, end as int) == config_lines(content@),
            wanted == config_lines(content@).map_values(|line: Seq<char>| yaml_line(line)),
            begin <= i <= end <= lines@.len(),
            forall|i: int|
                begin <= i < end ==> begins_config((#[trigger] lines@[i])@) || continues_config(
                    lines@[i]@,
                ),
            text::views(yaml_lines@) == wanted.take(i - begin),
        decreases end - i,
    {
        let line = line_to_yaml(lines[i].as_str());
        let ghost before = yaml_lines@;
        yaml_lines.push(line);
        proof {
            assert(views.subrange(begin as int, end as int)[i - begin] == views[i as int]);
            assert(views[i as int] == lines@[i as int]@);
            assert(wanted[i - begin] == line@);
            assert(text::views(yaml_lines@) == text::views(before).push(line@));
            assert(wanted.take(i - begin + 1) == wanted.take(i - begin).push(line@));
        }
        i += 1;
    }
    assert(wanted.take(end - begin) == wanted);
    Some(text::join(&yaml_lines, "\n"))
}

/// Strip frontmatter comment lines, returning only the SQL body.
pub fn strip_frontmatter(content: &str) -> (res: String)
    ensures
        res@ == body_of(content@),
{
    let lines = text::lines(content);
    let (_, end) = locate_config(&lines);
    let ghost views = text::views(lines@);
    let mut kept: Vec<String> = Vec::new();
    let mut i: usize = end;
    while i < lines.len()
        invariant
            views == text::views(lines@),
            end <= i <= lines@.len(),
            text::views(kept@) == views.subrange(end as int, i as int),
        decreases lines@.len() - i,
    {
        let ghost before = kept@;
        kept.push(lines[i].clone());
        proof {
            assert(text::views(kept@) == text::views(before).push(lines@[i as int]@));
            assert(views[i as int] == lines@[i as int]@);
            assert(views.subrange(end as int, i + 1) == views.subrange(end as int, i as int).push(
                views[i as int],
            ));
        }
        i += 1;
    }
    assert(views.subrange(end as int, lines@.len() as int) == views.skip(end as int));
    text::join(&kept, "\n").as_str().trim().to_owned()
}

}

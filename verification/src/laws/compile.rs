//! Laws of compiling SQL.

use vstd::prelude::*;

use crate::compiler;
use crate::compiler::{CompilerView, Target};
use crate::parser;
use crate::pattern;
use crate::pattern::CaptureView;
use crate::text;

verus! {

/// Whether no name of a function stands in `sql` right before a parenthesis.
pub open spec fn holds_no_call(sql: Seq<char>) -> bool {
    forall|i: int, name: Seq<char>|
        pattern::is_function(name) ==> !#[trigger] pattern::stands_at(sql, i, name + "("@)
}

/// Whether no two opening braces stand side by side in `sql`.
pub open spec fn holds_no_reference(sql: Seq<char>) -> bool {
    forall|i: int| !#[trigger] pattern::stands_at(sql, i, "{{"@)
}

/// Whether no prefixed call begins in `sql`.
pub open spec fn holds_no_head(sql: Seq<char>) -> bool {
    forall|j: int, name: Seq<char>|
        pattern::is_function(name) ==> !#[trigger] pattern::stands_at(
            sql,
            j,
            pattern::head_text(name),
        )
}

/// Whether the head of a call stands at the place `i` and begins a word.
pub open spec fn is_call_head(sql: Seq<char>, i: int, name: Seq<char>) -> bool {
    &&& pattern::is_function(name)
    &&& pattern::stands_at(sql, i, name + "("@)
    &&& pattern::begins_word(sql, i)
}

/// Whether the place `i` is the only one at which the head of a call stands.
pub open spec fn only_call(sql: Seq<char>, i: int) -> bool {
    forall|j: int, name: Seq<char>| #[trigger] is_call_head(sql, j, name) ==> j == i
}

/// Whether the place `i` is the only one at which a reference stands.
pub open spec fn only_reference(sql: Seq<char>, i: int) -> bool {
    forall|j: int, part: Seq<char>, name: Seq<char>|
        #[trigger] pattern::is_reference(part, name) && #[trigger] pattern::stands_at(sql, j, part)
            ==> j == i
}

/// Both parts of what stands in a text stand in it.
proof fn lemma_stands_in_parts(hay: Seq<char>, i: int, a: Seq<char>, b: Seq<char>)
    requires
        pattern::stands_at(hay, i, a + b),
    ensures
        pattern::stands_at(hay, i, a),
        pattern::stands_at(hay, i + a.len(), b),
{
    let whole = hay.subrange(i, i + (a + b).len());
    assert(hay.subrange(i, i + a.len()) =~= whole.subrange(0, a.len() as int));
    assert(whole.subrange(0, a.len() as int) =~= a);
    assert(hay.subrange(i + a.len(), i + a.len() + b.len()) =~= whole.subrange(
        a.len() as int,
        whole.len() as int,
    ));
    assert(whole.subrange(a.len() as int, whole.len() as int) =~= b);
}

/// A text stands between what comes before it and what comes after it.
proof fn lemma_stands_between(before: Seq<char>, part: Seq<char>, after: Seq<char>)
    ensures
        pattern::stands_at(before + part + after, before.len() as int, part),
        (before + part + after).take(before.len() as int) == before,
        (before + part + after).skip((before.len() + part.len()) as int) == after,
{
    let hay = before + part + after;
    let i = before.len() as int;
    assert(hay.subrange(i, i + part.len()) =~= part);
    assert(hay.take(i) =~= before);
    assert(hay.skip(i + part.len()) =~= after);
}

/// The first group of a match stands where the match starts.
pub proof fn lemma_match_stands(hay: Seq<char>, captures: Seq<CaptureView>, k: int)
    requires
        pattern::well_placed(hay, captures),
        0 <= k < captures.len(),
    ensures
        pattern::stands_at(hay, captures[k].start, captures[k].groups[0]),
        captures[k].end == captures[k].start + captures[k].groups[0].len(),
{
}

/// A text in which each match is replaced by itself stays as it is.
proof fn lemma_rewritten_by_itself(
    hay: Seq<char>,
    captures: Seq<CaptureView>,
    texts: Seq<Seq<char>>,
)
    requires
        pattern::well_placed(hay, captures),
        texts.len() == captures.len(),
        forall|k: int| 0 <= k < captures.len() ==> #[trigger] texts[k] == captures[k].groups[0],
    ensures
        pattern::rewritten(hay, captures, texts) == hay,
{
    let n = captures.len() as int;
    lemma_rewritten_before_by_itself(hay, captures, texts, n);
    assert(hay.take(pattern::end_before(captures, n)) + hay.skip(pattern::end_before(captures, n))
        =~= hay);
}

proof fn lemma_rewritten_before_by_itself(
    hay: Seq<char>,
    captures: Seq<CaptureView>,
    texts: Seq<Seq<char>>,
    k: int,
)
    requires
        pattern::well_placed(hay, captures),
        texts.len() == captures.len(),
        forall|k: int| 0 <= k < captures.len() ==> #[trigger] texts[k] == captures[k].groups[0],
        0 <= k <= captures.len(),
    ensures
        0 <= pattern::end_before(captures, k) <= hay.len(),
        pattern::rewritten_before(hay, captures, texts, k) == hay.take(
            pattern::end_before(captures, k),
        ),
    decreases k,
{
    if k == 0 {
        assert(hay.take(0) =~= Seq::empty());
    } else {
        lemma_rewritten_before_by_itself(hay, captures, texts, k - 1);
        let last = captures[k - 1];
        let begin = pattern::end_before(captures, k - 1);
        if k > 1 {
            assert(captures[k - 2].end <= last.start);
        }
        assert(texts[k - 1] == last.groups[0]);
        assert(hay.take(begin) + hay.subrange(begin, last.start) + hay.subrange(
            last.start,
            last.end,
        ) =~= hay.take(last.end));
    }
}

/// A text with one match becomes the text before it, the new text, and the
/// text behind it.
proof fn lemma_rewritten_once(hay: Seq<char>, captures: Seq<CaptureView>, texts: Seq<Seq<char>>)
    requires
        pattern::well_placed(hay, captures),
        captures.len() == 1,
        texts.len() == 1,
    ensures
        pattern::rewritten(hay, captures, texts) == hay.take(captures[0].start) + texts[0]
            + hay.skip(captures[0].end),
{
    reveal_with_fuel(pattern::rewritten_before, 2);
    assert(Seq::<char>::empty() + hay.subrange(0, captures[0].start) =~= hay.take(
        captures[0].start,
    ));
}

/// Where every match starts at one place, which is covered, there is one match.
proof fn lemma_one_match(hay: Seq<char>, captures: Seq<CaptureView>, i: int)
    requires
        pattern::well_placed(hay, captures),
        pattern::covered(captures, i),
        forall|k: int|
            0 <= k < captures.len() ==> (#[trigger] captures[k]).start == i
                && captures[k].groups[0].len() > 0,
    ensures
        captures.len() == 1,
{
    if captures.len() > 1 {
        assert(captures[0].end <= captures[1].start);
    }
}

proof fn lemma_sqlite_between(sql: Seq<char>, heads: Seq<CaptureView>, k: int, lo: int, hi: int)
    requires
        pattern::well_placed(sql, heads),
        pattern::are_bare_heads(sql, heads),
        0 <= k,
        0 <= lo <= hi <= sql.len(),
    ensures
        compiler::translated_between(sql, heads, Target::Sqlite, k, lo, hi) == sql.subrange(lo, hi),
    decreases heads.len() - k,
{
    if k < heads.len() && heads[k].start < hi {
        let head = heads[k];
        pattern::lemma_call_end(sql, head.end - 1);
        match pattern::call_end(sql, head.end - 1) {
            Some(e) => {
                if lo <= head.start && e < hi {
                    lemma_sqlite_between(sql, heads, k + 1, head.end, e);
                    lemma_sqlite_between(sql, heads, k + 1, e + 1, hi);
                    reveal_strlit(")");
                    let args = sql.subrange(head.end, e);
                    let call = pattern::call_text(head.groups[1], args);
                    assert(call == head.groups[0] + args + ")"@);
                    assert(sql.subrange(lo, hi) =~= sql.subrange(lo, head.start) + (
                    sql.subrange(head.start, head.end) + args + ")"@) + sql.subrange(e + 1, hi));
                } else {
                    lemma_sqlite_between(sql, heads, k + 1, lo, hi);
                }
            },
            None => {
                lemma_sqlite_between(sql, heads, k + 1, lo, hi);
            },
        }
    }
}

/// SQLite runs the functions under their own names: translating the calls for
/// it changes nothing.
pub proof fn law_sqlite_keeps_calls(sql: Seq<char>)
    requires
        pattern::calls_found(sql),
    ensures
        compiler::with_calls_translated(sql, Target::Sqlite) == sql,
{
    let heads = pattern::regex_captures(pattern::bare_pattern(), sql);
    lemma_sqlite_between(sql, heads, 0, 0, sql.len() as int);
    assert(sql.subrange(0, sql.len() as int) =~= sql);
}

/// SQL without a call stays as it is when prefixes are taken off and calls are
/// translated.
proof fn lemma_no_call_translated(sql: Seq<char>, target: Target)
    requires
        compiler::steps_found(sql, target),
        holds_no_call(sql),
    ensures
        compiler::without_prefixes(sql) == sql,
        compiler::with_calls_translated(sql, target) == sql,
{
    let heads = pattern::regex_captures(pattern::head_pattern(), sql);
    assert(heads.len() == 0) by {
        if heads.len() > 0 {
            let name = heads[0].groups[1];
            lemma_match_stands(sql, heads, 0);
            assert(pattern::head_text(name) =~= "nql."@ + (name + "("@));
            lemma_stands_in_parts(sql, heads[0].start, "nql."@, name + "("@);
        }
    }
    lemma_rewritten_by_itself(
        sql,
        heads,
        heads.map_values(|c: CaptureView| c.groups[1] + "("@),
    );
    let calls = pattern::regex_captures(pattern::bare_pattern(), sql);
    assert(calls.len() == 0) by {
        if calls.len() > 0 {
            lemma_match_stands(sql, calls, 0);
        }
    }
    assert(sql.subrange(0, sql.len() as int) =~= sql);
}

/// SQL without a call and without a reference compiles to itself, for every
/// target.
pub proof fn law_plain_sql_unchanged(compiler: CompilerView, sql: Seq<char>, target: Target)
    requires
        compiler::steps_found(sql, target),
        holds_no_call(sql),
        holds_no_reference(sql),
    ensures
        compiler.compiled(sql, target) == sql,
{
    lemma_no_call_translated(sql, target);
    lemma_no_reference_resolved(compiler, sql);
}

/// SQL without a reference stays as it is when references are resolved.
proof fn lemma_no_reference_resolved(compiler: CompilerView, sql: Seq<char>)
    requires
        pattern::references_found(sql),
        holds_no_reference(sql),
    ensures
        compiler.with_refs_resolved(sql) == sql,
{
    let refs = pattern::regex_captures(pattern::reference_pattern(), sql);
    assert(refs.len() == 0) by {
        if refs.len() > 0 {
            let part = refs[0].groups[0];
            let name = refs[0].groups[1];
            lemma_match_stands(sql, refs, 0);
            assert(pattern::is_reference(part, name));
            let (space, quotes) = choose|
                space: (Seq<char>, Seq<char>, Seq<char>, Seq<char>),
                quotes: (char, char),
            | part == #[trigger] pattern::reference_text(name, space, quotes);
            let rest = part.skip("{{"@.len() as int);
            assert(part =~= "{{"@ + rest);
            lemma_stands_in_parts(sql, refs[0].start, "{{"@, rest);
        }
    }
    lemma_rewritten_by_itself(
        sql,
        refs,
        refs.map_values(|c: CaptureView| compiler.table_of(c.groups[1])),
    );
}

/// The characters of which the names of functions are made.
pub open spec fn is_name_char(c: char) -> bool {
    'a' <= c <= 'z' || c == '_'
}

/// The name of a function is not empty and made of small letters and
/// underscores.
pub proof fn lemma_function_names(name: Seq<char>)
    requires
        pattern::is_function(name),
    ensures
        name.len() > 0,
        forall|j: int| 0 <= j < name.len() ==> is_name_char(#[trigger] name[j]),
        !name.contains('('),
{
    reveal_strlit("generate_text");
    reveal_strlit("summarize");
    reveal_strlit("analyze_sentiment");
    reveal_strlit("translate");
    reveal_strlit("extract_entities");
    reveal_strlit("generate_embedding");
    reveal_strlit("sentiment");
    reveal_strlit("get_facts");
    reveal_strlit("identify_groups");
    reveal_strlit("classify");
    reveal_strlit("classify_into");
    reveal_strlit("extract_json");
    reveal_strlit("detect_language");
    reveal_strlit("answer_question");
    reveal_strlit("generate_code");
    reveal_strlit("criticize");
    reveal_strlit("synthesize");
    reveal_strlit("breathe");
    reveal_strlit("zoom_in");
    reveal_strlit("abstract");
    reveal_strlit("generate_groups");
    reveal_strlit("remove_redundant_groups");
    reveal_strlit("assign_groups_to_fact");
    reveal_strlit("get_related_concepts_multi");
    reveal_strlit("get_related_facts_llm");
    reveal_strlit("find_best_link_concept");
    reveal_strlit("consolidate_facts");
    reveal_strlit("prune_fact_subset");
    let i = choose|i: int|
        0 <= i < pattern::NQL_FUNCTIONS@.len() && (#[trigger] pattern::NQL_FUNCTIONS@[i])@ == name;
    assert(pattern::NQL_FUNCTIONS@.len() == 28);
    assert forall|j: int| 0 <= j < name.len() implies is_name_char(#[trigger] name[j]) by {}
}

/// Two prefixes of one text that both end with their first `end` are the same.
proof fn lemma_same_up_to(hay: Seq<char>, i: int, a: Seq<char>, b: Seq<char>, end: char)
    requires
        pattern::stands_at(hay, i, a.push(end)),
        pattern::stands_at(hay, i, b.push(end)),
        !a.contains(end),
        !b.contains(end),
    ensures
        a == b,
{
    let x = hay.subrange(i, i + a.len() + 1);
    let y = hay.subrange(i, i + b.len() + 1);
    assert(x =~= a.push(end));
    assert(y =~= b.push(end));
    if a.len() < b.len() {
        assert(b[a.len() as int] == y[a.len() as int]);
        assert(x[a.len() as int] == end);
    } else if b.len() < a.len() {
        assert(a[b.len() as int] == x[b.len() as int]);
        assert(y[b.len() as int] == end);
    }
    assert forall|k: int| 0 <= k < a.len() implies a[k] == b[k] by {
        assert(a[k] == x[k]);
        assert(b[k] == y[k]);
    }
    assert(a =~= b);
}

/// Where the head of one call stands at a place, no other stands there.
proof fn lemma_same_head(sql: Seq<char>, i: int, name: Seq<char>, name2: Seq<char>)
    requires
        pattern::is_function(name),
        pattern::is_function(name2),
        pattern::stands_at(sql, i, name + "("@),
        pattern::stands_at(sql, i, name2 + "("@),
    ensures
        name == name2,
{
    reveal_strlit("(");
    lemma_function_names(name);
    lemma_function_names(name2);
    assert(name + "("@ =~= name.push('('));
    assert(name2 + "("@ =~= name2.push('('));
    lemma_same_up_to(sql, i, name, name2, '(');
}

/// A head of a call that begins a word is one of the matches.
pub proof fn lemma_call_head_found(sql: Seq<char>, i: int, name: Seq<char>) -> (k: int)
    requires
        pattern::calls_found(sql),
        is_call_head(sql, i, name),
    ensures
        ({
            let heads = pattern::regex_captures(pattern::bare_pattern(), sql);
            &&& 0 <= k < heads.len()
            &&& heads[k].start == i
            &&& heads[k].end == i + name.len() + 1
            &&& heads[k].groups[1] == name
        }),
{
    let heads = pattern::regex_captures(pattern::bare_pattern(), sql);
    reveal_strlit("(");
    assert(pattern::covered(heads, i));
    let k = choose|k: int|
        0 <= k < heads.len() && (#[trigger] heads[k]).start <= i < heads[k].end;
    let found = heads[k].groups[1];
    lemma_match_stands(sql, heads, k);
    lemma_function_names(found);
    if heads[k].start < i {
        let at = i - 1 - heads[k].start;
        assert(heads[k].groups[0][at] == sql[i - 1]);
        assert((found + "("@)[at] == found[at]);
    }
    lemma_same_head(sql, i, name, found);
    k
}

/// A head of a prefixed call is one of the matches.
proof fn lemma_head_found(sql: Seq<char>, i: int, name: Seq<char>) -> (k: int)
    requires
        pattern::heads_found(sql),
        pattern::is_function(name),
        pattern::stands_at(sql, i, pattern::head_text(name)),
    ensures
        ({
            let heads = pattern::regex_captures(pattern::head_pattern(), sql);
            0 <= k < heads.len() && heads[k].start == i
        }),
{
    let heads = pattern::regex_captures(pattern::head_pattern(), sql);
    reveal_strlit("(");
    reveal_strlit("nql.");
    assert(pattern::covered(heads, i));
    let k = choose|k: int|
        0 <= k < heads.len() && (#[trigger] heads[k]).start <= i < heads[k].end;
    let found = heads[k].groups[1];
    let start = heads[k].start;
    lemma_match_stands(sql, heads, k);
    lemma_function_names(found);
    assert(sql.subrange(i, i + pattern::head_text(name).len()) == pattern::head_text(name));
    assert(sql[i] == pattern::head_text(name)[0]);
    assert(sql[i + 1] == pattern::head_text(name)[1]);
    assert(sql[i + 2] == pattern::head_text(name)[2]);
    assert(sql[i + 3] == pattern::head_text(name)[3]);
    if start < i {
        let last = heads[k].end - 1;
        assert(heads[k].groups[0][last - start] == sql[last]);
        assert(sql[last] == '(');
        if i + 3 < last {
            let at = i + 3 - start;
            assert(heads[k].groups[0][at] == sql[i + 3]);
            assert(pattern::head_text(found)[at] == found[at - 4]);
        } else {
            assert(last == i || last == i + 1 || last == i + 2 || last == i + 3);
        }
    }
    k
}

/// Whether a prefixed call begins `s`.
pub open spec fn begins_head(s: Seq<char>) -> bool {
    exists|name: Seq<char>|
        pattern::is_function(name) && #[trigger] pattern::stands_at(s, 0, pattern::head_text(name))
}

/// `s` without the prefix of each prefixed call that begins in it.
pub open spec fn unprefixed(s: Seq<char>) -> Seq<char>
    decreases s.len(),
{
    if s.len() == 0 {
        s
    } else if s.len() >= 4 && begins_head(s) {
        unprefixed(s.skip(4))
    } else {
        seq![s[0]] + unprefixed(s.skip(1))
    }
}

/// What stands in a text stands at the start of what follows that place.
proof fn lemma_stands_behind(hay: Seq<char>, i: int, j: int, part: Seq<char>)
    requires
        0 <= i <= hay.len(),
        0 <= j,
    ensures
        pattern::stands_at(hay.skip(i), j, part) <==> pattern::stands_at(hay, i + j, part),
{
    if i + j + part.len() <= hay.len() {
        assert(hay.skip(i).subrange(j, j + part.len()) =~= hay.subrange(i + j, i + j + part.len()));
    }
}

/// A text in whose first `n` places no prefixed call begins keeps them.
proof fn lemma_unprefixed_plain(s: Seq<char>, n: int)
    requires
        0 <= n <= s.len(),
        forall|j: int| 0 <= j < n ==> !begins_head(#[trigger] s.skip(j)),
    ensures
        unprefixed(s) == s.take(n) + unprefixed(s.skip(n)),
    decreases n,
{
    if n == 0 {
        assert(s.skip(0) =~= s);
        assert(s.take(0) + unprefixed(s) =~= unprefixed(s));
    } else {
        let rest = s.skip(1);
        assert(s.skip(0) =~= s);
        assert forall|j: int| 0 <= j < n - 1 implies !begins_head(#[trigger] rest.skip(j)) by {
            assert(rest.skip(j) =~= s.skip(j + 1));
        }
        lemma_unprefixed_plain(rest, n - 1);
        assert(rest.skip(n - 1) =~= s.skip(n));
        assert(seq![s[0]] + rest.take(n - 1) =~= s.take(n));
        assert(seq![s[0]] + (rest.take(n - 1) + unprefixed(s.skip(n))) =~= seq![s[0]] + rest.take(
            n - 1,
        ) + unprefixed(s.skip(n)));
    }
}

/// A text that a prefixed call begins loses the prefix, and keeps the rest of
/// the head.
proof fn lemma_unprefixed_head(s: Seq<char>, name: Seq<char>)
    requires
        pattern::is_function(name),
        pattern::stands_at(s, 0, pattern::head_text(name)),
    ensures
        unprefixed(s) == name + "("@ + unprefixed(s.skip(pattern::head_text(name).len() as int)),
{
    reveal_strlit("(");
    reveal_strlit("nql.");
    lemma_function_names(name);
    let head = pattern::head_text(name);
    assert(begins_head(s));
    let rest = s.skip(4);
    let n = name.len() as int + 1;
    assert(s.subrange(0, head.len() as int) == head);
    assert forall|j: int| 0 <= j < n implies rest[j] == head[j + 4] by {
        assert(s.subrange(0, head.len() as int)[j + 4] == s[j + 4]);
    }
    assert forall|j: int| 0 <= j < n implies !begins_head(#[trigger] rest.skip(j)) by {
        if begins_head(rest.skip(j)) {
            let other = choose|other: Seq<char>|
                pattern::is_function(other) && #[trigger] pattern::stands_at(
                    rest.skip(j),
                    0,
                    pattern::head_text(other),
                );
            let text = pattern::head_text(other);
            assert(rest.skip(j).subrange(0, text.len() as int) == text);
            assert forall|a: int| 0 <= a < 4 implies rest[j + a] == text[a] by {
                assert(rest.skip(j).subrange(0, text.len() as int)[a] == rest.skip(j)[a]);
            }
            assert(text[0] == 'n' && text[1] == 'q' && text[2] == 'l' && text[3] == '.');
            assert(rest[n - 1] == '(');
            if j + 3 < n - 1 {
                assert(rest[j + 3] == name[j + 3]);
            } else {
                assert(n - 1 == j || n - 1 == j + 1 || n - 1 == j + 2 || n - 1 == j + 3);
            }
        }
    }
    lemma_unprefixed_plain(rest, n);
    assert(rest.take(n) =~= name + "("@);
    assert(rest.skip(n) =~= s.skip(head.len() as int));
}

proof fn lemma_prefixes_removed_before(sql: Seq<char>, k: int)
    requires
        pattern::heads_found(sql),
        0 <= k <= pattern::regex_captures(pattern::head_pattern(), sql).len(),
    ensures
        ({
            let heads = pattern::regex_captures(pattern::head_pattern(), sql);
            let texts = heads.map_values(|c: CaptureView| c.groups[1] + "("@);
            let end = pattern::end_before(heads, k);
            &&& 0 <= end <= sql.len()
            &&& unprefixed(sql) == pattern::rewritten_before(sql, heads, texts, k) + unprefixed(
                sql.skip(end),
            )
        }),
    decreases k,
{
    let heads = pattern::regex_captures(pattern::head_pattern(), sql);
    let texts = heads.map_values(|c: CaptureView| c.groups[1] + "("@);
    if k == 0 {
        assert(sql.skip(0) =~= sql);
        assert(Seq::empty() + unprefixed(sql) =~= unprefixed(sql));
    } else {
        lemma_prefixes_removed_before(sql, k - 1);
        let head = heads[k - 1];
        let begin = pattern::end_before(heads, k - 1);
        if k > 1 {
            assert(heads[k - 2].end <= head.start);
        }
        lemma_no_head_between(sql, k - 1, begin, head.start);
        let rest = sql.skip(begin);
        let n = head.start - begin;
        assert forall|j: int| 0 <= j < n implies !begins_head(#[trigger] rest.skip(j)) by {
            assert(rest.skip(j) =~= sql.skip(begin + j));
        }
        lemma_unprefixed_plain(rest, n);
        assert(rest.take(n) =~= sql.subrange(begin, head.start));
        assert(rest.skip(n) =~= sql.skip(head.start));
        lemma_match_stands(sql, heads, k - 1);
        lemma_stands_behind(sql, head.start, 0, head.groups[0]);
        lemma_unprefixed_head(sql.skip(head.start), head.groups[1]);
        assert(sql.skip(head.start).skip(head.groups[0].len() as int) =~= sql.skip(head.end));
        let before = pattern::rewritten_before(sql, heads, texts, k - 1);
        let gap = sql.subrange(begin, head.start);
        let tail = unprefixed(sql.skip(head.end));
        assert(texts[k - 1] == head.groups[1] + "("@);
        assert(before + (gap + (texts[k - 1] + tail)) =~= before + gap + texts[k - 1] + tail);
    }
}

/// Between the match before the match `k` and that match no prefixed call
/// begins.
proof fn lemma_no_head_between(sql: Seq<char>, k: int, begin: int, end: int)
    requires
        pattern::heads_found(sql),
        0 <= k <= pattern::regex_captures(pattern::head_pattern(), sql).len(),
        begin == pattern::end_before(pattern::regex_captures(pattern::head_pattern(), sql), k),
        0 <= begin <= end <= sql.len(),
        k < pattern::regex_captures(pattern::head_pattern(), sql).len() ==> end
            == pattern::regex_captures(pattern::head_pattern(), sql)[k].start,
    ensures
        forall|p: int| begin <= p < end ==> !begins_head(#[trigger] sql.skip(p)),
{
    let heads = pattern::regex_captures(pattern::head_pattern(), sql);
    reveal_strlit("(");
    assert forall|p: int| begin <= p < end implies !begins_head(#[trigger] sql.skip(p)) by {
        if begins_head(sql.skip(p)) {
            let name = choose|name: Seq<char>|
                pattern::is_function(name) && #[trigger] pattern::stands_at(
                    sql.skip(p),
                    0,
                    pattern::head_text(name),
                );
            lemma_stands_behind(sql, p, 0, pattern::head_text(name));
            let j = lemma_head_found(sql, p, name);
            lemma_match_stands(sql, heads, j);
            if j < k {
                if j < k - 1 {
                    assert(heads[j].end <= heads[k - 1].start);
                }
                assert(heads[j].end <= begin);
            } else if k < j {
                assert(heads[k].end <= heads[j].start);
            }
        }
    }
}

/// Taking off the prefixes removes just the prefix of each prefixed call that
/// begins in the SQL.
pub proof fn law_prefixes_removed(sql: Seq<char>)
    requires
        pattern::heads_found(sql),
    ensures
        compiler::without_prefixes(sql) == unprefixed(sql),
{
    let heads = pattern::regex_captures(pattern::head_pattern(), sql);
    let n = heads.len() as int;
    let begin = pattern::end_before(heads, n);
    lemma_prefixes_removed_before(sql, n);
    lemma_no_head_between(sql, n, begin, sql.len() as int);
    let rest = sql.skip(begin);
    assert forall|j: int| 0 <= j < rest.len() implies !begins_head(#[trigger] rest.skip(j)) by {
        assert(rest.skip(j) =~= sql.skip(begin + j));
    }
    lemma_unprefixed_plain(rest, rest.len() as int);
    assert(rest.take(rest.len() as int) + unprefixed(rest.skip(rest.len() as int)) =~= rest);
}

/// SQL in which no prefixed call begins keeps all of its text.
proof fn lemma_nothing_unprefixed(sql: Seq<char>)
    requires
        holds_no_head(sql),
    ensures
        unprefixed(sql) == sql,
{
    assert forall|j: int| 0 <= j < sql.len() implies !begins_head(#[trigger] sql.skip(j)) by {
        if begins_head(sql.skip(j)) {
            let name = choose|name: Seq<char>|
                pattern::is_function(name) && #[trigger] pattern::stands_at(
                    sql.skip(j),
                    0,
                    pattern::head_text(name),
                );
            lemma_stands_behind(sql, j, 0, pattern::head_text(name));
        }
    }
    lemma_unprefixed_plain(sql, sql.len() as int);
    assert(sql.take(sql.len() as int) + unprefixed(sql.skip(sql.len() as int)) =~= sql);
}

/// Whether `before` ends where the name of a function can begin: it is empty,
/// or ends with no ASCII word character and no dot.
pub open spec fn ends_before_name(before: Seq<char>) -> bool {
    before.len() > 0 ==> !pattern::is_ascii_word(before.last()) && before.last() != '.'
}

/// A head that begins a text lies within what comes before a name.
proof fn lemma_head_in_front(before: Seq<char>, rest: Seq<char>, name: Seq<char>)
    requires
        before.len() > 0,
        ends_before_name(before),
        pattern::is_function(name),
        pattern::stands_at(before + rest, 0, pattern::head_text(name)),
    ensures
        pattern::head_text(name).len() <= before.len(),
        pattern::stands_at(before, 0, pattern::head_text(name)),
{
    reveal_strlit("(");
    reveal_strlit("nql.");
    lemma_function_names(name);
    let head = pattern::head_text(name);
    let s = before + rest;
    assert(s.subrange(0, head.len() as int) == head);
    if head.len() > before.len() {
        let at = before.len() - 1;
        assert(s.subrange(0, head.len() as int)[at] == s[at]);
        assert(s[at] == before.last());
        if at >= 4 {
            assert(head[at] == name[at - 4]);
        }
    } else {
        assert(before.subrange(0, head.len() as int) =~= s.subrange(0, head.len() as int));
    }
}

proof fn lemma_unprefixed_optional(before: Seq<char>, name: Seq<char>, rest: Seq<char>)
    requires
        pattern::is_function(name),
        ends_before_name(before),
    ensures
        unprefixed(before + (pattern::head_text(name) + rest)) == unprefixed(
            before + (name + "("@ + rest),
        ),
    decreases before.len(),
{
    let head = pattern::head_text(name);
    let long = before + (head + rest);
    let short = before + (name + "("@ + rest);
    reveal_strlit("(");
    reveal_strlit("nql.");
    if before.len() == 0 {
        assert(long =~= head + rest);
        assert(long.subrange(0, head.len() as int) =~= head);
        assert(pattern::stands_at(long, 0, head));
        assert(begins_head(long));
        assert(long.skip(4) =~= short);
    } else {
        if begins_head(long) {
            let other = choose|other: Seq<char>|
                pattern::is_function(other) && #[trigger] pattern::stands_at(
                    long,
                    0,
                    pattern::head_text(other),
                );
            lemma_head_in_front(before, head + rest, other);
            lemma_head_behind(before, name + "("@ + rest, other);
        }
        if begins_head(short) {
            let other = choose|other: Seq<char>|
                pattern::is_function(other) && #[trigger] pattern::stands_at(
                    short,
                    0,
                    pattern::head_text(other),
                );
            lemma_head_in_front(before, name + "("@ + rest, other);
            lemma_head_behind(before, head + rest, other);
        }
        assert(begins_head(long) == begins_head(short));
        let n: int = if begins_head(long) {
            4
        } else {
            1
        };
        let left = before.skip(n);
        assert(left.len() > 0 ==> left.last() == before.last());
        lemma_unprefixed_optional(left, name, rest);
        assert(long.skip(n) =~= left + (head + rest));
        assert(short.skip(n) =~= left + (name + "("@ + rest));
        assert(long[0] == short[0]);
    }
}

/// A head that begins a text begins what the text is followed by, too.
proof fn lemma_head_behind(before: Seq<char>, rest: Seq<char>, name: Seq<char>)
    requires
        pattern::is_function(name),
        pattern::stands_at(before, 0, pattern::head_text(name)),
    ensures
        begins_head(before + rest),
        before.len() > 4,
{
    reveal_strlit("(");
    reveal_strlit("nql.");
    let head = pattern::head_text(name);
    assert((before + rest).subrange(0, head.len() as int) =~= before.subrange(
        0,
        head.len() as int,
    ));
    assert(pattern::stands_at(before + rest, 0, head));
}

/// The prefix of a call is optional: where the name of a function can begin,
/// SQL with the prefix compiles to what it compiles to without, whatever the
/// arguments are and whatever else stands in the SQL.
pub proof fn law_prefix_optional(
    compiler: CompilerView,
    before: Seq<char>,
    name: Seq<char>,
    rest: Seq<char>,
    target: Target,
)
    requires
        pattern::is_function(name),
        ends_before_name(before),
        pattern::heads_found(before + (pattern::head_text(name) + rest)),
        pattern::heads_found(before + (name + "("@ + rest)),
    ensures
        compiler.compiled(before + (pattern::head_text(name) + rest), target) == compiler.compiled(
            before + (name + "("@ + rest),
            target,
        ),
{
    law_prefixes_removed(before + (pattern::head_text(name) + rest));
    law_prefixes_removed(before + (name + "("@ + rest));
    lemma_unprefixed_optional(before, name, rest);
}

/// Translating the only call of a text replaces just that call, up to where its
/// parenthesis closes, by what the target runs in its place.
pub proof fn law_call_translated(sql: Seq<char>, i: int, name: Seq<char>, e: int, target: Target)
    requires
        pattern::calls_found(sql),
        is_call_head(sql, i, name),
        only_call(sql, i),
        pattern::call_end(sql, i + name.len()) == Some(e),
    ensures
        compiler::with_calls_translated(sql, target) == sql.take(i) + compiler::translated(
            target,
            name,
            sql.subrange(i + name.len() + 1, e),
        ) + sql.skip(e + 1),
{
    let heads = pattern::regex_captures(pattern::bare_pattern(), sql);
    reveal_strlit("(");
    pattern::lemma_call_end(sql, i + name.len());
    assert forall|k: int| 0 <= k < heads.len() implies (#[trigger] heads[k]).start == i
        && heads[k].groups[0].len() > 0 by {
        lemma_match_stands(sql, heads, k);
        assert(is_call_head(sql, heads[k].start, heads[k].groups[1]));
    }
    assert(pattern::covered(heads, i));
    lemma_one_match(sql, heads, i);
    let k = lemma_call_head_found(sql, i, name);
    reveal_with_fuel(compiler::translated_between, 3);
    assert(sql.subrange(0, i) =~= sql.take(i));
    assert(sql.subrange(e + 1, sql.len() as int) =~= sql.skip(e + 1));
}

/// A call in the arguments of another one is translated too, before that one.
pub proof fn law_nested_call_translated(
    sql: Seq<char>,
    i: int,
    name: Seq<char>,
    e: int,
    j: int,
    inner: Seq<char>,
    f: int,
    target: Target,
)
    requires
        pattern::calls_found(sql),
        is_call_head(sql, i, name),
        is_call_head(sql, j, inner),
        i < j,
        f < e,
        forall|p: int, other: Seq<char>| #[trigger]
            is_call_head(sql, p, other) ==> p == i || p == j,
        pattern::call_end(sql, i + name.len()) == Some(e),
        pattern::call_end(sql, j + inner.len()) == Some(f),
    ensures
        compiler::with_calls_translated(sql, target) == sql.take(i) + compiler::translated(
            target,
            name,
            sql.subrange(i + name.len() + 1, j) + compiler::translated(
                target,
                inner,
                sql.subrange(j + inner.len() + 1, f),
            ) + sql.subrange(f + 1, e),
        ) + sql.skip(e + 1),
{
    let heads = pattern::regex_captures(pattern::bare_pattern(), sql);
    reveal_strlit("(");
    pattern::lemma_call_end(sql, i + name.len());
    pattern::lemma_call_end(sql, j + inner.len());
    let a = lemma_call_head_found(sql, i, name);
    let b = lemma_call_head_found(sql, j, inner);
    assert forall|k: int| 0 <= k < heads.len() implies (#[trigger] heads[k]).start >= 0 && (k == a
        || k == b) by {
        lemma_match_stands(sql, heads, k);
        lemma_match_stands(sql, heads, a);
        lemma_match_stands(sql, heads, b);
        assert(is_call_head(sql, heads[k].start, heads[k].groups[1]));
        if k < a {
            assert(heads[k].end <= heads[a].start);
        } else if a < k {
            assert(heads[a].end <= heads[k].start);
        }
        if k < b {
            assert(heads[k].end <= heads[b].start);
        } else if b < k {
            assert(heads[b].end <= heads[k].start);
        }
    }
    if b < a {
        assert(heads[b].end <= heads[a].start);
    }
    assert(heads[a].end <= heads[b].start);
    assert(heads[0].start >= 0);
    assert(heads[1].start >= 0);
    if heads.len() > 2 {
        assert(heads[2].start >= 0);
    }
    assert(a == 0 && b == 1 && heads.len() == 2);
    reveal_with_fuel(compiler::translated_between, 4);
    let args = compiler::translated_between(sql, heads, target, 1, heads[0].end, e);
    assert(args == sql.subrange(i + name.len() + 1, j) + compiler::translated(
        target,
        inner,
        sql.subrange(j + inner.len() + 1, f),
    ) + sql.subrange(f + 1, e));
    assert(compiler::translated_between(sql, heads, target, 1, e + 1, sql.len() as int)
        =~= sql.skip(e + 1));
    assert(sql.subrange(0, i) =~= sql.take(i));
}

/// A reference to a registered model resolves to its table. Registering a model
/// changes the references to no other model.
pub proof fn law_registered_reference(
    compiler: CompilerView,
    name: Seq<char>,
    table: Seq<char>,
    other: Seq<char>,
)
    ensures
        ({
            let after = CompilerView { refs: compiler.refs.insert(name, table), ..compiler };
            &&& after.table_of(name) == table
            &&& other != name ==> after.table_of(other) == compiler.table_of(other)
        }),
{
}

/// A reference to a model that is not registered stands for the name of the
/// model, in the default schema where there is one.
pub proof fn law_unregistered_reference(compiler: CompilerView, name: Seq<char>)
    requires
        !compiler.refs.contains_key(name),
    ensures
        compiler.table_of(name) == match compiler.default_schema {
            Some(schema) => schema + "."@ + name,
            None => name,
        },
{
}

/// The references that are resolved are those that are listed, in their order.
pub proof fn law_listed_references_resolved(compiler: CompilerView, sql: Seq<char>)
    ensures
        compiler.with_refs_resolved(sql) == pattern::rewritten(
            sql,
            pattern::regex_captures(pattern::reference_pattern(), sql),
            parser::refs_in(sql).map_values(|name: Seq<char>| compiler.table_of(name)),
        ),
{
    let refs = pattern::regex_captures(pattern::reference_pattern(), sql);
    assert(refs.map_values(|c: CaptureView| compiler.table_of(c.groups[1]))
        =~= parser::refs_in(sql).map_values(|name: Seq<char>| compiler.table_of(name)));
}

/// Two runs of characters at one place that both go as far as a property holds
/// are the same.
proof fn lemma_same_run(
    hay: Seq<char>,
    i: int,
    property: spec_fn(char) -> bool,
    a: Seq<char>,
    a_rest: Seq<char>,
    b: Seq<char>,
    b_rest: Seq<char>,
)
    requires
        pattern::stands_at(hay, i, a + a_rest),
        pattern::stands_at(hay, i, b + b_rest),
        forall|k: int| 0 <= k < a.len() ==> property(#[trigger] a[k]),
        forall|k: int| 0 <= k < b.len() ==> property(#[trigger] b[k]),
        a_rest.len() > 0 && !property(a_rest[0]),
        b_rest.len() > 0 && !property(b_rest[0]),
    ensures
        a == b,
        pattern::stands_at(hay, i + a.len(), a_rest),
        pattern::stands_at(hay, i + a.len(), b_rest),
{
    let x = hay.subrange(i, i + (a + a_rest).len());
    let y = hay.subrange(i, i + (b + b_rest).len());
    assert(x == a + a_rest);
    assert(y == b + b_rest);
    if a.len() < b.len() {
        let k = a.len() as int;
        assert(b[k] == y[k]);
        assert(x[k] == a_rest[0]);
        assert(y[k] == x[k]);
    } else if b.len() < a.len() {
        let k = b.len() as int;
        assert(a[k] == x[k]);
        assert(y[k] == b_rest[0]);
        assert(y[k] == x[k]);
    }
    assert forall|k: int| 0 <= k < a.len() implies a[k] == b[k] by {
        assert(a[k] == x[k]);
        assert(b[k] == y[k]);
    }
    assert(a =~= b);
    lemma_stands_in_parts(hay, i, a, a_rest);
    lemma_stands_in_parts(hay, i, b, b_rest);
}

/// A blank run, a text that does not begin with white space, and what follows.
proof fn lemma_same_blank(
    sql: Seq<char>,
    i: int,
    a: Seq<char>,
    b: Seq<char>,
    mark: Seq<char>,
    a_rest: Seq<char>,
    b_rest: Seq<char>,
)
    requires
        pattern::is_blank(a),
        pattern::is_blank(b),
        mark.len() > 0,
        !text::is_white_space(mark[0]),
        pattern::stands_at(sql, i, a + (mark + a_rest)),
        pattern::stands_at(sql, i, b + (mark + b_rest)),
    ensures
        a == b,
        pattern::stands_at(sql, i + a.len() + mark.len(), a_rest),
        pattern::stands_at(sql, i + a.len() + mark.len(), b_rest),
{
    let white = |c: char| text::is_white_space(c);
    lemma_same_run(sql, i, white, a, mark + a_rest, b, mark + b_rest);
    lemma_stands_in_parts(sql, i + a.len(), mark, a_rest);
    lemma_stands_in_parts(sql, i + a.len(), mark, b_rest);
}

/// A blank run, a quoted name, and what follows.
proof fn lemma_same_name(
    sql: Seq<char>,
    i: int,
    space: (Seq<char>, Seq<char>),
    quotes: (char, char),
    quotes2: (char, char),
    name: Seq<char>,
    name2: Seq<char>,
    rest: Seq<char>,
    rest2: Seq<char>,
)
    requires
        pattern::is_blank(space.0),
        pattern::is_blank(space.1),
        pattern::is_quote(quotes.0) && pattern::is_quote(quotes.1),
        pattern::is_quote(quotes2.0) && pattern::is_quote(quotes2.1),
        pattern::can_be_referred_to(name),
        pattern::can_be_referred_to(name2),
        pattern::stands_at(sql, i, space.0 + (seq![quotes.0] + (name + (seq![quotes.1] + rest)))),
        pattern::stands_at(
            sql,
            i,
            space.1 + (seq![quotes2.0] + (name2 + (seq![quotes2.1] + rest2))),
        ),
    ensures
        space.0 == space.1,
        quotes == quotes2,
        name == name2,
        pattern::stands_at(sql, i + space.0.len() + name.len() + 2, rest),
        pattern::stands_at(sql, i + space.0.len() + name.len() + 2, rest2),
{
    let b = seq![quotes.1] + rest;
    let b2 = seq![quotes2.1] + rest2;
    let white = |c: char| text::is_white_space(c);
    lemma_same_run(
        sql,
        i,
        white,
        space.0,
        seq![quotes.0] + (name + b),
        space.1,
        seq![quotes2.0] + (name2 + b2),
    );
    let at = i + space.0.len();
    lemma_stands_in_parts(sql, at, seq![quotes.0], name + b);
    lemma_stands_in_parts(sql, at, seq![quotes2.0], name2 + b2);
    assert(seq![quotes.0][0] == seq![quotes2.0][0]);
    let at = at + 1;
    lemma_same_run(sql, at, |c: char| !pattern::is_quote(c), name, b, name2, b2);
    let at = at + name.len();
    lemma_stands_in_parts(sql, at, seq![quotes.1], rest);
    lemma_stands_in_parts(sql, at, seq![quotes2.1], rest2);
    assert(seq![quotes.1][0] == seq![quotes2.1][0]);
}

/// What stands in a reference behind the name.
spec fn reference_end(space: (Seq<char>, Seq<char>, Seq<char>, Seq<char>)) -> Seq<char> {
    space.2 + (")"@ + (space.3 + ("}}"@ + Seq::<char>::empty())))
}

/// What stands in a reference behind its opening.
spec fn reference_rest(
    name: Seq<char>,
    space: (Seq<char>, Seq<char>, Seq<char>, Seq<char>),
    quotes: (char, char),
) -> Seq<char> {
    space.1 + (seq![quotes.0] + (name + (seq![quotes.1] + reference_end(space))))
}

proof fn lemma_reference_parts(
    name: Seq<char>,
    space: (Seq<char>, Seq<char>, Seq<char>, Seq<char>),
    quotes: (char, char),
)
    ensures
        pattern::reference_text(name, space, quotes) == "{{"@ + (space.0 + ("ref("@
            + reference_rest(name, space, quotes))),
{
    assert(pattern::reference_text(name, space, quotes) =~= "{{"@ + (space.0 + ("ref("@
        + reference_rest(name, space, quotes))));
}

/// Where a reference stands at a place, no other reference stands there.
pub proof fn lemma_same_reference(
    sql: Seq<char>,
    i: int,
    part: Seq<char>,
    name: Seq<char>,
    part2: Seq<char>,
    name2: Seq<char>,
)
    requires
        pattern::is_reference(part, name),
        pattern::is_reference(part2, name2),
        pattern::stands_at(sql, i, part),
        pattern::stands_at(sql, i, part2),
    ensures
        part == part2,
        name == name2,
{
    let (s, q) = choose|
        space: (Seq<char>, Seq<char>, Seq<char>, Seq<char>),
        quotes: (char, char),
    |
        part == #[trigger] pattern::reference_text(name, space, quotes) && pattern::is_blank(
            space.0,
        ) && pattern::is_blank(space.1) && pattern::is_blank(space.2) && pattern::is_blank(space.3)
            && pattern::is_quote(quotes.0) && pattern::is_quote(quotes.1);
    let (s2, q2) = choose|
        space: (Seq<char>, Seq<char>, Seq<char>, Seq<char>),
        quotes: (char, char),
    |
        part2 == #[trigger] pattern::reference_text(name2, space, quotes) && pattern::is_blank(
            space.0,
        ) && pattern::is_blank(space.1) && pattern::is_blank(space.2) && pattern::is_blank(space.3)
            && pattern::is_quote(quotes.0) && pattern::is_quote(quotes.1);
    lemma_same_reference_parts(sql, i, name, s, q, name2, s2, q2);
}

proof fn lemma_same_reference_parts(
    sql: Seq<char>,
    i: int,
    name: Seq<char>,
    s: (Seq<char>, Seq<char>, Seq<char>, Seq<char>),
    q: (char, char),
    name2: Seq<char>,
    s2: (Seq<char>, Seq<char>, Seq<char>, Seq<char>),
    q2: (char, char),
)
    requires
        pattern::can_be_referred_to(name),
        pattern::can_be_referred_to(name2),
        pattern::is_quote(q.0) && pattern::is_quote(q.1),
        pattern::is_quote(q2.0) && pattern::is_quote(q2.1),
        pattern::is_blank(s.0) && pattern::is_blank(s.1) && pattern::is_blank(s.2)
            && pattern::is_blank(s.3),
        pattern::is_blank(s2.0) && pattern::is_blank(s2.1) && pattern::is_blank(s2.2)
            && pattern::is_blank(s2.3),
        pattern::stands_at(sql, i, pattern::reference_text(name, s, q)),
        pattern::stands_at(sql, i, pattern::reference_text(name2, s2, q2)),
    ensures
        s == s2,
        q == q2,
        name == name2,
{
    let e = reference_end(s);
    let e2 = reference_end(s2);
    let r = reference_rest(name, s, q);
    let r2 = reference_rest(name2, s2, q2);
    lemma_reference_parts(name, s, q);
    lemma_reference_parts(name2, s2, q2);
    lemma_stands_in_parts(sql, i, "{{"@, s.0 + ("ref("@ + r));
    lemma_stands_in_parts(sql, i, "{{"@, s2.0 + ("ref("@ + r2));
    let at = i + "{{"@.len();
    assert("ref("@.len() > 0 && !text::is_white_space("ref("@[0])) by {
        reveal_strlit("ref(");
    }
    lemma_same_blank(sql, at, s.0, s2.0, "ref("@, r, r2);
    let at = at + s.0.len() + "ref("@.len();
    lemma_same_name(sql, at, (s.1, s2.1), q, q2, name, name2, e, e2);
    let at = at + s.1.len() + name.len() + 2;
    let d = s.3 + ("}}"@ + Seq::<char>::empty());
    let d2 = s2.3 + ("}}"@ + Seq::<char>::empty());
    assert(")"@.len() > 0 && !text::is_white_space(")"@[0])) by {
        reveal_strlit(")");
    }
    lemma_same_blank(sql, at, s.2, s2.2, ")"@, d, d2);
    let at = at + s.2.len() + ")"@.len();
    assert("}}"@.len() > 0 && !text::is_white_space("}}"@[0])) by {
        reveal_strlit("}}");
    }
    lemma_same_blank(sql, at, s.3, s2.3, "}}"@, Seq::empty(), Seq::empty());
}

/// Resolving the only reference of a text replaces just that reference, by the
/// table that it stands for.
pub proof fn law_reference_resolved(
    compiler: CompilerView,
    sql: Seq<char>,
    i: int,
    part: Seq<char>,
    name: Seq<char>,
)
    requires
        pattern::references_found(sql),
        pattern::is_reference(part, name),
        pattern::stands_at(sql, i, part),
        only_reference(sql, i),
    ensures
        compiler.with_refs_resolved(sql) == sql.take(i) + compiler.table_of(name) + sql.skip(
            i + part.len(),
        ),
{
    let refs = pattern::regex_captures(pattern::reference_pattern(), sql);
    reveal_strlit("{{");
    assert forall|k: int| 0 <= k < refs.len() implies (#[trigger] refs[k]).start == i
        && refs[k].groups[0].len() > 0 by {
        lemma_match_stands(sql, refs, k);
        assert(pattern::is_reference(refs[k].groups[0], refs[k].groups[1]));
    }
    assert(pattern::covered(refs, i));
    lemma_one_match(sql, refs, i);
    lemma_match_stands(sql, refs, 0);
    assert(pattern::is_reference(refs[0].groups[0], refs[0].groups[1]));
    lemma_same_reference(sql, i, part, name, refs[0].groups[0], refs[0].groups[1]);
    lemma_rewritten_once(
        sql,
        refs,
        refs.map_values(|c: CaptureView| compiler.table_of(c.groups[1])),
    );
}

/// A reference that is the only one in SQL without calls compiles to the table
/// that it stands for, and the text around it is kept.
pub proof fn law_reference_compiles(
    compiler: CompilerView,
    before: Seq<char>,
    part: Seq<char>,
    name: Seq<char>,
    after: Seq<char>,
    target: Target,
)
    requires
        compiler::steps_found(before + part + after, target),
        holds_no_call(before + part + after),
        pattern::is_reference(part, name),
        only_reference(before + part + after, before.len() as int),
    ensures
        compiler.compiled(before + part + after, target) == before + compiler.table_of(name)
            + after,
{
    lemma_no_call_translated(before + part + after, target);
    lemma_stands_between(before, part, after);
    law_reference_resolved(compiler, before + part + after, before.len() as int, part, name);
}

/// A prefixed call that is the only call in SQL without references compiles to
/// what the target runs in its place, and the text around it is kept.
pub proof fn law_prefixed_call_compiles(
    compiler: CompilerView,
    before: Seq<char>,
    name: Seq<char>,
    args: Seq<char>,
    after: Seq<char>,
    target: Target,
)
    requires
        ({
            let sql = before + (pattern::head_text(name) + (args + ")"@ + after));
            let bare = before + (name + "("@ + (args + ")"@ + after));
            let open = (before.len() + name.len()) as int;
            &&& compiler::steps_found(sql, target)
            &&& holds_no_head(bare)
            &&& only_call(bare, before.len() as int)
            &&& pattern::begins_word(bare, before.len() as int)
            &&& pattern::closes(bare, open, open + 1 + args.len())
            &&& holds_no_reference(before + compiler::translated(target, name, args) + after)
        }),
        pattern::is_function(name),
        ends_before_name(before),
    ensures
        compiler.compiled(before + (pattern::head_text(name) + (args + ")"@ + after)), target)
            == before + compiler::translated(target, name, args) + after,
{
    let i = before.len() as int;
    let rest = args + ")"@ + after;
    let sql = before + (pattern::head_text(name) + rest);
    let bare = before + (name + "("@ + rest);
    let translated = before + compiler::translated(target, name, args) + after;
    law_prefixes_removed(sql);
    lemma_unprefixed_optional(before, name, rest);
    lemma_nothing_unprefixed(bare);
    reveal_strlit("(");
    reveal_strlit(")");
    let open = i + name.len();
    let e = open + 1 + args.len();
    pattern::lemma_call_end(bare, open);
    assert(bare.subrange(i, i + (name + "("@).len()) =~= name + "("@);
    assert(is_call_head(bare, i, name));
    law_call_translated(bare, i, name, e, target);
    assert(bare.take(i) =~= before);
    assert(bare.subrange(open + 1, e) =~= args);
    assert(bare.skip(e + 1) =~= after);
    lemma_no_reference_resolved(compiler, translated);
}

/// Two calls one behind the other are both translated, and the text before,
/// between and behind them is kept.
pub proof fn law_both_calls_translated(
    sql: Seq<char>,
    i: int,
    name: Seq<char>,
    e: int,
    j: int,
    other: Seq<char>,
    f: int,
    target: Target,
)
    requires
        pattern::calls_found(sql),
        is_call_head(sql, i, name),
        is_call_head(sql, j, other),
        e < j,
        forall|p: int, func: Seq<char>| #[trigger]
            is_call_head(sql, p, func) ==> p == i || p == j,
        pattern::call_end(sql, i + name.len()) == Some(e),
        pattern::call_end(sql, j + other.len()) == Some(f),
    ensures
        compiler::with_calls_translated(sql, target) == sql.take(i) + compiler::translated(
            target,
            name,
            sql.subrange(i + name.len() + 1, e),
        ) + (sql.subrange(e + 1, j) + compiler::translated(
            target,
            other,
            sql.subrange(j + other.len() + 1, f),
        ) + sql.skip(f + 1)),
{
    let heads = pattern::regex_captures(pattern::bare_pattern(), sql);
    pattern::lemma_call_end(sql, i + name.len());
    pattern::lemma_call_end(sql, j + other.len());
    let a = lemma_call_head_found(sql, i, name);
    let b = lemma_call_head_found(sql, j, other);
    assert forall|k: int| 0 <= k < heads.len() implies (#[trigger] heads[k]).start >= 0 && (k == a
        || k == b) by {
        lemma_match_stands(sql, heads, k);
        assert(is_call_head(sql, heads[k].start, heads[k].groups[1]));
        lemma_function_names(heads[k].groups[1]);
        if k < a {
            assert(heads[k].end <= heads[a].start);
        } else if a < k {
            assert(heads[a].end <= heads[k].start);
        }
        if k < b {
            assert(heads[k].end <= heads[b].start);
        } else if b < k {
            assert(heads[b].end <= heads[k].start);
        }
    }
    if b < a {
        assert(heads[b].end <= heads[a].start);
    }
    assert(heads[0].start >= 0);
    assert(heads[1].start >= 0);
    if heads.len() > 2 {
        assert(heads[2].start >= 0);
    }
    assert(a == 0 && b == 1 && heads.len() == 2);
    reveal_with_fuel(compiler::translated_between, 4);
    assert(compiler::translated_between(sql, heads, target, 1, heads[0].end, e) == sql.subrange(
        i + name.len() + 1,
        e,
    ));
    assert(compiler::translated_between(sql, heads, target, 2, heads[1].end, f) == sql.subrange(
        j + other.len() + 1,
        f,
    ));
    assert(sql.subrange(f + 1, sql.len() as int) =~= sql.skip(f + 1));
    assert(sql.subrange(0, i) =~= sql.take(i));
}

/// Each reference that is found is replaced by the table that it stands for, from
/// the first to the last, and the text before, between and behind them is kept.
pub proof fn law_references_resolved_in_turn(
    compiler: CompilerView,
    sql: Seq<char>,
    i: int,
    part: Seq<char>,
    name: Seq<char>,
    j: int,
    other_part: Seq<char>,
    other: Seq<char>,
)
    requires
        pattern::references_found(sql),
        pattern::is_reference(part, name),
        pattern::is_reference(other_part, other),
        pattern::stands_at(sql, i, part),
        pattern::stands_at(sql, j, other_part),
        i + part.len() <= j,
        forall|p: int, text: Seq<char>, model: Seq<char>| #[trigger]
            pattern::is_reference(text, model) && #[trigger] pattern::stands_at(sql, p, text)
                ==> p == i || p == j,
    ensures
        compiler.with_refs_resolved(sql) == sql.take(i) + compiler.table_of(name) + sql.subrange(
            i + part.len(),
            j,
        ) + compiler.table_of(other) + sql.skip(j + other_part.len()),
{
    let refs = pattern::regex_captures(pattern::reference_pattern(), sql);
    reveal_strlit("{{");
    assert forall|k: int| 0 <= k < refs.len() implies ((#[trigger] refs[k]).start == i
        || refs[k].start == j) && refs[k].start < refs[k].end by {
        lemma_match_stands(sql, refs, k);
        assert(pattern::is_reference(refs[k].groups[0], refs[k].groups[1]));
    }
    assert(pattern::covered(refs, i));
    assert(pattern::covered(refs, j));
    let a = choose|k: int| 0 <= k < refs.len() && (#[trigger] refs[k]).start <= i < refs[k].end;
    let b = choose|k: int| 0 <= k < refs.len() && (#[trigger] refs[k]).start <= j < refs[k].end;
    lemma_match_stands(sql, refs, a);
    lemma_match_stands(sql, refs, b);
    assert(refs[a].start == i);
    lemma_same_reference(sql, i, part, name, refs[a].groups[0], refs[a].groups[1]);
    assert(refs[b].start == j);
    lemma_same_reference(sql, j, other_part, other, refs[b].groups[0], refs[b].groups[1]);
    assert forall|k: int| 0 <= k < refs.len() implies (#[trigger] refs[k]).start >= 0 && (k == a || k
        == b) by {
        assert(refs[k].start == i || refs[k].start == j);
        if k < a {
            assert(refs[k].end <= refs[a].start);
        } else if a < k {
            assert(refs[a].end <= refs[k].start);
        }
        if k < b {
            assert(refs[k].end <= refs[b].start);
        } else if b < k {
            assert(refs[b].end <= refs[k].start);
        }
    }
    if b < a {
        assert(refs[b].end <= refs[a].start);
    }
    assert(refs[0].start >= 0);
    assert(refs[1].start >= 0);
    if refs.len() > 2 {
        assert(refs[2].start >= 0);
    }
    assert(a == 0 && b == 1 && refs.len() == 2);
    reveal_with_fuel(pattern::rewritten_before, 3);
    assert(sql.subrange(0, i) =~= sql.take(i));
    assert(Seq::<char>::empty() + sql.subrange(0, i) =~= sql.take(i));
}

/// In lower case a target has these names, and a name that is none of them is
/// refused as it was given.
pub proof fn law_target_names(name: Seq<char>)
    ensures
        compiler::target_named(name) == Some(Target::Sqlite) <==> name == "sqlite"@,
        compiler::target_named(name) == Some(Target::Postgresql) <==> name == "postgresql"@ || name
            == "postgres"@ || name == "pg"@,
        compiler::target_named(name) == Some(Target::Snowflake) <==> name == "snowflake"@ || name
            == "sf"@,
        compiler::target_named(name) == Some(Target::Bigquery) <==> name == "bigquery"@ || name
            == "bq"@,
        compiler::target_named(name) == Some(Target::Databricks) <==> name == "databricks"@ || name
            == "dbx"@ || name == "spark"@,
        compiler::unknown_target(name) == "Unknown target: '"@ + name
            + "'. Expected: sqlite, postgresql, snowflake, bigquery, databricks"@,
{
    reveal_strlit("sqlite");
    reveal_strlit("postgresql");
    reveal_strlit("postgres");
    reveal_strlit("pg");
    reveal_strlit("snowflake");
    reveal_strlit("sf");
    reveal_strlit("bigquery");
    reveal_strlit("bq");
    reveal_strlit("databricks");
    reveal_strlit("dbx");
    reveal_strlit("spark");
    assert("sqlite"@.len() == 6 && "postgresql"@.len() == 10 && "postgres"@.len() == 8
        && "pg"@.len() == 2 && "snowflake"@.len() == 9 && "sf"@.len() == 2 && "bigquery"@.len() == 8
        && "bq"@.len() == 2 && "databricks"@.len() == 10 && "dbx"@.len() == 3 && "spark"@.len()
        == 5);
    assert("postgresql"@[0] == 'p' && "postgres"@[0] == 'p' && "pg"@[0] == 'p' && "sf"@[0] == 's'
        && "bigquery"@[0] == 'b' && "bq"@[0] == 'b' && "databricks"@[0] == 'd');
}

/// However many calls a text holds, each is translated in turn. The text from a
/// place on is kept up to the next call; that one is replaced by what the target
/// runs, with its arguments translated before; and the text behind it is
/// translated in the same way. Without another call the text is kept.
pub proof fn law_each_call_translated(
    sql: Seq<char>,
    heads: Seq<CaptureView>,
    target: Target,
    k: int,
    lo: int,
    hi: int,
    e: int,
)
    requires
        0 <= k,
        0 <= lo <= hi <= sql.len(),
    ensures
        compiler::with_calls_translated(sql, target) == compiler::translated_between(
            sql,
            pattern::regex_captures(pattern::bare_pattern(), sql),
            target,
            0,
            0,
            sql.len() as int,
        ),
        k >= heads.len() || heads[k].start >= hi ==> compiler::translated_between(
            sql,
            heads,
            target,
            k,
            lo,
            hi,
        ) == sql.subrange(lo, hi),
        k < heads.len() && lo <= heads[k].start < hi && e < hi && pattern::call_end(
            sql,
            heads[k].end - 1,
        ) == Some(e) ==> compiler::translated_between(sql, heads, target, k, lo, hi)
            == sql.subrange(lo, heads[k].start) + compiler::translated(
            target,
            heads[k].groups[1],
            compiler::translated_between(sql, heads, target, k + 1, heads[k].end, e),
        ) + compiler::translated_between(sql, heads, target, k + 1, e + 1, hi),
{
}

proof fn lemma_rewritten_in_front(
    hay: Seq<char>,
    captures: Seq<CaptureView>,
    texts: Seq<Seq<char>>,
    m: int,
    n: int,
    end: int,
)
    requires
        pattern::well_placed(hay, captures),
        texts.len() == captures.len(),
        0 <= m <= n <= captures.len(),
        0 <= end <= hay.len(),
        forall|k: int| 0 <= k < m ==> (#[trigger] captures[k]).end <= end,
    ensures
        pattern::rewritten_before(hay, captures, texts, m) == pattern::rewritten_before(
            hay.take(end),
            captures.take(n),
            texts.take(n),
            m,
        ),
    decreases m,
{
    if m > 0 {
        lemma_rewritten_in_front(hay, captures, texts, m - 1, n, end);
        let last = captures[m - 1];
        let begin = pattern::end_before(captures, m - 1);
        assert(captures.take(n)[m - 1] == last);
        assert(texts.take(n)[m - 1] == texts[m - 1]);
        if m > 1 {
            assert(captures.take(n)[m - 2] == captures[m - 2]);
            assert(captures[m - 2].end <= last.start);
        }
        assert(hay.take(end).subrange(begin, last.start) =~= hay.subrange(begin, last.start));
    }
}

/// However many matches are replaced, each is replaced by its own text and what
/// stands between them is kept: the last match and what follows it are replaced
/// and kept alone, and so are those before it in the text before it.
pub proof fn law_matches_are_rewritten(
    hay: Seq<char>,
    captures: Seq<CaptureView>,
    texts: Seq<Seq<char>>,
)
    requires
        pattern::well_placed(hay, captures),
        texts.len() == captures.len(),
    ensures
        captures.len() == 0 ==> pattern::rewritten(hay, captures, texts) == hay,
        captures.len() > 0 ==> pattern::rewritten(hay, captures, texts) == pattern::rewritten(
            hay.take(captures.last().start),
            captures.drop_last(),
            texts.drop_last(),
        ) + texts.last() + hay.skip(captures.last().end),
{
    if captures.len() == 0 {
        assert(Seq::<char>::empty() + hay.skip(0) =~= hay);
    } else {
        let n = captures.len() as int;
        let last = captures.last();
        let front = hay.take(last.start);
        assert forall|k: int| 0 <= k < n - 1 implies (#[trigger] captures[k]).end
            <= last.start by {
            assert(captures[k].end <= captures[n - 1].start);
        }
        lemma_rewritten_in_front(hay, captures, texts, n - 1, n - 1, last.start);
        assert(captures.take(n - 1) =~= captures.drop_last());
        assert(texts.take(n - 1) =~= texts.drop_last());
        let begin = pattern::end_before(captures, n - 1);
        if n > 1 {
            assert(captures.drop_last()[n - 2] == captures[n - 2]);
        }
        assert(front.skip(begin) =~= hay.subrange(begin, last.start));
    }
}

/// Whatever stands in SQL, all of it is compiled: of what is left where the prefix
/// of each prefixed call is taken off, the calls are translated, and of what this
/// gives, in the arguments of calls too, the references are resolved.
pub proof fn law_all_is_compiled(
    compiler: CompilerView,
    sql: Seq<char>,
    target: Target,
    called: Seq<char>,
)
    requires
        pattern::heads_found(sql),
        called == compiler::with_calls_translated(unprefixed(sql), target),
    ensures
        compiler.compiled(sql, target) == compiler.with_refs_resolved(called),
{
    law_prefixes_removed(sql);
}

}

//! The law that compiling leaves no parenthesis open.

use vstd::prelude::*;

use crate::compiler;
use crate::compiler::{CompilerView, Target};
use crate::laws::compile;
use crate::laws::parentheses;
use crate::laws::parentheses::reading;
use crate::laws::templates;
use crate::pattern;
use crate::pattern::CaptureView;
use crate::text;

verus! {

/// Whether the place `i` of `sql` stands in a single-quoted string.
pub open spec fn in_string(sql: Seq<char>, i: int) -> bool {
    reading(sql.take(i), false).quoted
}

/// Whether each head of a call from the place `lo` up to the place `hi` stands
/// in a single-quoted string.
pub open spec fn heads_in_strings(sql: Seq<char>, lo: int, hi: int) -> bool {
    forall|i: int, name: Seq<char>|
        lo <= i < hi && #[trigger] compile::is_call_head(sql, i, name) ==> in_string(sql, i)
}

/// Whether each call whose head stands in a single-quoted string either ends in
/// it or takes in, from there on, only pairs of quotes around what closes its
/// own parentheses and holds no call.
pub open spec fn calls_stand_clear(sql: Seq<char>) -> bool {
    forall|i: int, name: Seq<char>, e: int|
        #![trigger compile::is_call_head(sql, i, name), sql.subrange(i, e)]
        compile::is_call_head(sql, i, name) && in_string(sql, i) && pattern::call_end(
            sql,
            i + name.len(),
        ) == Some(e) ==> parentheses::is_calm(sql.subrange(i, e)) && heads_in_strings(sql, i, e)
}

/// Whether each reference in `sql`, and the table that it stands for, leaves the
/// quotes and parentheses around it as they are.
pub open spec fn references_stand_clear(compiler: CompilerView, sql: Seq<char>) -> bool {
    forall|i: int, part: Seq<char>, name: Seq<char>|
        #[trigger] pattern::is_reference(part, name) && #[trigger] pattern::stands_at(sql, i, part)
            ==> parentheses::is_neutral(part) && parentheses::is_neutral(compiler.table_of(name))
}

/// Where more parentheses open than close from the place `open` up to each place
/// behind it, the number never falls below none.
proof fn lemma_stays_open(sql: Seq<char>, open: int, k: int)
    requires
        0 <= open < k <= sql.len(),
        sql[open] == '(',
        forall|j: int| open < j <= k ==> #[trigger] pattern::balance(sql, open, j) > 0,
    ensures
        ({
            let args = reading(sql.subrange(open + 1, k), false);
            &&& args.low == 0
            &&& args.level == pattern::balance(sql, open, k) - 1
            &&& args.quoted == reading(sql.subrange(open, k), false).quoted
        }),
    decreases k - open,
{
    let a = seq!['('];
    assert(a.drop_last() =~= Seq::empty());
    reveal_with_fuel(pattern::reading, 2);
    assert(reading(a, false) == (pattern::Reading { quoted: false, level: 1, low: 0 }));
    let args = sql.subrange(open + 1, k);
    assert(sql.subrange(open, k) =~= a + args);
    parentheses::lemma_read_both(a, args, false);
    assert(pattern::balance(sql, open, k) > 0);
    if k > open + 1 {
        lemma_stays_open(sql, open, k - 1);
        assert(args.drop_last() =~= sql.subrange(open + 1, k - 1));
    }
}

/// What a call whose parenthesis closes is read as: it changes nothing, and
/// neither do its arguments.
proof fn lemma_closed_call(sql: Seq<char>, open: int, e: int)
    requires
        pattern::closes(sql, open, e),
    ensures
        sql[open] == '(',
        reading(sql.subrange(open, e + 1), false) == parentheses::unmoved(false),
        reading(sql.subrange(open + 1, e), false) == parentheses::unmoved(false),
{
    assert(pattern::balance(sql, open, open + 1) > 0);
    pattern::lemma_read_on(sql, open, open);
    assert(sql.subrange(open, open) =~= Seq::empty());
    assert(pattern::balance(sql, open, e) > 0);
    pattern::lemma_read_on(sql, open, e);
    lemma_stays_open(sql, open, e);
    let a = seq!['('];
    let args = sql.subrange(open + 1, e);
    let whole = sql.subrange(open, e + 1);
    assert(a.drop_last() =~= Seq::empty());
    reveal_with_fuel(pattern::reading, 2);
    assert(reading(a, false) == (pattern::Reading { quoted: false, level: 1, low: 0 }));
    assert(whole.drop_last() =~= a + args);
    parentheses::lemma_read_both(a, args, false);
    assert(sql.subrange(open, e) =~= a + args);
}

/// A name and an opening parenthesis end where a string is open just where one
/// was before them.
proof fn lemma_head_reading(sql: Seq<char>, heads: Seq<CaptureView>, k: int)
    requires
        pattern::well_placed(sql, heads),
        pattern::are_bare_heads(sql, heads),
        0 <= k < heads.len(),
    ensures
        heads[k].start < heads[k].end - 1,
        sql[heads[k].end - 1] == '(',
        forall|j: int|
            heads[k].start <= j < heads[k].end - 1 ==> parentheses::is_plain_char(
                #[trigger] sql[j],
            ),
        heads[k].end - 1 - heads[k].start == heads[k].groups[1].len(),
        in_string(sql, heads[k].end - 1) == in_string(sql, heads[k].start),
        in_string(sql, heads[k].end) == in_string(sql, heads[k].start),
{
    let head = heads[k];
    let name = head.groups[1];
    let open = head.end - 1;
    reveal_strlit("(");
    compile::lemma_function_names(name);
    compile::lemma_match_stands(sql, heads, k);
    assert forall|j: int| head.start <= j < open implies parentheses::is_plain_char(
        #[trigger] sql[j],
    ) by {
        assert(head.groups[0][j - head.start] == sql[j]);
        assert(compile::is_name_char(name[j - head.start]));
    }
    assert(head.groups[0][open - head.start] == sql[open]);
    let before = sql.take(head.start);
    let word = sql.subrange(head.start, open);
    assert(sql.take(open) =~= before + word);
    parentheses::lemma_read_both(before, word, false);
    parentheses::lemma_plain(word, in_string(sql, head.start));
    assert(sql.take(head.end).drop_last() =~= sql.take(open));
}

/// Whether each call outside of strings whose head stands from the place `lo` up
/// to the place `hi` closes before `hi`.
spec fn calls_close(sql: Seq<char>, heads: Seq<CaptureView>, lo: int, hi: int) -> bool {
    forall|j: int|
        0 <= j < heads.len() && lo <= (#[trigger] heads[j]).start < hi && !in_string(
            sql,
            heads[j].start,
        ) ==> closes_before(sql, heads[j].end - 1, hi)
}

spec fn closes_before(sql: Seq<char>, open: int, hi: int) -> bool {
    exists|e: int| e < hi && #[trigger] pattern::closes(sql, open, e)
}

/// Whether each of the heads from the place `lo` up to the place `hi` stands in
/// a string.
spec fn are_in_strings(sql: Seq<char>, heads: Seq<CaptureView>, lo: int, hi: int) -> bool {
    forall|j: int|
        0 <= j < heads.len() && lo <= (#[trigger] heads[j]).start < hi ==> in_string(
            sql,
            heads[j].start,
        )
}

/// Whether each call whose head stands in a string leaves alone what stands
/// outside of it.
spec fn heads_stand_clear(sql: Seq<char>, heads: Seq<CaptureView>) -> bool {
    forall|j: int|
        0 <= j < heads.len() && in_string(sql, (#[trigger] heads[j]).start) ==> match pattern::call_end(
            sql,
            heads[j].end - 1,
        ) {
            Some(e) => parentheses::is_calm(sql.subrange(heads[j].start, e)) && are_in_strings(
                sql,
                heads,
                heads[j].start,
                e,
            ),
            None => true,
        }
}

/// Behind a place in a string, a string is open where reading from that place
/// finds none.
proof fn lemma_from_string(sql: Seq<char>, a: int, b: int)
    requires
        0 <= a <= b <= sql.len(),
        in_string(sql, a),
    ensures
        in_string(sql, b) == !reading(sql.subrange(a, b), false).quoted,
{
    assert(sql.take(b) =~= sql.take(a) + sql.subrange(a, b));
    parentheses::lemma_read_both(sql.take(a), sql.subrange(a, b), false);
    parentheses::lemma_other_quotes(sql.subrange(a, b));
}

/// A part of a calm text that begins and ends in strings is calm.
proof fn lemma_calm_within(sql: Seq<char>, lo: int, hi: int, a: int, b: int)
    requires
        0 <= lo <= a <= b <= hi <= sql.len(),
        parentheses::is_calm(sql.subrange(lo, hi)),
        in_string(sql, lo),
        in_string(sql, a),
        in_string(sql, b),
    ensures
        parentheses::is_calm(sql.subrange(a, b)),
{
    let whole = sql.subrange(lo, hi);
    lemma_from_string(sql, lo, a);
    lemma_from_string(sql, lo, b);
    assert(whole.take(a - lo) =~= sql.subrange(lo, a));
    assert(whole.take(b - lo) =~= sql.subrange(lo, b));
    parentheses::lemma_calm_part(whole, a - lo, b - lo);
    assert(whole.subrange(a - lo, b - lo) =~= sql.subrange(a, b));
}

/// A call whose head stands in a string ends in one.
proof fn lemma_call_in_string(sql: Seq<char>, heads: Seq<CaptureView>, k: int, e: int)
    requires
        pattern::well_placed(sql, heads),
        pattern::are_bare_heads(sql, heads),
        heads_stand_clear(sql, heads),
        0 <= k < heads.len(),
        in_string(sql, heads[k].start),
        pattern::call_end(sql, heads[k].end - 1) == Some(e),
    ensures
        heads[k].end <= e < sql.len(),
        in_string(sql, heads[k].end),
        in_string(sql, e),
        in_string(sql, e + 1),
        parentheses::is_calm(sql.subrange(heads[k].end, e)),
        are_in_strings(sql, heads, heads[k].end, e),
        reading(sql.subrange(heads[k].start, e + 1), true) == parentheses::unmoved(true),
{
    let start = heads[k].start;
    let part = sql.subrange(start, e);
    let call = sql.subrange(start, e + 1);
    pattern::lemma_call_end(sql, heads[k].end - 1);
    lemma_head_reading(sql, heads, k);
    lemma_from_string(sql, start, e);
    assert(sql.take(e + 1).drop_last() =~= sql.take(e));
    lemma_calm_within(sql, start, e, heads[k].end, e);
    assert(part.take(part.len() as int) =~= part);
    assert(call.drop_last() =~= part);
}

/// A call in the arguments of one that closes closes before it does.
proof fn lemma_inner_calls_close(sql: Seq<char>, heads: Seq<CaptureView>, k: int, e: int)
    requires
        pattern::well_placed(sql, heads),
        pattern::are_bare_heads(sql, heads),
        0 <= k < heads.len(),
        !in_string(sql, heads[k].start),
        pattern::closes(sql, heads[k].end - 1, e),
    ensures
        calls_close(sql, heads, heads[k].end, e),
{
    let open = heads[k].end - 1;
    lemma_head_reading(sql, heads, k);
    assert(pattern::balance(sql, open, e) > 0);
    pattern::lemma_read_on(sql, open, e);
    parentheses::lemma_balance(sql, open, e);
    parentheses::lemma_balance(sql, open, e + 1);
    assert forall|j: int|
        0 <= j < heads.len() && heads[k].end <= (#[trigger] heads[j]).start < e && !in_string(
            sql,
            heads[j].start,
        ) implies closes_before(sql, heads[j].end - 1, e) by {
        lemma_head_reading(sql, heads, j);
        let inner = heads[j].end - 1;
        assert(sql[e] == ')');
        if e < inner {
            assert(parentheses::is_plain_char(sql[e]));
        }
        assert(inner < e);
        assert(pattern::balance(sql, open, inner) > 0);
        parentheses::lemma_balance(sql, open, inner);
        assert(sql.take(inner + 1).drop_last() =~= sql.take(inner));
        let d = parentheses::lemma_closes_by(sql, inner, inner + 1, e);
        assert(pattern::closes(sql, inner, d));
    }
}

/// What is translated of a calm text in a string, all of whose calls stand in
/// strings, is calm.
proof fn lemma_calm_between(
    sql: Seq<char>,
    heads: Seq<CaptureView>,
    target: Target,
    k: int,
    lo: int,
    hi: int,
)
    requires
        pattern::well_placed(sql, heads),
        pattern::are_bare_heads(sql, heads),
        heads_stand_clear(sql, heads),
        0 <= k,
        0 <= lo <= hi <= sql.len(),
        in_string(sql, lo),
        parentheses::is_calm(sql.subrange(lo, hi)),
        are_in_strings(sql, heads, lo, hi),
    ensures
        parentheses::is_calm(compiler::translated_between(sql, heads, target, k, lo, hi)),
    decreases heads.len() - k,
{
    if k < heads.len() && heads[k].start < hi {
        let head = heads[k];
        match pattern::call_end(sql, head.end - 1) {
            Some(e) => if lo <= head.start && e < hi {
                lemma_call_in_string(sql, heads, k, e);
                lemma_head_reading(sql, heads, k);
                lemma_from_string(sql, lo, hi);
                lemma_calm_within(sql, lo, hi, lo, head.start);
                lemma_calm_within(sql, lo, hi, e + 1, hi);
                lemma_calm_between(sql, heads, target, k + 1, head.end, e);
                lemma_calm_between(sql, heads, target, k + 1, e + 1, hi);
                let before = sql.subrange(lo, head.start);
                let args = compiler::translated_between(sql, heads, target, k + 1, head.end, e);
                let call = compiler::translated(target, head.groups[1], args);
                let rest = compiler::translated_between(sql, heads, target, k + 1, e + 1, hi);
                templates::law_translation_closes_all(target, head.groups[1], args);
                parentheses::lemma_join(before, call);
                parentheses::lemma_join(before + call, rest);
            } else {
                lemma_calm_between(sql, heads, target, k + 1, lo, hi);
            },
            None => {
                lemma_calm_between(sql, heads, target, k + 1, lo, hi);
            },
        }
    }
}

/// A call that stands in a single-quoted string as a whole is of the kind that
/// leaves alone what stands outside of it.
pub proof fn law_call_in_string_stands_clear(sql: Seq<char>, i: int, e: int)
    requires
        0 <= i <= e <= sql.len(),
        in_string(sql, i),
        parentheses::holds_no_quote(sql.subrange(i, e)),
    ensures
        parentheses::is_calm(sql.subrange(i, e)),
        heads_in_strings(sql, i, e),
{
    parentheses::lemma_no_quote_is_calm(sql.subrange(i, e));
    assert forall|j: int, name: Seq<char>|
        i <= j < e && #[trigger] compile::is_call_head(sql, j, name) implies in_string(sql, j) by {
        let part = sql.subrange(i, j);
        assert forall|k: int| 0 <= k < part.len() implies #[trigger] part[k] != '\'' by {
            assert(sql.subrange(i, e)[k] != '\'');
        }
        parentheses::lemma_no_quote(part);
        lemma_from_string(sql, i, j);
    }
}

/// Three texts, of which the second one changes as little as what it replaces.
proof fn lemma_replaced(
    before: Seq<char>,
    old_text: Seq<char>,
    new_text: Seq<char>,
    rest: Seq<char>,
    new_rest: Seq<char>,
    quoted: bool,
)
    requires
        ({
            let q = reading(before, quoted).quoted;
            &&& reading(old_text, q) == parentheses::unmoved(q)
            &&& reading(new_text, q) == parentheses::unmoved(q)
            &&& reading(new_rest, q) == reading(rest, q)
        }),
    ensures
        reading(before + new_text + new_rest, quoted) == reading(
            before + old_text + rest,
            quoted,
        ),
{
    parentheses::lemma_low(before, quoted);
    parentheses::lemma_read_both(before, old_text, quoted);
    parentheses::lemma_read_both(before, new_text, quoted);
    parentheses::lemma_read_both(before + old_text, rest, quoted);
    parentheses::lemma_read_both(before + new_text, new_rest, quoted);
}

/// What is translated of a text is read as the text is.
proof fn lemma_between(
    sql: Seq<char>,
    heads: Seq<CaptureView>,
    target: Target,
    k: int,
    lo: int,
    hi: int,
)
    requires
        pattern::well_placed(sql, heads),
        pattern::are_bare_heads(sql, heads),
        heads_stand_clear(sql, heads),
        calls_close(sql, heads, lo, hi),
        0 <= k,
        0 <= lo <= hi <= sql.len(),
    ensures
        reading(
            compiler::translated_between(sql, heads, target, k, lo, hi),
            in_string(sql, lo),
        ) == reading(sql.subrange(lo, hi), in_string(sql, lo)),
    decreases heads.len() - k, 1int,
{
    if k < heads.len() && heads[k].start < hi {
        let head = heads[k];
        let open = head.end - 1;
        pattern::lemma_call_end(sql, open);
        lemma_head_reading(sql, heads, k);
        match pattern::call_end(sql, open) {
            Some(e) => if lo <= head.start && e < hi {
                lemma_call_between(sql, heads, target, k, lo, hi, e);
            } else {
                lemma_between(sql, heads, target, k + 1, lo, hi);
            },
            None => {
                lemma_between(sql, heads, target, k + 1, lo, hi);
            },
        }
    }
}

proof fn lemma_call_between(
    sql: Seq<char>,
    heads: Seq<CaptureView>,
    target: Target,
    k: int,
    lo: int,
    hi: int,
    e: int,
)
    requires
        pattern::well_placed(sql, heads),
        pattern::are_bare_heads(sql, heads),
        heads_stand_clear(sql, heads),
        calls_close(sql, heads, lo, hi),
        0 <= k < heads.len(),
        0 <= lo <= heads[k].start,
        heads[k].start < hi,
        e < hi <= sql.len(),
        pattern::call_end(sql, heads[k].end - 1) == Some(e),
    ensures
        reading(
            compiler::translated_between(sql, heads, target, k, lo, hi),
            in_string(sql, lo),
        ) == reading(sql.subrange(lo, hi), in_string(sql, lo)),
    decreases heads.len() - k, 0int,
{
    let head = heads[k];
    let open = head.end - 1;
    let name = head.groups[1];
    pattern::lemma_call_end(sql, open);
    lemma_head_reading(sql, heads, k);
    let before = sql.subrange(lo, head.start);
    let word = sql.subrange(head.start, open);
    let call = sql.subrange(head.start, e + 1);
    let rest = sql.subrange(e + 1, hi);
    let args = sql.subrange(head.end, e);
    let new_args = compiler::translated_between(sql, heads, target, k + 1, head.end, e);
    let new_call = compiler::translated(target, name, new_args);
    let new_rest = compiler::translated_between(sql, heads, target, k + 1, e + 1, hi);
    let q = in_string(sql, head.start);
    assert(sql.take(head.start) =~= sql.take(lo) + before);
    parentheses::lemma_read_both(sql.take(lo), before, false);
    assert(reading(before, in_string(sql, lo)).quoted == q);
    if q {
        lemma_call_in_string(sql, heads, k, e);
        lemma_calm_between(sql, heads, target, k + 1, head.end, e);
        templates::law_translation_closes_all(target, name, new_args);
        assert(new_call.take(new_call.len() as int) =~= new_call);
        assert(reading(new_call, true) == parentheses::unmoved(true));
    } else {
        assert(closes_before(sql, open, hi));
        let d = choose|d: int| d < hi && #[trigger] pattern::closes(sql, open, d);
        assert(d == e);
        lemma_closed_call(sql, open, e);
        assert(call =~= word + sql.subrange(open, e + 1));
        parentheses::lemma_plain(word, false);
        parentheses::lemma_read_both(word, sql.subrange(open, e + 1), false);
        lemma_inner_calls_close(sql, heads, k, e);
        lemma_between(sql, heads, target, k + 1, head.end, e);
        templates::law_translation_closes_all(target, name, new_args);
    }
    assert(sql.take(e + 1) =~= sql.take(head.start) + call);
    parentheses::lemma_read_both(sql.take(head.start), call, false);
    assert(in_string(sql, e + 1) == q);
    lemma_between(sql, heads, target, k + 1, e + 1, hi);
    lemma_replaced(before, call, new_call, rest, new_rest, in_string(sql, lo));
    assert(sql.subrange(lo, hi) =~= before + call + rest);
}

/// What is found as the head of a call is one.
proof fn lemma_call_head(sql: Seq<char>, heads: Seq<CaptureView>, k: int)
    requires
        pattern::well_placed(sql, heads),
        pattern::are_bare_heads(sql, heads),
        0 <= k < heads.len(),
    ensures
        compile::is_call_head(sql, heads[k].start, heads[k].groups[1]),
        heads[k].start + heads[k].groups[1].len() == heads[k].end - 1,
{
    lemma_head_reading(sql, heads, k);
    compile::lemma_match_stands(sql, heads, k);
}

/// Translating the calls of SQL that closes all of its parentheses leaves the
/// quotes and parentheses as they are.
pub proof fn law_calls_leave_parentheses(sql: Seq<char>, target: Target)
    requires
        pattern::calls_found(sql),
        parentheses::closes_all(sql),
        calls_stand_clear(sql),
    ensures
        reading(compiler::with_calls_translated(sql, target), false) == reading(sql, false),
{
    let heads = pattern::regex_captures(pattern::bare_pattern(), sql);
    let n = sql.len() as int;
    assert(sql.take(0) =~= Seq::empty());
    assert(sql.take(n) =~= sql);
    assert(sql.subrange(0, n) =~= sql);
    assert forall|j: int|
        0 <= j < heads.len() && 0 <= (#[trigger] heads[j]).start < n && !in_string(
            sql,
            heads[j].start,
        ) implies closes_before(sql, heads[j].end - 1, n) by {
        lemma_head_reading(sql, heads, j);
        let open = heads[j].end - 1;
        assert(sql =~= sql.take(open) + sql.skip(open));
        parentheses::lemma_read_both(sql.take(open), sql.skip(open), false);
        parentheses::lemma_low(sql.take(open), false);
        assert(sql.take(open + 1).drop_last() =~= sql.take(open));
        let e = parentheses::lemma_closes_by(sql, open, open + 1, n);
        assert(pattern::closes(sql, open, e));
    }
    assert forall|j: int|
        0 <= j < heads.len() && in_string(sql, (#[trigger] heads[j]).start) implies match pattern::call_end(
        sql,
        heads[j].end - 1,
    ) {
        Some(e) => parentheses::is_calm(sql.subrange(heads[j].start, e)) && are_in_strings(
            sql,
            heads,
            heads[j].start,
            e,
        ),
        None => true,
    } by {
        lemma_call_head(sql, heads, j);
        if let Some(e) = pattern::call_end(sql, heads[j].end - 1) {
            let part = sql.subrange(heads[j].start, e);
            assert(heads_in_strings(sql, heads[j].start, e));
            assert forall|i: int|
                0 <= i < heads.len() && heads[j].start <= (#[trigger] heads[i]).start
                    < e implies in_string(sql, heads[i].start) by {
                lemma_call_head(sql, heads, i);
            }
        }
    }
    lemma_between(sql, heads, target, 0, 0, n);
}

/// Taking off prefixes leaves the quotes and parentheses as they are.
proof fn lemma_unprefixed(s: Seq<char>, quoted: bool)
    ensures
        reading(compile::unprefixed(s), quoted) == reading(s, quoted),
    decreases s.len(),
{
    if s.len() == 0 {
    } else if s.len() >= 4 && compile::begins_head(s) {
        let name = choose|name: Seq<char>|
            pattern::is_function(name) && #[trigger] pattern::stands_at(
                s,
                0,
                pattern::head_text(name),
            );
        let head = pattern::head_text(name);
        reveal_strlit("nql.");
        assert(s.subrange(0, head.len() as int) == head);
        let prefix = s.take(4);
        assert forall|i: int| 0 <= i < prefix.len() implies parentheses::is_plain_char(
            #[trigger] prefix[i],
        ) by {
            assert(prefix[i] == s.subrange(0, head.len() as int)[i]);
            assert(head[i] == "nql."@[i]);
        }
        parentheses::lemma_plain(prefix, quoted);
        assert(s =~= prefix + s.skip(4));
        parentheses::lemma_read_both(prefix, s.skip(4), quoted);
        parentheses::lemma_low(s.skip(4), quoted);
        lemma_unprefixed(s.skip(4), quoted);
    } else {
        let a = seq![s[0]];
        let rest = s.skip(1);
        assert(s =~= a + rest);
        parentheses::lemma_read_both(a, rest, quoted);
        parentheses::lemma_read_both(a, compile::unprefixed(rest), quoted);
        lemma_unprefixed(rest, reading(a, quoted).quoted);
    }
}

proof fn lemma_rewritten_before(
    hay: Seq<char>,
    captures: Seq<CaptureView>,
    texts: Seq<Seq<char>>,
    k: int,
)
    requires
        pattern::well_placed(hay, captures),
        texts.len() == captures.len(),
        forall|j: int|
            0 <= j < captures.len() ==> parentheses::is_neutral(
                (#[trigger] captures[j]).groups[0],
            ) && parentheses::is_neutral(texts[j]),
        0 <= k <= captures.len(),
    ensures
        0 <= pattern::end_before(captures, k) <= hay.len(),
        reading(pattern::rewritten_before(hay, captures, texts, k), false) == reading(
            hay.take(pattern::end_before(captures, k)),
            false,
        ),
    decreases k,
{
    if k == 0 {
        assert(hay.take(0) =~= Seq::empty());
    } else {
        lemma_rewritten_before(hay, captures, texts, k - 1);
        let last = captures[k - 1];
        let begin = pattern::end_before(captures, k - 1);
        if k > 1 {
            assert(captures[k - 2].end <= last.start);
        }
        let old_before = hay.take(begin);
        let new_before = pattern::rewritten_before(hay, captures, texts, k - 1);
        let gap = hay.subrange(begin, last.start);
        parentheses::lemma_read_both(old_before, gap, false);
        parentheses::lemma_read_both(new_before, gap, false);
        parentheses::lemma_read_both(old_before + gap, last.groups[0], false);
        parentheses::lemma_read_both(new_before + gap, texts[k - 1], false);
        assert(hay.take(last.end) =~= old_before + gap + last.groups[0]);
    }
}

/// Resolving references that leave quotes and parentheses as they are, to tables
/// that do so, leaves those of the SQL as they are.
pub proof fn law_references_leave_parentheses(compiler: CompilerView, sql: Seq<char>)
    requires
        pattern::references_found(sql),
        references_stand_clear(compiler, sql),
    ensures
        reading(compiler.with_refs_resolved(sql), false) == reading(sql, false),
{
    let refs = pattern::regex_captures(pattern::reference_pattern(), sql);
    let texts = refs.map_values(|c: CaptureView| compiler.table_of(c.groups[1]));
    assert forall|j: int| 0 <= j < refs.len() implies parentheses::is_neutral(
        (#[trigger] refs[j]).groups[0],
    ) && parentheses::is_neutral(texts[j]) by {
        compile::lemma_match_stands(sql, refs, j);
        assert(pattern::is_reference(refs[j].groups[0], refs[j].groups[1]));
    }
    let n = refs.len() as int;
    let end = pattern::end_before(refs, n);
    lemma_rewritten_before(sql, refs, texts, n);
    let before = pattern::rewritten_before(sql, refs, texts, n);
    assert(sql =~= sql.take(end) + sql.skip(end));
    parentheses::lemma_read_both(sql.take(end), sql.skip(end), false);
    parentheses::lemma_read_both(before, sql.skip(end), false);
}

/// If every parenthesis in the SQL closes outside of quotes, so does every one
/// in what it compiles to, and the quotes stay as they are. A call whose head
/// stands in a single-quoted string must not reach out of it to a parenthesis
/// that it would leave open or to another call, and references and the tables
/// that they stand for have to leave quotes and parentheses as they are.
pub proof fn law_parentheses_stay_closed(compiler: CompilerView, sql: Seq<char>, target: Target)
    requires
        compiler::steps_found(sql, target),
        parentheses::closes_all(sql),
        calls_stand_clear(compiler::without_prefixes(sql)),
        references_stand_clear(
            compiler,
            compiler::with_calls_translated(compiler::without_prefixes(sql), target),
        ),
    ensures
        parentheses::closes_all(compiler.compiled(sql, target)),
        reading(compiler.compiled(sql, target), false) == reading(sql, false),
{
    let bare = compiler::without_prefixes(sql);
    compile::law_prefixes_removed(sql);
    lemma_unprefixed(sql, false);
    law_calls_leave_parentheses(bare, target);
    law_references_leave_parentheses(compiler, compiler::with_calls_translated(bare, target));
}

/// A reference with two quotation marks of one kind, to a model whose name holds
/// no parenthesis, leaves quotes and parentheses as they are.
pub proof fn law_reference_is_neutral(
    name: Seq<char>,
    space: (Seq<char>, Seq<char>, Seq<char>, Seq<char>),
    quote: char,
)
    requires
        pattern::is_blank(space.0) && pattern::is_blank(space.1) && pattern::is_blank(space.2)
            && pattern::is_blank(space.3),
        pattern::is_quote(quote),
        parentheses::is_plain(name),
    ensures
        parentheses::is_neutral(pattern::reference_text(name, space, (quote, quote))),
{
    lemma_reference_reading(name, space, quote, false);
    lemma_reference_reading(name, space, quote, true);
}

proof fn lemma_reference_reading(
    name: Seq<char>,
    space: (Seq<char>, Seq<char>, Seq<char>, Seq<char>),
    quote: char,
    quoted: bool,
)
    requires
        pattern::is_blank(space.0) && pattern::is_blank(space.1) && pattern::is_blank(space.2)
            && pattern::is_blank(space.3),
        pattern::is_quote(quote),
        parentheses::is_plain(name),
    ensures
        reading(pattern::reference_text(name, space, (quote, quote)), quoted)
            == parentheses::unmoved(quoted),
{
    reveal_strlit("{{");
    reveal_strlit("ref(");
    reveal_strlit(")");
    reveal_strlit("}}");
    reveal_with_fuel(pattern::reading, 2);
    let one = seq![quote];
    assert(one.drop_last() =~= Seq::empty());
    assert(")"@.drop_last() =~= Seq::empty());
    assert("ref("@.drop_last() =~= seq!['r', 'e', 'f']);
    assert(parentheses::is_plain(seq!['r', 'e', 'f']));
    parentheses::lemma_plain(seq!['r', 'e', 'f'], quoted);
    assert(parentheses::is_plain("{{"@));
    assert(parentheses::is_plain("}}"@));
    parentheses::lemma_plain("{{"@, quoted);
    parentheses::lemma_plain("}}"@, quoted);
    lemma_blank_is_plain(space.0);
    lemma_blank_is_plain(space.1);
    lemma_blank_is_plain(space.2);
    lemma_blank_is_plain(space.3);
    parentheses::lemma_plain(space.0, quoted);
    parentheses::lemma_plain(space.1, quoted);
    parentheses::lemma_plain(space.2, quoted);
    parentheses::lemma_plain(space.3, quoted);
    parentheses::lemma_plain(name, quoted);
    parentheses::lemma_plain(name, !quoted);
    let a = "{{"@ + space.0;
    let b = a + "ref("@;
    let c = b + space.1;
    let d = c + one;
    let e = d + name;
    let f = e + one;
    let g = f + space.2;
    let h = g + ")"@;
    let i = h + space.3;
    parentheses::lemma_read_both("{{"@, space.0, quoted);
    parentheses::lemma_read_both(a, "ref("@, quoted);
    parentheses::lemma_read_both(b, space.1, quoted);
    parentheses::lemma_read_both(c, one, quoted);
    parentheses::lemma_read_both(d, name, quoted);
    parentheses::lemma_read_both(e, one, quoted);
    parentheses::lemma_read_both(f, space.2, quoted);
    parentheses::lemma_read_both(g, ")"@, quoted);
    parentheses::lemma_read_both(h, space.3, quoted);
    parentheses::lemma_read_both(i, "}}"@, quoted);
}

proof fn lemma_blank_is_plain(s: Seq<char>)
    requires
        pattern::is_blank(s),
    ensures
        parentheses::is_plain(s),
{
    assert forall|i: int| 0 <= i < s.len() implies parentheses::is_plain_char(#[trigger] s[i]) by {
        assert(text::is_white_space(s[i]));
    }
}

}

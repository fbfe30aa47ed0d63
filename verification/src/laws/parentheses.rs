//! Laws of reading quotes and parentheses.

use vstd::prelude::*;

use crate::dialect::args;
use crate::laws::arguments;
use crate::pattern;
use crate::pattern::Reading;
use crate::text;

verus! {

/// What reading finds where nothing changes.
pub open spec fn unmoved(quoted: bool) -> Reading {
    Reading { quoted, level: 0, low: 0 }
}

/// Whether every parenthesis in `s` that stands outside of single-quoted strings
/// closes, or is closed, outside of them.
pub open spec fn closes_all(s: Seq<char>) -> bool {
    reading(s, false).level == 0 && reading(s, false).low == 0
}

/// Whether `s` can stand anywhere without a change to what is read behind it.
pub open spec fn is_neutral(s: Seq<char>) -> bool {
    reading(s, false) == unmoved(false) && reading(s, true) == unmoved(true)
}

/// Whether `s` closes its single-quoted strings, and each of them closes its own
/// parentheses.
pub open spec fn is_calm(s: Seq<char>) -> bool {
    !reading(s, false).quoted && is_calm_to(s, s.len() as int)
}

/// Whether each single-quoted string that `s` closes up to the place `n` closes
/// its own parentheses.
pub open spec fn is_calm_to(s: Seq<char>, n: int) -> bool {
    forall|i: int|
        0 <= i <= n && !reading(#[trigger] s.take(i), false).quoted ==> reading(s.take(i), true)
            == unmoved(true)
}

/// What reading one text and then another finds.
pub open spec fn and_then(a: Reading, b: Reading) -> Reading {
    Reading {
        quoted: b.quoted,
        level: a.level + b.level,
        low: if a.level + b.low < a.low {
            a.level + b.low
        } else {
            a.low
        },
    }
}

/// Whether a character is no quote and no parenthesis.
pub open spec fn is_plain_char(c: char) -> bool {
    c != '\'' && c != '(' && c != ')'
}

/// Whether `s` holds no quote and no parenthesis.
pub open spec fn is_plain(s: Seq<char>) -> bool {
    forall|i: int| 0 <= i < s.len() ==> is_plain_char(#[trigger] s[i])
}

/// Whether `s` holds no single quote.
pub open spec fn holds_no_quote(s: Seq<char>) -> bool {
    forall|i: int| 0 <= i < s.len() ==> #[trigger] s[i] != '\''
}

/// Short for what reading a text finds.
pub open spec fn reading(s: Seq<char>, quoted: bool) -> Reading {
    pattern::reading(s, quoted)
}

/// The least number is no more than the last one, and than none.
pub proof fn lemma_low(s: Seq<char>, quoted: bool)
    ensures
        reading(s, quoted).low <= reading(s, quoted).level,
        reading(s, quoted).low <= 0,
    decreases s.len(),
{
    if s.len() > 0 {
        lemma_low(s.drop_last(), quoted);
    }
}

/// Reading one text and then another is reading both at once.
pub proof fn lemma_read_both(a: Seq<char>, b: Seq<char>, quoted: bool)
    ensures
        reading(a + b, quoted) == and_then(
            reading(a, quoted),
            reading(b, reading(a, quoted).quoted),
        ),
    decreases b.len(),
{
    if b.len() == 0 {
        assert(a + b =~= a);
        lemma_low(a, quoted);
    } else {
        lemma_read_both(a, b.drop_last(), quoted);
        lemma_low(a, quoted);
        lemma_low(b.drop_last(), reading(a, quoted).quoted);
        assert((a + b).drop_last() =~= a + b.drop_last());
        assert((a + b).last() == b.last());
    }
}

/// Where a single-quoted string is open at the start, it is open where it would
/// not be, and the other way round.
pub proof fn lemma_other_quotes(s: Seq<char>)
    ensures
        reading(s, true).quoted != reading(s, false).quoted,
    decreases s.len(),
{
    if s.len() > 0 {
        lemma_other_quotes(s.drop_last());
    }
}

/// A text without quotes and parentheses changes nothing.
pub proof fn lemma_plain(s: Seq<char>, quoted: bool)
    requires
        is_plain(s),
    ensures
        reading(s, quoted) == unmoved(quoted),
    decreases s.len(),
{
    if s.len() > 0 {
        assert(is_plain_char(s[s.len() - 1]));
        assert forall|i: int| 0 <= i < s.len() - 1 implies is_plain_char(
            #[trigger] s.drop_last()[i],
        ) by {
            assert(is_plain_char(s[i]));
        }
        lemma_plain(s.drop_last(), quoted);
    }
}

/// A text without quotes changes nothing inside of a single-quoted string, and
/// opens none.
pub proof fn lemma_no_quote(s: Seq<char>)
    requires
        holds_no_quote(s),
    ensures
        reading(s, true) == unmoved(true),
        !reading(s, false).quoted,
    decreases s.len(),
{
    if s.len() > 0 {
        assert(s[s.len() - 1] != '\'');
        assert forall|i: int| 0 <= i < s.len() - 1 implies #[trigger] s.drop_last()[i]
            != '\'' by {
            assert(s[i] != '\'');
        }
        lemma_no_quote(s.drop_last());
    }
}

/// A text without quotes holds no string that leaves a parenthesis open.
pub proof fn lemma_no_quote_is_calm(s: Seq<char>)
    requires
        holds_no_quote(s),
    ensures
        is_calm(s),
{
    lemma_no_quote(s);
    assert forall|i: int|
        0 <= i <= s.len() && !reading(#[trigger] s.take(i), false).quoted implies reading(
        s.take(i),
        true,
    ) == unmoved(true) by {
        assert forall|j: int| 0 <= j < i implies #[trigger] s.take(i)[j] != '\'' by {
            assert(s[j] != '\'');
        }
        lemma_no_quote(s.take(i));
    }
}

/// What reading finds of two texts that follow each other, the first of which
/// leaves no string open.
pub proof fn lemma_join(a: Seq<char>, b: Seq<char>)
    requires
        !reading(a, false).quoted,
    ensures
        reading(a + b, false) == and_then(reading(a, false), reading(b, false)),
        is_calm(a) && is_calm(b) ==> is_calm(a + b),
{
    lemma_read_both(a, b, false);
    if is_calm(a) && is_calm(b) {
        let s = a + b;
        assert forall|i: int|
            0 <= i <= s.len() && !reading(#[trigger] s.take(i), false).quoted implies reading(
            s.take(i),
            true,
        ) == unmoved(true) by {
            if i <= a.len() {
                assert(s.take(i) =~= a.take(i));
            } else {
                let j = i - a.len();
                assert(s.take(i) =~= a + b.take(j));
                assert(a.take(a.len() as int) =~= a);
                lemma_read_both(a, b.take(j), false);
                lemma_read_both(a, b.take(j), true);
            }
        }
    }
}

/// A part that begins and ends outside of strings is as calm as the whole.
pub proof fn lemma_calm_part(s: Seq<char>, lo: int, hi: int)
    requires
        0 <= lo <= hi <= s.len(),
        is_calm(s),
        !reading(s.take(lo), false).quoted,
        !reading(s.take(hi), false).quoted,
    ensures
        is_calm(s.subrange(lo, hi)),
{
    let part = s.subrange(lo, hi);
    let before = s.take(lo);
    assert(s.take(hi) =~= before + part);
    lemma_read_both(before, part, false);
    assert forall|i: int|
        0 <= i <= part.len() && !reading(#[trigger] part.take(i), false).quoted implies reading(
        part.take(i),
        true,
    ) == unmoved(true) by {
        assert(s.take(lo + i) =~= before + part.take(i));
        lemma_read_both(before, part.take(i), false);
        lemma_read_both(before, part.take(i), true);
        assert(reading(s.take(lo), true) == unmoved(true));
        assert(reading(s.take(lo + i), true) == unmoved(true));
        lemma_low(part.take(i), true);
    }
}

/// Whether a place stands in a single-quoted string is what reading finds.
pub proof fn lemma_quoted(s: Seq<char>, i: int)
    requires
        0 <= i <= s.len(),
    ensures
        args::quoted(s, i) == reading(s.take(i), false).quoted,
    decreases i,
{
    if i > 0 {
        lemma_quoted(s, i - 1);
        assert(s.take(i).drop_last() =~= s.take(i - 1));
    }
}

/// Where more parentheses are open than `v`, one of those outside of strings
/// opened when just `v` were, and that many were not open again since.
proof fn lemma_opened(s: Seq<char>, i: int, v: int) -> (p: int)
    requires
        0 <= i <= s.len(),
        0 <= v < reading(s.take(i), false).level,
    ensures
        0 <= p < i,
        s[p] == '(',
        reading(s.take(p), false) == (Reading { quoted: false, level: v, low: reading(
            s.take(p),
            false,
        ).low }),
        forall|k: int| p < k <= i ==> reading(#[trigger] s.take(k), false).level > v,
    decreases i,
{
    assert(s.take(0) =~= Seq::empty());
    let before = s.take(i - 1);
    assert(s.take(i).drop_last() =~= before);
    if s[i - 1] == '(' && !reading(before, false).quoted && reading(before, false).level == v {
        i - 1
    } else {
        lemma_opened(s, i - 1, v)
    }
}

/// The number of open parentheses from one place to another is the difference
/// of those up to them.
pub proof fn lemma_balance(s: Seq<char>, p: int, k: int)
    requires
        0 <= p <= k <= s.len(),
        !reading(s.take(p), false).quoted,
    ensures
        pattern::balance(s, p, k) == reading(s.take(k), false).level - reading(
            s.take(p),
            false,
        ).level,
        reading(s.subrange(p, k), false).quoted == reading(s.take(k), false).quoted,
{
    assert(s.take(k) =~= s.take(p) + s.subrange(p, k));
    lemma_read_both(s.take(p), s.subrange(p, k), false);
}

/// A number that goes from above none to none or less, one by one, is none on
/// the way.
proof fn lemma_comes_to_none(s: Seq<char>, open: int, a: int, n: int) -> (e: int)
    requires
        0 <= open < a <= n <= s.len(),
        forall|k: int| open < k <= a ==> #[trigger] pattern::balance(s, open, k) > 0,
        pattern::balance(s, open, n) <= 0,
    ensures
        a <= e < n,
        pattern::closes(s, open, e),
    decreases n - a,
{
    assert(pattern::balance(s, open, a) > 0);
    pattern::lemma_read_on(s, open, a);
    if pattern::balance(s, open, a + 1) > 0 {
        lemma_comes_to_none(s, open, a + 1, n)
    } else {
        a
    }
}

/// A parenthesis outside of strings closes, behind the place `a` up to which it
/// is open, where at the place `n` no more are open than were before it.
pub proof fn lemma_closes_by(s: Seq<char>, open: int, a: int, n: int) -> (e: int)
    requires
        0 <= open < a <= n <= s.len(),
        s[open] == '(',
        !reading(s.take(open), false).quoted,
        forall|k: int|
            open < k <= a ==> reading(#[trigger] s.take(k), false).level > reading(
                s.take(open),
                false,
            ).level,
        reading(s.take(n), false).level <= reading(s.take(open), false).level,
    ensures
        a <= e < n,
        pattern::closes(s, open, e),
{
    assert forall|k: int| open < k <= a implies #[trigger] pattern::balance(s, open, k) > 0 by {
        lemma_balance(s, open, k);
    }
    lemma_balance(s, open, n);
    lemma_comes_to_none(s, open, a, n)
}

/// A separator between the arguments of a call stands outside of strings. Where
/// the text closes all of its parentheses, it stands outside of them too.
proof fn lemma_divider(s: Seq<char>, i: int)
    requires
        0 <= i < s.len(),
        args::divides(s, i),
    ensures
        !reading(s.take(i), false).quoted,
        !reading(s.take(i + 1), false).quoted,
        reading(s.take(i + 1), false) == reading(s.take(i), false),
        closes_all(s) ==> reading(s.take(i), false).level == 0,
{
    lemma_quoted(s, i);
    assert(s.take(i + 1).drop_last() =~= s.take(i));
    assert(s.take(s.len() as int) =~= s);
    if closes_all(s) {
        assert(s =~= s.take(i) + s.skip(i));
        lemma_read_both(s.take(i), s.skip(i), false);
        lemma_low(s.take(i), false);
        lemma_low(s.skip(i), false);
        if reading(s.take(i), false).level > 0 {
            let p = lemma_opened(s, i, 0);
            let e = lemma_closes_by(s, p, i, s.len() as int);
            lemma_quoted(s, p);
            pattern::lemma_call_end(s, p);
            assert(s[i] == ',');
            assert(e != i);
            assert(args::in_parentheses(s, i));
        }
    }
}

/// An argument of a call begins outside of strings and, where the text closes
/// all of its parentheses, outside of those.
proof fn lemma_part_begins(s: Seq<char>, i: int)
    requires
        0 <= i <= s.len(),
    ensures
        0 <= args::begin_of_part(s, i) <= i,
        !reading(s.take(args::begin_of_part(s, i)), false).quoted,
        closes_all(s) ==> reading(s.take(args::begin_of_part(s, i)), false).level == 0,
    decreases i,
{
    if i > 0 {
        if args::divides(s, i - 1) {
            lemma_divider(s, i - 1);
        } else {
            lemma_part_begins(s, i - 1);
        }
    } else {
        assert(s.take(0) =~= Seq::empty());
    }
}

/// A part between two places outside of strings and of the parentheses of a
/// text that closes all of them closes all of its own.
proof fn lemma_part_unmoved(s: Seq<char>, lo: int, hi: int)
    requires
        0 <= lo <= hi <= s.len(),
        reading(s, false) == unmoved(false),
        !reading(s.take(lo), false).quoted && reading(s.take(lo), false).level == 0,
        !reading(s.take(hi), false).quoted && reading(s.take(hi), false).level == 0,
    ensures
        reading(s.subrange(lo, hi), false) == unmoved(false),
{
    let part = s.subrange(lo, hi);
    assert(s.take(hi) =~= s.take(lo) + part);
    lemma_read_both(s.take(lo), part, false);
    assert(s =~= s.take(hi) + s.skip(hi));
    lemma_read_both(s.take(hi), s.skip(hi), false);
    lemma_low(s.take(lo), false);
    lemma_low(s.take(hi), false);
    lemma_low(part, false);
}

/// White space around a text changes nothing of what reading it finds.
proof fn lemma_trimmed(s: Seq<char>)
    ensures
        reading(text::trimmed(s), false) == reading(s, false),
        is_calm(s) ==> is_calm(text::trimmed(s)),
{
    lemma_trimmed_start(s);
    lemma_trimmed_end(text::trimmed_start(s));
}

proof fn lemma_trimmed_start(s: Seq<char>)
    ensures
        reading(text::trimmed_start(s), false) == reading(s, false),
        is_calm(s) ==> is_calm(text::trimmed_start(s)),
    decreases s.len(),
{
    if s.len() > 0 && text::is_white_space(s[0]) {
        let rest = s.drop_first();
        let space = seq![s[0]];
        assert(s =~= space + rest);
        assert(is_plain(space));
        lemma_plain(space, false);
        lemma_read_both(space, rest, false);
        lemma_low(rest, false);
        if is_calm(s) {
            assert(s.take(1) =~= space);
            assert(s.take(s.len() as int) =~= s);
            lemma_calm_part(s, 1, s.len() as int);
            assert(s.subrange(1, s.len() as int) =~= rest);
        }
        lemma_trimmed_start(rest);
    }
}

proof fn lemma_trimmed_end(s: Seq<char>)
    ensures
        reading(text::trimmed_end(s), false) == reading(s, false),
        is_calm(s) ==> is_calm(text::trimmed_end(s)),
    decreases s.len(),
{
    if s.len() > 0 && text::is_white_space(s.last()) {
        let rest = s.drop_last();
        assert(reading(rest, false) == reading(s, false));
        if is_calm(s) {
            assert(s.take(0) =~= Seq::empty());
            assert(s.take(s.len() - 1) =~= rest);
            lemma_calm_part(s, 0, s.len() - 1);
            assert(s.subrange(0, s.len() - 1) =~= rest);
        }
        lemma_trimmed_end(rest);
    }
}

/// What is read of a part is as it is of the whole: it changes nothing where the
/// whole does not, and is calm where the whole is.
pub open spec fn is_as(part: Seq<char>, whole: Seq<char>) -> bool {
    &&& reading(whole, false) == unmoved(false) ==> reading(part, false) == unmoved(false)
    &&& is_calm(whole) ==> is_calm(part)
}

proof fn lemma_part(s: Seq<char>, hi: int)
    requires
        0 <= hi <= s.len(),
        hi == s.len() || args::divides(s, hi),
    ensures
        is_as(text::trimmed(s.subrange(args::begin_of_part(s, hi), hi)), s),
{
    let lo = args::begin_of_part(s, hi);
    let part = s.subrange(lo, hi);
    lemma_part_begins(s, hi);
    assert(s.take(s.len() as int) =~= s);
    if hi < s.len() {
        lemma_divider(s, hi);
    }
    if reading(s, false) == unmoved(false) {
        lemma_part_unmoved(s, lo, hi);
    }
    if is_calm(s) {
        lemma_calm_part(s, lo, hi);
    }
    lemma_trimmed(part);
}

proof fn lemma_parts(s: Seq<char>, i: int)
    requires
        0 <= i <= s.len(),
    ensures
        forall|k: int|
            0 <= k < args::parts_before(s, i).len() ==> is_as(
                #[trigger] args::parts_before(s, i)[k],
                s,
            ),
    decreases i,
{
    if i > 0 {
        lemma_parts(s, i - 1);
        let before = args::parts_before(s, i - 1);
        let after = args::parts_before(s, i);
        if args::divides(s, i - 1) {
            lemma_part(s, i - 1);
        }
        assert forall|k: int| 0 <= k < after.len() implies is_as(#[trigger] after[k], s) by {
            if k < before.len() {
                assert(is_as(before[k], s));
            }
        }
    }
}

/// Each argument of a call closes all of its parentheses where the text of all
/// of them does.
pub proof fn law_arguments_close_all(s: Seq<char>)
    ensures
        forall|k: int|
            0 <= k < args::call_arguments(s).len() ==> is_as(
                #[trigger] args::call_arguments(s)[k],
                s,
            ),
{
    let n = s.len() as int;
    lemma_parts(s, n);
    lemma_part(s, n);
    lemma_part_begins(s, n);
    let begin = args::begin_of_part(s, n);
    assert(s.subrange(begin, n) =~= s.skip(begin));
    let before = args::parts_before(s, n);
    let all = args::call_arguments(s);
    assert forall|k: int| 0 <= k < all.len() implies is_as(#[trigger] all[k], s) by {
        if k < before.len() {
            assert(is_as(before[k], s));
        }
    }
}

/// A parenthesis that closes nowhere protects no comma: the arguments of a call
/// in whose parentheses none closes are those that its commas separate outside
/// of quotes and brackets.
pub proof fn law_unclosed_protects_nothing(s: Seq<char>)
    requires
        !s.contains(')'),
    ensures
        args::call_arguments(s) == args::arguments(s),
{
    lemma_unclosed(s, s.len() as int);
}

proof fn lemma_unclosed(s: Seq<char>, i: int)
    requires
        !s.contains(')'),
        0 <= i <= s.len(),
    ensures
        args::begin_of_part(s, i) == args::begin_of(s, i),
        args::parts_before(s, i) == args::ended_before(s, i),
    decreases i,
{
    if i > 0 {
        lemma_unclosed(s, i - 1);
        assert(!args::in_parentheses(s, i - 1)) by {
            if args::in_parentheses(s, i - 1) {
                let (p, e) = choose|p: int, e: int|
                    0 <= p < i - 1 < e && s[p] == '(' && !args::quoted(s, p)
                        && #[trigger] pattern::closes(s, p, e);
                pattern::lemma_call_end(s, p);
                assert(s[e] == ')');
            }
        }
    }
}

proof fn lemma_no_divider(s: Seq<char>, i: int)
    requires
        forall|j: int| 0 <= j < s.len() ==> !#[trigger] args::divides(s, j),
        0 <= i <= s.len(),
    ensures
        args::begin_of_part(s, i) == 0,
        args::parts_before(s, i) == Seq::<Seq<char>>::empty(),
    decreases i,
{
    if i > 0 {
        lemma_no_divider(s, i - 1);
        assert(!args::divides(s, i - 1));
    }
}

/// A call in the arguments of another one is one argument, whatever commas stand
/// between its parentheses.
pub proof fn law_inner_call_is_one_argument(word: Seq<char>, inner: Seq<char>)
    requires
        is_plain(word),
        !word.contains(','),
        reading(inner, false) == unmoved(false),
    ensures
        ({
            let s = word + seq!['('] + inner + seq![')'];
            args::call_arguments(s) == seq![text::trimmed(s)]
        }),
{
    let s = word + seq!['('] + inner + seq![')'];
    let p = word.len() as int;
    let n = s.len() as int;
    let a = seq!['('];
    assert(s.take(p) =~= word);
    lemma_plain(word, false);
    assert(a.drop_last() =~= Seq::empty());
    reveal_with_fuel(pattern::reading, 2);
    assert(reading(a, false) == (Reading { quoted: false, level: 1, low: 0 }));
    lemma_read_both(word, a, false);
    assert forall|k: int| p < k <= n - 1 implies reading(#[trigger] s.take(k), false).level > 0 by {
        let part = inner.take(k - p - 1);
        assert(s.take(k) =~= word + a + part);
        lemma_read_both(word + a, part, false);
        assert(inner =~= part + inner.skip(k - p - 1));
        lemma_read_both(part, inner.skip(k - p - 1), false);
        lemma_low(part, false);
    }
    assert(s.take(n) =~= s);
    assert(s.drop_last() =~= word + a + inner);
    lemma_read_both(word + a, inner, false);
    let e = lemma_closes_by(s, p, n - 1, n);
    lemma_quoted(s, p);
    assert forall|j: int| 0 <= j < s.len() implies !#[trigger] args::divides(s, j) by {
        if j < p {
            assert(s[j] == word[j]);
            assert(word.contains(word[j]));
        } else if p < j < n - 1 {
            assert(args::in_parentheses(s, j));
        }
    }
    lemma_no_divider(s, n);
    assert(s.skip(0) =~= s);
    assert(!text::is_white_space(s.last()));
    arguments::lemma_trimmed_keeps_end(s);
    assert(Seq::empty().push(text::trimmed(s)) =~= seq![text::trimmed(s)]);
}

/// Whether a parenthesis closes at a place depends on what stands between them
/// alone.
proof fn lemma_closes_within(s: Seq<char>, part: Seq<char>, m: int, p: int, e: int)
    requires
        0 <= m,
        m + part.len() <= s.len(),
        part == s.subrange(m, m + part.len()),
        0 <= p,
        e < part.len(),
    ensures
        pattern::closes(s, m + p, m + e) <==> pattern::closes(part, p, e),
{
    assert forall|k: int| p <= k <= part.len() implies #[trigger] pattern::balance(part, p, k)
        == pattern::balance(s, m + p, m + k) by {
        assert(part.subrange(p, k) =~= s.subrange(m + p, m + k));
    }
    if pattern::closes(s, m + p, m + e) {
        assert(pattern::balance(part, p, e + 1) == pattern::balance(s, m + p, m + (e + 1)));
        assert forall|k: int| p < k <= e implies #[trigger] pattern::balance(part, p, k) > 0 by {
            assert(pattern::balance(s, m + p, m + k) > 0);
        }
    }
    if pattern::closes(part, p, e) {
        assert(pattern::balance(part, p, e + 1) == pattern::balance(s, m + p, m + (e + 1)));
        assert forall|k: int| m + p < k <= m + e implies #[trigger] pattern::balance(s, m + p, k)
            > 0 by {
            assert(pattern::balance(part, p, k - m) > 0);
            assert(m + (k - m) == k);
        }
    }
}

/// A parenthesis outside of strings in a text that closes all of them closes in
/// it.
proof fn lemma_closes_inside(a: Seq<char>, p: int) -> (e: int)
    requires
        closes_all(a),
        0 <= p < a.len(),
        a[p] == '(',
        !reading(a.take(p), false).quoted,
    ensures
        pattern::closes(a, p, e),
{
    assert(a =~= a.take(p) + a.skip(p));
    lemma_read_both(a.take(p), a.skip(p), false);
    lemma_low(a.take(p), false);
    lemma_low(a.skip(p), false);
    assert(a.take(p + 1).drop_last() =~= a.take(p));
    assert(a.take(a.len() as int) =~= a);
    lemma_closes_by(a, p, p + 1, a.len() as int)
}

/// Where `a` closes its quotes, brackets and parentheses, what separates the
/// arguments of `a,b` is what does so in `a`, the comma, and what does so in `b`.
proof fn lemma_dividers(a: Seq<char>, b: Seq<char>, i: int)
    requires
        arguments::is_closed(a),
        closes_all(a),
        0 <= i < a.len() + 1 + b.len(),
    ensures
        args::divides(a.push(',') + b, i) == (if i < a.len() {
            args::divides(a, i)
        } else if i == a.len() {
            true
        } else {
            args::divides(b, i - a.len() - 1)
        }),
{
    let s = a.push(',') + b;
    let n = a.len() as int;
    let m = n + 1;
    assert(s =~= a + (seq![','] + b));
    assert(s.subrange(0, n) =~= a);
    assert(s.subrange(m, m + b.len()) =~= b);
    // A parenthesis in `a` closes in `a`.
    assert forall|p: int, e: int|
        0 <= p < n && s[p] == '(' && !args::quoted(s, p) && #[trigger] pattern::closes(
            s,
            p,
            e,
        ) implies e < n && pattern::closes(a, p, e) && a[p] == '(' && !args::quoted(a, p) by {
        arguments::lemma_in_front(a, seq![','] + b, p);
        lemma_quoted(a, p);
        let d = lemma_closes_inside(a, p);
        lemma_closes_within(s, a, 0, p, d);
        pattern::lemma_call_end(s, p);
    }
    if i < n {
        arguments::lemma_in_front(a, seq![','] + b, i);
        assert(s[i] == a[i]);
        if args::in_parentheses(s, i) {
            let (p, e) = choose|p: int, e: int|
                0 <= p < i < e && s[p] == '(' && !args::quoted(s, p) && #[trigger] pattern::closes(
                    s,
                    p,
                    e,
                );
            assert(pattern::closes(a, p, e));
            assert(args::in_parentheses(a, i));
        }
        if args::in_parentheses(a, i) {
            let (p, e) = choose|p: int, e: int|
                0 <= p < i < e && a[p] == '(' && !args::quoted(a, p) && #[trigger] pattern::closes(
                    a,
                    p,
                    e,
                );
            arguments::lemma_in_front(a, seq![','] + b, p);
            lemma_closes_within(s, a, 0, p, e);
            assert(s[p] == '(');
            assert(pattern::closes(s, p, e));
            assert(args::in_parentheses(s, i));
        }
    } else if i == n {
        arguments::lemma_in_front(a, seq![','] + b, n);
        assert(s[n] == ',');
        if args::in_parentheses(s, n) {
            let (p, e) = choose|p: int, e: int|
                0 <= p < n < e && s[p] == '(' && !args::quoted(s, p) && #[trigger] pattern::closes(
                    s,
                    p,
                    e,
                );
            assert(e < n);
        }
    } else {
        let j = i - m;
        arguments::lemma_behind(a, b, j);
        assert(s[i] == b[j]);
        if args::in_parentheses(s, i) {
            let (p, e) = choose|p: int, e: int|
                0 <= p < i < e && s[p] == '(' && !args::quoted(s, p) && #[trigger] pattern::closes(
                    s,
                    p,
                    e,
                );
            assert(p >= n);
            assert(p != n);
            arguments::lemma_behind(a, b, p - m);
            lemma_closes_within(s, b, m, p - m, e - m);
            assert(b[p - m] == s[p]);
            assert(pattern::closes(b, p - m, e - m));
            assert(args::in_parentheses(b, j));
        }
        if args::in_parentheses(b, j) {
            let (p, e) = choose|p: int, e: int|
                0 <= p < j < e && b[p] == '(' && !args::quoted(b, p) && #[trigger] pattern::closes(
                    b,
                    p,
                    e,
                );
            arguments::lemma_behind(a, b, p);
            lemma_closes_within(s, b, m, p, e);
            assert(s[m + p] == b[p]);
            assert(pattern::closes(s, m + p, m + e));
            assert(args::in_parentheses(s, i));
        }
    }
}

proof fn lemma_split_behind(a: Seq<char>, b: Seq<char>, i: int)
    requires
        arguments::is_closed(a),
        closes_all(a),
        forall|j: int| 0 <= j < a.len() ==> !#[trigger] args::divides(a, j),
        0 <= i <= b.len(),
    ensures
        ({
            let s = a.push(',') + b;
            let m = a.len() + 1;
            &&& 0 <= args::begin_of_part(b, i) <= i
            &&& args::begin_of_part(s, m + i) == m + args::begin_of_part(b, i)
            &&& args::parts_before(s, m + i) == seq![text::trimmed(a)] + args::parts_before(b, i)
        }),
    decreases i,
{
    let s = a.push(',') + b;
    let m = a.len() + 1;
    let n = a.len() as int;
    lemma_dividers(a, b, m + i - 1);
    if i == 0 {
        lemma_nothing_divided(a, b, n);
        assert(s.subrange(0, n) =~= a);
        assert(Seq::empty().push(text::trimmed(a)) =~= seq![text::trimmed(a)] + Seq::<
            Seq<char>,
        >::empty());
    } else {
        lemma_split_behind(a, b, i - 1);
        let begin = args::begin_of_part(b, i - 1);
        assert(s.subrange(m + begin, m + i - 1) =~= b.subrange(begin, i - 1));
        let first = seq![text::trimmed(a)];
        let before = args::parts_before(b, i - 1);
        let part = text::trimmed(b.subrange(begin, i - 1));
        assert((first + before).push(part) =~= first + before.push(part));
    }
}

proof fn lemma_nothing_divided(a: Seq<char>, b: Seq<char>, i: int)
    requires
        arguments::is_closed(a),
        closes_all(a),
        forall|j: int| 0 <= j < a.len() ==> !#[trigger] args::divides(a, j),
        0 <= i <= a.len(),
    ensures
        args::begin_of_part(a.push(',') + b, i) == 0,
        args::parts_before(a.push(',') + b, i) == Seq::<Seq<char>>::empty(),
    decreases i,
{
    if i > 0 {
        lemma_dividers(a, b, i - 1);
        assert(!args::divides(a, i - 1));
        lemma_nothing_divided(a, b, i - 1);
    }
}

/// The first argument of a call is what stands before the first comma that
/// separates, without the white space around it, and the others are those of
/// what follows the comma: where `a` closes its quotes, brackets and parentheses
/// and no comma in it separates, the arguments of `a,b` are `a` and those of `b`.
pub proof fn law_first_argument(a: Seq<char>, b: Seq<char>)
    requires
        arguments::is_closed(a),
        closes_all(a),
        forall|j: int| 0 <= j < a.len() ==> !#[trigger] args::divides(a, j),
    ensures
        args::call_arguments(a.push(',') + b) == seq![text::trimmed(a)] + args::call_arguments(b),
{
    let s = a.push(',') + b;
    let n = b.len() as int;
    lemma_split_behind(a, b, n);
    let begin = args::begin_of_part(b, n);
    assert(s.len() == a.len() + 1 + n);
    assert(s.skip(a.len() + 1 + begin) =~= b.skip(begin));
    let first = seq![text::trimmed(a)];
    let before = args::parts_before(b, n);
    let tail = text::trimmed(b.skip(begin));
    assert((first + before).push(tail) =~= first + before.push(tail));
}

/// Whether no quote, bracket, parenthesis or comma stands in `s`.
pub open spec fn is_simple(s: Seq<char>) -> bool {
    forall|i: int|
        0 <= i < s.len() ==> is_plain_char(#[trigger] s[i]) && s[i] != '[' && s[i] != ']' && s[i]
            != ','
}

proof fn lemma_simple(s: Seq<char>, i: int)
    requires
        is_simple(s),
        0 <= i <= s.len(),
    ensures
        !args::quoted(s, i),
        args::depth(s, i) == 0,
    decreases i,
{
    if i > 0 {
        lemma_simple(s, i - 1);
        assert(is_plain_char(s[i - 1]));
    }
}

/// The arguments of a call are the texts between its commas, each without the
/// white space around it, in their order: of texts in which no quote, bracket,
/// parenthesis or comma stands, each is one. A text that is blank is none where
/// it comes last.
pub proof fn law_simple_arguments(a: Seq<char>, b: Seq<char>)
    requires
        is_simple(a),
    ensures
        args::call_arguments(a.push(',') + b) == seq![text::trimmed(a)] + args::call_arguments(b),
        text::trimmed(a).len() > 0 ==> args::call_arguments(a) == seq![text::trimmed(a)],
        text::trimmed(a).len() == 0 ==> args::call_arguments(a) == Seq::<Seq<char>>::empty(),
{
    lemma_simple(a, a.len() as int);
    assert forall|i: int| 0 <= i < a.len() implies is_plain_char(#[trigger] a[i]) by {
    }
    lemma_plain(a, false);
    assert forall|j: int| 0 <= j < a.len() implies !#[trigger] args::divides(a, j) by {
        assert(a[j] != ',');
    }
    law_first_argument(a, b);
    lemma_no_divider(a, a.len() as int);
    assert(a.skip(0) =~= a);
    assert(Seq::empty().push(text::trimmed(a)) =~= seq![text::trimmed(a)]);
}

/// A single-quoted string is one argument of a call, whatever commas, brackets
/// and parentheses stand in it.
pub proof fn law_literal_is_argument(t: Seq<char>, b: Seq<char>)
    requires
        !t.contains('\''),
    ensures
        ({
            let a = seq!['\''] + t + seq!['\''];
            &&& args::call_arguments(a) == seq![a]
            &&& args::call_arguments(a.push(',') + b) == seq![a] + args::call_arguments(b)
        }),
{
    let quote = seq!['\''];
    let a = quote + t + quote;
    let n = a.len() as int;
    assert(holds_no_quote(t)) by {
        assert forall|i: int| 0 <= i < t.len() implies #[trigger] t[i] != '\'' by {
            assert(t.contains(t[i]));
        }
    }
    reveal_with_fuel(pattern::reading, 2);
    assert(quote.drop_last() =~= Seq::empty());
    lemma_no_quote(t);
    lemma_read_both(quote, t, false);
    lemma_read_both(quote + t, quote, false);
    assert(reading(a, false) == unmoved(false));
    assert forall|i: int| 0 < i < n implies #[trigger] args::quoted(a, i) && args::depth(a, i)
        == 0 by {
        lemma_in_literal(t, i);
    }
    assert(args::quoted(a, n - 1) && args::depth(a, n - 1) == 0);
    assert(a[n - 1] == '\'');
    assert forall|j: int| 0 <= j < n implies !#[trigger] args::divides(a, j) by {
        if j > 0 {
            assert(args::quoted(a, j));
        }
    }
    law_first_argument(a, b);
    lemma_no_divider(a, n);
    assert(a.skip(0) =~= a);
    assert(a.last() == '\'');
    assert(a[0] == '\'');
    assert(text::trimmed(a) == a);
    assert(Seq::empty().push(a) =~= seq![a]);
}

proof fn lemma_in_literal(t: Seq<char>, i: int)
    requires
        holds_no_quote(t),
        0 < i <= t.len() + 1,
    ensures
        args::quoted(seq!['\''] + t + seq!['\''], i),
        args::depth(seq!['\''] + t + seq!['\''], i) == 0,
    decreases i,
{
    let a = seq!['\''] + t + seq!['\''];
    if i > 1 {
        lemma_in_literal(t, i - 1);
        assert(a[i - 1] == t[i - 2]);
    } else {
        reveal_with_fuel(args::quoted, 2);
        reveal_with_fuel(args::depth, 2);
        assert(a[0] == '\'');
    }
}

/// An array in square brackets is one argument of a call, whatever commas stand
/// in it.
pub proof fn law_array_is_argument(t: Seq<char>, b: Seq<char>)
    requires
        !t.contains('\'') && !t.contains('[') && !t.contains(']'),
        closes_all(t),
    ensures
        ({
            let a = seq!['['] + t + seq![']'];
            &&& args::call_arguments(a) == seq![a]
            &&& args::call_arguments(a.push(',') + b) == seq![a] + args::call_arguments(b)
        }),
{
    let open = seq!['['];
    let close = seq![']'];
    let a = open + t + close;
    let n = a.len() as int;
    assert(holds_no_quote(t)) by {
        assert forall|i: int| 0 <= i < t.len() implies #[trigger] t[i] != '\'' by {
            assert(t.contains(t[i]));
        }
    }
    lemma_no_quote(t);
    assert(is_plain(open));
    assert(is_plain(close));
    lemma_plain(open, false);
    lemma_plain(close, false);
    lemma_read_both(open, t, false);
    lemma_read_both(open + t, close, false);
    assert(reading(a, false) == unmoved(false));
    assert forall|i: int| 0 < i < n implies !#[trigger] args::quoted(a, i) && args::depth(a, i)
        == 1 by {
        lemma_in_array(t, i);
    }
    assert(!args::quoted(a, n - 1) && args::depth(a, n - 1) == 1);
    assert(a[n - 1] == ']');
    assert(arguments::is_closed(a));
    assert forall|j: int| 0 <= j < n implies !#[trigger] args::divides(a, j) by {
        if j > 0 {
            assert(!args::quoted(a, j));
        }
    }
    law_first_argument(a, b);
    lemma_no_divider(a, n);
    assert(a.skip(0) =~= a);
    assert(a.last() == ']');
    assert(a[0] == '[');
    assert(text::trimmed(a) == a);
    assert(Seq::empty().push(a) =~= seq![a]);
}

proof fn lemma_in_array(t: Seq<char>, i: int)
    requires
        !t.contains('\'') && !t.contains('[') && !t.contains(']'),
        0 < i <= t.len() + 1,
    ensures
        !args::quoted(seq!['['] + t + seq![']'], i),
        args::depth(seq!['['] + t + seq![']'], i) == 1,
    decreases i,
{
    let a = seq!['['] + t + seq![']'];
    if i > 1 {
        lemma_in_array(t, i - 1);
        assert(a[i - 1] == t[i - 2]);
        assert(t.contains(t[i - 2]));
    } else {
        reveal_with_fuel(args::quoted, 2);
        reveal_with_fuel(args::depth, 2);
        assert(a[0] == '[');
    }
}

/// The texts that close what they open: those without quotes and parentheses,
/// single-quoted strings whatever stands in them, such a text in parentheses, and
/// two such texts one after the other.
pub proof fn law_closed_texts(a: Seq<char>, b: Seq<char>, t: Seq<char>)
    requires
        reading(a, false) == unmoved(false),
        reading(b, false) == unmoved(false),
        !t.contains('\''),
    ensures
        reading(a + b, false) == unmoved(false),
        reading(seq!['('] + a + seq![')'], false) == unmoved(false),
        reading(seq!['\''] + t + seq!['\''], false) == unmoved(false),
        !t.contains('(') && !t.contains(')') ==> reading(t, false) == unmoved(false),
{
    lemma_read_both(a, b, false);
    let open = seq!['('];
    let close = seq![')'];
    let quote = seq!['\''];
    reveal_with_fuel(pattern::reading, 2);
    assert(open.drop_last() =~= Seq::empty());
    assert(close.drop_last() =~= Seq::empty());
    assert(quote.drop_last() =~= Seq::empty());
    lemma_read_both(open, a, false);
    lemma_read_both(open + a, close, false);
    assert(holds_no_quote(t)) by {
        assert forall|i: int| 0 <= i < t.len() implies #[trigger] t[i] != '\'' by {
            assert(t.contains(t[i]));
        }
    }
    lemma_no_quote(t);
    lemma_read_both(quote, t, false);
    lemma_read_both(quote + t, quote, false);
    if !t.contains('(') && !t.contains(')') {
        assert forall|i: int| 0 <= i < t.len() implies is_plain_char(#[trigger] t[i]) by {
            assert(t.contains(t[i]));
        }
        lemma_plain(t, false);
    }
}

/// A call ends where its own parenthesis closes: behind arguments that close what
/// they open, whatever stands before the call and behind it.
pub proof fn law_call_ends_where_it_closes(before: Seq<char>, inner: Seq<char>, after: Seq<char>)
    requires
        reading(inner, false) == unmoved(false),
    ensures
        pattern::call_end(
            before + seq!['('] + inner + seq![')'] + after,
            before.len() as int,
        ) == Some((before.len() + 1 + inner.len()) as int),
{
    let s = before + seq!['('] + inner + seq![')'] + after;
    let open = before.len() as int;
    let e = open + 1 + inner.len();
    let a = seq!['('];
    reveal_with_fuel(pattern::reading, 2);
    assert(a.drop_last() =~= Seq::empty());
    assert forall|k: int| open < k <= e implies #[trigger] pattern::balance(s, open, k) > 0 by {
        let part = inner.take(k - open - 1);
        assert(s.subrange(open, k) =~= a + part);
        lemma_read_both(a, part, false);
        assert(inner =~= part + inner.skip(k - open - 1));
        lemma_read_both(part, inner.skip(k - open - 1), false);
        lemma_low(part, false);
    }
    assert(s.subrange(open, e) =~= a + inner);
    lemma_read_both(a, inner, false);
    pattern::lemma_read_on(s, open, e);
    assert(s[e] == ')');
    assert(pattern::closes(s, open, e));
    pattern::lemma_call_end(s, open);
}

/// A call whose parenthesis closes nowhere ends with the next one that closes, and
/// what opens and is never closed is no call.
pub proof fn law_unclosed_call_ends(before: Seq<char>, inner: Seq<char>, after: Seq<char>)
    requires
        !inner.contains(')'),
    ensures
        !pattern::is_closed(
            before + seq!['('] + inner + seq![')'] + after,
            before.len() as int,
        ) ==> pattern::call_end(
            before + seq!['('] + inner + seq![')'] + after,
            before.len() as int,
        ) == Some((before.len() + 1 + inner.len()) as int),
        pattern::call_end(before + seq!['('] + inner, before.len() as int) is None,
{
    let s = before + seq!['('] + inner + seq![')'] + after;
    let open = before.len() as int;
    let e = open + 1 + inner.len();
    assert forall|k: int| open < k < e implies #[trigger] s[k] != ')' by {
        assert(s[k] == inner[k - open - 1]);
        assert(inner.contains(inner[k - open - 1]));
    }
    assert(s[e] == ')');
    assert(pattern::is_first_closing(s, open, e));
    pattern::lemma_call_end(s, open);
    let t = before + seq!['('] + inner;
    pattern::lemma_call_end(t, open);
    if let Some(d) = pattern::call_end(t, open) {
        assert(t[d] == inner[d - open - 1]);
        assert(inner.contains(t[d]));
    }
}

}

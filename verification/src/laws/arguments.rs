//! Laws of splitting the arguments of a call.

use vstd::prelude::*;

use crate::dialect::args;
use crate::text;

verus! {

/// Whether every quote and every bracket that is opened in `s` is closed in it.
pub open spec fn is_closed(s: Seq<char>) -> bool {
    !args::quoted(s, s.len() as int) && args::depth(s, s.len() as int) == 0
}

/// What stands in `s` behind its last separator, without the white space around
/// it.
pub open spec fn last_part(s: Seq<char>) -> Seq<char> {
    text::trimmed(s.skip(args::begin_of(s, s.len() as int)))
}

/// Whether no character of `s` separates two arguments.
pub open spec fn holds_no_separator(s: Seq<char>) -> bool {
    forall|i: int| 0 <= i < s.len() ==> !#[trigger] args::separates(s, i)
}

proof fn lemma_begin_bounds(s: Seq<char>, i: int)
    requires
        0 <= i <= s.len(),
    ensures
        0 <= args::begin_of(s, i) <= i,
    decreases i,
{
    if i > 0 {
        lemma_begin_bounds(s, i - 1);
    }
}

/// What follows a text changes nothing in it.
pub proof fn lemma_in_front(a: Seq<char>, b: Seq<char>, i: int)
    requires
        0 <= i <= a.len(),
    ensures
        args::quoted(a + b, i) == args::quoted(a, i),
        args::depth(a + b, i) == args::depth(a, i),
        args::begin_of(a + b, i) == args::begin_of(a, i),
        args::ended_before(a + b, i) == args::ended_before(a, i),
    decreases i,
{
    if i > 0 {
        lemma_in_front(a, b, i - 1);
        lemma_begin_bounds(a, i - 1);
        let begin = args::begin_of(a, i - 1);
        assert((a + b).subrange(begin, i - 1) =~= a.subrange(begin, i - 1));
    }
}

/// Behind a comma that separates, a text is split as it is on its own.
pub proof fn lemma_behind(a: Seq<char>, b: Seq<char>, i: int)
    requires
        is_closed(a),
        0 <= i <= b.len(),
    ensures
        ({
            let s = a.push(',') + b;
            let m = a.len() + 1;
            &&& args::quoted(s, m + i) == args::quoted(b, i)
            &&& args::depth(s, m + i) == args::depth(b, i)
            &&& args::begin_of(s, m + i) == m + args::begin_of(b, i)
            &&& args::ended_before(s, m + i) == args::ended_before(a, a.len() as int).push(
                last_part(a),
            ) + args::ended_before(b, i)
        }),
    decreases i,
{
    let s = a.push(',') + b;
    let m = a.len() + 1;
    let n = a.len() as int;
    if i == 0 {
        assert(s =~= a + (seq![','] + b));
        lemma_in_front(a, seq![','] + b, n);
        lemma_begin_bounds(a, n);
        assert(s[n] == ',');
        assert(args::separates(s, n));
        assert(s.subrange(args::begin_of(a, n), n) =~= a.skip(args::begin_of(a, n)));
        let first = args::ended_before(a, n).push(last_part(a));
        assert(first + args::ended_before(b, 0) =~= first);
    } else {
        lemma_behind(a, b, i - 1);
        lemma_begin_bounds(b, i - 1);
        assert(s[m + i - 1] == b[i - 1]);
        let begin = args::begin_of(b, i - 1);
        assert(s.subrange(m + begin, m + i - 1) =~= b.subrange(begin, i - 1));
        let first = args::ended_before(a, n).push(last_part(a));
        let before = args::ended_before(b, i - 1);
        let part = text::trimmed(b.subrange(begin, i - 1));
        assert((first + before).push(part) =~= first + before.push(part));
    }
}

/// Where `a` closes its quotes and brackets, the comma in `a,b` separates: the
/// arguments are those of `a`, with its last part even where that is blank,
/// and then those of `b`.
pub proof fn law_comma_separates(a: Seq<char>, b: Seq<char>)
    requires
        is_closed(a),
    ensures
        args::arguments(a.push(',') + b) == args::ended_before(a, a.len() as int).push(
            last_part(a),
        ) + args::arguments(b),
        last_part(a).len() > 0 ==> args::arguments(a.push(',') + b) == args::arguments(a)
            + args::arguments(b),
{
    let s = a.push(',') + b;
    lemma_behind(a, b, b.len() as int);
    lemma_begin_bounds(b, b.len() as int);
    let begin = args::begin_of(b, b.len() as int);
    assert(s.skip(a.len() + 1 + begin) =~= b.skip(begin));
    let first = args::ended_before(a, a.len() as int).push(last_part(a));
    let before = args::ended_before(b, b.len() as int);
    let tail = last_part(b);
    assert((first + before).push(tail) =~= first + before.push(tail));
}

proof fn lemma_no_separator(s: Seq<char>, i: int)
    requires
        holds_no_separator(s),
        0 <= i <= s.len(),
    ensures
        args::begin_of(s, i) == 0,
        args::ended_before(s, i) == Seq::<Seq<char>>::empty(),
    decreases i,
{
    if i > 0 {
        lemma_no_separator(s, i - 1);
        assert(!args::separates(s, i - 1));
    }
}

/// A text without a separator is one argument, or none where it is blank.
pub proof fn law_single_argument(s: Seq<char>)
    requires
        holds_no_separator(s),
    ensures
        args::arguments(s) == (if text::trimmed(s).len() == 0 {
            Seq::<Seq<char>>::empty()
        } else {
            seq![text::trimmed(s)]
        }),
{
    lemma_no_separator(s, s.len() as int);
    assert(s.skip(0) =~= s);
    assert(Seq::empty().push(text::trimmed(s)) =~= seq![text::trimmed(s)]);
}

proof fn lemma_quoted_inside(t: Seq<char>, i: int)
    requires
        !t.contains('\''),
        0 < i <= t.len() + 1,
    ensures
        args::quoted(seq!['\''] + t + seq!['\''], i),
    decreases i,
{
    let s = seq!['\''] + t + seq!['\''];
    if i == 1 {
        assert(!args::quoted(s, 0));
        assert(s[0] == '\'');
    } else {
        lemma_quoted_inside(t, i - 1);
        assert(s[i - 1] == t[i - 2]);
        assert(t.contains(t[i - 2]));
    }
}

/// A single-quoted string is one argument, whatever commas stand in it.
pub proof fn law_literal_is_one_argument(t: Seq<char>)
    requires
        !t.contains('\''),
    ensures
        args::arguments(seq!['\''] + t + seq!['\'']) == seq![seq!['\''] + t + seq!['\'']],
{
    let s = seq!['\''] + t + seq!['\''];
    assert forall|i: int| 0 <= i < s.len() implies !#[trigger] args::separates(s, i) by {
        if 0 < i <= t.len() {
            lemma_quoted_inside(t, i);
        }
    }
    law_single_argument(s);
    lemma_nothing_to_trim(s);
}

proof fn lemma_deep_inside(t: Seq<char>, i: int)
    requires
        !t.contains('\'') && !t.contains('[') && !t.contains(']'),
        0 < i <= t.len() + 1,
    ensures
        !args::quoted(seq!['['] + t + seq![']'], i),
        args::depth(seq!['['] + t + seq![']'], i) == 1,
    decreases i,
{
    let s = seq!['['] + t + seq![']'];
    if i == 1 {
        assert(!args::quoted(s, 0));
        assert(args::depth(s, 0) == 0);
        assert(s[0] == '[');
    } else {
        lemma_deep_inside(t, i - 1);
        assert(s[i - 1] == t[i - 2]);
        assert(t.contains(t[i - 2]));
    }
}

/// An array in square brackets is one argument, whatever commas stand in it.
pub proof fn law_array_is_one_argument(t: Seq<char>)
    requires
        !t.contains('\'') && !t.contains('[') && !t.contains(']'),
    ensures
        args::arguments(seq!['['] + t + seq![']']) == seq![seq!['['] + t + seq![']']],
{
    let s = seq!['['] + t + seq![']'];
    assert forall|i: int| 0 <= i < s.len() implies !#[trigger] args::separates(s, i) by {
        if 0 < i <= t.len() {
            lemma_deep_inside(t, i);
        }
    }
    law_single_argument(s);
    lemma_nothing_to_trim(s);
}

proof fn lemma_nothing_to_trim(s: Seq<char>)
    requires
        s.len() > 0,
        !text::is_white_space(s[0]),
        !text::is_white_space(s.last()),
    ensures
        text::trimmed(s) == s,
{
}

/// From a place outside of quotes and brackets on, a text is read as it is on its
/// own.
proof fn lemma_read_from(s: Seq<char>, b: int, i: int)
    requires
        0 <= b <= b + i <= s.len(),
        !args::quoted(s, b),
        args::depth(s, b) == 0,
        0 <= i,
    ensures
        args::quoted(s, b + i) == args::quoted(s.skip(b), i),
        args::depth(s, b + i) == args::depth(s.skip(b), i),
    decreases i,
{
    if i > 0 {
        lemma_read_from(s, b, i - 1);
        assert(s.skip(b)[i - 1] == s[b + i - 1]);
    }
}

/// A part begins outside of quotes and brackets, and no character of it
/// separates.
proof fn lemma_part_begins(s: Seq<char>, i: int)
    requires
        0 <= i <= s.len(),
    ensures
        0 <= args::begin_of(s, i) <= i,
        !args::quoted(s, args::begin_of(s, i)),
        args::depth(s, args::begin_of(s, i)) == 0,
        forall|j: int| args::begin_of(s, i) <= j < i ==> !#[trigger] args::separates(s, j),
    decreases i,
{
    if i > 0 {
        lemma_part_begins(s, i - 1);
    }
}

/// A text between separators holds none on its own.
proof fn lemma_part_holds_no_separator(s: Seq<char>, i: int)
    requires
        0 <= i <= s.len(),
    ensures
        holds_no_separator(s.subrange(args::begin_of(s, i), i)),
{
    let b = args::begin_of(s, i);
    let part = s.subrange(b, i);
    lemma_part_begins(s, i);
    assert forall|j: int| 0 <= j < part.len() implies !#[trigger] args::separates(part, j) by {
        lemma_read_from(s, b, j);
        assert(part + s.skip(i) =~= s.skip(b));
        lemma_in_front(part, s.skip(i), j);
        assert(part[j] == s[b + j]);
        assert(!args::separates(s, b + j));
    }
}

/// White space at the start of a text changes nothing behind it.
proof fn lemma_trimmed_start_holds_no_separator(s: Seq<char>)
    requires
        holds_no_separator(s),
    ensures
        holds_no_separator(text::trimmed_start(s)),
    decreases s.len(),
{
    if s.len() > 0 && text::is_white_space(s[0]) {
        let rest = s.drop_first();
        assert(rest =~= s.skip(1));
        assert(!args::quoted(s, 0));
        assert(args::depth(s, 0) == 0);
        assert(!args::quoted(s, 1));
        assert(args::depth(s, 1) == 0);
        assert forall|j: int| 0 <= j < rest.len() implies !#[trigger] args::separates(rest, j) by {
            lemma_read_from(s, 1, j);
            assert(rest[j] == s[j + 1]);
            assert(!args::separates(s, j + 1));
        }
        lemma_trimmed_start_holds_no_separator(rest);
    }
}

proof fn lemma_trimmed_end_holds_no_separator(s: Seq<char>)
    requires
        holds_no_separator(s),
    ensures
        holds_no_separator(text::trimmed_end(s)),
    decreases s.len(),
{
    if s.len() > 0 && text::is_white_space(s.last()) {
        let rest = s.drop_last();
        assert(rest + seq![s.last()] =~= s);
        assert forall|j: int| 0 <= j < rest.len() implies !#[trigger] args::separates(rest, j) by {
            lemma_in_front(rest, seq![s.last()], j);
            assert(rest[j] == s[j]);
            assert(!args::separates(s, j));
        }
        lemma_trimmed_end_holds_no_separator(rest);
    }
}

proof fn lemma_trimmed_start(s: Seq<char>)
    ensures
        ({
            let t = text::trimmed_start(s);
            &&& t.len() <= s.len()
            &&& t.len() > 0 ==> !text::is_white_space(t[0])
        }),
    decreases s.len(),
{
    if s.len() > 0 && text::is_white_space(s[0]) {
        lemma_trimmed_start(s.drop_first());
    }
}

proof fn lemma_trimmed_end(s: Seq<char>)
    ensures
        ({
            let t = text::trimmed_end(s);
            &&& t.len() <= s.len()
            &&& t.len() > 0 ==> !text::is_white_space(t.last()) && t[0] == s[0]
        }),
    decreases s.len(),
{
    if s.len() > 0 && text::is_white_space(s.last()) {
        lemma_trimmed_end(s.drop_last());
    }
}

/// What was trimmed begins and ends with no white space.
pub proof fn lemma_trimmed_ends(s: Seq<char>)
    ensures
        text::trimmed(s).len() > 0 ==> !text::is_white_space(text::trimmed(s)[0])
            && !text::is_white_space(text::trimmed(s).last()),
{
    lemma_trimmed_start(s);
    lemma_trimmed_end(text::trimmed_start(s));
}

/// What was trimmed has nothing left to trim.
pub proof fn lemma_trimmed_twice(s: Seq<char>)
    ensures
        text::trimmed(text::trimmed(s)) == text::trimmed(s),
{
    lemma_trimmed_ends(s);
    if text::trimmed(s).len() > 0 {
        lemma_nothing_to_trim(text::trimmed(s));
    }
}

/// Whether a text is the only argument that it lists, or is empty and lists
/// none.
pub open spec fn splits_to_itself(part: Seq<char>) -> bool {
    args::arguments(part) == if part.len() == 0 {
        Seq::<Seq<char>>::empty()
    } else {
        seq![part]
    }
}

proof fn lemma_part_splits_to_itself(s: Seq<char>, i: int)
    requires
        0 <= i <= s.len(),
    ensures
        splits_to_itself(text::trimmed(s.subrange(args::begin_of(s, i), i))),
{
    let part = s.subrange(args::begin_of(s, i), i);
    lemma_part_holds_no_separator(s, i);
    lemma_trimmed_start_holds_no_separator(part);
    lemma_trimmed_end_holds_no_separator(text::trimmed_start(part));
    lemma_trimmed_twice(part);
    law_single_argument(text::trimmed(part));
}

proof fn lemma_ended_parts(s: Seq<char>, i: int)
    requires
        0 <= i <= s.len(),
    ensures
        forall|k: int|
            0 <= k < args::ended_before(s, i).len() ==> splits_to_itself(
                #[trigger] args::ended_before(s, i)[k],
            ),
    decreases i,
{
    if i > 0 {
        lemma_ended_parts(s, i - 1);
        lemma_part_splits_to_itself(s, i - 1);
        let before = args::ended_before(s, i - 1);
        let after = args::ended_before(s, i);
        assert forall|k: int| 0 <= k < after.len() implies splits_to_itself(
            #[trigger] after[k],
        ) by {
            if k < before.len() {
                assert(splits_to_itself(before[k]));
            }
        }
    }
}

/// Each part of an argument list splits to itself: it is one argument, or none
/// where it is empty.
pub proof fn law_parts_split_to_themselves(s: Seq<char>)
    ensures
        forall|k: int|
            0 <= k < args::arguments(s).len() ==> splits_to_itself(
                #[trigger] args::arguments(s)[k],
            ),
{
    let n = s.len() as int;
    lemma_ended_parts(s, n);
    lemma_part_splits_to_itself(s, n);
    lemma_begin_bounds(s, n);
    assert(s.subrange(args::begin_of(s, n), n) =~= s.skip(args::begin_of(s, n)));
}

/// A text that ends with no white space is not trimmed away.
pub proof fn lemma_trimmed_keeps_end(s: Seq<char>)
    requires
        s.len() > 0,
        !text::is_white_space(s.last()),
    ensures
        text::trimmed(s).len() > 0,
    decreases s.len(),
{
    if text::is_white_space(s[0]) {
        lemma_trimmed_keeps_end(s.drop_first());
    }
}

}

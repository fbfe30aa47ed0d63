//! The arguments of a call.

use vstd::prelude::*;
use vstd::string::*;

use crate::compiler::Compiler;
use crate::pattern;
use crate::text;

verus! {

/// Whether the place `i` of `s` stands inside a single-quoted string: an odd
/// number of single quotes comes before it.
pub open spec fn quoted(s: Seq<char>, i: int) -> bool
    decreases i,
{
    if i <= 0 {
        false
    } else {
        quoted(s, i - 1) != (s[i - 1] == '\'')
    }
}

/// The number of square brackets that are open at the place `i` of `s`. What
/// is quoted does not count, and neither does a closing bracket that closes
/// none.
pub open spec fn depth(s: Seq<char>, i: int) -> nat
    decreases i,
{
    if i <= 0 {
        0
    } else {
        let before = depth(s, i - 1);
        if !quoted(s, i - 1) && s[i - 1] == '[' {
            before + 1
        } else if !quoted(s, i - 1) && s[i - 1] == ']' && before > 0 {
            (before - 1) as nat
        } else {
            before
        }
    }
}

/// Whether the character at the place `i` of `s` separates two arguments: a
/// comma outside of quotes and brackets.
pub open spec fn separates(s: Seq<char>, i: int) -> bool {
    s[i] == ',' && !quoted(s, i) && depth(s, i) == 0
}

/// Where the argument that holds the place `i` of `s` begins: behind the last
/// separator before `i`.
pub open spec fn begin_of(s: Seq<char>, i: int) -> int
    decreases i,
{
    if i <= 0 {
        0
    } else if separates(s, i - 1) {
        i
    } else {
        begin_of(s, i - 1)
    }
}

/// The arguments that end before the place `i` of `s`, without the white space
/// around them.
pub open spec fn ended_before(s: Seq<char>, i: int) -> Seq<Seq<char>>
    decreases i,
{
    if i <= 0 {
        Seq::empty()
    } else if separates(s, i - 1) {
        ended_before(s, i - 1).push(text::trimmed(s.subrange(begin_of(s, i - 1), i - 1)))
    } else {
        ended_before(s, i - 1)
    }
}

/// The arguments that `s` lists, without the white space around them. What
/// follows the last separator is one unless it is blank.
pub open spec fn arguments(s: Seq<char>) -> Seq<Seq<char>> {
    let n = s.len() as int;
    let tail = text::trimmed(s.skip(begin_of(s, n)));
    if tail.len() == 0 {
        ended_before(s, n)
    } else {
        ended_before(s, n).push(tail)
    }
}

/// Whether the place `i` of `s` stands between a parenthesis outside of quotes
/// and the one that closes it. A parenthesis that closes nowhere does not count.
pub open spec fn in_parentheses(s: Seq<char>, i: int) -> bool {
    exists|p: int, e: int|
        0 <= p < i < e && s[p] == '(' && !quoted(s, p) && #[trigger] pattern::closes(s, p, e)
}

/// Whether the character at the place `i` of `s` separates two arguments of a
/// call: a comma outside of quotes, brackets and parentheses.
pub open spec fn divides(s: Seq<char>, i: int) -> bool {
    separates(s, i) && !in_parentheses(s, i)
}

/// Where the argument of a call that holds the place `i` of `s` begins: behind
/// the last separator before `i`.
pub open spec fn begin_of_part(s: Seq<char>, i: int) -> int
    decreases i,
{
    if i <= 0 {
        0
    } else if divides(s, i - 1) {
        i
    } else {
        begin_of_part(s, i - 1)
    }
}

/// The arguments of a call that end before the place `i` of `s`, without the
/// white space around them.
pub open spec fn parts_before(s: Seq<char>, i: int) -> Seq<Seq<char>>
    decreases i,
{
    if i <= 0 {
        Seq::empty()
    } else if divides(s, i - 1) {
        parts_before(s, i - 1).push(text::trimmed(s.subrange(begin_of_part(s, i - 1), i - 1)))
    } else {
        parts_before(s, i - 1)
    }
}

/// The arguments of a call whose parentheses hold `s`, without the white space
/// around them. What follows the last separator is one unless it is blank.
pub open spec fn call_arguments(s: Seq<char>) -> Seq<Seq<char>> {
    let n = s.len() as int;
    let tail = text::trimmed(s.skip(begin_of_part(s, n)));
    if tail.len() == 0 {
        parts_before(s, n)
    } else {
        parts_before(s, n).push(tail)
    }
}

/// The argument `k` of a call whose parentheses hold `s`, or `default` where it
/// has fewer.
pub open spec fn argument(s: Seq<char>, k: int, default: Seq<char>) -> Seq<char> {
    if k < call_arguments(s).len() {
        call_arguments(s)[k]
    } else {
        default
    }
}

/// The strings of a list, each as its characters.
pub open spec fn str_views(list: Seq<&str>) -> Seq<Seq<char>> {
    list.map_values(|s: &str| s@)
}

/// The argument `k`, or `default` where there are fewer.
pub fn argument_or<'a>(parts: &Vec<&'a str>, k: usize, default: &'a str) -> (res: &'a str)
    ensures
        res@ == (if k < parts@.len() {
            parts@[k as int]@
        } else {
            default@
        }),
{
    if k < parts.len() {
        parts[k]
    } else {
        default
    }
}

impl Compiler {
    /// Split a comma-separated argument string while respecting single-quoted
    /// strings and square brackets. This prevents internal commas inside SQL
    /// literals or JSON arrays from being treated as delimiters.
    pub fn split_sql_args<'a>(args: &'a str) -> (res: Vec<&'a str>)
        ensures
            str_views(res@) == arguments(args@),
            res@.len() == arguments(args@).len(),
            forall|k: int| 0 <= k < res@.len() ==> (#[trigger] res@[k])@ == arguments(args@)[k],
    {
        let chars = text::chars_of(args);
        let mut parts: Vec<&'a str> = Vec::new();
        let mut start: usize = 0;
        let mut in_single_quote = false;
        let mut bracket_depth: usize = 0;
        let mut i: usize = 0;
        while i < chars.len()
            invariant
                chars@ == args@,
                0 <= start <= i <= args@.len(),
                in_single_quote == quoted(args@, i as int),
                bracket_depth == depth(args@, i as int),
                bracket_depth <= i,
                start == begin_of(args@, i as int),
                str_views(parts@) == ended_before(args@, i as int),
            decreases args@.len() - i,
        {
            let ch = chars[i];
            if ch == '\'' {
                in_single_quote = !in_single_quote;
            } else if !in_single_quote {
                if ch == '[' {
                    bracket_depth += 1;
                } else if ch == ']' {
                    if bracket_depth > 0 {
                        bracket_depth -= 1;
                    }
                } else if ch == ',' && bracket_depth == 0 {
                    let part = args.substring_char(start, i).trim();
                    let ghost before = parts@;
                    parts.push(part);
                    assert(str_views(parts@) == str_views(before).push(part@));
                    start = i + 1;
                }
            }
            i += 1;
        }
        let tail = text::skip(args, start).trim();
        let ghost before = parts@;
        if !tail.is_empty() {
            parts.push(tail);
            assert(str_views(parts@) == str_views(before).push(tail@));
        }
        proof {
            assert(str_views(parts@).len() == parts@.len());
            assert forall|k: int| 0 <= k < parts@.len() implies (#[trigger] parts@[k])@
                == arguments(args@)[k] by {
                assert(str_views(parts@)[k] == parts@[k]@);
            }
        }
        parts
    }
}

/// Split what the parentheses of a call hold into its arguments. A comma in a
/// single-quoted string, in square brackets or in parentheses that close does
/// not separate.
pub fn split_call_args<'a>(args: &'a str) -> (res: Vec<&'a str>)
    ensures
        str_views(res@) == call_arguments(args@),
        res@.len() == call_arguments(args@).len(),
        forall|k: int| 0 <= k < res@.len() ==> (#[trigger] res@[k])@ == call_arguments(args@)[k],
{
    let chars = text::chars_of(args);
    let mut parts: Vec<&'a str> = Vec::new();
    let mut start: usize = 0;
    let mut in_single_quote = false;
    let mut bracket_depth: usize = 0;
    // The last place at which a parenthesis that opened so far closes.
    let mut closed_at: usize = 0;
    let mut i: usize = 0;
    while i < chars.len()
        invariant
            chars@ == args@,
            0 <= start <= i <= args@.len(),
            in_single_quote == quoted(args@, i as int),
            bracket_depth == depth(args@, i as int),
            bracket_depth <= i,
            forall|p: int, e: int|
                0 <= p < i && args@[p] == '(' && !quoted(args@, p) && #[trigger] pattern::closes(
                    args@,
                    p,
                    e,
                ) ==> e <= closed_at,
            closed_at > 0 ==> exists|p: int|
                0 <= p < i && args@[p] == '(' && !quoted(args@, p) && #[trigger] pattern::closes(
                    args@,
                    p,
                    closed_at as int,
                ),
            start == begin_of_part(args@, i as int),
            str_views(parts@) == parts_before(args@, i as int),
        decreases args@.len() - i,
    {
        let ch = chars[i];
        proof {
            assert(in_parentheses(args@, i as int) == (i < closed_at));
        }
        if ch == '\'' {
            in_single_quote = !in_single_quote;
        } else if !in_single_quote {
            if ch == '[' {
                bracket_depth += 1;
            } else if ch == ']' {
                if bracket_depth > 0 {
                    bracket_depth -= 1;
                }
            } else if ch == '(' {
                proof {
                    pattern::lemma_call_end(args@, i as int);
                }
                if let Some(e) = pattern::closing_of(args, i) {
                    assert(pattern::closes(args@, i as int, e as int));
                    if e > closed_at {
                        closed_at = e;
                    }
                }
            } else if ch == ',' && bracket_depth == 0 && i >= closed_at {
                let part = args.substring_char(start, i).trim();
                let ghost before = parts@;
                parts.push(part);
                assert(str_views(parts@) == str_views(before).push(part@));
                start = i + 1;
            }
        }
        i += 1;
    }
    let tail = text::skip(args, start).trim();
    let ghost before = parts@;
    if !tail.is_empty() {
        parts.push(tail);
        assert(str_views(parts@) == str_views(before).push(tail@));
    }
    proof {
        assert(str_views(parts@).len() == parts@.len());
        assert forall|k: int| 0 <= k < parts@.len() implies (#[trigger] parts@[k])@
            == call_arguments(args@)[k] by {
            assert(str_views(parts@)[k] == parts@[k]@);
        }
    }
    parts
}

}

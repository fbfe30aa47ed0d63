//! Laws of listing the calls and the references in SQL.

use vstd::prelude::*;

use crate::laws::compile;
use crate::parser;
use crate::parser::CallView;
use crate::pattern;
use crate::pattern::CaptureView;

verus! {

/// Whether no two calls of a list were matched as the same text.
pub open spec fn listed_once(calls: Seq<CallView>) -> bool {
    forall|i: int, j: int|
        0 <= i < j < calls.len() ==> (#[trigger] calls[i]).full_match != (
        #[trigger] calls[j]).full_match
}

/// Whether one of the first `n` heads in `sql` is that of a call.
pub open spec fn is_match(
    sql: Seq<char>,
    heads: Seq<CaptureView>,
    n: int,
    call: CallView,
) -> bool {
    exists|k: int| 0 <= k < n && #[trigger] parser::call_at(sql, heads[k]) == Some(call)
}

/// Whether the call of which `head` is the head is listed, where it is a call:
/// as it is or, if it may be, with its prefix.
pub open spec fn call_is_listed(
    calls: Seq<CallView>,
    sql: Seq<char>,
    head: CaptureView,
    with_prefix: bool,
) -> bool {
    parser::call_at(sql, head) matches Some(call) ==> parser::is_listed(calls, call.full_match) || (
    with_prefix && parser::is_listed(calls, "nql."@ + call.full_match))
}

proof fn lemma_push_listed(calls: Seq<CallView>, call: CallView)
    ensures
        parser::is_listed(calls.push(call), call.full_match),
        forall|full_match: Seq<char>|
            parser::is_listed(calls, full_match) ==> #[trigger] parser::is_listed(
                calls.push(call),
                full_match,
            ),
        listed_once(calls) && !parser::is_listed(calls, call.full_match) ==> listed_once(
            calls.push(call),
        ),
{
    let grown = calls.push(call);
    assert(grown[calls.len() as int].full_match == call.full_match);
    assert forall|full_match: Seq<char>| parser::is_listed(calls, full_match) implies #[trigger]
        parser::is_listed(grown, full_match) by {
        let i = choose|i: int|
            0 <= i < calls.len() && (#[trigger] calls[i]).full_match == full_match;
        assert(grown[i].full_match == full_match);
    }
}

proof fn lemma_prefixed(sql: Seq<char>, prefixed: Seq<CaptureView>, n: int)
    requires
        0 <= n <= prefixed.len(),
    ensures
        ({
            let calls = parser::prefixed_calls(sql, prefixed, n);
            &&& listed_once(calls)
            &&& forall|k: int|
                0 <= k < n ==> call_is_listed(calls, sql, #[trigger] prefixed[k], false)
            &&& forall|i: int|
                0 <= i < calls.len() ==> is_match(sql, prefixed, n, #[trigger] calls[i])
        }),
    decreases n,
{
    if n > 0 {
        lemma_prefixed(sql, prefixed, n - 1);
        let before = parser::prefixed_calls(sql, prefixed, n - 1);
        let calls = parser::prefixed_calls(sql, prefixed, n);
        if let Some(call) = parser::call_at(sql, prefixed[n - 1]) {
            lemma_push_listed(before, call);
        }
        assert forall|k: int| 0 <= k < n implies call_is_listed(
            calls,
            sql,
            #[trigger] prefixed[k],
            false,
        ) by {
            if k < n - 1 {
                assert(call_is_listed(before, sql, prefixed[k], false));
            }
        }
        assert forall|i: int| 0 <= i < calls.len() implies is_match(
            sql,
            prefixed,
            n,
            #[trigger] calls[i],
        ) by {
            if i < before.len() {
                assert(is_match(sql, prefixed, n - 1, before[i]));
            }
        }
    }
}

proof fn lemma_bare(calls: Seq<CallView>, sql: Seq<char>, bare: Seq<CaptureView>, n: int)
    requires
        0 <= n <= bare.len(),
        listed_once(calls),
    ensures
        ({
            let after = parser::with_bare_calls(calls, sql, bare, n);
            &&& listed_once(after)
            &&& calls.is_prefix_of(after)
            &&& forall|full_match: Seq<char>|
                parser::is_listed(calls, full_match) ==> #[trigger] parser::is_listed(
                    after,
                    full_match,
                )
            &&& forall|k: int| 0 <= k < n ==> call_is_listed(after, sql, #[trigger] bare[k], true)
            &&& forall|i: int|
                calls.len() <= i < after.len() ==> is_match(sql, bare, n, #[trigger] after[i])
                    && !parser::is_listed(calls, "nql."@ + after[i].full_match)
        }),
    decreases n,
{
    if n > 0 {
        lemma_bare(calls, sql, bare, n - 1);
        let before = parser::with_bare_calls(calls, sql, bare, n - 1);
        let after = parser::with_bare_calls(calls, sql, bare, n);
        if let Some(call) = parser::call_at(sql, bare[n - 1]) {
            lemma_push_listed(before, call);
        }
        assert(calls =~= after.take(calls.len() as int));
        assert forall|k: int| 0 <= k < n implies call_is_listed(
            after,
            sql,
            #[trigger] bare[k],
            true,
        ) by {
            if k < n - 1 {
                assert(call_is_listed(before, sql, bare[k], true));
            }
        }
        assert forall|i: int| calls.len() <= i < after.len() implies is_match(
            sql,
            bare,
            n,
            #[trigger] after[i],
        ) && !parser::is_listed(calls, "nql."@ + after[i].full_match) by {
            if i < before.len() {
                assert(is_match(sql, bare, n - 1, before[i]));
            }
        }
    }
}

/// Each call is listed once. Every prefixed call is listed, and every bare call
/// is listed as it is or with its prefix. Each listed call has a head that was
/// matched, the prefixed ones first, and none is listed as it is that is listed
/// with its prefix.
pub proof fn law_calls_collected(
    sql: Seq<char>,
    prefixed: Seq<CaptureView>,
    bare: Seq<CaptureView>,
)
    ensures
        ({
            let first = parser::prefixed_calls(sql, prefixed, prefixed.len() as int);
            let calls = parser::collected(sql, prefixed, bare);
            &&& listed_once(calls)
            &&& first.is_prefix_of(calls)
            &&& forall|k: int|
                0 <= k < prefixed.len() ==> call_is_listed(
                    calls,
                    sql,
                    #[trigger] prefixed[k],
                    false,
                )
            &&& forall|k: int|
                0 <= k < bare.len() ==> call_is_listed(calls, sql, #[trigger] bare[k], true)
            &&& forall|i: int|
                0 <= i < first.len() ==> is_match(
                    sql,
                    prefixed,
                    prefixed.len() as int,
                    #[trigger] calls[i],
                )
            &&& forall|i: int|
                first.len() <= i < calls.len() ==> is_match(
                    sql,
                    bare,
                    bare.len() as int,
                    #[trigger] calls[i],
                ) && !parser::is_listed(first, "nql."@ + calls[i].full_match)
        }),
{
    let first = parser::prefixed_calls(sql, prefixed, prefixed.len() as int);
    lemma_prefixed(sql, prefixed, prefixed.len() as int);
    lemma_bare(first, sql, bare, bare.len() as int);
    let calls = parser::collected(sql, prefixed, bare);
    assert forall|k: int| 0 <= k < prefixed.len() implies call_is_listed(
        calls,
        sql,
        #[trigger] prefixed[k],
        false,
    ) by {
        assert(call_is_listed(first, sql, prefixed[k], false));
    }
    assert forall|i: int| 0 <= i < first.len() implies is_match(
        sql,
        prefixed,
        prefixed.len() as int,
        #[trigger] calls[i],
    ) by {
        assert(first[i] == calls[i]);
    }
}

/// Whether `part` stands somewhere in `sql`.
pub open spec fn holds(sql: Seq<char>, part: Seq<char>) -> bool {
    exists|i: int| #[trigger] pattern::stands_at(sql, i, part)
}

/// Whether `call` stands at the place `i` of `sql`, bare or with the prefix, and
/// its arguments are everything inside its parentheses: they end where the
/// parenthesis closes, outside of single-quoted strings, or, where it closes
/// nowhere, before the next one that closes.
pub open spec fn call_stands_at(sql: Seq<char>, i: int, call: CallView) -> bool {
    let open = i + call.full_match.len() - call.args.len() - 2;
    let e = i + call.full_match.len() - 1;
    &&& pattern::is_function(call.function_name)
    &&& call.full_match == pattern::call_text(call.function_name, call.args) || call.full_match
        == pattern::prefixed_text(call.function_name, call.args)
    &&& pattern::stands_at(sql, i, call.full_match)
    &&& pattern::closes(sql, open, e) || (!pattern::is_closed(sql, open)
        && pattern::is_first_closing(sql, open, e))
}

/// What a head of a call and the text up to the end of the call make.
proof fn lemma_call_stands(sql: Seq<char>, heads: Seq<CaptureView>, k: int)
    requires
        pattern::well_placed(sql, heads),
        pattern::are_heads(sql, heads) || pattern::are_bare_heads(sql, heads),
        0 <= k < heads.len(),
    ensures
        parser::call_at(sql, heads[k]) matches Some(call) ==> call_stands_at(
            sql,
            heads[k].start,
            call,
        ),
{
    reveal_strlit("(");
    reveal_strlit(")");
    let head = heads[k];
    let open = head.end - 1;
    pattern::lemma_call_end(sql, open);
    if let Some(call) = parser::call_at(sql, head) {
        let e = pattern::call_end(sql, open)->Some_0;
        let name = call.function_name;
        assert(head.groups[0] == sql.subrange(head.start, head.end));
        assert(call.full_match =~= head.groups[0] + call.args + ")"@);
        if head.groups[0] == pattern::head_text(name) {
            assert(call.full_match =~= pattern::prefixed_text(name, call.args));
        } else {
            assert(call.full_match =~= pattern::call_text(name, call.args));
        }
        assert(e == head.start + call.full_match.len() - 1);
        assert(open == head.start + call.full_match.len() - call.args.len() - 2);
    }
}

/// Each call that is listed is a call of an NQL function that stands in the
/// SQL, bare or with the prefix. Its arguments are everything up to where its
/// parenthesis closes; those in single-quoted strings, as read from there, do
/// not count. Where it closes nowhere, they are everything up to the next
/// closing parenthesis.
pub proof fn law_listed_calls(sql: Seq<char>)
    requires
        pattern::heads_found(sql),
        pattern::calls_found(sql),
    ensures
        forall|i: int|
            0 <= i < parser::calls_in(sql).len() ==> stands_somewhere(
                sql,
                #[trigger] parser::calls_in(sql)[i],
            ),
{
    let prefixed = pattern::regex_captures(pattern::head_pattern(), sql);
    let bare = pattern::regex_captures(pattern::bare_pattern(), sql);
    let first = parser::prefixed_calls(sql, prefixed, prefixed.len() as int);
    let calls = parser::calls_in(sql);
    law_calls_collected(sql, prefixed, bare);
    assert forall|i: int| 0 <= i < calls.len() implies stands_somewhere(
        sql,
        #[trigger] calls[i],
    ) by {
        if i < first.len() {
            assert(is_match(sql, prefixed, prefixed.len() as int, calls[i]));
            let k = choose|k: int|
                0 <= k < prefixed.len() && #[trigger] parser::call_at(sql, prefixed[k]) == Some(
                    calls[i],
                );
            lemma_call_stands(sql, prefixed, k);
        } else {
            assert(is_match(sql, bare, bare.len() as int, calls[i]));
            let k = choose|k: int|
                0 <= k < bare.len() && #[trigger] parser::call_at(sql, bare[k]) == Some(calls[i]);
            lemma_call_stands(sql, bare, k);
        }
    }
}

/// Whether `call` stands in `sql`, with everything inside its parentheses as
/// its arguments.
pub open spec fn stands_somewhere(sql: Seq<char>, call: CallView) -> bool {
    exists|i: int| #[trigger] call_stands_at(sql, i, call)
}

/// Every call that begins a word is listed, in the arguments of other calls
/// too: as it is or with its prefix.
pub proof fn law_call_is_listed(sql: Seq<char>, i: int, name: Seq<char>, e: int)
    requires
        pattern::calls_found(sql),
        compile::is_call_head(sql, i, name),
        pattern::call_end(sql, i + name.len()) == Some(e),
    ensures
        parser::is_listed(parser::calls_in(sql), sql.subrange(i, e + 1)) || parser::is_listed(
            parser::calls_in(sql),
            "nql."@ + sql.subrange(i, e + 1),
        ),
{
    let prefixed = pattern::regex_captures(pattern::head_pattern(), sql);
    let bare = pattern::regex_captures(pattern::bare_pattern(), sql);
    law_calls_collected(sql, prefixed, bare);
    let k = compile::lemma_call_head_found(sql, i, name);
    assert(call_is_listed(parser::calls_in(sql), sql, bare[k], true));
}

/// Each name that is listed can be referred to, and a reference to it stands in
/// the SQL.
pub proof fn law_listed_references(sql: Seq<char>)
    requires
        pattern::references_found(sql),
    ensures
        forall|k: int|
            0 <= k < parser::refs_in(sql).len() ==> is_referred_to(
                sql,
                #[trigger] parser::refs_in(sql)[k],
            ),
{
    let refs = pattern::regex_captures(pattern::reference_pattern(), sql);
    assert forall|k: int| 0 <= k < parser::refs_in(sql).len() implies is_referred_to(
        sql,
        #[trigger] parser::refs_in(sql)[k],
    ) by {
        assert(parser::refs_in(sql)[k] == refs[k].groups[1]);
        assert(pattern::stands_at(sql, refs[k].start, refs[k].groups[0]));
        assert(pattern::is_reference(refs[k].groups[0], refs[k].groups[1]));
    }
}

/// Whether a reference to the model `name` stands in `sql`.
pub open spec fn is_referred_to(sql: Seq<char>, name: Seq<char>) -> bool {
    exists|i: int, part: Seq<char>| #[trigger]
        pattern::stands_at(sql, i, part) && #[trigger] pattern::is_reference(part, name)
}

/// SQL in which a reference stands has a name listed, and SQL in which none
/// stands has none.
pub proof fn law_reference_is_listed(sql: Seq<char>)
    requires
        pattern::references_found(sql),
    ensures
        parser::refs_in(sql).len() > 0 <==> exists|name: Seq<char>| #[trigger]
            is_referred_to(sql, name),
{
    let refs = pattern::regex_captures(pattern::reference_pattern(), sql);
    if exists|name: Seq<char>| #[trigger] is_referred_to(sql, name) {
        let name = choose|name: Seq<char>| #[trigger] is_referred_to(sql, name);
        let (i, part) = choose|i: int, part: Seq<char>| #[trigger]
            pattern::stands_at(sql, i, part) && #[trigger] pattern::is_reference(part, name);
        assert(pattern::covered(refs, i));
    }
    if parser::refs_in(sql).len() > 0 {
        law_listed_references(sql);
        assert(is_referred_to(sql, parser::refs_in(sql)[0]));
    }
}

}

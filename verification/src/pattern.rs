//! What is looked for in SQL: calls of AI functions and references to models.

use vstd::prelude::*;
use vstd::string::*;
use vstd::utf8::*;

use crate::text;

verus! {

/// Known NQL AI functions.
pub const NQL_FUNCTIONS: [&'static str; 28] = [
    "generate_text",
    "summarize",
    "analyze_sentiment",
    "translate",
    "extract_entities",
    "generate_embedding",
    "sentiment",
    "get_facts",
    "identify_groups",
    "classify",
    "classify_into",
    "extract_json",
    "detect_language",
    "answer_question",
    "generate_code",
    "criticize",
    "synthesize",
    "breathe",
    "zoom_in",
    "abstract",
    "generate_groups",
    "remove_redundant_groups",
    "assign_groups_to_fact",
    "get_related_concepts_multi",
    "get_related_facts_llm",
    "find_best_link_concept",
    "consolidate_facts",
    "prune_fact_subset",
];

/// Whether `name` is the name of an NQL function.
pub open spec fn is_function(name: Seq<char>) -> bool {
    exists|i: int| 0 <= i < NQL_FUNCTIONS@.len() && (#[trigger] NQL_FUNCTIONS@[i])@ == name
}

/// The names of the NQL functions, each as its characters.
pub open spec fn function_names() -> Seq<Seq<char>> {
    NQL_FUNCTIONS@.map_values(|s: &'static str| s@)
}

/// The names of the NQL functions, with a bar between each two.
pub open spec fn alternatives() -> Seq<char> {
    text::joined(function_names(), "|"@)
}

/// The pattern of a prefixed call up to its opening parenthesis.
pub open spec fn head_pattern() -> Seq<char> {
    "nql\\.("@ + alternatives() + ")\\("@
}

/// The pattern of a call up to its opening parenthesis, whatever stands before
/// it.
pub open spec fn bare_pattern() -> Seq<char> {
    "\\b("@ + alternatives() + ")\\("@
}

/// The pattern of a reference to a model.
pub open spec fn reference_pattern() -> Seq<char> {
    "\\{\\{\\s*ref\\(\\s*['\"]([^'\"]+)['\"]\\s*\\)\\s*\\}\\}"@
}

fn alternation() -> (res: String)
    ensures
        res@ == alternatives(),
{
    let mut names: Vec<String> = Vec::new();
    let mut i: usize = 0;
    while i < NQL_FUNCTIONS.len()
        invariant
            0 <= i <= NQL_FUNCTIONS@.len(),
            text::views(names@) == function_names().take(i as int),
        decreases NQL_FUNCTIONS@.len() - i,
    {
        let name = NQL_FUNCTIONS[i];
        let owned = name.to_owned();
        let ghost before = names@;
        names.push(owned);
        proof {
            assert(name == NQL_FUNCTIONS@[i as int]);
            assert(function_names()[i as int] == name@);
            assert(text::views(names@) == text::views(before).push(owned@));
            assert(function_names().take(i + 1) == function_names().take(i as int).push(name@));
        }
        i += 1;
    }
    assert(text::views(names@) =~= function_names());
    text::join(&names, "|")
}

/// Builds the pattern of a prefixed call up to its opening parenthesis.
pub fn head_pattern_text() -> (res: String)
    ensures
        res@ == head_pattern(),
{
    text::cat3("nql\\.(", alternation().as_str(), ")\\(")
}

/// Builds the pattern of a call up to its opening parenthesis, whatever stands
/// before it.
pub fn bare_pattern_text() -> (res: String)
    ensures
        res@ == bare_pattern(),
{
    text::cat3("\\b(", alternation().as_str(), ")\\(")
}

/// Builds the pattern of a reference to a model.
pub fn reference_pattern_text() -> (res: String)
    ensures
        res@ == reference_pattern(),
{
    "\\{\\{\\s*ref\\(\\s*['\"]([^'\"]+)['\"]\\s*\\)\\s*\\}\\}".to_owned()
}

/// One match of a pattern: the bytes of the text that it covers, from `start`
/// up to `end`, and the text of each group, the whole match first.
#[derive(Debug)]
pub struct Capture {
    pub start: usize,
    pub end: usize,
    pub groups: Vec<String>,
}

/// One match of a pattern: the characters of the text that it covers, from
/// `start` up to `end`, and the text of each group, the whole match first.
pub struct CaptureView {
    pub start: int,
    pub end: int,
    pub groups: Seq<Seq<char>>,
}

/// The place among the characters of `hay` of the byte `at` of its encoding.
pub open spec fn char_place(hay: Seq<char>, at: int) -> int {
    decode_utf8(encode_utf8(hay).subrange(0, at)).len() as int
}

/// What a match is in terms of characters.
pub open spec fn capture_view(hay: Seq<char>, capture: Capture) -> CaptureView {
    CaptureView {
        start: char_place(hay, capture.start as int),
        end: char_place(hay, capture.end as int),
        groups: text::views(capture.groups@),
    }
}

/// What a list of matches is in terms of characters.
pub open spec fn captures_view(hay: Seq<char>, found: Seq<Capture>) -> Seq<CaptureView> {
    found.map_values(|capture: Capture| capture_view(hay, capture))
}

/// Whether each match has at least `n` groups.
pub open spec fn have_groups(found: Seq<Capture>, n: int) -> bool {
    forall|k: int| 0 <= k < found.len() ==> (#[trigger] found[k]).groups@.len() >= n
}

/// The groups of a match are as many as those of its view.
pub proof fn lemma_have_groups(hay: Seq<char>, found: Seq<Capture>, n: int)
    requires
        forall|k: int|
            0 <= k < found.len() ==> (#[trigger] captures_view(hay, found)[k]).groups.len() >= n,
    ensures
        have_groups(found, n),
{
    assert forall|k: int| 0 <= k < found.len() implies (#[trigger] found[k]).groups@.len() >= n by {
        assert(captures_view(hay, found)[k] == capture_view(hay, found[k]));
    }
}

/// Whether each match starts and ends between two characters of `hay`.
pub open spec fn on_boundaries(hay: Seq<char>, found: Seq<Capture>) -> bool {
    forall|k: int|
        0 <= k < found.len() ==> {
            &&& is_char_boundary(encode_utf8(hay), (#[trigger] found[k]).start as int)
            &&& is_char_boundary(encode_utf8(hay), found[k].end as int)
        }
}

/// Whether the matches stand in `hay` one after the other, none over another,
/// and the first group of each is the text that it covers.
pub open spec fn well_placed(hay: Seq<char>, captures: Seq<CaptureView>) -> bool {
    &&& forall|k: int|
        0 <= k < captures.len() ==> {
            &&& 0 <= (#[trigger] captures[k]).start <= captures[k].end <= hay.len()
            &&& captures[k].groups.len() > 0
            &&& captures[k].groups[0] == hay.subrange(captures[k].start, captures[k].end)
        }
    &&& forall|j: int, k: int|
        0 <= j < k < captures.len() ==> (#[trigger] captures[j]).end <= (
        #[trigger] captures[k]).start
}

/// Whether `part` stands in `hay` at the place `i`.
pub open spec fn stands_at(hay: Seq<char>, i: int, part: Seq<char>) -> bool {
    0 <= i && i + part.len() <= hay.len() && hay.subrange(i, i + part.len()) == part
}

/// Whether the place `i` is covered by one of the matches.
pub open spec fn covered(captures: Seq<CaptureView>, i: int) -> bool {
    exists|k: int|
        0 <= k < captures.len() && (#[trigger] captures[k]).start <= i < captures[k].end
}

/// A prefixed call up to its opening parenthesis.
pub open spec fn head_text(name: Seq<char>) -> Seq<char> {
    "nql."@ + name + "("@
}

/// A call of a function.
pub open spec fn call_text(name: Seq<char>, args: Seq<char>) -> Seq<char> {
    name + "("@ + args + ")"@
}

/// A call of a function with the prefix of the library.
pub open spec fn prefixed_text(name: Seq<char>, args: Seq<char>) -> Seq<char> {
    "nql."@ + call_text(name, args)
}

/// The ASCII characters of which words are made.
pub open spec fn is_ascii_word(c: char) -> bool {
    'a' <= c <= 'z' || 'A' <= c <= 'Z' || '0' <= c <= '9' || c == '_'
}

/// The pattern of one character of which words are made.
pub open spec fn word_pattern() -> Seq<char> {
    "\\w"@
}

/// Whether words are made of `c`, as a pattern has it.
pub open spec fn is_word(c: char) -> bool {
    if c <= '\u{7f}' {
        is_ascii_word(c)
    } else {
        regex_captures(word_pattern(), seq![c]).len() > 0
    }
}

/// Whether the place `i` of `hay` is its start or follows a character of which
/// no word is made.
pub open spec fn begins_word(hay: Seq<char>, i: int) -> bool {
    i == 0 || !is_word(hay[i - 1])
}

/// Whether every character is white space.
pub open spec fn is_blank(s: Seq<char>) -> bool {
    forall|i: int| 0 <= i < s.len() ==> text::is_white_space(#[trigger] s[i])
}

/// Whether `c` is a quotation mark.
pub open spec fn is_quote(c: char) -> bool {
    c == '\'' || c == '"'
}

/// Whether `name` can be referred to: it is not empty and holds no quotation
/// mark.
pub open spec fn can_be_referred_to(name: Seq<char>) -> bool {
    name.len() > 0 && forall|i: int| 0 <= i < name.len() ==> !is_quote(#[trigger] name[i])
}

/// A reference to the model `name`, with the white space and the quotation
/// marks given.
pub open spec fn reference_text(
    name: Seq<char>,
    space: (Seq<char>, Seq<char>, Seq<char>, Seq<char>),
    quotes: (char, char),
) -> Seq<char> {
    "{{"@ + space.0 + "ref("@ + space.1 + seq![quotes.0] + name + seq![quotes.1] + space.2 + ")"@
        + space.3 + "}}"@
}

/// Whether `part` is a reference to the model `name`.
pub open spec fn is_reference(part: Seq<char>, name: Seq<char>) -> bool {
    &&& can_be_referred_to(name)
    &&& exists|space: (Seq<char>, Seq<char>, Seq<char>, Seq<char>), quotes: (char, char)|
        part == #[trigger] reference_text(name, space, quotes) && is_blank(space.0) && is_blank(
            space.1,
        ) && is_blank(space.2) && is_blank(space.3) && is_quote(quotes.0) && is_quote(quotes.1)
}

/// The matches are the heads of prefixed calls, and every such head in `hay`
/// is covered.
pub open spec fn are_heads(hay: Seq<char>, captures: Seq<CaptureView>) -> bool {
    &&& forall|k: int|
        0 <= k < captures.len() ==> {
            &&& (#[trigger] captures[k]).groups.len() == 2
            &&& is_function(captures[k].groups[1])
            &&& captures[k].groups[0] == head_text(captures[k].groups[1])
        }
    &&& forall|i: int, name: Seq<char>|
        is_function(name) && #[trigger] stands_at(hay, i, head_text(name)) ==> covered(captures, i)
}

/// The matches are heads of calls that begin a word, and every such head in
/// `hay` is covered.
pub open spec fn are_bare_heads(hay: Seq<char>, captures: Seq<CaptureView>) -> bool {
    &&& forall|k: int|
        0 <= k < captures.len() ==> {
            &&& (#[trigger] captures[k]).groups.len() == 2
            &&& is_function(captures[k].groups[1])
            &&& captures[k].groups[0] == captures[k].groups[1] + "("@
            &&& begins_word(hay, captures[k].start)
        }
    &&& forall|i: int, name: Seq<char>|
        is_function(name) && #[trigger] stands_at(hay, i, name + "("@) && begins_word(hay, i)
            ==> covered(captures, i)
}

/// The matches are references to models, and every reference in `hay` is
/// covered.
pub open spec fn are_references(hay: Seq<char>, captures: Seq<CaptureView>) -> bool {
    &&& forall|k: int|
        0 <= k < captures.len() ==> {
            &&& (#[trigger] captures[k]).groups.len() == 2
            &&& is_reference(captures[k].groups[0], captures[k].groups[1])
        }
    &&& forall|i: int, part: Seq<char>, name: Seq<char>|
        #[trigger] is_reference(part, name) && #[trigger] stands_at(hay, i, part) ==> covered(
            captures,
            i,
        )
}

/// Whether `pattern` is one of the patterns of this module.
pub open spec fn is_pattern(pattern: Seq<char>) -> bool {
    ||| pattern == head_pattern()
    ||| pattern == bare_pattern()
    ||| pattern == reference_pattern()
    ||| pattern == word_pattern()
}

/// The matches of a pattern in a text, in order.
pub uninterp spec fn regex_captures(pattern: Seq<char>, hay: Seq<char>) -> Seq<CaptureView>;

/// `regex::Regex::captures_iter` on the pattern that `regex::Regex::new` made.
/// The matches come in order and none overlaps another; each search takes the
/// leftmost place after the last match at which the pattern matches, so every
/// such place is covered by a match. Each group is a part of the text, cut
/// between characters, and holds what the pattern says. A word begins where the
/// character before is none that the class `\w` holds; of the ASCII characters
/// that class holds the letters, the digits and the underscore.
#[verifier::external_body]
pub(crate) fn captures(pattern: &str, hay: &str) -> (found: Vec<Capture>)
    requires
        is_pattern(pattern@),
    ensures
        captures_view(hay@, found@) == regex_captures(pattern@, hay@),
        on_boundaries(hay@, found@),
        well_placed(hay@, captures_view(hay@, found@)),
        pattern@ == head_pattern() ==> are_heads(hay@, captures_view(hay@, found@)),
        pattern@ == bare_pattern() ==> are_bare_heads(hay@, captures_view(hay@, found@)),
        pattern@ == reference_pattern() ==> are_references(hay@, captures_view(hay@, found@)),
{
    let regex = regex::Regex::new(pattern).expect("Invalid pattern");
    regex.captures_iter(hay).map(
        |caps| Capture {
            start: caps.get_match().start(),
            end: caps.get_match().end(),
            groups: caps.iter().map(
                |group| group.map_or(String::new(), |part| part.as_str().to_owned()),
            ).collect(),
        },
    ).collect()
}

/// The heads of prefixed calls are found in `hay`.
pub open spec fn heads_found(hay: Seq<char>) -> bool {
    let captures = regex_captures(head_pattern(), hay);
    well_placed(hay, captures) && are_heads(hay, captures)
}

/// The heads of calls are found in `hay`.
pub open spec fn calls_found(hay: Seq<char>) -> bool {
    let captures = regex_captures(bare_pattern(), hay);
    well_placed(hay, captures) && are_bare_heads(hay, captures)
}

/// The references to models are found in `hay`.
pub open spec fn references_found(hay: Seq<char>) -> bool {
    let captures = regex_captures(reference_pattern(), hay);
    well_placed(hay, captures) && are_references(hay, captures)
}

/// What reading a text finds: whether a single-quoted string is open at its
/// end, how many more parentheses are opened than closed outside of such
/// strings, and the least that this number was on the way.
pub struct Reading {
    pub quoted: bool,
    pub level: int,
    pub low: int,
}

/// What reading `s` finds, where a single-quoted string is open at its start or
/// is not.
pub open spec fn reading(s: Seq<char>, quoted: bool) -> Reading
    decreases s.len(),
{
    if s.len() == 0 {
        Reading { quoted, level: 0, low: 0 }
    } else {
        let before = reading(s.drop_last(), quoted);
        if s.last() == '\'' {
            Reading { quoted: !before.quoted, ..before }
        } else if before.quoted {
            before
        } else if s.last() == '(' {
            Reading { level: before.level + 1, ..before }
        } else if s.last() == ')' {
            let level = before.level - 1;
            Reading {
                level,
                low: if level < before.low {
                    level
                } else {
                    before.low
                },
                ..before
            }
        } else {
            before
        }
    }
}

/// How many more parentheses are opened than closed in `sql` from the place
/// `open` up to the place `k`, outside of the single-quoted strings that open
/// behind `open`.
pub open spec fn balance(sql: Seq<char>, open: int, k: int) -> int {
    reading(sql.subrange(open, k), false).level
}

/// Whether the parenthesis that opens at the place `open` closes at the place
/// `e`: the first one at which as many parentheses have closed as opened since
/// `open`, outside of single-quoted strings.
pub open spec fn closes(sql: Seq<char>, open: int, e: int) -> bool {
    &&& 0 <= open < e < sql.len()
    &&& balance(sql, open, e + 1) == 0
    &&& forall|k: int| open < k <= e ==> #[trigger] balance(sql, open, k) > 0
}

/// Reading one character more.
pub proof fn lemma_read_on(sql: Seq<char>, open: int, k: int)
    requires
        0 <= open <= k < sql.len(),
    ensures
        ({
            let before = reading(sql.subrange(open, k), false);
            let after = reading(sql.subrange(open, k + 1), false);
            let c = sql[k];
            &&& after.quoted == (before.quoted != (c == '\''))
            &&& after.level == before.level + (if before.quoted || (c != '(' && c != ')') {
                0int
            } else if c == '(' {
                1int
            } else {
                -1int
            })
        }),
{
    let part = sql.subrange(open, k + 1);
    assert(part.drop_last() =~= sql.subrange(open, k));
}

/// Whether the place `e` is the first one behind `open` at which a parenthesis
/// closes.
pub open spec fn is_first_closing(sql: Seq<char>, open: int, e: int) -> bool {
    &&& 0 <= open < e < sql.len()
    &&& sql[e] == ')'
    &&& forall|k: int| open < k < e ==> #[trigger] sql[k] != ')'
}

/// Whether the parenthesis that opens at the place `open` closes anywhere.
pub open spec fn is_closed(sql: Seq<char>, open: int) -> bool {
    exists|e: int| closes(sql, open, e)
}

/// The place at which the call ends whose parenthesis opens at the place
/// `open`: where that one closes. Where it closes nowhere, the call ends at the
/// next parenthesis that closes, and without one it is no call.
pub open spec fn call_end(sql: Seq<char>, open: int) -> Option<int> {
    if is_closed(sql, open) {
        Some(choose|e: int| closes(sql, open, e))
    } else if exists|e: int| is_first_closing(sql, open, e) {
        Some(choose|e: int| is_first_closing(sql, open, e))
    } else {
        None
    }
}

/// A call ends behind its opening parenthesis, with a closing one, and at one
/// place only.
pub proof fn lemma_call_end(sql: Seq<char>, open: int)
    ensures
        call_end(sql, open) matches Some(e) ==> 0 <= open < e < sql.len() && sql[e] == ')',
        forall|e: int| #[trigger] closes(sql, open, e) ==> call_end(sql, open) == Some(e),
        !is_closed(sql, open) ==> forall|e: int| #[trigger]
            is_first_closing(sql, open, e) ==> call_end(sql, open) == Some(e),
{
    if is_closed(sql, open) {
        let e = choose|e: int| closes(sql, open, e);
        assert(balance(sql, open, e) > 0);
        lemma_read_on(sql, open, e);
        assert forall|d: int| #[trigger] closes(sql, open, d) implies d == e by {
            if d < e {
                assert(balance(sql, open, d + 1) > 0);
            } else if e < d {
                assert(balance(sql, open, e + 1) > 0);
            }
        }
    } else if exists|e: int| is_first_closing(sql, open, e) {
        let e = choose|e: int| is_first_closing(sql, open, e);
        assert forall|d: int| #[trigger] is_first_closing(sql, open, d) implies d == e by {
            if d < e {
                assert(sql[d] != ')');
            } else if e < d {
                assert(sql[e] != ')');
            }
        }
    }
}

/// Finds the place at which the parenthesis closes that opens at the place
/// `open`. What stands in single quotes does not count.
pub fn closing_of(sql: &str, open: usize) -> (res: Option<usize>)
    ensures
        match res {
            Some(e) => closes(sql@, open as int, e as int),
            None => forall|e: int| !closes(sql@, open as int, e),
        },
{
    let chars = text::chars_of(sql);
    if open >= chars.len() || chars[open] != '(' {
        proof {
            assert forall|e: int| !closes(sql@, open as int, e) by {
                if closes(sql@, open as int, e) {
                    assert(balance(sql@, open as int, open + 1) > 0);
                    lemma_read_on(sql@, open as int, open as int);
                }
            }
        }
        return None;
    }
    let mut quoted = false;
    let mut depth: usize = 1;
    let mut i: usize = open + 1;
    proof {
        lemma_read_on(sql@, open as int, open as int);
    }
    while i < chars.len()
        invariant
            chars@ == sql@,
            open < i <= chars@.len(),
            1 <= depth <= i,
            quoted == reading(sql@.subrange(open as int, i as int), false).quoted,
            depth == balance(sql@, open as int, i as int),
            forall|k: int| open < k <= i ==> #[trigger] balance(sql@, open as int, k) > 0,
        decreases chars@.len() - i,
    {
        proof {
            lemma_read_on(sql@, open as int, i as int);
        }
        if chars[i] == '\'' {
            quoted = !quoted;
        } else if !quoted && chars[i] == '(' {
            depth += 1;
        } else if !quoted && chars[i] == ')' {
            depth -= 1;
            if depth == 0 {
                return Some(i);
            }
        }
        i += 1;
    }
    proof {
        assert forall|e: int| !closes(sql@, open as int, e) by {
            if closes(sql@, open as int, e) {
                assert(balance(sql@, open as int, e + 1) > 0);
            }
        }
    }
    None
}

/// Finds the place at which the call ends whose parenthesis opens at the place
/// `open`.
pub fn end_of_call(sql: &str, open: usize) -> (res: Option<usize>)
    ensures
        match res {
            Some(e) => call_end(sql@, open as int) == Some(e as int),
            None => call_end(sql@, open as int) is None,
        },
{
    proof {
        lemma_call_end(sql@, open as int);
    }
    if let Some(e) = closing_of(sql, open) {
        return Some(e);
    }
    assert(!is_closed(sql@, open as int));
    let chars = text::chars_of(sql);
    if open >= chars.len() {
        return None;
    }
    let mut i: usize = open + 1;
    while i < chars.len()
        invariant
            chars@ == sql@,
            !is_closed(sql@, open as int),
            open < i <= chars@.len(),
            forall|k: int| open < k < i ==> #[trigger] sql@[k] != ')',
        decreases chars@.len() - i,
    {
        if chars[i] == ')' {
            assert(is_first_closing(sql@, open as int, i as int));
            proof {
                lemma_call_end(sql@, open as int);
            }
            return Some(i);
        }
        i += 1;
    }
    None
}

/// Whether no match is empty.
pub open spec fn none_empty(captures: Seq<CaptureView>) -> bool {
    forall|k: int| 0 <= k < captures.len() ==> (#[trigger] captures[k]).start < captures[k].end
}

/// Whether the matches can be read as heads of calls in `hay`.
pub open spec fn are_usable(hay: Seq<char>, found: Seq<Capture>) -> bool {
    &&& on_boundaries(hay, found)
    &&& well_placed(hay, captures_view(hay, found))
    &&& have_groups(found, 2)
    &&& none_empty(captures_view(hay, found))
}

/// The heads of calls that were found can be read as such.
pub proof fn lemma_heads_usable(hay: Seq<char>, found: Seq<Capture>)
    requires
        on_boundaries(hay, found),
        well_placed(hay, captures_view(hay, found)),
        are_heads(hay, captures_view(hay, found)) || are_bare_heads(
            hay,
            captures_view(hay, found),
        ),
    ensures
        are_usable(hay, found),
{
    let views = captures_view(hay, found);
    reveal_strlit("(");
    assert forall|k: int| 0 <= k < views.len() implies (#[trigger] views[k]).start
        < views[k].end by {
        assert(views[k].groups[0].len() > 0);
    }
    lemma_have_groups(hay, found, 2);
}

/// Where the text after the match before the match `k` begins.
pub open spec fn end_before(captures: Seq<CaptureView>, k: int) -> int {
    if k == 0 {
        0
    } else {
        captures[k - 1].end
    }
}

/// `hay` up to the end of the match before the match `k`, with the text of each
/// match replaced.
pub open spec fn rewritten_before(
    hay: Seq<char>,
    captures: Seq<CaptureView>,
    texts: Seq<Seq<char>>,
    k: int,
) -> Seq<char>
    decreases k,
{
    if k <= 0 {
        Seq::empty()
    } else {
        rewritten_before(hay, captures, texts, k - 1) + hay.subrange(
            end_before(captures, k - 1),
            captures[k - 1].start,
        ) + texts[k - 1]
    }
}

/// `hay` with the text of each match replaced: the match `k` by the text `k`.
pub open spec fn rewritten(
    hay: Seq<char>,
    captures: Seq<CaptureView>,
    texts: Seq<Seq<char>>,
) -> Seq<char> {
    let n = captures.len() as int;
    rewritten_before(hay, captures, texts, n) + hay.skip(end_before(captures, n))
}

/// Finds the place among the characters of `hay` of a byte of it.
fn char_offset(hay: &str, at: usize) -> (res: usize)
    requires
        is_char_boundary(encode_utf8(hay@), at as int),
    ensures
        res == char_place(hay@, at as int),
        res <= hay@.len(),
{
    let parts = hay.split_at(at);
    let res: usize = parts.0.unicode_len();
    proof {
        let bytes = encode_utf8(hay@);
        encode_utf8_valid_utf8(hay@);
        encode_utf8_decode_utf8(hay@);
        encode_utf8_decode_utf8(parts.0@);
        decode_utf8_split(bytes, at as int);
        assert(parts.0.spec_bytes() == bytes.subrange(0, at as int));
    }
    res
}

/// Finds where each match starts and ends among the characters of `hay`.
pub fn places(hay: &str, found: &Vec<Capture>) -> (res: Vec<(usize, usize)>)
    requires
        on_boundaries(hay@, found@),
    ensures
        res@.len() == found@.len(),
        forall|k: int|
            0 <= k < found@.len() ==> {
                let view = captures_view(hay@, found@)[k];
                (#[trigger] res@[k]).0 == view.start && res@[k].1 == view.end
            },
{
    let mut res: Vec<(usize, usize)> = Vec::new();
    let mut k: usize = 0;
    while k < found.len()
        invariant
            on_boundaries(hay@, found@),
            0 <= k <= found@.len(),
            res@.len() == k,
            forall|j: int|
                0 <= j < k ==> {
                    let view = captures_view(hay@, found@)[j];
                    (#[trigger] res@[j]).0 == view.start && res@[j].1 == view.end
                },
        decreases found@.len() - k,
    {
        res.push((char_offset(hay, found[k].start), char_offset(hay, found[k].end)));
        k += 1;
    }
    res
}

/// Replaces the text of each match: the match `k` by the text `k`.
pub fn rewrite(hay: &str, found: &Vec<Capture>, texts: &Vec<String>) -> (res: String)
    requires
        found@.len() == texts@.len(),
        on_boundaries(hay@, found@),
        well_placed(hay@, captures_view(hay@, found@)),
    ensures
        res@ == rewritten(hay@, captures_view(hay@, found@), text::views(texts@)),
{
    let ghost views = captures_view(hay@, found@);
    let ghost new = text::views(texts@);
    let mut res = String::new();
    let mut done: usize = 0;
    let mut k: usize = 0;
    while k < found.len()
        invariant
            found@.len() == texts@.len(),
            views == captures_view(hay@, found@),
            new == text::views(texts@),
            on_boundaries(hay@, found@),
            well_placed(hay@, views),
            0 <= k <= found@.len(),
            done == end_before(views, k as int),
            done <= hay@.len(),
            res@ == rewritten_before(hay@, views, new, k as int),
        decreases found@.len() - k,
    {
        let start: usize = char_offset(hay, found[k].start);
        let end: usize = char_offset(hay, found[k].end);
        proof {
            assert(views[k as int] == capture_view(hay@, found@[k as int]));
            if k > 0 {
                assert(views[k - 1].end <= views[k as int].start);
            }
        }
        res.append(hay.substring_char(done, start));
        res.append(texts[k].as_str());
        assert(new[k as int] == texts@[k as int]@);
        done = end;
        k += 1;
    }
    res.append(text::skip(hay, done));
    res
}

}

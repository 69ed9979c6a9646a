//! The markers that the agent writes into its text: what it wants, which tool it calls, and what it
//! sends of its own accord.

use crate::strings::{
    behind_prefix, cut, cut_text, is_blank, is_space, lemma_cut, lemma_cut_at, lemma_index_of_is,
    lemma_trimmed, lemma_trimmed_prefix, occurs_at, occurs_in, strip_prefix_or, texts, trim, trimmed,
};
use vstd::prelude::*;

verus! {

/// The pairs of texts that a list of pairs of strings holds.
pub open spec fn pairs_view(pairs: Seq<(String, String)>) -> Seq<(Seq<char>, Seq<char>)> {
    Seq::new(pairs.len(), |i: int| (pairs[i].0@, pairs[i].1@))
}

/// A list of one text, or an empty list where the text is empty.
pub open spec fn unless_empty(t: Seq<char>) -> Seq<Seq<char>> {
    if t.len() > 0 {
        seq![t]
    } else {
        Seq::empty()
    }
}

/// What stands between `open` and the `close` behind it, and what stands behind that; nothing
/// where there is no whole marker.
pub open spec fn marker(s: Seq<char>, open: Seq<char>, close: Seq<char>) -> Option<
    (Seq<char>, Seq<char>),
> {
    match cut(s, open) {
        None => None,
        Some((_, after)) => cut(after, close),
    }
}

/// What stands behind a marker is shorter than what the marker stands in.
proof fn lemma_marker(s: Seq<char>, open: Seq<char>, close: Seq<char>)
    ensures
        match marker(s, open, close) {
            Some((inner, rest)) => inner.len() + rest.len() + open.len() + close.len() <= s.len(),
            None => true,
        },
{
    lemma_cut(s, open);
    if let Some((_, after)) = cut(s, open) {
        lemma_cut(after, close);
    }
}

/// The texts of the `[WANT]…[/WANT]` markers in `s`, trimmed and in order; empty ones are left out.
pub open spec fn want_markers(s: Seq<char>) -> Seq<Seq<char>>
    decreases s.len() via want_markers_shrink
{
    match marker(s, "[WANT]"@, "[/WANT]"@) {
        None => Seq::empty(),
        Some((inner, rest)) => unless_empty(trimmed(inner)) + want_markers(rest),
    }
}

#[via_fn]
proof fn want_markers_shrink(s: Seq<char>) {
    lemma_marker(s, "[WANT]"@, "[/WANT]"@);
    reveal_strlit("[WANT]");
}

/// The name and the query of the `[TOOL name=…]…[/TOOL]` markers in `s`, trimmed and in order; a
/// marker without a name is left out.
pub open spec fn tool_markers(s: Seq<char>) -> Seq<(Seq<char>, Seq<char>)>
    decreases s.len() via tool_markers_shrink
{
    match marker(s, "[TOOL "@, "]"@) {
        None => Seq::empty(),
        Some((attrs, after)) => match cut(after, "[/TOOL]"@) {
            None => Seq::empty(),
            Some((inner, rest)) => {
                let name = trimmed(behind_prefix(attrs, "name="@, ""@));
                (if name.len() > 0 {
                    seq![(name, trimmed(inner))]
                } else {
                    Seq::empty()
                }) + tool_markers(rest)
            },
        },
    }
}

#[via_fn]
proof fn tool_markers_shrink(s: Seq<char>) {
    lemma_marker(s, "[TOOL "@, "]"@);
    if let Some((attrs, after)) = marker(s, "[TOOL "@, "]"@) {
        lemma_cut(after, "[/TOOL]"@);
    }
    reveal_strlit("[TOOL ");
}

/// The text and the channel of the `[OUTBOUND channel=…]…[/OUTBOUND]` markers in `s`, trimmed and
/// in order; the channel is `cli` where none is named.
pub open spec fn outbound_markers(s: Seq<char>) -> Seq<(Seq<char>, Seq<char>)>
    decreases s.len() via outbound_markers_shrink
{
    match marker(s, "[OUTBOUND"@, "]"@) {
        None => Seq::empty(),
        Some((attrs, after)) => match cut(after, "[/OUTBOUND]"@) {
            None => Seq::empty(),
            Some((inner, rest)) => {
                let channel = trimmed(behind_prefix(trimmed(attrs), "channel="@, "cli"@));
                seq![(trimmed(inner), channel)] + outbound_markers(rest)
            },
        },
    }
}

#[via_fn]
proof fn outbound_markers_shrink(s: Seq<char>) {
    lemma_marker(s, "[OUTBOUND"@, "]"@);
    if let Some((attrs, after)) = marker(s, "[OUTBOUND"@, "]"@) {
        lemma_cut(after, "[/OUTBOUND]"@);
    }
    reveal_strlit("[OUTBOUND");
}

/// A text without an opening tag holds no marker of that kind.
pub proof fn law_no_opening_no_marker(s: Seq<char>)
    ensures
        !occurs_in(s, "[WANT]"@) ==> want_markers(s) == Seq::<Seq<char>>::empty(),
        !occurs_in(s, "[TOOL "@) ==> tool_markers(s) == Seq::<(Seq<char>, Seq<char>)>::empty(),
        !occurs_in(s, "[OUTBOUND"@) ==> outbound_markers(s) == Seq::<
            (Seq<char>, Seq<char>),
        >::empty(),
{
    lemma_cut(s, "[WANT]"@);
    lemma_cut(s, "[TOOL "@);
    lemma_cut(s, "[OUTBOUND"@);
}

/// A want that is written is read: behind words without a bracket, `[WANT]inner[/WANT]` gives
/// `inner`, trimmed, and then what the rest of the text gives.
pub proof fn law_want_is_read(words: Seq<char>, inner: Seq<char>, rest: Seq<char>)
    requires
        !words.contains('['),
        !inner.contains('['),
    ensures
        want_markers(words + "[WANT]"@ + (inner + "[/WANT]"@ + rest)) == unless_empty(
            trimmed(inner),
        ) + want_markers(rest),
{
    reveal_strlit("[WANT]");
    reveal_strlit("[/WANT]");
    lemma_cut_at(words, "[WANT]"@, inner + "[/WANT]"@ + rest);
    lemma_cut_at(inner, "[/WANT]"@, rest);
}

/// A tool call that is written is read: behind words without a bracket,
/// `[TOOL name=name]query[/TOOL]` gives `name` and `query`, trimmed, and then what the rest of the
/// text gives.
pub proof fn law_tool_is_read(
    words: Seq<char>,
    name: Seq<char>,
    query: Seq<char>,
    rest: Seq<char>,
)
    requires
        !words.contains('['),
        !name.contains(']'),
        trimmed(name).len() > 0,
        !query.contains('['),
    ensures
        tool_markers(
            words + "[TOOL "@ + (("name="@ + name) + "]"@ + (query + "[/TOOL]"@ + rest)),
        ) == seq![(trimmed(name), trimmed(query))] + tool_markers(rest),
{
    reveal_strlit("[TOOL ");
    reveal_strlit("name=");
    reveal_strlit("]");
    reveal_strlit("[/TOOL]");
    let attrs = "name="@ + name;
    let after = query + "[/TOOL]"@ + rest;
    assert(!attrs.contains(']')) by {
        assert forall|i: int| 0 <= i < attrs.len() implies attrs[i] != ']' by {
            if i >= 5 {
                assert(name.contains(attrs[i])) by {
                    assert(name[i - 5] == attrs[i]);
                }
            }
        }
    }
    lemma_cut_at(words, "[TOOL "@, attrs + "]"@ + after);
    lemma_cut_at(attrs, "]"@, after);
    lemma_cut_at(query, "[/TOOL]"@, rest);
    assert("name="@ =~= attrs.subrange(0, 5));
    assert(attrs.skip(5) =~= name);
}

/// A message that is written is read: behind words without a bracket,
/// `[OUTBOUND channel=channel]inner[/OUTBOUND]` gives `inner` and `channel`, trimmed, and then what
/// the rest of the text gives.
pub proof fn law_outbound_is_read(
    words: Seq<char>,
    channel: Seq<char>,
    inner: Seq<char>,
    rest: Seq<char>,
)
    requires
        !words.contains('['),
        !channel.contains(']'),
        !inner.contains('['),
    ensures
        outbound_markers(
            words + "[OUTBOUND"@ + ((" channel="@ + channel) + "]"@ + (inner + "[/OUTBOUND]"@
                + rest)),
        ) == seq![(trimmed(inner), trimmed(channel))] + outbound_markers(rest),
{
    reveal_strlit("[OUTBOUND");
    reveal_strlit(" channel=");
    reveal_strlit("channel=");
    reveal_strlit("]");
    reveal_strlit("[/OUTBOUND]");
    let attrs = " channel="@ + channel;
    let after = inner + "[/OUTBOUND]"@ + rest;
    assert(!attrs.contains(']')) by {
        assert forall|i: int| 0 <= i < attrs.len() implies attrs[i] != ']' by {
            if i >= 9 {
                assert(channel.contains(attrs[i])) by {
                    assert(channel[i - 9] == attrs[i]);
                }
            }
        }
    }
    lemma_cut_at(words, "[OUTBOUND"@, attrs + "]"@ + after);
    lemma_cut_at(attrs, "]"@, after);
    lemma_cut_at(inner, "[/OUTBOUND]"@, rest);
    let (a, b) = lemma_trimmed(attrs);
    assert(attrs[0] == ' ' && attrs[1] == 'c' && attrs[8] == '=');
    assert(!is_space(attrs[1]) && !is_space(attrs[8]));
    assert(a == 1 && b >= 9);
    let named = trimmed(attrs);
    assert("channel="@ =~= named.subrange(0, 8));
    assert(named.skip(8) =~= channel.take(b - 9));
    assert forall|j: int| b - 9 <= j < channel.len() implies is_space(#[trigger] channel[j]) by {
        assert(channel[j] == attrs[j + 9]);
    }
    lemma_trimmed_prefix(channel, b - 9);
}

/// Extracts the `[WANT]…[/WANT]` markers.
pub fn extract_want_markers(text: &str) -> (r: Vec<String>)
    ensures
        texts(r@) == want_markers(text@),
{
    let mut results: Vec<String> = Vec::new();
    let mut search = text.to_owned();
    loop
        invariant
            texts(results@) + want_markers(search@) == want_markers(text@),
        ensures
            texts(results@) =~= want_markers(text@),
        decreases search@.len(),
    {
        proof {
            lemma_marker(search@, "[WANT]"@, "[/WANT]"@);
            reveal_strlit("[WANT]");
        }
        let ghost before = texts(results@);
        let after = match cut_text(search.as_str(), "[WANT]") {
            Some((_, after)) => after,
            None => {
                break;
            },
        };
        match cut_text(after.as_str(), "[/WANT]") {
            Some((inner, rest)) => {
                let inner = trim(inner.as_str());
                if !is_blank(inner.as_str()) {
                    results.push(inner);
                }
                assert(texts(results@) =~= before + unless_empty(inner@));
                assert(texts(results@) + want_markers(rest@) =~= before + (unless_empty(inner@)
                    + want_markers(rest@)));
                search = rest;
            },
            None => {
                break;
            },
        }
    }
    results
}

/// Extracts the `[TOOL name=…]…[/TOOL]` markers as pairs of a name and a query.
pub fn extract_tool_markers(text: &str) -> (r: Vec<(String, String)>)
    ensures
        pairs_view(r@) == tool_markers(text@),
{
    let mut results: Vec<(String, String)> = Vec::new();
    let mut search = text.to_owned();
    loop
        invariant
            pairs_view(results@) + tool_markers(search@) == tool_markers(text@),
        ensures
            pairs_view(results@) =~= tool_markers(text@),
        decreases search@.len(),
    {
        proof {
            lemma_marker(search@, "[TOOL "@, "]"@);
            reveal_strlit("[TOOL ");
        }
        let ghost before = pairs_view(results@);
        let after_open = match cut_text(search.as_str(), "[TOOL ") {
            Some((_, after_open)) => after_open,
            None => {
                break;
            },
        };
        let (attrs, after_tag) = match cut_text(after_open.as_str(), "]") {
            Some(sides) => sides,
            None => {
                break;
            },
        };
        let name = trim(strip_prefix_or(attrs.as_str(), "name=", "").as_str());
        match cut_text(after_tag.as_str(), "[/TOOL]") {
            Some((inner, rest)) => {
                proof {
                    lemma_cut(after_tag@, "[/TOOL]"@);
                }
                let inner = trim(inner.as_str());
                let ghost this = if name@.len() > 0 {
                    seq![(name@, inner@)]
                } else {
                    Seq::empty()
                };
                if !is_blank(name.as_str()) {
                    results.push((name, inner));
                }
                assert(pairs_view(results@) =~= before + this);
                assert(pairs_view(results@) + tool_markers(rest@) =~= before + (this
                    + tool_markers(rest@)));
                search = rest;
            },
            None => {
                break;
            },
        }
    }
    results
}

/// Extracts the `[OUTBOUND channel=…]…[/OUTBOUND]` markers as pairs of a text and a channel.
pub fn extract_outbound_markers(text: &str) -> (r: Vec<(String, String)>)
    ensures
        pairs_view(r@) == outbound_markers(text@),
{
    let mut results: Vec<(String, String)> = Vec::new();
    let mut search = text.to_owned();
    loop
        invariant
            pairs_view(results@) + outbound_markers(search@) == outbound_markers(text@),
        ensures
            pairs_view(results@) =~= outbound_markers(text@),
        decreases search@.len(),
    {
        proof {
            lemma_marker(search@, "[OUTBOUND"@, "]"@);
            reveal_strlit("[OUTBOUND");
        }
        let ghost before = pairs_view(results@);
        let after_open = match cut_text(search.as_str(), "[OUTBOUND") {
            Some((_, after_open)) => after_open,
            None => {
                break;
            },
        };
        let (attrs, after_tag) = match cut_text(after_open.as_str(), "]") {
            Some(sides) => sides,
            None => {
                break;
            },
        };
        let attrs = trim(attrs.as_str());
        let channel = trim(strip_prefix_or(attrs.as_str(), "channel=", "cli").as_str());
        match cut_text(after_tag.as_str(), "[/OUTBOUND]") {
            Some((inner, rest)) => {
                proof {
                    lemma_cut(after_tag@, "[/OUTBOUND]"@);
                }
                let inner = trim(inner.as_str());
                let ghost this = seq![(inner@, channel@)];
                results.push((inner, channel));
                assert(pairs_view(results@) =~= before + this);
                assert(pairs_view(results@) + outbound_markers(rest@) =~= before + (this
                    + outbound_markers(rest@)));
                search = rest;
            },
            None => {
                break;
            },
        }
    }
    results
}

/// What is wanted is written down where it is not blank, and a blank want is no want.
pub proof fn law_wants_are_taken_as_they_are(words: Seq<char>, inner: Seq<char>, rest: Seq<char>)
    requires
        !words.contains('['),
        !inner.contains('['),
    ensures
        trimmed(inner).len() > 0 ==> want_markers(
            words + "[WANT]"@ + (inner + "[/WANT]"@ + rest),
        ) == seq![trimmed(inner)] + want_markers(rest),
        trimmed(inner).len() == 0 ==> want_markers(
            words + "[WANT]"@ + (inner + "[/WANT]"@ + rest),
        ) == want_markers(rest),
{
    law_want_is_read(words, inner, rest);
    assert(Seq::<Seq<char>>::empty() + want_markers(rest) =~= want_markers(rest));
}

/// A marker without an end is none.
pub proof fn law_open_markers_are_none(words: Seq<char>, tail: Seq<char>)
    requires
        !words.contains('['),
    ensures
        !occurs_in(tail, "[/WANT]"@) ==> want_markers(words + "[WANT]"@ + tail) == Seq::<
            Seq<char>,
        >::empty(),
        !tail.contains(']') ==> tool_markers(words + "[TOOL "@ + tail) == Seq::<
            (Seq<char>, Seq<char>),
        >::empty(),
        !tail.contains(']') ==> outbound_markers(words + "[OUTBOUND"@ + tail) == Seq::<
            (Seq<char>, Seq<char>),
        >::empty(),
{
    reveal_strlit("[WANT]");
    reveal_strlit("[TOOL ");
    reveal_strlit("[OUTBOUND");
    reveal_strlit("]");
    lemma_cut_at(words, "[WANT]"@, tail);
    lemma_cut_at(words, "[TOOL "@, tail);
    lemma_cut_at(words, "[OUTBOUND"@, tail);
    lemma_cut(tail, "[/WANT]"@);
    lemma_cut(tail, "]"@);
    if let Some((before, after)) = cut(tail, "]"@) {
        assert(tail[before.len() as int] == ']');
    }
}

/// A tool whose call is not ended is not called, and neither is one without a name.
pub proof fn law_tools_need_a_name_and_an_end(
    words: Seq<char>,
    attrs: Seq<char>,
    query: Seq<char>,
    rest: Seq<char>,
)
    requires
        !words.contains('['),
        !attrs.contains(']'),
    ensures
        !occurs_in(rest, "[/TOOL]"@) ==> tool_markers(words + "[TOOL "@ + (attrs + "]"@ + rest))
            == Seq::<(Seq<char>, Seq<char>)>::empty(),
        !query.contains('[') && !"name="@.is_prefix_of(attrs) ==> tool_markers(
            words + "[TOOL "@ + (attrs + "]"@ + (query + "[/TOOL]"@ + rest)),
        ) == tool_markers(rest),
{
    reveal_strlit("[TOOL ");
    reveal_strlit("]");
    reveal_strlit("[/TOOL]");
    reveal_strlit("");
    lemma_cut_at(words, "[TOOL "@, attrs + "]"@ + rest);
    lemma_cut_at(attrs, "]"@, rest);
    lemma_cut(rest, "[/TOOL]"@);
    let after = query + "[/TOOL]"@ + rest;
    lemma_cut_at(words, "[TOOL "@, attrs + "]"@ + after);
    lemma_cut_at(attrs, "]"@, after);
    if !query.contains('[') {
        lemma_cut_at(query, "[/TOOL]"@, rest);
        assert(Seq::<(Seq<char>, Seq<char>)>::empty() + tool_markers(rest) =~= tool_markers(rest));
    }
}

/// A message that names no channel goes to the command line.
pub proof fn law_messages_go_to_the_command_line(
    words: Seq<char>,
    inner: Seq<char>,
    rest: Seq<char>,
)
    requires
        !words.contains('['),
        !inner.contains('['),
    ensures
        outbound_markers(
            words + "[OUTBOUND"@ + (Seq::<char>::empty() + "]"@ + (inner + "[/OUTBOUND]"@ + rest)),
        ) == seq![(trimmed(inner), "cli"@)] + outbound_markers(rest),
{
    reveal_strlit("[OUTBOUND");
    reveal_strlit("]");
    reveal_strlit("[/OUTBOUND]");
    reveal_strlit("channel=");
    reveal_strlit("cli");
    let none = Seq::<char>::empty();
    let after = inner + "[/OUTBOUND]"@ + rest;
    lemma_cut_at(words, "[OUTBOUND"@, none + "]"@ + after);
    lemma_cut_at(none, "]"@, after);
    lemma_cut_at(inner, "[/OUTBOUND]"@, rest);
    let (a, b) = lemma_trimmed(none);
    assert(trimmed(none).len() == 0);
    let (c, d) = lemma_trimmed("cli"@);
    assert("cli"@[0] == 'c' && "cli"@[2] == 'i');
    assert(c == 0 && d == 3);
    assert("cli"@.subrange(0, 3) =~= "cli"@);
}

/// `pat` stands in `s` at `i`, and nowhere from `from` on before that.
pub open spec fn first_from(s: Seq<char>, pat: Seq<char>, from: int, i: int) -> bool {
    &&& from <= i
    &&& occurs_at(s, pat, i)
    &&& forall|j: int| from <= j < i ==> !#[trigger] occurs_at(s, pat, j)
}

/// Where `pat` first stands at `i` from `from` on, what begins at `from` is cut there.
pub proof fn lemma_cut_from(s: Seq<char>, pat: Seq<char>, from: int, i: int)
    requires
        0 <= from <= s.len(),
        first_from(s, pat, from, i),
    ensures
        cut(s.skip(from), pat) == Some((s.subrange(from, i), s.skip(i + pat.len()))),
{
    let t = s.skip(from);
    assert(t.subrange(i - from, i - from + pat.len()) =~= s.subrange(i, i + pat.len()));
    assert(occurs_at(t, pat, i - from));
    assert forall|j: int| 0 <= j < i - from implies !occurs_at(t, pat, j) by {
        if occurs_at(t, pat, j) {
            assert(t.subrange(j, j + pat.len()) =~= s.subrange(from + j, from + j + pat.len()));
            assert(occurs_at(s, pat, from + j));
        }
    }
    lemma_index_of_is(t, pat, i - from);
    assert(t.take(i - from) =~= s.subrange(from, i));
    assert(t.skip(i - from + pat.len()) =~= s.skip(i + pat.len()));
}

/// Where `pat` stands nowhere from `from` on, what begins at `from` is not cut.
pub proof fn lemma_no_cut_from(s: Seq<char>, pat: Seq<char>, from: int)
    requires
        0 <= from <= s.len(),
        forall|j: int| from <= j ==> !#[trigger] occurs_at(s, pat, j),
    ensures
        cut(s.skip(from), pat) is None,
{
    let t = s.skip(from);
    lemma_cut(t, pat);
    if occurs_in(t, pat) {
        let j = choose|j: int| occurs_at(t, pat, j);
        assert(t.subrange(j, j + pat.len()) =~= s.subrange(from + j, from + j + pat.len()));
        assert(occurs_at(s, pat, from + j));
    }
}

/// The first want is what stands from the first `[WANT]` up to the `[/WANT]` that follows it, and the
/// others are those behind it, whatever stands before and between. Without an end there is none.
pub proof fn law_first_want_then_the_rest(s: Seq<char>, i: int, k: int)
    requires
        first_from(s, "[WANT]"@, 0, i),
    ensures
        first_from(s, "[/WANT]"@, i + 6, k) && trimmed(s.subrange(i + 6, k)).len() > 0
            ==> want_markers(s) == seq![trimmed(s.subrange(i + 6, k))] + want_markers(s.skip(k + 7)),
        first_from(s, "[/WANT]"@, i + 6, k) && trimmed(s.subrange(i + 6, k)).len() == 0
            ==> want_markers(s) == want_markers(s.skip(k + 7)),
        (forall|j: int| i + 6 <= j ==> !#[trigger] occurs_at(s, "[/WANT]"@, j)) ==> want_markers(s)
            == Seq::<Seq<char>>::empty(),
{
    reveal_strlit("[WANT]");
    reveal_strlit("[/WANT]");
    assert(s.skip(0) =~= s);
    lemma_cut_from(s, "[WANT]"@, 0, i);
    if first_from(s, "[/WANT]"@, i + 6, k) {
        lemma_cut_from(s, "[/WANT]"@, i + 6, k);
        assert(Seq::<Seq<char>>::empty() + want_markers(s.skip(k + 7)) =~= want_markers(
            s.skip(k + 7),
        ));
    }
    if forall|j: int| i + 6 <= j ==> !#[trigger] occurs_at(s, "[/WANT]"@, j) {
        lemma_no_cut_from(s, "[/WANT]"@, i + 6);
    }
}

/// The first call of a tool stands from the first `[TOOL ` on: its name behind `name=` up to the
/// bracket, its query up to the `[/TOOL]` that follows; the others are those behind it. A call without
/// a name is none.
pub proof fn law_first_tool_then_the_rest(s: Seq<char>, i: int, j: int, k: int)
    requires
        first_from(s, "[TOOL "@, 0, i),
        first_from(s, "]"@, i + 6, j),
        first_from(s, "[/TOOL]"@, j + 1, k),
    ensures
        ({
            let attrs = s.subrange(i + 6, j);
            let query = s.subrange(j + 1, k);
            let rest = s.skip(k + 7);
            &&& "name="@.is_prefix_of(attrs) && trimmed(attrs.skip(5)).len() > 0 ==> tool_markers(s)
                == seq![(trimmed(attrs.skip(5)), trimmed(query))] + tool_markers(rest)
            &&& !"name="@.is_prefix_of(attrs) || trimmed(attrs.skip(5)).len() == 0 ==> tool_markers(s)
                == tool_markers(rest)
        }),
{
    reveal_strlit("[TOOL ");
    reveal_strlit("]");
    reveal_strlit("[/TOOL]");
    reveal_strlit("name=");
    reveal_strlit("");
    assert(s.skip(0) =~= s);
    lemma_cut_from(s, "[TOOL "@, 0, i);
    lemma_cut_from(s, "]"@, i + 6, j);
    lemma_cut_from(s, "[/TOOL]"@, j + 1, k);
    let rest = s.skip(k + 7);
    let (a, b) = lemma_trimmed(""@);
    assert(trimmed(""@).len() == 0);
    assert(Seq::<(Seq<char>, Seq<char>)>::empty() + tool_markers(rest) =~= tool_markers(rest));
}

/// The first message stands from the first `[OUTBOUND` on: its channel behind `channel=` up to the
/// bracket, `cli` where none is named, and its text up to the `[/OUTBOUND]` that follows; the others
/// are those behind it.
pub proof fn law_first_message_then_the_rest(s: Seq<char>, i: int, j: int, k: int)
    requires
        first_from(s, "[OUTBOUND"@, 0, i),
        first_from(s, "]"@, i + 9, j),
        first_from(s, "[/OUTBOUND]"@, j + 1, k),
    ensures
        ({
            let attrs = trimmed(s.subrange(i + 9, j));
            let inner = trimmed(s.subrange(j + 1, k));
            let rest = s.skip(k + 11);
            &&& "channel="@.is_prefix_of(attrs) ==> outbound_markers(s) == seq![
                (inner, trimmed(attrs.skip(8))),
            ] + outbound_markers(rest)
            &&& !"channel="@.is_prefix_of(attrs) ==> outbound_markers(s) == seq![(inner, "cli"@)]
                + outbound_markers(rest)
        }),
{
    reveal_strlit("[OUTBOUND");
    reveal_strlit("]");
    reveal_strlit("[/OUTBOUND]");
    reveal_strlit("channel=");
    reveal_strlit("cli");
    assert(s.skip(0) =~= s);
    lemma_cut_from(s, "[OUTBOUND"@, 0, i);
    lemma_cut_from(s, "]"@, i + 9, j);
    lemma_cut_from(s, "[/OUTBOUND]"@, j + 1, k);
    let (c, d) = lemma_trimmed("cli"@);
    assert("cli"@[0] == 'c' && "cli"@[2] == 'i');
    assert(c == 0 && d == 3);
    assert("cli"@.subrange(0, 3) =~= "cli"@);
}

/// A call or a message whose opening has no bracket, or that has no end, is none, and nothing behind it
/// is looked at.
pub proof fn law_unended_markers_end_the_search(s: Seq<char>, i: int, j: int)
    ensures
        first_from(s, "[TOOL "@, 0, i) && (forall|n: int|
            i + 6 <= n ==> !#[trigger] occurs_at(s, "]"@, n)) ==> tool_markers(s).len() == 0,
        first_from(s, "[TOOL "@, 0, i) && first_from(s, "]"@, i + 6, j) && (forall|n: int|
            j + 1 <= n ==> !#[trigger] occurs_at(s, "[/TOOL]"@, n)) ==> tool_markers(s).len() == 0,
        first_from(s, "[OUTBOUND"@, 0, i) && (forall|n: int|
            i + 9 <= n ==> !#[trigger] occurs_at(s, "]"@, n)) ==> outbound_markers(s).len() == 0,
        first_from(s, "[OUTBOUND"@, 0, i) && first_from(s, "]"@, i + 9, j) && (forall|n: int|
            j + 1 <= n ==> !#[trigger] occurs_at(s, "[/OUTBOUND]"@, n)) ==> outbound_markers(s).len()
            == 0,
{
    reveal_strlit("[TOOL ");
    reveal_strlit("[OUTBOUND");
    reveal_strlit("]");
    assert(s.skip(0) =~= s);
    if first_from(s, "[TOOL "@, 0, i) {
        lemma_cut_from(s, "[TOOL "@, 0, i);
        if forall|n: int| i + 6 <= n ==> !#[trigger] occurs_at(s, "]"@, n) {
            lemma_no_cut_from(s, "]"@, i + 6);
        }
        if first_from(s, "]"@, i + 6, j) {
            lemma_cut_from(s, "]"@, i + 6, j);
            if forall|n: int| j + 1 <= n ==> !#[trigger] occurs_at(s, "[/TOOL]"@, n) {
                lemma_no_cut_from(s, "[/TOOL]"@, j + 1);
            }
        }
    }
    if first_from(s, "[OUTBOUND"@, 0, i) {
        lemma_cut_from(s, "[OUTBOUND"@, 0, i);
        if forall|n: int| i + 9 <= n ==> !#[trigger] occurs_at(s, "]"@, n) {
            lemma_no_cut_from(s, "]"@, i + 9);
        }
        if first_from(s, "]"@, i + 9, j) {
            lemma_cut_from(s, "]"@, i + 9, j);
            if forall|n: int| j + 1 <= n ==> !#[trigger] occurs_at(s, "[/OUTBOUND]"@, n) {
                lemma_no_cut_from(s, "[/OUTBOUND]"@, j + 1);
            }
        }
    }
}

} // verus!

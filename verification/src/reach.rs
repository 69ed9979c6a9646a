//! The agent's reaches: `[[reach: …]]` markers that say, in plain words, what its hands should do,
//! and the badges that report what they did.

use crate::markers::{first_from, lemma_cut_from, lemma_no_cut_from, marker, unless_empty};
use crate::strings::{
    cut, cut_text, is_blank, lemma_cut, lemma_cut_at, occurs_at, occurs_in, texts, trim, trimmed,
};
use vstd::prelude::*;

verus! {

/// The intents of the `[[reach: …]]` markers in `s`, trimmed and in order; empty ones are left out.
pub open spec fn reaches(s: Seq<char>) -> Seq<Seq<char>>
    decreases s.len() via reaches_shrink
{
    match marker(s, "[[reach:"@, "]]"@) {
        None => Seq::empty(),
        Some((intent, rest)) => unless_empty(trimmed(intent)) + reaches(rest),
    }
}

#[via_fn]
proof fn reaches_shrink(s: Seq<char>) {
    lemma_reach_shrinks(s);
}

/// What stands behind a marker is shorter than what the marker stands in.
proof fn lemma_reach_shrinks(s: Seq<char>)
    ensures
        marker(s, "[[reach:"@, "]]"@) matches Some((_, rest)) ==> rest.len() < s.len(),
{
    lemma_cut(s, "[[reach:"@);
    if let Some((_, after)) = cut(s, "[[reach:"@) {
        lemma_cut(after, "]]"@);
    }
    reveal_strlit("[[reach:");
}

/// `s` without its `[[reach: …]]` markers. Of a marker without an end only the opening is left out.
pub open spec fn without_reaches(s: Seq<char>) -> Seq<char>
    decreases s.len() via without_reaches_shrinks
{
    match cut(s, "[[reach:"@) {
        None => s,
        Some((before, after)) => match cut(after, "]]"@) {
            None => before + after,
            Some((_, rest)) => before + without_reaches(rest),
        },
    }
}

#[via_fn]
proof fn without_reaches_shrinks(s: Seq<char>) {
    lemma_reach_shrinks(s);
}

/// Text without a reach holds no intent and stays as it is.
pub proof fn law_no_reach(s: Seq<char>)
    requires
        !occurs_in(s, "[[reach:"@),
    ensures
        reaches(s) == Seq::<Seq<char>>::empty(),
        without_reaches(s) == s,
{
    lemma_cut(s, "[[reach:"@);
}

/// A reach that is written is read and taken out: behind words without a bracket,
/// `[[reach:intent]]` gives `intent`, trimmed, and then what the rest gives; without its reaches
/// the text is the words and then the rest without its reaches.
pub proof fn law_reach_is_read_and_taken_out(
    words: Seq<char>,
    intent: Seq<char>,
    rest: Seq<char>,
)
    requires
        !words.contains('['),
        !intent.contains(']'),
    ensures
        reaches(words + "[[reach:"@ + (intent + "]]"@ + rest)) == unless_empty(trimmed(intent))
            + reaches(rest),
        without_reaches(words + "[[reach:"@ + (intent + "]]"@ + rest)) == words + without_reaches(
            rest,
        ),
{
    reveal_strlit("[[reach:");
    reveal_strlit("]]");
    lemma_cut_at(words, "[[reach:"@, intent + "]]"@ + rest);
    lemma_cut_at(intent, "]]"@, rest);
}

/// Extracts the intent of every `[[reach: …]]` marker, in order.
pub fn parse_reaches(content: &str) -> (r: Vec<String>)
    ensures
        texts(r@) == reaches(content@),
{
    let mut out: Vec<String> = Vec::new();
    let mut rest = content.to_owned();
    loop
        invariant
            texts(out@) + reaches(rest@) == reaches(content@),
        ensures
            texts(out@) =~= reaches(content@),
        decreases rest@.len(),
    {
        proof {
            lemma_reach_shrinks(rest@);
        }
        let ghost before = texts(out@);
        let after = match cut_text(rest.as_str(), "[[reach:") {
            Some((_, after)) => after,
            None => {
                break;
            },
        };
        match cut_text(after.as_str(), "]]") {
            Some((intent, tail)) => {
                let intent = trim(intent.as_str());
                if !is_blank(intent.as_str()) {
                    out.push(intent);
                }
                assert(texts(out@) =~= before + unless_empty(intent@));
                assert(texts(out@) + reaches(tail@) =~= before + (unless_empty(intent@) + reaches(
                    tail@,
                )));
                rest = tail;
            },
            None => {
                break;
            },
        }
    }
    out
}

/// Removes every `[[reach: …]]` marker and leaves the words around them as they are.
pub fn strip_reaches(content: &str) -> (r: String)
    ensures
        r@ == without_reaches(content@),
{
    let mut out = String::new();
    let mut rest = content.to_owned();
    loop
        invariant_except_break
            out@ + without_reaches(rest@) == without_reaches(content@),
        ensures
            out@ + rest@ =~= without_reaches(content@),
        decreases rest@.len(),
    {
        proof {
            lemma_reach_shrinks(rest@);
        }
        let ghost so_far = out@;
        match cut_text(rest.as_str(), "[[reach:") {
            Some((before, after)) => {
                out.append(before.as_str());
                match cut_text(after.as_str(), "]]") {
                    Some((_, tail)) => {
                        assert(out@ + without_reaches(tail@) =~= so_far + (before@
                            + without_reaches(tail@)));
                        rest = tail;
                    },
                    None => {
                        assert(out@ + after@ =~= so_far + (before@ + after@));
                        rest = after;
                        break;
                    },
                }
            },
            None => {
                break;
            },
        }
    }
    out.append(rest.as_str());
    out
}

/// What a badge says: which tool was called with which arguments, and whether it went well; if not,
/// why.
pub open spec fn badge(tool: Seq<char>, args: Seq<char>, ok: bool, reason: Seq<char>) -> Seq<char> {
    if ok {
        "🔧 "@ + tool + "("@ + args + ") ✓"@
    } else {
        "🔧 "@ + tool + "("@ + args + ") ✗ "@ + reason
    }
}

/// Writes the badge for a call of a tool.
pub fn format_badge(tool_name: &str, args_compact: &str, ok: bool, reason: &str) -> (r: String)
    ensures
        r@ == badge(tool_name@, args_compact@, ok, reason@),
{
    let mut out = "🔧 ".to_owned();
    out.append(tool_name);
    out.append("(");
    out.append(args_compact);
    if ok {
        out.append(") ✓");
    } else {
        out.append(") ✗ ");
        out.append(reason);
    }
    out
}

/// An intent is taken as it is where it is not blank; a blank reach is none. A reach without an end
/// asks for nothing.
pub proof fn law_intents_are_taken_as_they_are(
    words: Seq<char>,
    intent: Seq<char>,
    rest: Seq<char>,
)
    requires
        !words.contains('['),
        !intent.contains(']'),
    ensures
        trimmed(intent).len() > 0 ==> reaches(words + "[[reach:"@ + (intent + "]]"@ + rest)) == seq![
            trimmed(intent),
        ] + reaches(rest),
        trimmed(intent).len() == 0 ==> reaches(words + "[[reach:"@ + (intent + "]]"@ + rest))
            == reaches(rest),
        !occurs_in(rest, "]]"@) ==> reaches(words + "[[reach:"@ + rest) == Seq::<Seq<char>>::empty(),
        !occurs_in(rest, "]]"@) ==> without_reaches(words + "[[reach:"@ + rest) == words + rest,
{
    law_reach_is_read_and_taken_out(words, intent, rest);
    assert(Seq::<Seq<char>>::empty() + reaches(rest) =~= reaches(rest));
    reveal_strlit("[[reach:");
    lemma_cut_at(words, "[[reach:"@, rest);
    lemma_cut(rest, "]]"@);
}

/// A badge shows the tool and its arguments; a call that went well is ticked, one that did not is
/// crossed and says why.
pub proof fn law_badge_shows_the_call(tool: Seq<char>, args: Seq<char>, reason: Seq<char>)
    ensures
        ("🔧 "@ + tool + "("@ + args + ")"@).is_prefix_of(badge(tool, args, true, reason)),
        ("🔧 "@ + tool + "("@ + args + ")"@).is_prefix_of(badge(tool, args, false, reason)),
        badge(tool, args, true, reason).last() == '✓',
        reason.is_suffix_of(badge(tool, args, false, reason)),
        badge(tool, args, false, Seq::empty()).drop_last().last() == '✗',
{
    reveal_strlit(")");
    reveal_strlit(") ✓");
    reveal_strlit(") ✗ ");
    let head = "🔧 "@ + tool + "("@ + args + ")"@;
    let good = badge(tool, args, true, reason);
    let bad = badge(tool, args, false, reason);
    let bare = badge(tool, args, false, Seq::empty());
    assert(head =~= good.subrange(0, head.len() as int));
    assert(head =~= bad.subrange(0, head.len() as int));
    assert(good[good.len() - 1] == ") ✓"@[2]);
    assert(reason =~= bad.subrange(bad.len() - reason.len(), bad.len() as int));
    assert(bare[bare.len() - 2] == ") ✗ "@[2]);
}

/// The first reach is what stands from the first `[[reach:` up to the `]]` that follows it, and the
/// others are those behind it; taking it out leaves what stands before it and then the rest without
/// its reaches.
pub proof fn law_first_reach_then_the_rest(s: Seq<char>, i: int, k: int)
    requires
        first_from(s, "[[reach:"@, 0, i),
        first_from(s, "]]"@, i + 8, k),
    ensures
        ({
            let intent = trimmed(s.subrange(i + 8, k));
            let rest = s.skip(k + 2);
            &&& intent.len() > 0 ==> reaches(s) == seq![intent] + reaches(rest)
            &&& intent.len() == 0 ==> reaches(s) == reaches(rest)
            &&& without_reaches(s) == s.subrange(0, i) + without_reaches(rest)
        }),
{
    reveal_strlit("[[reach:");
    reveal_strlit("]]");
    assert(s.skip(0) =~= s);
    lemma_cut_from(s, "[[reach:"@, 0, i);
    lemma_cut_from(s, "]]"@, i + 8, k);
    let rest = s.skip(k + 2);
    assert(Seq::<Seq<char>>::empty() + reaches(rest) =~= reaches(rest));
}

/// A reach without an end asks for nothing, and of it only the opening is taken out.
pub proof fn law_open_reach_is_none(s: Seq<char>, i: int)
    requires
        first_from(s, "[[reach:"@, 0, i),
        forall|n: int| i + 8 <= n ==> !#[trigger] occurs_at(s, "]]"@, n),
    ensures
        reaches(s).len() == 0,
        without_reaches(s) == s.subrange(0, i) + s.skip(i + 8),
{
    reveal_strlit("[[reach:");
    assert(s.skip(0) =~= s);
    lemma_cut_from(s, "[[reach:"@, 0, i);
    lemma_no_cut_from(s, "]]"@, i + 8);
}

} // verus!

//! The answer in what a reasoning model wrote.

use crate::strings::{
    is_space, last_index_of, lemma_last_index_of, lemma_occurs_in_part, lemma_trimmed,
    lemma_trimmed_twice, occurs_at, occurs_in, rfind, slice, trim, trimmed,
};
use vstd::prelude::*;

verus! {

/// The tag that ends a reasoning model's scratchpad.
pub open spec fn close_tag() -> Seq<char> {
    "</think>"@
}

/// What stands behind the last `</think>`, the whole where there is none, without the white space
/// at either end.
pub open spec fn answer(s: Seq<char>) -> Seq<char> {
    match last_index_of(s, close_tag()) {
        Some(i) => trimmed(s.skip(i + close_tag().len())),
        None => trimmed(s),
    }
}

/// No part of the scratchpad is left in the answer: the closing tag does not stand in it.
pub proof fn law_answer_has_no_close_tag(s: Seq<char>)
    ensures
        !occurs_in(answer(s), close_tag()),
{
    let tag = close_tag();
    lemma_last_index_of(s, tag);
    let from = match last_index_of(s, tag) {
        Some(i) => i + tag.len(),
        None => 0,
    };
    let rest = s.skip(from);
    assert(s.skip(0) =~= s);
    let (a, b) = lemma_trimmed(rest);
    if occurs_in(answer(s), tag) {
        assert(rest.subrange(a, b) =~= s.subrange(from + a, from + b));
        lemma_occurs_in_part(s, from + a, from + b, tag);
        reveal_strlit("</think>");
        assert(false);
    }
}

/// The answer neither begins nor ends with white space.
pub proof fn law_answer_is_trimmed(s: Seq<char>)
    ensures
        trimmed(answer(s)) == answer(s),
        answer(s).len() > 0 ==> !is_space(answer(s)[0]) && !is_space(answer(s).last()),
{
    let rest = match last_index_of(s, close_tag()) {
        Some(i) => s.skip(i + close_tag().len()),
        None => s,
    };
    lemma_trimmed_twice(rest);
    let (a, b) = lemma_trimmed(rest);
}

/// The answer in an answer is that answer.
pub proof fn law_answer_of_answer(s: Seq<char>)
    ensures
        answer(answer(s)) == answer(s),
{
    law_answer_has_no_close_tag(s);
    law_answer_is_trimmed(s);
    lemma_last_index_of(answer(s), close_tag());
}

/// What is put before an answer is not taken for a scratchpad: a text without `<`, such as a badge,
/// that leads an answer is still there when the whole is stripped.
pub proof fn law_lead_survives_stripping(lead: Seq<char>, s: Seq<char>)
    requires
        !lead.contains('<'),
    ensures
        answer(lead + answer(s)) == trimmed(lead + answer(s)),
{
    let tag = close_tag();
    let whole = lead + answer(s);
    lemma_last_index_of(whole, tag);
    law_answer_has_no_close_tag(s);
    reveal_strlit("</think>");
    if let Some(i) = last_index_of(whole, tag) {
        if i < lead.len() {
            assert(whole.subrange(i, i + tag.len())[0] == lead[i]);
        } else {
            let j = i - lead.len();
            assert(answer(s).subrange(j, j + tag.len()) =~= whole.subrange(i, i + tag.len()));
            assert(occurs_at(answer(s), tag, j));
        }
    }
}

/// Strips a reasoning model's `<think>…</think>` scratchpad and returns the answer alone. Where
/// there is no closing tag the text is returned trimmed and otherwise unchanged.
pub fn strip_reasoning(s: &str) -> (r: String)
    ensures
        r@ == answer(s@),
{
    match rfind(s, "</think>") {
        Some(i) => {
            let skip: usize = "</think>".unicode_len();
            let total: usize = s.unicode_len();
            assert(s@.subrange(i + skip, total as int) =~= s@.skip(i + close_tag().len()));
            trim(slice(s, i + skip, total).as_str())
        },
        None => trim(s),
    }
}

/// The answer is what stands behind the last end of a scratchpad, and all of it where there is none,
/// without the white space around it.
pub proof fn law_answer_stands_behind_the_scratchpad(scratch: Seq<char>, said: Seq<char>)
    requires
        !occurs_in(said, "</think>"@),
    ensures
        answer(scratch + "</think>"@ + said) == trimmed(said),
        answer(said) == trimmed(said),
{
    let tag = "</think>"@;
    let whole = scratch + tag + said;
    let n = scratch.len() as int;
    reveal_strlit("</think>");
    lemma_last_index_of(said, close_tag());
    lemma_last_index_of(whole, close_tag());
    assert(whole.subrange(n, n + tag.len()) =~= tag);
    assert(occurs_at(whole, tag, n));
    let i = last_index_of(whole, close_tag())->0;
    if i > n {
        if i < n + tag.len() {
            assert(whole.subrange(i, i + tag.len())[0] == tag[i - n]);
        } else {
            let j = i - n - tag.len();
            assert(said.subrange(j, j + tag.len()) =~= whole.subrange(i, i + tag.len()));
            assert(occurs_at(said, tag, j));
        }
    }
    assert(whole.skip(n + tag.len()) =~= said);
}

} // verus!

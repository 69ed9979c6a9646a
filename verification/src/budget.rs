//! How the budget for the model stands, and when the user is told that it runs out.

use crate::codec::{
    alike, json_read, json_text, ordered, readable, render_json, reserved_name, text_before, value_of,
    MAX_TEXT_LEVELS,
};
use crate::json::{lookup, object4, Json, JsonView};
use crate::outbound::says_critical;
use crate::strings::{concat, concat3};
use vstd::prelude::*;

verus! {

/// Where the budget is asked for.
pub const KEY_URL: &'static str = "https://openrouter.ai/api/v1/auth/key";

/// Whether a notice is to be queued: as the budget becomes critical, and not again until it has
/// recovered.
pub fn should_queue_notice(critical: bool, was_critical: bool) -> (r: bool)
    ensures
        r == (critical && !was_critical),
{
    critical && !was_critical
}

/// The notice that the budget is critical.
pub open spec fn notice(remaining: Seq<char>) -> Seq<char> {
    "\u{26a0} OpenRouter credits critical ($"@ + remaining
        + " remaining) \u{2014} refund to restore Syl's full routing."@
}

/// What the budget file says.
pub open spec fn budget_flag(
    low: bool,
    critical: bool,
    remaining: Seq<char>,
    ts: Seq<char>,
) -> JsonView {
    JsonView::Object(
        seq![
            ("checked_at"@, JsonView::Float(ts)),
            ("critical"@, JsonView::Bool(critical)),
            ("low"@, JsonView::Bool(low)),
            ("remaining_usd"@, JsonView::Float(remaining)),
        ],
    )
}

/// How the budget stands.
pub struct Reading {
    pub low: bool,
    pub critical: bool,
    /// The dollars that remain, as a decimal number.
    pub remaining: String,
    /// The dollars that remain, as they are shown to the user.
    pub shown: String,
}

/// What is to be done once the budget has been asked for.
pub struct Polled {
    /// What is to be written to the budget file.
    pub flag: Option<String>,
    /// The notice that is to be queued.
    pub notice: Option<String>,
}

/// Watches the budget.
pub struct BudgetMonitor {
    pub api_key: String,
    pub budget_path: String,
    pub poll_secs: u64,
    /// Whether the budget was critical when last there was an answer.
    pub was_critical: bool,
}

impl BudgetMonitor {
    /// A monitor that has not asked yet.
    pub fn new(api_key: String, budget_path: String, poll_secs: u64) -> (r: Self)
        ensures
            r.api_key == api_key,
            r.budget_path == budget_path,
            r.poll_secs == poll_secs,
            !r.was_critical,
    {
        BudgetMonitor { api_key, budget_path, poll_secs, was_critical: false }
    }

    /// What a request for the budget has to show.
    pub fn authorization(&self) -> (r: String)
        ensures
            r@ == "Bearer "@ + self.api_key@,
    {
        concat("Bearer ", self.api_key.as_str())
    }

    /// Takes what came of asking for the budget, and gives what is to be done about it. Where the
    /// asking failed nothing is done, and whether the budget is critical counts as it did.
    pub fn on_poll(&mut self, reading: Option<&Reading>, ts: &str) -> (r: Polled)
        ensures
            match reading {
                None => *final(self) == *old(self) && r.flag is None && r.notice is None,
                Some(now) => {
                    &&& *final(self) == (BudgetMonitor { was_critical: now.critical, ..*old(self) })
                    &&& r.flag matches Some(flag) && flag@ == json_text(
                        value_of(budget_flag(now.low, now.critical, now.remaining@, ts@)),
                    ) && says_critical(Some(flag@)) == now.critical
                    &&& r.notice is Some <==> queues(old(self).was_critical, Some(now.critical))
                    &&& r.notice matches Some(t) ==> t@ == notice(now.shown@)
                },
            },
    {
        match reading {
            None => Polled { flag: None, notice: None },
            Some(now) => {
                let was_critical = self.was_critical;
                self.was_critical = now.critical;
                let notice = if should_queue_notice(now.critical, was_critical) {
                    Some(
                        concat3(
                            "\u{26a0} OpenRouter credits critical ($",
                            now.shown.as_str(),
                            " remaining) \u{2014} refund to restore Syl's full routing.",
                        ),
                    )
                } else {
                    None
                };
                let flag = self.write_budget_flag(
                    now.remaining.as_str(),
                    now.low,
                    now.critical,
                    ts,
                );
                Polled { flag: Some(flag), notice }
            },
        }
    }

    /// What the budget file is to say. `remaining` and `ts` are decimal numbers: the dollars that
    /// remain and the time in seconds. What is read from the file of whether the budget is critical
    /// is what was written.
    pub fn write_budget_flag(
        &self,
        remaining: &str,
        low: bool,
        critical: bool,
        ts: &str,
    ) -> (r: String)
        ensures
            r@ == json_text(value_of(budget_flag(low, critical, remaining@, ts@))),
            says_critical(Some(r@)) == critical,
    {
        let flag = object4(
            "checked_at",
            Json::Float(ts.to_owned()),
            "critical",
            Json::Bool(critical),
            "low",
            Json::Bool(low),
            "remaining_usd",
            Json::Float(remaining.to_owned()),
        );
        let written = render_json(&flag);
        proof {
            lemma_flag_is_ordered(low, critical, remaining@, ts@);
            lemma_flag_is_readable(low, critical, remaining@, ts@, value_of(flag@));
            lemma_critical_is_kept(
                low,
                critical,
                remaining@,
                ts@,
                value_of(flag@),
                json_read(written@)->Ok_0,
            );
        }
        written
    }
}

/// The fields of the budget file stand in the order of their names.
proof fn lemma_flag_is_ordered(low: bool, critical: bool, remaining: Seq<char>, ts: Seq<char>)
    ensures
        ordered(budget_flag(low, critical, remaining, ts)),
{
    reveal_strlit("checked_at");
    reveal_strlit("critical");
    reveal_strlit("low");
    reveal_strlit("remaining_usd");
    reveal_with_fuel(ordered, 2);
    reveal_with_fuel(text_before, 3);
    assert(text_before("checked_at"@, "critical"@));
    assert(text_before("checked_at"@, "low"@));
    assert(text_before("checked_at"@, "remaining_usd"@));
    assert(text_before("critical"@, "low"@));
    assert(text_before("critical"@, "remaining_usd"@));
    assert(text_before("low"@, "remaining_usd"@));
}

/// What is held of the budget file's content can be read.
proof fn lemma_flag_is_readable(
    low: bool,
    critical: bool,
    remaining: Seq<char>,
    ts: Seq<char>,
    held: JsonView,
)
    requires
        alike(budget_flag(low, critical, remaining, ts), held),
    ensures
        readable(held, MAX_TEXT_LEVELS as nat),
{
    let fields = budget_flag(low, critical, remaining, ts)->Object_0;
    let others = held->Object_0;
    reveal_strlit("$serde_json::private::RawValue");
    reveal_strlit("checked_at");
    reveal_with_fuel(alike, 2);
    reveal_with_fuel(readable, 2);
    assert(fields[0].0 == others[0].0);
    assert(fields[0].0.len() < reserved_name().len());
    assert forall|i: int| 0 <= i < others.len() implies readable(
        (#[trigger] others[i]).1,
        (MAX_TEXT_LEVELS - 1) as nat,
    ) by {
        assert(alike(fields[i].1, others[i].1));
    }
}

/// Whether the budget is critical is not touched as the file's content is held, written and read.
proof fn lemma_critical_is_kept(
    low: bool,
    critical: bool,
    remaining: Seq<char>,
    ts: Seq<char>,
    held: JsonView,
    read: JsonView,
)
    requires
        alike(budget_flag(low, critical, remaining, ts), held),
        alike(held, read),
    ensures
        read.at("critical"@) == JsonView::Bool(critical),
{
    let fields = budget_flag(low, critical, remaining, ts)->Object_0;
    let others = held->Object_0;
    let last = read->Object_0;
    reveal_strlit("checked_at");
    reveal_strlit("critical");
    reveal_with_fuel(alike, 2);
    reveal_with_fuel(lookup, 3);
    assert(fields[0].0 == others[0].0 && others[0].0 == last[0].0);
    assert(fields[1].0 == others[1].0 && others[1].0 == last[1].0);
    assert(alike(fields[1].1, others[1].1) && alike(others[1].1, last[1].1));
    assert("checked_at"@.len() != "critical"@.len());
    assert(last.drop_first()[0] == last[1]);
}

/// A poll with that outcome queues a notice: whether the budget is critical, or nothing where the
/// asking failed.
pub open spec fn queues(was_critical: bool, poll: Option<bool>) -> bool {
    poll == Some(true) && !was_critical
}

/// Whether the budget counts as critical after `polls`: as it was at the last that was answered;
/// before the first it counts as healthy.
pub open spec fn critical_after(polls: Seq<Option<bool>>) -> bool
    decreases polls.len(),
{
    if polls.len() == 0 {
        false
    } else {
        match polls.last() {
            Some(critical) => critical,
            None => critical_after(polls.drop_last()),
        }
    }
}

/// How many notices are queued over `polls`.
pub open spec fn notices_over(polls: Seq<Option<bool>>) -> nat
    decreases polls.len(),
{
    if polls.len() == 0 {
        0
    } else {
        notices_over(polls.drop_last()) + (if queues(
            critical_after(polls.drop_last()),
            polls.last(),
        ) {
            1nat
        } else {
            0nat
        })
    }
}

/// `at` is the last of `polls` that was answered.
pub open spec fn last_answered(polls: Seq<Option<bool>>, at: int) -> bool {
    &&& 0 <= at < polls.len()
    &&& polls[at] is Some
    &&& forall|j: int| at < j < polls.len() ==> #[trigger] polls[j] is None
}

/// What counts is the last answer, however many failures came after it; without any answer the
/// budget counts as healthy.
pub proof fn law_last_answer_counts(polls: Seq<Option<bool>>)
    ensures
        forall|at: int| #[trigger]
            last_answered(polls, at) ==> Some(critical_after(polls)) == polls[at],
        (forall|j: int| 0 <= j < polls.len() ==> #[trigger] polls[j] is None) ==> !critical_after(
            polls,
        ),
    decreases polls.len(),
{
    if polls.len() > 0 {
        let before = polls.drop_last();
        law_last_answer_counts(before);
        if polls.last() is None {
            assert forall|at: int| #[trigger] last_answered(polls, at) implies Some(
                critical_after(polls),
            ) == polls[at] by {
                assert(last_answered(before, at));
            }
        } else {
            assert forall|at: int| #[trigger] last_answered(polls, at) implies Some(
                critical_after(polls),
            ) == polls[at] by {
                assert(polls[polls.len() - 1] is Some);
            }
        }
    }
}

/// Where the budget counts as critical there was an answer.
proof fn lemma_some_answer(polls: Seq<Option<bool>>) -> (at: int)
    requires
        critical_after(polls),
    ensures
        last_answered(polls, at),
        polls[at] == Some(true),
    decreases polls.len(),
{
    if polls.last() is None {
        let at = lemma_some_answer(polls.drop_last());
        assert forall|j: int| at < j < polls.len() implies #[trigger] polls[j] is None by {
            if j < polls.len() - 1 {
                assert(polls.drop_last()[j] is None);
            }
        }
        at
    } else {
        polls.len() - 1
    }
}

/// A poll queues a notice exactly where it is answered that the budget is critical and the last
/// answer before it, if there was any, was that it is not.
pub proof fn law_notice_only_on_the_edge(polls: Seq<Option<bool>>, i: int)
    requires
        0 <= i < polls.len(),
    ensures
        queues(critical_after(polls.take(i)), polls[i]) <==> polls[i] == Some(true) && forall|
            at: int,
        | #[trigger]
            last_answered(polls.take(i), at) ==> polls[at] == Some(false),
{
    let before = polls.take(i);
    law_last_answer_counts(before);
    assert forall|at: int| #[trigger] last_answered(before, at) implies polls[at] == Some(
        critical_after(before),
    ) by {
        assert(before[at] == polls[at]);
    }
    if critical_after(before) {
        let at = lemma_some_answer(before);
        assert(last_answered(before, at));
    }
}

/// However long the budget stays critical, and however often the asking fails meanwhile, one notice
/// is queued.
pub proof fn law_no_repeat_while_critical(polls: Seq<Option<bool>>, more: Seq<Option<bool>>)
    requires
        critical_after(polls),
        forall|i: int| 0 <= i < more.len() ==> #[trigger] more[i] != Some(false),
    ensures
        notices_over(polls + more) == notices_over(polls),
        critical_after(polls + more),
    decreases more.len(),
{
    if more.len() == 0 {
        assert(polls + more =~= polls);
    } else {
        law_no_repeat_while_critical(polls, more.drop_last());
        assert((polls + more).drop_last() =~= polls + more.drop_last());
        assert(more[more.len() - 1] != Some(false));
    }
}

/// Once the budget has recovered, the next time that it becomes critical is told again.
pub proof fn law_notice_rearms(polls: Seq<Option<bool>>)
    requires
        !critical_after(polls),
    ensures
        notices_over(polls.push(Some(true))) == notices_over(polls) + 1,
        notices_over(polls.push(Some(false))) == notices_over(polls),
{
    assert(polls.push(Some(true)).drop_last() =~= polls);
    assert(polls.push(Some(false)).drop_last() =~= polls);
}

/// Asking that fails queues nothing and changes nothing: neither is a notice repeated on its account
/// nor is one told again.
pub proof fn law_failed_poll_changes_nothing(polls: Seq<Option<bool>>)
    ensures
        notices_over(polls.push(None)) == notices_over(polls),
        critical_after(polls.push(None)) == critical_after(polls),
{
    assert(polls.push(None).drop_last() =~= polls);
}

/// The budget file tells what remains, whether that is low or critical, and when that was so.
pub proof fn law_flag_tells_how_the_budget_stands(
    low: bool,
    critical: bool,
    remaining: Seq<char>,
    ts: Seq<char>,
)
    ensures
        budget_flag(low, critical, remaining, ts).at("low"@) == JsonView::Bool(low),
        budget_flag(low, critical, remaining, ts).at("critical"@) == JsonView::Bool(critical),
        budget_flag(low, critical, remaining, ts).at("remaining_usd"@) == JsonView::Float(remaining),
        budget_flag(low, critical, remaining, ts).at("checked_at"@) == JsonView::Float(ts),
{
    reveal_with_fuel(lookup, 5);
    reveal_strlit("low");
    reveal_strlit("critical");
    reveal_strlit("remaining_usd");
    reveal_strlit("checked_at");
    assert("low"@.len() == 3 && "critical"@.len() == 8 && "remaining_usd"@.len() == 13
        && "checked_at"@.len() == 10);
}

/// The notice says how much remains.
pub proof fn law_notice_says_what_remains(remaining: Seq<char>)
    ensures
        ("\u{26a0} OpenRouter credits critical ($"@ + remaining).is_prefix_of(notice(remaining)),
        " remaining) \u{2014} refund to restore Syl's full routing."@.is_suffix_of(notice(remaining)),
{
    let whole = notice(remaining);
    let head = "\u{26a0} OpenRouter credits critical ($"@ + remaining;
    let tail = " remaining) \u{2014} refund to restore Syl's full routing."@;
    assert(head =~= whole.subrange(0, head.len() as int));
    assert(tail =~= whole.subrange(whole.len() - tail.len(), whole.len() as int));
}

/// A notice is queued exactly as the budget turns from healthy to critical.
pub proof fn law_notice_is_queued_on_the_turn(was_critical: bool, poll: Option<bool>)
    ensures
        queues(was_critical, poll) <==> !was_critical && poll is Some && poll->0,
{
}

} // verus!

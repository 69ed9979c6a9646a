//! The working memory of the conversation: the newest messages, kept over a restart.

use crate::agent_runner::{law_message_tells_who_says_what, message, message_json};
use crate::codec::{
    canonical, decode_msgpack_list, encode_msgpack, fits, msgpack_bytes, msgpack_list, reserved_name,
    text_before, MAX_LEVELS,
};
use crate::json::{array, items_view, lemma_items_push, Json, JsonView};
use crate::strings::opt_text;
use std::collections::VecDeque;
use vstd::prelude::*;
use vstd::utf8::encode_utf8;

verus! {

/// The last `n` of `messages`, all of them where there are no more.
pub open spec fn newest(messages: Seq<JsonView>, n: nat) -> Seq<JsonView> {
    if messages.len() > n {
        messages.skip(messages.len() - n)
    } else {
        messages
    }
}

/// The two messages of an exchange.
pub open spec fn exchange(user: Seq<char>, assistant: Seq<char>) -> Seq<JsonView> {
    seq![message("user"@, user), message("assistant"@, assistant)]
}

/// The messages that `bytes` hold; nothing where they hold no list.
pub open spec fn stored_messages(bytes: Seq<u8>) -> Option<Seq<JsonView>> {
    msgpack_list(bytes)
}

/// The messages that a history with that capacity begins with, given what was found where it is
/// kept: nothing where nothing was found, or what was found is no list.
pub open spec fn taken_up(found: Option<Seq<u8>>, capacity: nat) -> Seq<JsonView> {
    match found {
        Some(bytes) => match stored_messages(bytes) {
            Some(messages) => newest(messages, capacity),
            None => Seq::empty(),
        },
        None => Seq::empty(),
    }
}

/// What optional bytes hold.
pub open spec fn opt_bytes(found: Option<&[u8]>) -> Option<Seq<u8>> {
    match found {
        Some(bytes) => Some(bytes@),
        None => None,
    }
}

/// The newest messages of a conversation, at most `capacity` of them.
pub struct ConversationHistory {
    messages: VecDeque<Json>,
    capacity: usize,
    path: Option<String>,
}

impl ConversationHistory {
    /// The messages, oldest first.
    pub closed spec fn messages(&self) -> Seq<JsonView> {
        items_view(self.messages@)
    }

    /// How many messages are kept.
    pub closed spec fn capacity(&self) -> nat {
        self.capacity as nat
    }

    /// Where the messages are kept over a restart.
    pub closed spec fn path(&self) -> Option<Seq<char>> {
        opt_text(self.path)
    }

    /// There are no more messages than are to be kept, and each is written the one way there is
    /// for it.
    pub open spec fn well_formed(&self) -> bool {
        &&& self.messages().len() <= self.capacity()
        &&& forall|i: int|
            0 <= i < self.messages().len() ==> canonical(#[trigger] self.messages()[i])
    }

    /// An empty history that is not kept over a restart.
    pub fn new(capacity: usize) -> (r: Self)
        ensures
            r.well_formed(),
            r.messages() == Seq::<JsonView>::empty(),
            r.capacity() == capacity,
            r.path() is None,
    {
        let r = ConversationHistory { messages: VecDeque::new(), capacity, path: None };
        assert(r.messages() =~= Seq::<JsonView>::empty());
        r
    }

    /// A history that is kept at `path`, with what was found there.
    pub fn with_persistence(capacity: usize, path: String, found: Option<&[u8]>) -> (r: Self)
        ensures
            r.well_formed(),
            r.messages() == taken_up(opt_bytes(found), capacity as nat),
            r.capacity() == capacity,
            r.path() == Some(path@),
    {
        let mut r = ConversationHistory { messages: VecDeque::new(), capacity, path: Some(path) };
        assert(r.messages() =~= Seq::<JsonView>::empty());
        if let Some(bytes) = found {
            r.load(bytes);
        }
        r
    }

    /// Drops the oldest messages until no more are left than are to be kept.
    fn trim(&mut self)
        requires
            forall|i: int|
                0 <= i < old(self).messages().len() ==> canonical(
                    #[trigger] old(self).messages()[i],
                ),
        ensures
            final(self).well_formed(),
            final(self).messages() == newest(old(self).messages(), old(self).capacity()),
            final(self).capacity() == old(self).capacity(),
            final(self).path() == old(self).path(),
    {
        let ghost all = self.messages();
        assert(all.skip(0) =~= all);
        while self.messages.len() > self.capacity
            invariant
                all == old(self).messages(),
                self.capacity() == old(self).capacity(),
                self.path() == old(self).path(),
                self.messages().len() <= all.len(),
                self.messages() == all.skip(all.len() - self.messages().len()),
                all.len() > self.capacity() ==> self.messages().len() >= self.capacity(),
                all.len() <= self.capacity() ==> self.messages().len() == all.len(),
            decreases self.messages@.len(),
        {
            let ghost before = self.messages();
            let _ = self.messages.pop_front();
            assert(self.messages() =~= before.skip(1));
            assert(self.messages() =~= all.skip(all.len() - self.messages().len()));
        }
        assert forall|i: int| 0 <= i < self.messages().len() implies canonical(
            #[trigger] self.messages()[i],
        ) by {
            assert(self.messages()[i] == all[i + (all.len() - self.messages().len())]);
        }
    }

    /// Takes over the messages that `bytes` hold, as many as are kept. Where they hold none the
    /// history stays as it is.
    pub fn load(&mut self, bytes: &[u8])
        requires
            old(self).well_formed(),
        ensures
            final(self).well_formed(),
            final(self).messages() == (match stored_messages(bytes@) {
                Some(messages) => newest(messages, old(self).capacity()),
                None => old(self).messages(),
            }),
            final(self).capacity() == old(self).capacity(),
            final(self).path() == old(self).path(),
    {
        if let Some(items) = decode_msgpack_list(bytes) {
            let mut queue: VecDeque<Json> = VecDeque::new();
            let mut i: usize = 0;
            while i < items.len()
                invariant
                    i <= items@.len(),
                    items_view(queue@) == items_view(items@).take(i as int),
                decreases items@.len() - i,
            {
                broadcast use lemma_items_push;

                let ghost before = items_view(queue@);
                queue.push_back(items[i].copy());
                assert(items_view(queue@) == before.push(items@[i as int]@));
                assert(items_view(queue@) =~= items_view(items@).take(i + 1));
                i += 1;
            }
            assert(items_view(queue@) =~= items_view(items@));
            self.messages = queue;
            self.trim();
        }
    }

    /// The bytes to keep over a restart. Nothing where the history is not kept, or the memory for
    /// them cannot be had.
    pub fn save(&self) -> (r: Option<Vec<u8>>)
        requires
            self.well_formed(),
        ensures
            self.path() is None ==> r is None,
            r matches Some(bytes) ==> saved_as(self.messages(), bytes@),
    {
        match &self.path {
            None => None,
            Some(_) => {
                let snapshot = array(self.snapshot());
                Self::kept(encode_msgpack(&snapshot))
            },
        }
    }

    /// What is kept, given what came of writing the messages as bytes: the bytes, or nothing.
    pub fn kept(encoded: Result<Vec<u8>, String>) -> (r: Option<Vec<u8>>)
        ensures
            match encoded {
                Ok(bytes) => r == Some(bytes),
                Err(_) => r is None,
            },
    {
        match encoded {
            Ok(bytes) => Some(bytes),
            Err(_) => None,
        }
    }

    /// Where the history is kept over a restart.
    pub fn kept_at(&self) -> (r: Option<String>)
        ensures
            match r {
                Some(p) => self.path() == Some(p@),
                None => self.path() is None,
            },
    {
        match &self.path {
            Some(p) => Some(p.clone()),
            None => None,
        }
    }

    /// The messages, oldest first.
    pub fn snapshot(&self) -> (r: Vec<Json>)
        ensures
            items_view(r@) == self.messages(),
    {
        broadcast use lemma_items_push;

        let mut out: Vec<Json> = Vec::new();
        let mut i: usize = 0;
        while i < self.messages.len()
            invariant
                i <= self.messages@.len(),
                items_view(out@) == self.messages().take(i as int),
            decreases self.messages@.len() - i,
        {
            let ghost before = items_view(out@);
            out.push(self.messages[i].copy());
            assert(items_view(out@) == before.push(self.messages()[i as int]));
            assert(items_view(out@) =~= self.messages().take(i + 1));
            i += 1;
        }
        assert(items_view(out@) =~= self.messages());
        out
    }

    /// The messages, and behind them what the user says now.
    pub fn snapshot_with(&self, user_text: &str) -> (r: Vec<Json>)
        ensures
            items_view(r@) == self.messages().push(message("user"@, user_text@)),
    {
        broadcast use lemma_items_push;

        let mut out = self.snapshot();
        out.push(message_json("user", user_text));
        out
    }

    /// Takes in an exchange. The oldest messages make room for it.
    pub fn push_turn(&mut self, user_text: &str, assistant_text: &str)
        requires
            old(self).well_formed(),
        ensures
            final(self).well_formed(),
            final(self).messages() == newest(
                old(self).messages() + exchange(user_text@, assistant_text@),
                old(self).capacity(),
            ),
            final(self).capacity() == old(self).capacity(),
            final(self).path() == old(self).path(),
    {
        broadcast use lemma_items_push;

        self.messages.push_back(message_json("user", user_text));
        self.messages.push_back(message_json("assistant", assistant_text));
        proof {
            lemma_message_canonical("user"@, user_text@);
            lemma_message_canonical("assistant"@, assistant_text@);
        }
        assert(self.messages() =~= old(self).messages() + exchange(user_text@, assistant_text@));
        self.trim();
    }
}

/// `bytes` are what is kept of `messages`: read back they are the messages, where these can be
/// written at all.
pub open spec fn saved_as(messages: Seq<JsonView>, bytes: Seq<u8>) -> bool {
    &&& bytes == msgpack_bytes(JsonView::Array(messages))
    &&& fits(JsonView::Array(messages), MAX_LEVELS as nat) ==> msgpack_list(bytes) == Some(messages)
}

/// A message is written the one way there is for it.
pub proof fn lemma_message_canonical(role: Seq<char>, content: Seq<char>)
    ensures
        canonical(message(role, content)),
{
    reveal_strlit("content");
    reveal_strlit("role");
    reveal_with_fuel(canonical, 2);
    assert(text_before("content"@, "role"@));
}

/// The newest of what was kept and what comes is the newest of all that ever came.
pub proof fn lemma_newest_of_newest(kept: Seq<JsonView>, more: Seq<JsonView>, n: nat)
    ensures
        newest(newest(kept, n) + more, n) == newest(kept + more, n),
{
    assert(newest(newest(kept, n) + more, n) =~= newest(kept + more, n));
}

/// What a history that starts empty holds after `turns`, each a user's text and the reply.
pub open spec fn after_turns(turns: Seq<(Seq<char>, Seq<char>)>, capacity: nat) -> Seq<JsonView>
    decreases turns.len(),
{
    if turns.len() == 0 {
        Seq::empty()
    } else {
        newest(
            after_turns(turns.drop_last(), capacity) + exchange(turns.last().0, turns.last().1),
            capacity,
        )
    }
}

/// All the messages of `turns`.
pub open spec fn all_messages(turns: Seq<(Seq<char>, Seq<char>)>) -> Seq<JsonView>
    decreases turns.len(),
{
    if turns.len() == 0 {
        Seq::empty()
    } else {
        all_messages(turns.drop_last()) + exchange(turns.last().0, turns.last().1)
    }
}

/// A history holds the newest messages of all turns, and never more than it keeps.
pub proof fn law_history_holds_the_newest(turns: Seq<(Seq<char>, Seq<char>)>, capacity: nat)
    ensures
        after_turns(turns, capacity) == newest(all_messages(turns), capacity),
        after_turns(turns, capacity).len() <= capacity,
    decreases turns.len(),
{
    if turns.len() > 0 {
        law_history_holds_the_newest(turns.drop_last(), capacity);
        lemma_newest_of_newest(
            all_messages(turns.drop_last()),
            exchange(turns.last().0, turns.last().1),
            capacity,
        );
    }
}

/// What is kept of a history gives, taken up with room for as much, the same history, and with room
/// for less, its newest messages in their order. Where nothing was kept, or what was kept is no list,
/// a history begins empty.
pub proof fn law_saved_history_reloads(messages: Seq<JsonView>, bytes: Seq<u8>, capacity: nat)
    requires
        saved_as(messages, bytes),
        fits(JsonView::Array(messages), MAX_LEVELS as nat),
    ensures
        taken_up(Some(bytes), capacity) == newest(messages, capacity),
        messages.len() <= capacity ==> taken_up(Some(bytes), capacity) == messages,
        messages.len() > capacity ==> taken_up(Some(bytes), capacity).len() == capacity,
        taken_up(Some(bytes), capacity).is_suffix_of(messages),
        taken_up(None, capacity) == Seq::<JsonView>::empty(),
        forall|other: Seq<u8>|
            stored_messages(other) is None ==> #[trigger] taken_up(Some(other), capacity) == Seq::<
                JsonView,
            >::empty(),
{
    let kept = newest(messages, capacity);
    assert(kept =~= messages.subrange(messages.len() - kept.len(), messages.len() as int));
}

/// A history of turns that was kept and is taken up again holds the newest messages of all those
/// turns, as many as there was room for both before and after.
pub proof fn law_turns_survive_a_restart(
    turns: Seq<(Seq<char>, Seq<char>)>,
    bytes: Seq<u8>,
    before: nat,
    after: nat,
)
    requires
        before <= u32::MAX,
        forall|i: int|
            0 <= i < turns.len() ==> encode_utf8((#[trigger] turns[i]).0).len() <= u32::MAX
                && encode_utf8(turns[i].1).len() <= u32::MAX,
        saved_as(after_turns(turns, before), bytes),
    ensures
        taken_up(Some(bytes), after) == newest(
            all_messages(turns),
            if before < after {
                before
            } else {
                after
            },
        ),
{
    law_exchanges_fit(turns, before);
    law_history_holds_the_newest(turns, before);
    law_saved_history_reloads(after_turns(turns, before), bytes, after);
    let least = if before < after {
        before
    } else {
        after
    };
    assert(newest(newest(all_messages(turns), before), after) =~= newest(
        all_messages(turns),
        least,
    ));
}

/// A history of exchanges whose texts are not too long can be kept: two to the thirty-second bytes
/// are too long.
pub proof fn law_exchanges_fit(turns: Seq<(Seq<char>, Seq<char>)>, capacity: nat)
    requires
        capacity <= u32::MAX,
        forall|i: int|
            0 <= i < turns.len() ==> encode_utf8((#[trigger] turns[i]).0).len()
                <= u32::MAX && encode_utf8(turns[i].1).len() <= u32::MAX,
    ensures
        fits(JsonView::Array(after_turns(turns, capacity)), MAX_LEVELS as nat),
{
    let held = after_turns(turns, capacity);
    law_history_holds_the_newest(turns, capacity);
    assert forall|i: int| 0 <= i < held.len() implies fits(
        #[trigger] held[i],
        (MAX_LEVELS - 1) as nat,
    ) by {
        lemma_all_messages_fit(turns);
        let all = all_messages(turns);
        assert(held[i] == all[i + (all.len() - held.len())]);
    }
}

/// Every message of `turns` can be kept where their texts are not too long.
proof fn lemma_all_messages_fit(turns: Seq<(Seq<char>, Seq<char>)>)
    requires
        forall|i: int|
            0 <= i < turns.len() ==> encode_utf8((#[trigger] turns[i]).0).len()
                <= u32::MAX && encode_utf8(turns[i].1).len() <= u32::MAX,
    ensures
        forall|i: int|
            0 <= i < all_messages(turns).len() ==> fits(
                #[trigger] all_messages(turns)[i],
                (MAX_LEVELS - 1) as nat,
            ),
    decreases turns.len(),
{
    if turns.len() > 0 {
        let rest = turns.drop_last();
        assert forall|i: int| 0 <= i < rest.len() implies encode_utf8(
            (#[trigger] rest[i]).0,
        ).len() <= u32::MAX && encode_utf8(rest[i].1).len() <= u32::MAX by {
            assert(rest[i] == turns[i]);
        }
        lemma_all_messages_fit(rest);
        lemma_message_fits("user"@, turns.last().0);
        lemma_message_fits("assistant"@, turns.last().1);
        let all = all_messages(turns);
        let last = exchange(turns.last().0, turns.last().1);
        assert forall|i: int| 0 <= i < all.len() implies fits(
            #[trigger] all[i],
            (MAX_LEVELS - 1) as nat,
        ) by {
            if i < all.len() - 2 {
                assert(all[i] == all_messages(rest)[i]);
            } else {
                assert(all[i] == last[i - (all.len() - 2)]);
            }
        }
    }
}

/// A message whose text is not too long can be kept.
proof fn lemma_message_fits(role: Seq<char>, content: Seq<char>)
    requires
        encode_utf8(content).len() <= u32::MAX,
        role == "user"@ || role == "assistant"@,
    ensures
        fits(message(role, content), (MAX_LEVELS - 1) as nat),
{
    reveal_strlit("content");
    reveal_strlit("role");
    reveal_strlit("user");
    reveal_strlit("assistant");
    reveal_strlit("$serde_json::private::RawValue");
    assert(reserved_name().len() > 7);
    reveal_with_fuel(encode_utf8, 12);
    reveal_with_fuel(fits, 3);
}

/// An exchange is two messages: what the user said, and then what the assistant said.
pub proof fn law_exchange_is_two_messages(user: Seq<char>, assistant: Seq<char>)
    ensures
        exchange(user, assistant).len() == 2,
        exchange(user, assistant)[0].at("role"@) == JsonView::Text("user"@),
        exchange(user, assistant)[0].at("content"@) == JsonView::Text(user),
        exchange(user, assistant)[1].at("role"@) == JsonView::Text("assistant"@),
        exchange(user, assistant)[1].at("content"@) == JsonView::Text(assistant),
{
    law_message_tells_who_says_what("user"@, user);
    law_message_tells_who_says_what("assistant"@, assistant);
}

/// Where there is room for all messages all are kept as they are; otherwise as many as there is room
/// for, which are the last ones, in their order.
pub proof fn law_the_newest_are_kept(messages: Seq<JsonView>, n: nat)
    ensures
        messages.len() <= n ==> newest(messages, n) == messages,
        messages.len() > n ==> newest(messages, n).len() == n && forall|i: int|
            0 <= i < n ==> #[trigger] newest(messages, n)[i] == messages[messages.len() - n + i],
{
}

/// After an exchange the history ends with what the user and then the assistant said, behind what it
/// held before as far as there is room.
pub proof fn law_exchange_stands_at_the_end(
    held: Seq<JsonView>,
    user: Seq<char>,
    assistant: Seq<char>,
    capacity: nat,
)
    requires
        capacity >= 2,
    ensures
        ({
            let now = newest(held + exchange(user, assistant), capacity);
            let n = now.len() as int;
            &&& n >= 2
            &&& now[n - 1].at("role"@) == JsonView::Text("assistant"@)
            &&& now[n - 1].at("content"@) == JsonView::Text(assistant)
            &&& now[n - 2].at("role"@) == JsonView::Text("user"@)
            &&& now[n - 2].at("content"@) == JsonView::Text(user)
            &&& now.take(n - 2).is_suffix_of(held)
            &&& held.len() + 2 <= capacity ==> now.take(n - 2) == held
        }),
{
    law_exchange_is_two_messages(user, assistant);
    let all = held + exchange(user, assistant);
    let now = newest(all, capacity);
    let n = now.len() as int;
    law_the_newest_are_kept(all, capacity);
    assert(now[n - 1] == all[all.len() - 1]);
    assert(now[n - 2] == all[all.len() - 2]);
    let kept = now.take(n - 2);
    assert(kept =~= held.subrange(held.len() - kept.len(), held.len() as int));
    if held.len() + 2 <= capacity {
        assert(kept =~= held);
    }
}

/// The messages of turns are those of the first turns and then those of the others, two for each.
pub proof fn law_messages_follow_the_turns(
    a: Seq<(Seq<char>, Seq<char>)>,
    b: Seq<(Seq<char>, Seq<char>)>,
)
    ensures
        all_messages(a + b) == all_messages(a) + all_messages(b),
        all_messages(a).len() == 2 * a.len(),
    decreases a.len() + b.len(),
{
    if a.len() > 0 {
        law_messages_follow_the_turns(a.drop_last(), Seq::empty());
        law_exchange_is_two_messages(a.last().0, a.last().1);
    }
    if b.len() == 0 {
        assert(a + b =~= a);
        assert(all_messages(a) + all_messages(b) =~= all_messages(a));
    } else {
        law_messages_follow_the_turns(a, b.drop_last());
        assert((a + b).drop_last() =~= a + b.drop_last());
        assert(all_messages(a + b) =~= all_messages(a) + all_messages(b));
    }
}

/// A history takes up the newest of the messages that were found, and begins empty where no list of
/// messages was.
pub proof fn law_found_messages_are_taken_up(
    bytes: Seq<u8>,
    messages: Seq<JsonView>,
    capacity: nat,
)
    ensures
        msgpack_list(bytes) == Some(messages) && messages.len() <= capacity ==> taken_up(
            Some(bytes),
            capacity,
        ) == messages,
        msgpack_list(bytes) == Some(messages) && messages.len() > capacity ==> taken_up(
            Some(bytes),
            capacity,
        ) == messages.subrange(messages.len() - capacity, messages.len() as int),
        msgpack_list(bytes) is None ==> taken_up(Some(bytes), capacity).len() == 0,
        taken_up(None, capacity).len() == 0,
{
    if messages.len() > capacity {
        assert(newest(messages, capacity) =~= messages.subrange(
            messages.len() - capacity,
            messages.len() as int,
        ));
    }
}

} // verus!

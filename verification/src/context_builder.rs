//! What the model is told before it answers: a system prompt and the messages of the conversation,
//! both put together by the memory service.

use crate::json::{array, copy_items, items_view, lookup, object1, Json, JsonView};
use crate::reply::{Reply, ReplyView, Request, RequestView};
use crate::strings::concat;
use vstd::prelude::*;

verus! {

/// What was put together.
pub struct AssembleResult {
    pub system_prompt: String,
    pub messages: Vec<Json>,
}

/// What was put together, over sequences.
#[verifier::ext_equal]
pub struct AssembleResultView {
    pub system_prompt: Seq<char>,
    pub messages: Seq<JsonView>,
}

impl View for AssembleResult {
    type V = AssembleResultView;

    open spec fn view(&self) -> AssembleResultView {
        AssembleResultView {
            system_prompt: self.system_prompt@,
            messages: items_view(self.messages@),
        }
    }
}

/// What is made of the memory service's reply: where it failed there is no system prompt and the
/// messages stay as they are; where it gave no messages they stay as they are.
pub open spec fn assembled(messages: Seq<JsonView>, reply: ReplyView) -> AssembleResultView {
    match (reply, reply.json()) {
        (ReplyView::Answered { success: true, .. }, Some(answer)) => AssembleResultView {
            system_prompt: answer.at("systemPromptAddition"@).text_or(""@),
            messages: match answer.at("messages"@) {
                JsonView::Array(given) => if given.len() > 0 {
                    given
                } else {
                    messages
                },
                _ => messages,
            },
        },
        _ => AssembleResultView { system_prompt: Seq::empty(), messages },
    }
}

/// The request that puts `messages` before the memory service.
pub open spec fn assemble_request(ng_url: Seq<char>, messages: Seq<JsonView>) -> RequestView {
    RequestView {
        url: ng_url + "/assemble"@,
        body: JsonView::Object(seq![("messages"@, JsonView::Array(messages))]),
    }
}

/// The way to the memory service.
pub struct ContextBuilder {
    pub ng_url: String,
}

impl ContextBuilder {
    /// The way to the memory service at `ng_url`.
    pub fn new(ng_url: String) -> (r: Self)
        ensures
            r.ng_url == ng_url,
    {
        ContextBuilder { ng_url }
    }

    /// The request that puts `messages` before the memory service.
    pub fn request(&self, messages: &Vec<Json>) -> (r: Request)
        ensures
            r@ == assemble_request(self.ng_url@, items_view(messages@)),
    {
        Request {
            url: concat(self.ng_url.as_str(), "/assemble"),
            body: object1("messages", array(copy_items(messages))),
        }
    }

    /// Puts together what the model is told from the memory service's reply.
    pub fn build(&self, messages: &Vec<Json>, reply: &Reply) -> (r: AssembleResult)
        ensures
            r@ == assembled(items_view(messages@), reply@),
    {
        if let Reply::Answered { success, .. } = reply {
            if *success {
                if let Some(answer) = reply.json() {
                    let system_prompt = answer.text_at("systemPromptAddition", "");
                    let given = match answer.array_at("messages") {
                        Some(given) => {
                            if given.len() > 0 {
                                copy_items(given)
                            } else {
                                copy_items(messages)
                            }
                        },
                        None => copy_items(messages),
                    };
                    return AssembleResult { system_prompt, messages: given };
                }
            }
        }
        AssembleResult { system_prompt: String::new(), messages: copy_items(messages) }
    }
}

/// Whatever the memory service replies, the model is told something wherever there was something
/// to tell.
pub proof fn law_messages_never_lost(messages: Seq<JsonView>, reply: ReplyView)
    ensures
        messages.len() > 0 ==> assembled(messages, reply).messages.len() > 0,
        !(reply is Answered) || reply.json() is None ==> assembled(messages, reply).messages
            == messages,
{
}

/// The memory service is asked with all the messages, in their order.
pub proof fn law_all_messages_are_put_before_the_service(ng_url: Seq<char>, messages: Seq<JsonView>)
    ensures
        assemble_request(ng_url, messages).url == ng_url + "/assemble"@,
        assemble_request(ng_url, messages).body.at("messages"@) == JsonView::Array(messages),
{
    reveal_with_fuel(lookup, 2);
}

/// What the model is told is what the memory service answered: its addition is the system prompt, and
/// its messages, where it gave any, take the place of those that were put before it. An answer that
/// does not tell of success changes nothing, whatever is in it.
pub proof fn law_the_service_decides_what_is_told(
    messages: Seq<JsonView>,
    reply: ReplyView,
    answer: JsonView,
    prompt: Seq<char>,
    given: Seq<JsonView>,
)
    ensures
        ({
            let told = assembled(messages, reply);
            let good = (reply matches ReplyView::Answered { success: true, .. }) && reply.json()
                == Some(answer);
            &&& good && answer.at("systemPromptAddition"@) == JsonView::Text(prompt)
                ==> told.system_prompt == prompt
            &&& good && !(answer.at("systemPromptAddition"@) is Text) ==> told.system_prompt.len()
                == 0
            &&& good && answer.at("messages"@) == JsonView::Array(given) && given.len() > 0
                ==> told.messages == given
            &&& good && answer.at("messages"@) == JsonView::Array(given) && given.len() == 0
                ==> told.messages == messages
            &&& good && !(answer.at("messages"@) is Array) ==> told.messages == messages
            &&& (reply matches ReplyView::Answered { success: false, .. }) || reply is Failed
                || reply.json() is None ==> told.messages == messages && told.system_prompt.len()
                == 0
        }),
{
    reveal_strlit("");
}

} // verus!

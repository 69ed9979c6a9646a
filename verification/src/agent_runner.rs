//! The agent's run: the model is asked, the tools it calls are used, their results are put before
//! it again, until it answers or the number of rounds is used up.
//!
//! The run is a machine. Each step takes what came of the work that the step before asked for, and
//! tells the next work to do. The caller posts requests and does the work of tools.

use crate::codec::{json_parsed, json_text, parse_json, render_json};
use crate::json::{
    array, array1, copy_items, items_view, lemma_array_view, lemma_items_push, lookup, object0,
    object1, object2, object3, object4, text, Json, JsonView,
};
use crate::markers::pairs_view;
use crate::reach::{badge, format_badge};
use crate::reply::{Reply, ReplyView, Request, RequestView};
use crate::strings::{
    ascii_lowercase, ascii_lowered, concat, is_blank, opt_str, opt_text, same, starts_with, trim,
    trimmed,
};
use crate::tool_dispatcher::{definition, primary_arg, Invocation, InvocationView, ToolDispatcher};
use std::collections::VecDeque;
use std::sync::Arc;
use vstd::prelude::*;

verus! {

/// What a run gives.
#[derive(Debug)]
pub enum AgentResponse {
    /// What the model said. It may be recorded.
    Content(String),
    /// What went wrong around the model. It is shown, never recorded.
    InfraError(String),
}

/// What a response is, over sequences.
pub enum AgentResponseView {
    Content(Seq<char>),
    InfraError(Seq<char>),
}

impl View for AgentResponse {
    type V = AgentResponseView;

    open spec fn view(&self) -> AgentResponseView {
        match self {
            AgentResponse::Content(s) => AgentResponseView::Content(s@),
            AgentResponse::InfraError(s) => AgentResponseView::InfraError(s@),
        }
    }
}

impl AgentResponseView {
    /// The text, whichever kind of response it is.
    pub open spec fn text(self) -> Seq<char> {
        match self {
            AgentResponseView::Content(s) => s,
            AgentResponseView::InfraError(s) => s,
        }
    }
}

impl AgentResponse {
    /// The text, whichever kind of response it is: it is always shown to the user.
    pub fn into_text(self) -> (r: String)
        ensures
            r@ == self@.text(),
    {
        match self {
            AgentResponse::Content(s) => s,
            AgentResponse::InfraError(s) => s,
        }
    }
}

/// What one run is about.
pub struct AgentRunSpec {
    /// The messages of the conversation.
    pub messages: Vec<Json>,
    /// Put before the messages as a system message, unless it is empty.
    pub system_prompt: String,
}

/// The next work to do in a run.
pub enum RunAction {
    /// Ask the model.
    Ask(Request),
    /// Do the work of a tool.
    Use(Invocation),
    /// Nothing: the run is over, and this is what it gives.
    Finish(AgentResponse),
}

/// What an action is, over sequences.
pub enum RunActionView {
    Ask(RequestView),
    Use(InvocationView),
    Finish(AgentResponseView),
}

impl View for RunAction {
    type V = RunActionView;

    open spec fn view(&self) -> RunActionView {
        match self {
            RunAction::Ask(request) => RunActionView::Ask(request@),
            RunAction::Use(invocation) => RunActionView::Use(invocation@),
            RunAction::Finish(response) => RunActionView::Finish(response@),
        }
    }
}

/// A run under way.
pub struct AgentRun {
    /// What has been said so far.
    pub messages: Vec<Json>,
    /// The calls of tools that have been carried out, by name and arguments.
    pub seen: Vec<(String, String)>,
    /// The id of the call whose result is awaited.
    pub waiting: Option<String>,
    /// The calls that are still to be looked at.
    pub pending: VecDeque<Json>,
    /// How many times the model may still be asked.
    pub left: usize,
}

/// What a run under way is, over sequences.
#[verifier::ext_equal]
pub struct RunView {
    pub messages: Seq<JsonView>,
    pub seen: Seq<(Seq<char>, Seq<char>)>,
    pub waiting: Option<Seq<char>>,
    pub pending: Seq<JsonView>,
    pub left: nat,
}

impl View for AgentRun {
    type V = RunView;

    open spec fn view(&self) -> RunView {
        RunView {
            messages: items_view(self.messages@),
            seen: pairs_view(self.seen@),
            waiting: opt_text(self.waiting),
            pending: items_view(self.pending@),
            left: self.left as nat,
        }
    }
}

/// A message with a role.
pub open spec fn message(role: Seq<char>, content: Seq<char>) -> JsonView {
    JsonView::Object(seq![("content"@, JsonView::Text(content)), ("role"@, JsonView::Text(role))])
}

/// Builds a message with a role.
pub fn message_json(role: &str, content: &str) -> (r: Json)
    ensures
        r@ == message(role@, content@),
{
    object2("content", text(content), "role", text(role))
}

/// The message that puts the result of a call before the model.
pub open spec fn tool_message(id: Seq<char>, content: Seq<char>) -> JsonView {
    JsonView::Object(
        seq![
            ("content"@, JsonView::Text(content)),
            ("role"@, JsonView::Text("tool"@)),
            ("tool_call_id"@, JsonView::Text(id)),
        ],
    )
}

/// The answer that stands in where the model gave none.
pub open spec fn stand_in(content: Seq<char>) -> JsonView {
    JsonView::Object(
        seq![
            (
                "choices"@,
                JsonView::Array(
                    seq![
                        JsonView::Object(
                            seq![
                                ("finish_reason"@, JsonView::Text("stop"@)),
                                ("message"@, message("assistant"@, content)),
                            ],
                        ),
                    ],
                ),
            ),
        ],
    )
}

/// The model's answer, or what stands in for it.
pub open spec fn tid_answer(reply: ReplyView) -> JsonView {
    match reply {
        ReplyView::Failed(_) => stand_in("[TID unavailable]"@),
        ReplyView::Answered { .. } => match reply.json() {
            Some(v) => v,
            None => stand_in("[TID: parse error]"@),
        },
    }
}

/// The arguments in a call of a tool. What is not JSON counts as no arguments.
pub open spec fn call_args(call: JsonView) -> JsonView {
    match json_parsed(call.at("function"@).at("arguments"@).text_or("{}"@)) {
        Some(v) => v,
        None => JsonView::Object(Seq::empty()),
    }
}

/// The name of the tool in a call.
pub open spec fn call_name(call: JsonView) -> Seq<char> {
    call.at("function"@).at("name"@).text_or(""@)
}

/// What tells calls apart: the name of the tool and the arguments as JSON text.
pub open spec fn call_key(call: JsonView) -> (Seq<char>, Seq<char>) {
    (call_name(call), json_text(call_args(call)))
}

/// The id of a call.
pub open spec fn call_id(call: JsonView) -> Seq<char> {
    call.at("id"@).text_or(""@)
}

/// What the model is told of a call that has been carried out before.
pub open spec fn suppressed(name: Seq<char>) -> Seq<char> {
    "[tool '"@ + name + "' already called with same args this turn — suppressed]"@
}

/// The model's instructions as it resolves a reach: it executes, and does not speak.
pub const HANDS_SYSTEM: &'static str =
    "You are a tool-execution unit — hands, not a voice. You are given an intent describing one \
     action to take, plus a set of tools. Emit exactly the single tool call that fulfils the intent \
     and nothing else: no prose, no explanation. If no available tool fits the intent, emit no tool \
     call at all.";

/// Why a reach came to nothing.
pub const REACH_MISSED: &'static str = "could not map your reach to a tool";

/// What becomes of a reach.
pub enum Reach {
    /// No tool fits: the badge and the result that say so.
    Miss { badge: String, result: String },
    /// The work of a tool is to be done; its outcome is the result, under this badge.
    Use { badge: String, invocation: Invocation },
}

/// What becomes of a reach, over sequences.
pub enum ReachView {
    Miss { badge: Seq<char>, result: Seq<char> },
    Use { badge: Seq<char>, invocation: InvocationView },
}

impl View for Reach {
    type V = ReachView;

    open spec fn view(&self) -> ReachView {
        match self {
            Reach::Miss { badge, result } => ReachView::Miss { badge: badge@, result: result@ },
            Reach::Use { badge, invocation } => ReachView::Use {
                badge: badge@,
                invocation: invocation@,
            },
        }
    }
}

/// The first call of a tool in the model's answer.
pub open spec fn first_call(answer: JsonView) -> Option<JsonView> {
    match answer.at("choices"@).first() {
        None => None,
        Some(choice) => choice.at("message"@).at("tool_calls"@).first(),
    }
}

/// Whether tools are offered to the model, given the value of `ANIMUS_AGENT_TOOLS_ENABLED`: yes,
/// unless it is `false`, `0`, `no` or `off` in whatever case.
pub open spec fn tools_enabled_by(value: Option<Seq<char>>) -> bool {
    match value {
        None => true,
        Some(v) => {
            let word = ascii_lowered(trimmed(v));
            word != "false"@ && word != "0"@ && word != "no"@ && word != "off"@
        },
    }
}

/// Reads whether tools are offered to the model.
pub fn parse_tools_enabled(value: Option<&str>) -> (r: bool)
    ensures
        r == tools_enabled_by(opt_str(value)),
{
    match value {
        None => true,
        Some(v) => {
            let word = ascii_lowercase(trim(v).as_str());
            !(same(word.as_str(), "false") || same(word.as_str(), "0") || same(
                word.as_str(),
                "no",
            ) || same(word.as_str(), "off"))
        },
    }
}

/// Runs the agent.
pub struct AgentRunner {
    pub tool_dispatcher: Arc<ToolDispatcher>,
    pub tid_url: String,
    pub max_iter: usize,
    pub tools_enabled: bool,
}

impl AgentRunner {
    /// The request that asks the model, with the tools offered to it.
    pub open spec fn request(&self, messages: Seq<JsonView>, tools: Seq<JsonView>) -> RequestView {
        RequestView {
            url: self.tid_url@ + "/v1/chat/completions"@,
            body: if tools.len() > 0 {
                JsonView::Object(
                    seq![
                        ("messages"@, JsonView::Array(messages)),
                        ("model"@, JsonView::Text("auto"@)),
                        ("tool_choice"@, JsonView::Text("auto"@)),
                        ("tools"@, JsonView::Array(tools)),
                    ],
                )
            } else {
                JsonView::Object(
                    seq![
                        ("messages"@, JsonView::Array(messages)),
                        ("model"@, JsonView::Text("auto"@)),
                    ],
                )
            },
        }
    }

    /// The tools offered to the model during a run.
    pub open spec fn offered(&self) -> Seq<JsonView> {
        if self.tools_enabled {
            self.tool_dispatcher.definitions()
        } else {
            Seq::empty()
        }
    }

    /// The messages that a run starts with.
    pub open spec fn opening(system_prompt: Seq<char>, messages: Seq<JsonView>) -> Seq<JsonView> {
        if system_prompt.len() > 0 {
            seq![message("system"@, system_prompt)] + messages
        } else {
            messages
        }
    }

    /// The next work: the first call that has not been carried out before is carried out, and the
    /// model is told of those before it that they are suppressed; where no call is left the model
    /// is asked, unless it has been asked as often as it may be.
    pub open spec fn advance(&self, run: RunView) -> (RunView, RunActionView)
        decreases run.pending.len(),
    {
        if run.pending.len() == 0 {
            if run.left == 0 {
                (
                    run,
                    RunActionView::Finish(
                        AgentResponseView::InfraError("[AgentRunner: iteration cap reached]"@),
                    ),
                )
            } else {
                (
                    RunView { left: (run.left - 1) as nat, ..run },
                    RunActionView::Ask(self.request(run.messages, self.offered())),
                )
            }
        } else {
            let call = run.pending[0];
            let rest = run.pending.drop_first();
            let id = call_id(call);
            if run.seen.contains(call_key(call)) {
                self.advance(
                    RunView {
                        messages: run.messages.push(tool_message(id, suppressed(call_name(call)))),
                        pending: rest,
                        ..run
                    },
                )
            } else {
                (
                    RunView {
                        seen: run.seen.push(call_key(call)),
                        waiting: Some(id),
                        pending: rest,
                        ..run
                    },
                    RunActionView::Use(
                        self.tool_dispatcher.invocation(
                            call_name(call),
                            primary_arg(call_args(call)),
                        ),
                    ),
                )
            }
        }
    }

    /// The run as it starts.
    pub open spec fn started(&self, messages: Seq<JsonView>, system_prompt: Seq<char>) -> RunView {
        RunView {
            messages: Self::opening(system_prompt, messages),
            seen: Seq::empty(),
            waiting: None,
            pending: Seq::empty(),
            left: self.max_iter as nat,
        }
    }

    /// What follows the model's answer: where it calls tools they are carried out, otherwise the
    /// run is over. A text that begins with `[TID` tells of a failure around the model.
    pub open spec fn after_reply(&self, run: RunView, reply: ReplyView) -> (
        RunView,
        RunActionView,
    ) {
        match tid_answer(reply).at("choices"@).first() {
            None => (
                run,
                RunActionView::Finish(AgentResponseView::InfraError("[TID: malformed response]"@)),
            ),
            Some(choice) => {
                let said = choice.at("message"@);
                let content = said.at("content"@).text_or(""@);
                let next = RunView { messages: run.messages.push(said), ..run };
                if choice.at("finish_reason"@).text_or("stop"@) != "tool_calls"@ {
                    (
                        next,
                        RunActionView::Finish(
                            if "[TID"@.is_prefix_of(content) {
                                AgentResponseView::InfraError(content)
                            } else {
                                AgentResponseView::Content(content)
                            },
                        ),
                    )
                } else {
                    match said.at("tool_calls"@).first() {
                        None => (next, RunActionView::Finish(AgentResponseView::Content(content))),
                        Some(_) => self.advance(
                            RunView { pending: said.at("tool_calls"@)->Array_0, ..next },
                        ),
                    }
                }
            },
        }
    }

    /// What follows the result of a call: it is put before the model, and the run goes on.
    pub open spec fn after_result(&self, run: RunView, content: Seq<char>) -> (
        RunView,
        RunActionView,
    ) {
        let id = match run.waiting {
            Some(id) => id,
            None => ""@,
        };
        self.advance(
            RunView {
                messages: run.messages.push(tool_message(id, content)),
                waiting: None,
                ..run
            },
        )
    }

    /// Makes a runner. `tools_env` is the value of `ANIMUS_AGENT_TOOLS_ENABLED`.
    pub fn new(
        tool_dispatcher: Arc<ToolDispatcher>,
        tid_url: String,
        max_iter: usize,
        tools_env: Option<&str>,
    ) -> (r: Self)
        ensures
            r.tool_dispatcher == tool_dispatcher,
            r.tid_url == tid_url,
            r.max_iter == max_iter,
            r.tools_enabled == tools_enabled_by(opt_str(tools_env)),
    {
        AgentRunner {
            tool_dispatcher,
            tid_url,
            max_iter,
            tools_enabled: parse_tools_enabled(tools_env),
        }
    }

    /// The request that asks the model.
    fn call_tid_oai(&self, messages: &Vec<Json>, tools: Vec<Json>) -> (r: Request)
        ensures
            r@ == self.request(items_view(messages@), items_view(tools@)),
    {
        let messages = array(copy_items(messages));
        let body = if tools.len() > 0 {
            object4(
                "messages",
                messages,
                "model",
                text("auto"),
                "tool_choice",
                text("auto"),
                "tools",
                array(tools),
            )
        } else {
            object2("messages", messages, "model", text("auto"))
        };
        Request { url: concat(self.tid_url.as_str(), "/v1/chat/completions"), body }
    }

    /// Takes the calls in turn up to the next work.
    fn next(&self, run: &mut AgentRun) -> (r: RunAction)
        ensures
            (final(run)@, r@) == self.advance(old(run)@),
    {
        broadcast use lemma_items_push;

        loop
            invariant
                self.advance(run@) == self.advance(old(run)@),
            decreases run.pending@.len(),
        {
            let ghost before = *run;
            match run.pending.pop_front() {
                None => {
                    if run.left == 0 {
                        return RunAction::Finish(
                            AgentResponse::InfraError(
                                "[AgentRunner: iteration cap reached]".to_owned(),
                            ),
                        );
                    }
                    run.left = run.left - 1;
                    let tools = if self.tools_enabled {
                        self.tool_dispatcher.tool_definitions()
                    } else {
                        Vec::new()
                    };
                    assert(items_view(tools@) =~= self.offered());
                    return RunAction::Ask(self.call_tid_oai(&run.messages, tools));
                },
                Some(call) => {
                    assert(call@ == before@.pending[0]);
                    assert(items_view(run.pending@) =~= before@.pending.drop_first());
                    let (name, args, args_text) = Self::name_and_args(&call);
                    let id = call.text_at("id", "");
                    if Self::contains(&run.seen, name.as_str(), args_text.as_str()) {
                        let note = Self::suppressed_note(name.as_str());
                        run.messages.push(Self::tool_message_json(id.as_str(), note.as_str()));
                        assert(run@ =~= RunView {
                            messages: before@.messages.push(tool_message(id@, note@)),
                            pending: before@.pending.drop_first(),
                            ..before@
                        });
                    } else {
                        let work = self.tool_dispatcher.execute_args(name.as_str(), &args);
                        run.seen.push((name, args_text));
                        run.waiting = Some(id);
                        assert(run@.seen =~= before@.seen.push((name@, args_text@)));
                        assert(run@ =~= RunView {
                            seen: before@.seen.push((name@, args_text@)),
                            waiting: Some(id@),
                            pending: before@.pending.drop_first(),
                            ..before@
                        });
                        return RunAction::Use(work);
                    }
                },
            }
        }
    }

    /// Starts a run.
    pub fn run(&self, spec: AgentRunSpec) -> (r: (AgentRun, RunAction))
        ensures
            (r.0@, r.1@) == self.advance(
                self.started(items_view(spec.messages@), spec.system_prompt@),
            ),
    {
        let messages = if is_blank(spec.system_prompt.as_str()) {
            spec.messages
        } else {
            let mut messages = vec![message_json("system", spec.system_prompt.as_str())];
            let mut rest = spec.messages;
            messages.append(&mut rest);
            messages
        };
        assert(items_view(messages@) =~= Self::opening(
            spec.system_prompt@,
            items_view(spec.messages@),
        ));
        let mut run = AgentRun {
            messages,
            seen: Vec::new(),
            waiting: None,
            pending: VecDeque::new(),
            left: self.max_iter,
        };
        assert(run@ =~= self.started(items_view(spec.messages@), spec.system_prompt@));
        let action = self.next(&mut run);
        (run, action)
    }

    /// Takes the model's answer.
    pub fn on_reply(&self, run: &mut AgentRun, reply: &Reply) -> (r: RunAction)
        ensures
            (final(run)@, r@) == self.after_reply(old(run)@, reply@),
    {
        broadcast use {lemma_items_push, lemma_array_view};

        let answer = Self::tid_answer_json(reply);
        let choice = match answer.array_at("choices") {
            Some(choices) => {
                if choices.len() == 0 {
                    return RunAction::Finish(
                        AgentResponse::InfraError("[TID: malformed response]".to_owned()),
                    );
                }
                &choices[0]
            },
            None => {
                return RunAction::Finish(
                    AgentResponse::InfraError("[TID: malformed response]".to_owned()),
                );
            },
        };
        let said = choice.copy_at("message");
        let content = said.text_at("content", "");
        let finish_reason = choice.text_at("finish_reason", "stop");
        if !same(finish_reason.as_str(), "tool_calls") {
            run.messages.push(said);
            assert(run@ =~= RunView { messages: old(run)@.messages.push(said@), ..old(run)@ });
            return RunAction::Finish(
                if starts_with(content.as_str(), "[TID") {
                    AgentResponse::InfraError(content)
                } else {
                    AgentResponse::Content(content)
                },
            );
        }
        match said.array_at("tool_calls") {
            Some(calls) => {
                if calls.len() > 0 {
                    let pending = Self::queue(calls);
                    run.messages.push(said);
                    run.pending = pending;
                    assert(run@ =~= RunView {
                        messages: old(run)@.messages.push(said@),
                        pending: items_view(calls@),
                        ..old(run)@
                    });
                    return self.next(run);
                }
            },
            None => {},
        }
        run.messages.push(said);
        assert(run@ =~= RunView { messages: old(run)@.messages.push(said@), ..old(run)@ });
        RunAction::Finish(AgentResponse::Content(content))
    }

    /// Takes the result of the call that was to be carried out.
    pub fn on_tool_result(&self, run: &mut AgentRun, content: &str) -> (r: RunAction)
        ensures
            (final(run)@, r@) == self.after_result(old(run)@, content@),
    {
        broadcast use lemma_items_push;

        let id = match &run.waiting {
            Some(id) => id.clone(),
            None => "".to_owned(),
        };
        run.messages.push(Self::tool_message_json(id.as_str(), content));
        run.waiting = None;
        assert(run@ =~= RunView {
            messages: old(run)@.messages.push(tool_message(id@, content@)),
            waiting: None,
            ..old(run)@
        });
        self.next(run)
    }

    /// The request that puts a reach before the model.
    pub open spec fn hands_request(&self, intent: Seq<char>) -> RequestView {
        self.request(
            seq![message("system"@, HANDS_SYSTEM@), message("user"@, intent)],
            self.tool_dispatcher.definitions(),
        )
    }

    /// What becomes of a reach once the model has answered: the first call in the answer is
    /// carried out; without one the reach is missed.
    pub open spec fn reach_outcome(&self, intent: Seq<char>, reply: ReplyView) -> ReachView {
        match first_call(tid_answer(reply)) {
            None => ReachView::Miss {
                badge: badge("reach"@, "\""@ + intent + "\""@, false, REACH_MISSED@),
                result: "[reach not resolved: "@ + REACH_MISSED@ + "]"@,
            },
            Some(call) => ReachView::Use {
                badge: badge(call_name(call), json_text(call_args(call)), true, ""@),
                invocation: self.tool_dispatcher.invocation(
                    call_name(call),
                    primary_arg(call_args(call)),
                ),
            },
        }
    }

    /// The request that puts a reach before the model.
    pub fn reach_request(&self, intent: &str) -> (r: Request)
        ensures
            r@ == self.hands_request(intent@),
    {
        let messages = vec![message_json("system", HANDS_SYSTEM), message_json("user", intent)];
        assert(items_view(messages@) =~= seq![
            message("system"@, HANDS_SYSTEM@),
            message("user"@, intent@),
        ]);
        self.call_tid_oai(&messages, self.tool_dispatcher.tool_definitions())
    }

    /// Resolves a reach from the model's answer to it.
    pub fn execute_reach(&self, intent: &str, reply: &Reply) -> (r: Reach)
        ensures
            r@ == self.reach_outcome(intent@, reply@),
    {
        match Self::first_call_of(&Self::tid_answer_json(reply)) {
            None => {
                let mut shown = "\"".to_owned();
                shown.append(intent);
                shown.append("\"");
                let mut result = "[reach not resolved: ".to_owned();
                result.append(REACH_MISSED);
                result.append("]");
                Reach::Miss {
                    badge: format_badge("reach", shown.as_str(), false, REACH_MISSED),
                    result,
                }
            },
            Some(call) => {
                let (name, args, args_text) = Self::name_and_args(&call);
                Reach::Use {
                    badge: format_badge(name.as_str(), args_text.as_str(), true, ""),
                    invocation: self.tool_dispatcher.execute_args(name.as_str(), &args),
                }
            },
        }
    }

    /// The first call of a tool in the model's answer.
    fn first_call_of(answer: &Json) -> (r: Option<Json>)
        ensures
            match r {
                Some(call) => first_call(answer@) == Some(call@),
                None => first_call(answer@) is None,
            },
    {
        match answer.array_at("choices") {
            None => None,
            Some(choices) => {
                if choices.len() == 0 {
                    return None;
                }
                let said = choices[0].copy_at("message");
                match said.array_at("tool_calls") {
                    None => None,
                    Some(calls) => {
                        if calls.len() == 0 {
                            return None;
                        }
                        Some(calls[0].copy())
                    },
                }
            },
        }
    }

    /// The model's answer, or what stands in for it.
    fn tid_answer_json(reply: &Reply) -> (r: Json)
        ensures
            r@ == tid_answer(reply@),
    {
        match reply {
            Reply::Failed(_) => Self::stand_in_json("[TID unavailable]"),
            Reply::Answered { .. } => match reply.json() {
                Some(v) => v,
                None => Self::stand_in_json("[TID: parse error]"),
            },
        }
    }

    /// The answer that stands in where the model gave none.
    fn stand_in_json(content: &str) -> (r: Json)
        ensures
            r@ == stand_in(content@),
    {
        object1(
            "choices",
            array1(
                object2(
                    "finish_reason",
                    text("stop"),
                    "message",
                    message_json("assistant", content),
                ),
            ),
        )
    }

    /// Copies calls into a queue.
    fn queue(calls: &Vec<Json>) -> (r: VecDeque<Json>)
        ensures
            items_view(r@) == items_view(calls@),
    {
        broadcast use lemma_items_push;

        let mut out: VecDeque<Json> = VecDeque::new();
        let mut i: usize = 0;
        while i < calls.len()
            invariant
                i <= calls@.len(),
                items_view(out@) == items_view(calls@).take(i as int),
            decreases calls@.len() - i,
        {
            let ghost before = items_view(out@);
            out.push_back(calls[i].copy());
            assert(items_view(out@) == before.push(calls@[i as int]@));
            assert(items_view(out@) =~= items_view(calls@).take(i + 1));
            i += 1;
        }
        assert(items_view(out@) =~= items_view(calls@));
        out
    }

    /// The name of the tool in a call, the arguments, and the arguments as JSON text.
    fn name_and_args(call: &Json) -> (r: (String, Json, String))
        ensures
            r.0@ == call_name(call@),
            r.1@ == call_args(call@),
            r.2@ == json_text(call_args(call@)),
    {
        let (name, given) = match call.get("function") {
            Some(function) => (
                function.text_at("name", ""),
                function.text_at("arguments", "{}"),
            ),
            None => ("".to_owned(), "{}".to_owned()),
        };
        assert(given@ == call@.at("function"@).at("arguments"@).text_or("{}"@));
        let args = match parse_json(given.as_str()) {
            Some(v) => v,
            None => object0(),
        };
        let args_text = render_json(&args);
        (name, args, args_text)
    }

    /// Whether a call of `name` with the arguments `args` is among `keys`.
    fn contains(keys: &Vec<(String, String)>, name: &str, args: &str) -> (r: bool)
        ensures
            r == pairs_view(keys@).contains((name@, args@)),
    {
        let mut i: usize = 0;
        while i < keys.len()
            invariant
                i <= keys@.len(),
                forall|j: int| 0 <= j < i ==> pairs_view(keys@)[j] != (name@, args@),
            decreases keys@.len() - i,
        {
            if same(keys[i].0.as_str(), name) && same(keys[i].1.as_str(), args) {
                assert(pairs_view(keys@)[i as int] == (name@, args@));
                return true;
            }
            i += 1;
        }
        false
    }

    /// What the model is told of a call that has been carried out before.
    fn suppressed_note(name: &str) -> (r: String)
        ensures
            r@ == suppressed(name@),
    {
        let mut out = "[tool '".to_owned();
        out.append(name);
        out.append("' already called with same args this turn — suppressed]");
        out
    }

    /// The message that puts the result of a call before the model.
    fn tool_message_json(id: &str, content: &str) -> (r: Json)
        ensures
            r@ == tool_message(id@, content@),
    {
        object3("content", text(content), "role", text("tool"), "tool_call_id", text(id))
    }
}

/// What comes to a run from outside.
pub enum RunEvent {
    /// The model answered, or did not.
    Reply(ReplyView),
    /// The result of a call of a tool.
    Result(Seq<char>),
}

impl AgentRunner {
    /// What follows an event.
    pub open spec fn step(&self, run: RunView, event: RunEvent) -> (RunView, RunActionView) {
        match event {
            RunEvent::Reply(reply) => self.after_reply(run, reply),
            RunEvent::Result(content) => self.after_result(run, content),
        }
    }

    /// The run about `messages` under `system_prompt`, and the work to do, after `events`.
    pub open spec fn after(
        &self,
        messages: Seq<JsonView>,
        system_prompt: Seq<char>,
        events: Seq<RunEvent>,
    ) -> (RunView, RunActionView)
        decreases events.len(),
    {
        if events.len() == 0 {
            self.advance(self.started(messages, system_prompt))
        } else {
            self.step(self.after(messages, system_prompt, events.drop_last()).0, events.last())
        }
    }

    /// How many times the model has been asked by the time `events` have come.
    pub open spec fn times_asked(
        &self,
        messages: Seq<JsonView>,
        system_prompt: Seq<char>,
        events: Seq<RunEvent>,
    ) -> nat
        decreases events.len(),
    {
        let before = if events.len() == 0 {
            0
        } else {
            self.times_asked(messages, system_prompt, events.drop_last())
        };
        if self.after(messages, system_prompt, events).1 is Ask {
            before + 1
        } else {
            before
        }
    }
}

/// How `next`, the run with its action, follows on `run`: what was said and what was carried out is
/// kept; an action that uses a tool carries out one new call; one that asks takes one from what
/// is left.
pub open spec fn follows(run: RunView, next: (RunView, RunActionView)) -> bool {
    &&& run.messages.is_prefix_of(next.0.messages)
    &&& run.seen.is_prefix_of(next.0.seen)
    &&& run.seen.no_duplicates() ==> next.0.seen.no_duplicates()
    &&& next.0.seen.len() == run.seen.len() + (if next.1 is Use {
        1int
    } else {
        0int
    })
    &&& run.left == next.0.left + (if next.1 is Ask {
        1int
    } else {
        0int
    })
}

/// Taking the calls in turn keeps what was said and carried out.
proof fn lemma_advance(runner: &AgentRunner, run: RunView)
    ensures
        follows(run, runner.advance(run)),
    decreases run.pending.len(),
{
    let next = runner.advance(run);
    if run.pending.len() == 0 {
        assert(run.messages =~= run.messages.subrange(0, run.messages.len() as int));
        assert(run.seen =~= run.seen.subrange(0, run.seen.len() as int));
    } else {
        let call = run.pending[0];
        let id = call_id(call);
        if run.seen.contains(call_key(call)) {
            let note = tool_message(id, suppressed(call_name(call)));
            let mid = RunView {
                messages: run.messages.push(note),
                pending: run.pending.drop_first(),
                ..run
            };
            lemma_advance(runner, mid);
            assert(run.messages =~= next.0.messages.subrange(0, run.messages.len() as int)) by {
                assert(mid.messages =~= next.0.messages.subrange(0, mid.messages.len() as int));
                assert forall|i: int| 0 <= i < run.messages.len() implies run.messages[i]
                    == next.0.messages[i] by {
                    assert(mid.messages[i] == run.messages[i]);
                }
            }
        } else {
            assert(run.messages =~= run.messages.subrange(0, run.messages.len() as int));
            assert(run.seen =~= next.0.seen.subrange(0, run.seen.len() as int));
        }
    }
}

/// Every event keeps what was said and carried out.
proof fn lemma_step(runner: &AgentRunner, run: RunView, event: RunEvent)
    ensures
        follows(run, runner.step(run, event)),
{
    let next = runner.step(run, event);
    match event {
        RunEvent::Reply(reply) => {
            match tid_answer(reply).at("choices"@).first() {
                None => {
                    assert(run.messages =~= run.messages.subrange(0, run.messages.len() as int));
                    assert(run.seen =~= run.seen.subrange(0, run.seen.len() as int));
                },
                Some(choice) => {
                    let said = choice.at("message"@);
                    let mid = RunView {
                        messages: run.messages.push(said),
                        pending: said.at("tool_calls"@)->Array_0,
                        ..run
                    };
                    lemma_advance(runner, mid);
                    lemma_prefix_of_push(run.messages, said, next.0.messages);
                    assert(run.seen =~= run.seen.subrange(0, run.seen.len() as int));
                    assert(run.messages =~= run.messages.push(said).subrange(
                        0,
                        run.messages.len() as int,
                    ));
                },
            }
        },
        RunEvent::Result(content) => {
            let id = match run.waiting {
                Some(id) => id,
                None => ""@,
            };
            let mid = RunView {
                messages: run.messages.push(tool_message(id, content)),
                waiting: None,
                ..run
            };
            lemma_advance(runner, mid);
            lemma_prefix_of_push(run.messages, tool_message(id, content), next.0.messages);
        },
    }
}

/// What `s` followed by `x` begins, `s` begins.
proof fn lemma_prefix_of_push(s: Seq<JsonView>, x: JsonView, t: Seq<JsonView>)
    ensures
        s.push(x).is_prefix_of(t) ==> s.is_prefix_of(t),
{
    if s.push(x).is_prefix_of(t) {
        let longer = s.push(x);
        assert(longer =~= t.subrange(0, longer.len() as int));
        assert forall|i: int| 0 <= i < s.len() implies s[i] == t[i] by {
            assert(longer[i] == s[i]);
        }
        assert(s =~= t.subrange(0, s.len() as int));
    }
}

/// A run never carries out a call twice: what it carries out is recorded, and the record, by name
/// and arguments, holds nothing twice.
pub proof fn law_no_call_twice(
    runner: AgentRunner,
    messages: Seq<JsonView>,
    system_prompt: Seq<char>,
    events: Seq<RunEvent>,
)
    ensures
        runner.after(messages, system_prompt, events).0.seen.no_duplicates(),
    decreases events.len(),
{
    if events.len() == 0 {
        lemma_advance(&runner, runner.started(messages, system_prompt));
    } else {
        law_no_call_twice(runner, messages, system_prompt, events.drop_last());
        lemma_step(
            &runner,
            runner.after(messages, system_prompt, events.drop_last()).0,
            events.last(),
        );
    }
}

/// What was said and carried out is kept for the rest of the run.
pub proof fn law_record_only_grows(
    runner: AgentRunner,
    messages: Seq<JsonView>,
    system_prompt: Seq<char>,
    events: Seq<RunEvent>,
    earlier: int,
)
    requires
        0 <= earlier <= events.len(),
    ensures
        ({
            let then = runner.after(messages, system_prompt, events.take(earlier)).0;
            let now = runner.after(messages, system_prompt, events).0;
            then.messages.is_prefix_of(now.messages) && then.seen.is_prefix_of(now.seen)
        }),
    decreases events.len(),
{
    let then = runner.after(messages, system_prompt, events.take(earlier)).0;
    let now = runner.after(messages, system_prompt, events).0;
    if earlier == events.len() {
        assert(events.take(earlier) =~= events);
        assert(now.messages =~= now.messages.subrange(0, now.messages.len() as int));
        assert(now.seen =~= now.seen.subrange(0, now.seen.len() as int));
    } else {
        let before = runner.after(messages, system_prompt, events.drop_last()).0;
        assert(events.drop_last().take(earlier) =~= events.take(earlier));
        law_record_only_grows(runner, messages, system_prompt, events.drop_last(), earlier);
        lemma_step(&runner, before, events.last());
        lemma_prefix_is_transitive(then.messages, before.messages, now.messages);
        lemma_prefix_is_transitive(then.seen, before.seen, now.seen);
    }
}

/// What begins the beginning of `c` begins `c`.
proof fn lemma_prefix_is_transitive<T>(a: Seq<T>, b: Seq<T>, c: Seq<T>)
    requires
        a.is_prefix_of(b),
        b.is_prefix_of(c),
    ensures
        a.is_prefix_of(c),
{
    assert(b.subrange(0, a.len() as int) =~= c.subrange(0, a.len() as int)) by {
        assert forall|i: int| 0 <= i < a.len() implies b[i] == c[i] by {
            assert(b[i] == c.subrange(0, b.len() as int)[i]);
        }
    }
}

/// Two calls that one run carries out at different times differ in the tool or the arguments.
pub proof fn law_calls_carried_out_differ(
    runner: AgentRunner,
    messages: Seq<JsonView>,
    system_prompt: Seq<char>,
    events: Seq<RunEvent>,
    earlier: int,
)
    requires
        0 <= earlier < events.len(),
        runner.after(messages, system_prompt, events.take(earlier)).1 is Use,
        runner.after(messages, system_prompt, events).1 is Use,
    ensures
        runner.after(messages, system_prompt, events.take(earlier)).0.seen.last() != runner.after(
            messages,
            system_prompt,
            events,
        ).0.seen.last(),
{
    let then = runner.after(messages, system_prompt, events.take(earlier)).0;
    let before = runner.after(messages, system_prompt, events.drop_last()).0;
    let now = runner.after(messages, system_prompt, events).0;
    law_no_call_twice(runner, messages, system_prompt, events);
    assert(events.drop_last().take(earlier) =~= events.take(earlier));
    law_record_only_grows(runner, messages, system_prompt, events.drop_last(), earlier);
    lemma_step(&runner, before, events.last());
    lemma_prefix_is_transitive(then.seen, before.seen, now.seen);
    assert(then.seen.len() > 0) by {
        if earlier == 0 {
            lemma_advance(&runner, runner.started(messages, system_prompt));
        } else {
            lemma_step(
                &runner,
                runner.after(messages, system_prompt, events.take(earlier).drop_last()).0,
                events.take(earlier).last(),
            );
        }
    }
    let i = then.seen.len() - 1;
    assert(then.seen[i] == now.seen.subrange(0, then.seen.len() as int)[i]);
    assert(i < now.seen.len() - 1);
}

/// What is made of calls in turn, given those that have been carried out: each that was carried out
/// before is passed by, and the first that was not is carried out. The flag tells which.
pub open spec fn handled(seen: Seq<(Seq<char>, Seq<char>)>, pending: Seq<JsonView>) -> Seq<
    (JsonView, bool),
>
    decreases pending.len(),
{
    if pending.len() == 0 {
        Seq::empty()
    } else if seen.contains(call_key(pending[0])) {
        seq![(pending[0], false)] + handled(seen, pending.drop_first())
    } else {
        seq![(pending[0], true)]
    }
}

/// What the model is told of the calls that were passed by.
pub open spec fn notes_on(calls: Seq<(JsonView, bool)>) -> Seq<JsonView>
    decreases calls.len(),
{
    if calls.len() == 0 {
        Seq::empty()
    } else {
        (if calls[0].1 {
            Seq::empty()
        } else {
            seq![tool_message(call_id(calls[0].0), suppressed(call_name(calls[0].0)))]
        }) + notes_on(calls.drop_first())
    }
}

/// The names and arguments of calls.
pub open spec fn keys_of(calls: Seq<(JsonView, bool)>) -> Seq<(Seq<char>, Seq<char>)> {
    Seq::new(calls.len(), |i: int| call_key(calls[i].0))
}

/// A call is carried out exactly where none of that name with those arguments came before.
pub open spec fn first_only(calls: Seq<(JsonView, bool)>) -> bool {
    forall|i: int|
        0 <= i < calls.len() ==> (#[trigger] calls[i]).1 == !keys_of(calls).take(i).contains(
            call_key(calls[i].0),
        )
}

/// `seen` holds what `calls` hold.
pub open spec fn knows(seen: Seq<(Seq<char>, Seq<char>)>, calls: Seq<(JsonView, bool)>) -> bool {
    forall|key: (Seq<char>, Seq<char>)| #[trigger]
        seen.contains(key) <==> keys_of(calls).contains(key)
}

impl AgentRunner {
    /// The calls that a step takes in turn.
    pub open spec fn calls_taken(&self, run: RunView, event: RunEvent) -> Seq<JsonView> {
        match event {
            RunEvent::Result(_) => run.pending,
            RunEvent::Reply(reply) => match tid_answer(reply).at("choices"@).first() {
                None => Seq::empty(),
                Some(choice) => if choice.at("finish_reason"@).text_or("stop"@) != "tool_calls"@ {
                    Seq::empty()
                } else {
                    match choice.at("message"@).at("tool_calls"@).as_array() {
                        Some(calls) => calls,
                        None => Seq::empty(),
                    }
                },
            },
        }
    }

    /// What an event adds to what was said, before calls are taken in turn.
    pub open spec fn said_by(&self, run: RunView, event: RunEvent) -> Seq<JsonView> {
        match event {
            RunEvent::Result(content) => seq![
                tool_message(
                    match run.waiting {
                        Some(id) => id,
                        None => ""@,
                    },
                    content,
                ),
            ],
            RunEvent::Reply(reply) => match tid_answer(reply).at("choices"@).first() {
                None => Seq::empty(),
                Some(choice) => seq![choice.at("message"@)],
            },
        }
    }

    /// All the calls that a run has met by the time `events` have come, in order, and which of them
    /// were carried out.
    pub open spec fn calls_met(
        &self,
        messages: Seq<JsonView>,
        system_prompt: Seq<char>,
        events: Seq<RunEvent>,
    ) -> Seq<(JsonView, bool)>
        decreases events.len(),
    {
        if events.len() == 0 {
            Seq::empty()
        } else {
            let run = self.after(messages, system_prompt, events.drop_last()).0;
            self.calls_met(messages, system_prompt, events.drop_last()) + handled(
                run.seen,
                self.calls_taken(run, events.last()),
            )
        }
    }
}

/// Taking the calls in turn is what `handled` says: the notes are given, and the call that is
/// carried out, if one is, is recorded and its tool used.
proof fn lemma_advance_handles(runner: &AgentRunner, run: RunView)
    ensures
        ({
            let (next, action) = runner.advance(run);
            let calls = handled(run.seen, run.pending);
            let used = calls.len() > 0 && calls.last().1;
            &&& next.messages == run.messages + notes_on(calls)
            &&& next.seen == (if used {
                run.seen.push(call_key(calls.last().0))
            } else {
                run.seen
            })
            &&& action is Use <==> used
            &&& used ==> action == RunActionView::Use(
                runner.tool_dispatcher.invocation(
                    call_name(calls.last().0),
                    primary_arg(call_args(calls.last().0)),
                ),
            )
            &&& forall|i: int| 0 <= i < calls.len() - 1 ==> !(#[trigger] calls[i]).1
        }),
    decreases run.pending.len(),
{
    let calls = handled(run.seen, run.pending);
    if run.pending.len() == 0 {
        assert(run.messages + notes_on(calls) =~= run.messages);
    } else {
        let call = run.pending[0];
        if run.seen.contains(call_key(call)) {
            let note = tool_message(call_id(call), suppressed(call_name(call)));
            let mid = RunView {
                messages: run.messages.push(note),
                pending: run.pending.drop_first(),
                ..run
            };
            lemma_advance_handles(runner, mid);
            let rest = handled(mid.seen, mid.pending);
            assert(calls.drop_first() =~= rest);
            assert(run.messages + notes_on(calls) =~= mid.messages + notes_on(rest));
            assert(rest.len() > 0 ==> calls.last() == rest.last());
            assert forall|i: int| 0 <= i < calls.len() - 1 implies !(#[trigger] calls[i]).1 by {
                if i > 0 {
                    assert(calls[i] == rest[i - 1]);
                }
            }
        } else {
            reveal_with_fuel(notes_on, 2);
            assert(calls.drop_first() =~= Seq::empty());
            assert(run.messages + notes_on(calls) =~= run.messages);
        }
    }
}

/// Taking calls in turn carries out those that come for the first time.
proof fn lemma_handled_is_first_only(
    seen: Seq<(Seq<char>, Seq<char>)>,
    pending: Seq<JsonView>,
    before: Seq<(JsonView, bool)>,
)
    requires
        knows(seen, before),
        first_only(before),
    ensures
        ({
            let calls = handled(seen, pending);
            let used = calls.len() > 0 && calls.last().1;
            &&& first_only(before + calls)
            &&& knows(
                if used {
                    seen.push(call_key(calls.last().0))
                } else {
                    seen
                },
                before + calls,
            )
        }),
    decreases pending.len(),
{
    let calls = handled(seen, pending);
    if pending.len() == 0 {
        assert(before + calls =~= before);
    } else {
        let call = pending[0];
        let flag = !seen.contains(call_key(call));
        let more = before.push((call, flag));
        assert(keys_of(more) =~= keys_of(before).push(call_key(call)));
        assert(seen.contains(call_key(call)) <==> keys_of(before).contains(call_key(call)));
        assert forall|i: int| 0 <= i < more.len() implies (#[trigger] more[i]).1 == !keys_of(
            more,
        ).take(i).contains(call_key(more[i].0)) by {
            assert(keys_of(more).take(i) =~= keys_of(before).take(i));
            if i < before.len() {
                assert(more[i] == before[i]);
            } else {
                assert(keys_of(before).take(i) =~= keys_of(before));
            }
        }
        if flag {
            assert(before + calls =~= more);
            assert forall|key: (Seq<char>, Seq<char>)| #[trigger]
                seen.push(call_key(call)).contains(key) <==> keys_of(more).contains(key) by {
                lemma_contains_push(seen, call_key(call), key);
                lemma_contains_push(keys_of(before), call_key(call), key);
                assert(seen.contains(key) <==> keys_of(before).contains(key));
            }
        } else {
            assert forall|key: (Seq<char>, Seq<char>)| #[trigger]
                seen.contains(key) <==> keys_of(more).contains(key) by {
                lemma_contains_push(keys_of(before), call_key(call), key);
            }
            lemma_handled_is_first_only(seen, pending.drop_first(), more);
            let rest = handled(seen, pending.drop_first());
            assert(before + calls =~= more + rest);
            assert(rest.len() > 0 ==> calls.last() == rest.last());
        }
    }
}

/// One more element is in a sequence with it at the end.
proof fn lemma_contains_push<T>(s: Seq<T>, x: T, y: T)
    ensures
        s.push(x).contains(y) <==> s.contains(y) || x == y,
{
    let t = s.push(x);
    if t.contains(y) {
        let i = choose|i: int| 0 <= i < t.len() && t[i] == y;
        if i < s.len() {
            assert(s[i] == y);
        }
    }
    if s.contains(y) {
        let i = choose|i: int| 0 <= i < s.len() && s[i] == y;
        assert(t[i] == y);
    }
    if x == y {
        assert(t[s.len() as int] == y);
    }
}

/// What an event leads to: what it says, then the notes on the calls that are passed by; and the
/// tool of the first call that is not is used.
proof fn lemma_step_handles(runner: &AgentRunner, run: RunView, event: RunEvent)
    ensures
        ({
            let (next, action) = runner.step(run, event);
            let calls = handled(run.seen, runner.calls_taken(run, event));
            let used = calls.len() > 0 && calls.last().1;
            &&& next.messages == run.messages + runner.said_by(run, event) + notes_on(calls)
            &&& next.seen == (if used {
                run.seen.push(call_key(calls.last().0))
            } else {
                run.seen
            })
            &&& action is Use <==> used
            &&& used ==> action == RunActionView::Use(
                runner.tool_dispatcher.invocation(
                    call_name(calls.last().0),
                    primary_arg(call_args(calls.last().0)),
                ),
            )
            &&& forall|i: int| 0 <= i < calls.len() - 1 ==> !(#[trigger] calls[i]).1
        }),
{
    let (next, action) = runner.step(run, event);
    let taken = runner.calls_taken(run, event);
    let said = runner.said_by(run, event);
    let calls = handled(run.seen, taken);
    match event {
        RunEvent::Reply(reply) => {
            if taken.len() > 0 {
                let mid = RunView { messages: run.messages.push(said[0]), pending: taken, ..run };
                assert(mid.messages =~= run.messages + said);
                lemma_advance_handles(runner, mid);
            } else {
                assert(next.messages =~= run.messages + said + notes_on(calls));
            }
        },
        RunEvent::Result(content) => {
            let mid = RunView { messages: run.messages.push(said[0]), waiting: None, ..run };
            assert(mid.messages =~= run.messages + said);
            lemma_advance_handles(runner, mid);
        },
    }
}

/// Over a whole run a tool is used exactly once for each name with the same arguments, where they
/// first come; a call that comes later with both is passed by.
pub proof fn law_each_call_is_carried_out_once(
    runner: AgentRunner,
    messages: Seq<JsonView>,
    system_prompt: Seq<char>,
    events: Seq<RunEvent>,
)
    ensures
        first_only(runner.calls_met(messages, system_prompt, events)),
        knows(
            runner.after(messages, system_prompt, events).0.seen,
            runner.calls_met(messages, system_prompt, events),
        ),
    decreases events.len(),
{
    if events.len() > 0 {
        let run = runner.after(messages, system_prompt, events.drop_last()).0;
        law_each_call_is_carried_out_once(runner, messages, system_prompt, events.drop_last());
        lemma_step_handles(&runner, run, events.last());
        lemma_handled_is_first_only(
            run.seen,
            runner.calls_taken(run, events.last()),
            runner.calls_met(messages, system_prompt, events.drop_last()),
        );
    } else {
        lemma_advance(&runner, runner.started(messages, system_prompt));
        let seen = runner.after(messages, system_prompt, events).0.seen;
        assert(seen =~= Seq::empty());
    }
}

/// What becomes of the calls that a step takes in turn: of each that is passed by the model is told
/// that it is suppressed, and no tool is used for it; a tool is used exactly where a call is carried
/// out, which is then the last one taken, and it is the tool of that call.
pub proof fn law_calls_passed_by_are_told(runner: AgentRunner, run: RunView, event: RunEvent)
    ensures
        ({
            let (next, action) = runner.step(run, event);
            let calls = handled(run.seen, runner.calls_taken(run, event));
            &&& next.messages == run.messages + runner.said_by(run, event) + notes_on(calls)
            &&& action is Use <==> calls.len() > 0 && calls.last().1
            &&& action is Use ==> action == RunActionView::Use(
                runner.tool_dispatcher.invocation(
                    call_name(calls.last().0),
                    primary_arg(call_args(calls.last().0)),
                ),
            )
            &&& forall|i: int| 0 <= i < calls.len() - 1 ==> !(#[trigger] calls[i]).1
        }),
{
    lemma_step_handles(&runner, run, event);
}

/// Those of `calls` that are carried out, given those that have been, in order.
pub open spec fn carried_out(seen: Seq<(Seq<char>, Seq<char>)>, calls: Seq<JsonView>) -> Seq<
    JsonView,
>
    decreases calls.len(),
{
    if calls.len() == 0 {
        Seq::empty()
    } else if seen.contains(call_key(calls[0])) {
        carried_out(seen, calls.drop_first())
    } else {
        seq![calls[0]] + carried_out(seen.push(call_key(calls[0])), calls.drop_first())
    }
}

/// The answers to `calls`, one each and in order: the result of a call that is carried out, and of
/// one that is passed by that it is suppressed. `results` are those of the calls that are carried
/// out, in order.
pub open spec fn answers(
    seen: Seq<(Seq<char>, Seq<char>)>,
    calls: Seq<JsonView>,
    results: Seq<Seq<char>>,
) -> Seq<JsonView>
    decreases calls.len(),
{
    if calls.len() == 0 {
        Seq::empty()
    } else if seen.contains(call_key(calls[0])) {
        seq![tool_message(call_id(calls[0]), suppressed(call_name(calls[0])))] + answers(
            seen,
            calls.drop_first(),
            results,
        )
    } else {
        seq![tool_message(call_id(calls[0]), results[0])] + answers(
            seen.push(call_key(calls[0])),
            calls.drop_first(),
            results.drop_first(),
        )
    }
}

/// `message` answers `call`, with whatever content.
pub open spec fn is_answer_to(message: JsonView, call: JsonView) -> bool {
    exists|content: Seq<char>| message == #[trigger] tool_message(call_id(call), content)
}

/// There is one answer to each call, under its id.
pub proof fn law_one_answer_to_each_call(
    seen: Seq<(Seq<char>, Seq<char>)>,
    calls: Seq<JsonView>,
    results: Seq<Seq<char>>,
)
    ensures
        answers(seen, calls, results).len() == calls.len(),
        forall|i: int|
            0 <= i < calls.len() ==> is_answer_to(
                #[trigger] answers(seen, calls, results)[i],
                calls[i],
            ),
    decreases calls.len(),
{
    if calls.len() > 0 {
        let rest = calls.drop_first();
        let all = answers(seen, calls, results);
        let (later, left) = if seen.contains(call_key(calls[0])) {
            (seen, results)
        } else {
            (seen.push(call_key(calls[0])), results.drop_first())
        };
        law_one_answer_to_each_call(later, rest, left);
        let more = answers(later, rest, left);
        assert forall|i: int| 0 <= i < calls.len() implies is_answer_to(
            #[trigger] all[i],
            calls[i],
        ) by {
            if i > 0 {
                assert(calls[i] == rest[i - 1] && all[i] == more[i - 1]);
            } else if seen.contains(call_key(calls[0])) {
                assert(all[0] == tool_message(call_id(calls[0]), suppressed(call_name(calls[0]))));
            } else {
                assert(all[0] == tool_message(call_id(calls[0]), results[0]));
            }
        }
    }
}

impl AgentRunner {
    /// The run and the work to do once `results` have come in, one after another.
    pub open spec fn fed(
        &self,
        now: (RunView, RunActionView),
        results: Seq<Seq<char>>,
    ) -> (RunView, RunActionView)
        decreases results.len(),
    {
        if results.len() == 0 {
            now
        } else {
            self.fed(self.after_result(now.0, results[0]), results.drop_first())
        }
    }
}

/// Once all results have come in, all calls are answered; until then the tool of the next call is
/// used.
proof fn lemma_fed(runner: &AgentRunner, run: RunView, results: Seq<Seq<char>>, k: int)
    requires
        run.waiting is None,
        0 <= k <= results.len() == carried_out(run.seen, run.pending).len(),
    ensures
        k < results.len() ==> runner.fed(runner.advance(run), results.take(k)).1
            == RunActionView::Use(
            runner.tool_dispatcher.invocation(
                call_name(carried_out(run.seen, run.pending)[k]),
                primary_arg(call_args(carried_out(run.seen, run.pending)[k])),
            ),
        ),
        ({
            let (next, action) = runner.fed(runner.advance(run), results);
            let messages = run.messages + answers(run.seen, run.pending, results);
            &&& next.messages == messages
            &&& next.waiting is None
            &&& next.pending.len() == 0
            &&& run.left > 0 ==> next.left == run.left - 1 && action == RunActionView::Ask(
                runner.request(messages, runner.offered()),
            )
            &&& run.left == 0 ==> action == RunActionView::Finish(
                AgentResponseView::InfraError("[AgentRunner: iteration cap reached]"@),
            )
        }),
    decreases run.pending.len(),
{
    if run.pending.len() == 0 {
        assert(run.messages + answers(run.seen, run.pending, results) =~= run.messages);
        assert(results =~= Seq::empty());
    } else {
        let call = run.pending[0];
        let rest = run.pending.drop_first();
        let all = answers(run.seen, run.pending, results);
        if run.seen.contains(call_key(call)) {
            let note = tool_message(call_id(call), suppressed(call_name(call)));
            let mid = RunView { messages: run.messages.push(note), pending: rest, ..run };
            lemma_fed(runner, mid, results, k);
            assert(run.messages + all =~= mid.messages + answers(run.seen, rest, results));
        } else {
            let seen = run.seen.push(call_key(call));
            let answer = tool_message(call_id(call), results[0]);
            let mid = RunView {
                messages: run.messages.push(answer),
                seen,
                pending: rest,
                ..run
            };
            let used = runner.advance(run);
            assert(used.0.waiting == Some(call_id(call)));
            assert(runner.after_result(used.0, results[0]) == runner.advance(mid));
            let more = results.drop_first();
            let out = carried_out(run.seen, run.pending);
            assert(out.drop_first() =~= carried_out(seen, rest));
            if k > 0 {
                lemma_fed(runner, mid, more, k - 1);
                assert(results.take(k).drop_first() =~= more.take(k - 1));
                assert(results.take(k)[0] == results[0]);
                if k < results.len() {
                    assert(out[k] == carried_out(seen, rest)[k - 1]);
                }
            } else {
                lemma_fed(runner, mid, more, 0);
                assert(results.take(0) =~= Seq::empty());
            }
            assert(run.messages + all =~= mid.messages + answers(seen, rest, more));
        }
    }
}

/// From one request to the next: where the model, asked with what was said so far, answers with calls
/// of tools, the next request carries what was said so far, the model's answer, and then one answer
/// to each call in order, with the results of those that are carried out and the suppression of
/// those that are not. The tools are used in the order of the calls. Where no request is left, the
/// run ends instead.
pub proof fn law_next_request_answers_every_call(
    runner: AgentRunner,
    run: RunView,
    reply: ReplyView,
    results: Seq<Seq<char>>,
    k: int,
)
    requires
        run.waiting is None,
        tid_answer(reply).at("choices"@).first() matches Some(choice) && choice.at(
            "finish_reason"@,
        ).text_or("stop"@) == "tool_calls"@ && choice.at("message"@).at("tool_calls"@).first() is Some,
        0 <= k <= results.len() == carried_out(
            run.seen,
            tid_answer(reply).at("choices"@).first()->0.at("message"@).at("tool_calls"@)->Array_0,
        ).len(),
    ensures
        ({
            let said = tid_answer(reply).at("choices"@).first()->0.at("message"@);
            let calls = said.at("tool_calls"@)->Array_0;
            let out = carried_out(run.seen, calls);
            let messages = run.messages.push(said) + answers(run.seen, calls, results);
            let start = runner.after_reply(run, reply);
            let (next, action) = runner.fed(start, results);
            &&& next.messages == messages
            &&& next.waiting is None
            &&& run.left > 0 ==> action == RunActionView::Ask(
                runner.request(messages, runner.offered()),
            )
            &&& run.left == 0 ==> action == RunActionView::Finish(
                AgentResponseView::InfraError("[AgentRunner: iteration cap reached]"@),
            )
            &&& k < results.len() ==> runner.fed(start, results.take(k)).1 == RunActionView::Use(
                runner.tool_dispatcher.invocation(
                    call_name(out[k]),
                    primary_arg(call_args(out[k])),
                ),
            )
        }),
{
    let said = tid_answer(reply).at("choices"@).first()->0.at("message"@);
    let calls = said.at("tool_calls"@)->Array_0;
    lemma_fed(
        &runner,
        RunView { messages: run.messages.push(said), pending: calls, ..run },
        results,
        k,
    );
}

/// A request carries what was said so far.
pub proof fn law_request_carries_what_was_said(
    runner: AgentRunner,
    messages: Seq<JsonView>,
    system_prompt: Seq<char>,
    events: Seq<RunEvent>,
)
    ensures
        ({
            let (run, action) = runner.after(messages, system_prompt, events);
            action is Ask ==> action == RunActionView::Ask(
                runner.request(run.messages, runner.offered()),
            )
        }),
{
    if events.len() == 0 {
        lemma_ask_carries(&runner, runner.started(messages, system_prompt));
    } else {
        let run = runner.after(messages, system_prompt, events.drop_last()).0;
        match events.last() {
            RunEvent::Reply(reply) => {
                let said = tid_answer(reply).at("choices"@).first()->0.at("message"@);
                lemma_ask_carries(
                    &runner,
                    RunView {
                        messages: run.messages.push(said),
                        pending: said.at("tool_calls"@)->Array_0,
                        ..run
                    },
                );
            },
            RunEvent::Result(content) => {
                let said = runner.said_by(run, events.last())[0];
                lemma_ask_carries(
                    &runner,
                    RunView { messages: run.messages.push(said), waiting: None, ..run },
                );
            },
        }
    }
}

/// Taking the calls in turn up to a request gives one that carries what was said.
proof fn lemma_ask_carries(runner: &AgentRunner, run: RunView)
    ensures
        ({
            let (next, action) = runner.advance(run);
            action is Ask ==> action == RunActionView::Ask(
                runner.request(next.messages, runner.offered()),
            )
        }),
    decreases run.pending.len(),
{
    if run.pending.len() > 0 && run.seen.contains(call_key(run.pending[0])) {
        let call = run.pending[0];
        lemma_ask_carries(
            runner,
            RunView {
                messages: run.messages.push(
                    tool_message(call_id(call), suppressed(call_name(call))),
                ),
                pending: run.pending.drop_first(),
                ..run
            },
        );
    }
}

/// Tools that are turned off are not offered: a request says nothing of tools unless they are on.
pub proof fn law_tools_are_offered_only_when_enabled(
    runner: AgentRunner,
    messages: Seq<JsonView>,
)
    ensures
        runner.request(messages, runner.offered()).body.get("tools"@) is Some
            <==> runner.tools_enabled && runner.tool_dispatcher.tools@.len() > 0,
        runner.request(messages, runner.offered()).body.at("messages"@) == JsonView::Array(
            messages,
        ),
{
    reveal_with_fuel(lookup, 5);
    reveal_strlit("messages");
    reveal_strlit("model");
    reveal_strlit("tool_choice");
    reveal_strlit("tools");
    assert("messages"@.len() != "tools"@.len());
    assert("model"@[0] != "tools"@[0]);
    assert("tool_choice"@.len() != "tools"@.len());
}

/// A run asks the model at most as often as the runner allows.
pub proof fn law_asks_are_bounded(
    runner: AgentRunner,
    messages: Seq<JsonView>,
    system_prompt: Seq<char>,
    events: Seq<RunEvent>,
)
    ensures
        runner.times_asked(messages, system_prompt, events) + runner.after(
            messages,
            system_prompt,
            events,
        ).0.left == runner.max_iter,
    decreases events.len(),
{
    if events.len() == 0 {
        lemma_advance(&runner, runner.started(messages, system_prompt));
    } else {
        law_asks_are_bounded(runner, messages, system_prompt, events.drop_last());
        lemma_step(
            &runner,
            runner.after(messages, system_prompt, events.drop_last()).0,
            events.last(),
        );
    }
}

/// Where the model cannot be asked, or its answer cannot be read, or the answer holds no choice,
/// the run ends with an error around the model.
pub proof fn law_failures_are_infra_errors(runner: AgentRunner, run: RunView, reply: ReplyView)
    ensures
        reply is Failed ==> runner.after_reply(run, reply).1 == RunActionView::Finish(
            AgentResponseView::InfraError("[TID unavailable]"@),
        ),
        reply is Answered && reply.json() is None ==> runner.after_reply(run, reply).1
            == RunActionView::Finish(AgentResponseView::InfraError("[TID: parse error]"@)),
        (reply.json() matches Some(v) && v.at("choices"@).first() is None) ==> runner.after_reply(
            run,
            reply,
        ).1 == RunActionView::Finish(AgentResponseView::InfraError("[TID: malformed response]"@)),
{
    lemma_stand_in("[TID unavailable]"@);
    lemma_stand_in("[TID: parse error]"@);
    reveal_strlit("[TID");
    reveal_strlit("[TID unavailable]");
    reveal_strlit("[TID: parse error]");
    reveal_strlit("stop");
    reveal_strlit("tool_calls");
    assert("[TID"@ =~= "[TID unavailable]"@.subrange(0, 4));
    assert("[TID"@ =~= "[TID: parse error]"@.subrange(0, 4));
    assert("stop"@[0] != "tool_calls"@[0]);
}

/// What stands in for an answer says one thing and then stops.
proof fn lemma_stand_in(content: Seq<char>)
    ensures
        stand_in(content).at("choices"@).first() matches Some(choice) && choice.at("finish_reason"@)
            == JsonView::Text("stop"@) && choice.at("message"@).at("content"@) == JsonView::Text(
            content,
        ),
{
    reveal_with_fuel(lookup, 3);
    reveal_strlit("finish_reason");
    reveal_strlit("message");
    reveal_strlit("content");
    reveal_strlit("role");
    assert("finish_reason"@[0] != "message"@[0]);
}

/// A text that the model ends its answer with, and that tells of a failure around the model, is
/// never taken for something that the model said.
pub proof fn law_sentinels_are_not_content(runner: AgentRunner, run: RunView, reply: ReplyView)
    requires
        tid_answer(reply).at("choices"@).first() matches Some(choice) && choice.at(
            "finish_reason"@,
        ).text_or("stop"@) != "tool_calls"@,
    ensures
        runner.after_reply(run, reply).1 matches RunActionView::Finish(response) && (
        response is Content <==> !"[TID"@.is_prefix_of(response.text())),
{
}

/// A message tells who says what, and nothing else.
pub proof fn law_message_tells_who_says_what(role: Seq<char>, content: Seq<char>)
    ensures
        message(role, content).at("role"@) == JsonView::Text(role),
        message(role, content).at("content"@) == JsonView::Text(content),
        message(role, content)->Object_0.len() == 2,
{
    reveal_with_fuel(lookup, 3);
    reveal_strlit("role");
    reveal_strlit("content");
    assert("content"@.len() != "role"@.len());
}

/// The message that puts a result before the model names the call that it answers and carries the
/// result as it stands.
pub proof fn law_tool_message_answers_its_call(id: Seq<char>, content: Seq<char>)
    ensures
        tool_message(id, content).at("role"@) == JsonView::Text("tool"@),
        tool_message(id, content).at("tool_call_id"@) == JsonView::Text(id),
        tool_message(id, content).at("content"@) == JsonView::Text(content),
{
    reveal_with_fuel(lookup, 4);
    reveal_strlit("role");
    reveal_strlit("content");
    reveal_strlit("tool_call_id");
    assert("content"@.len() == 7 && "role"@.len() == 4 && "tool_call_id"@.len() == 12);
}

/// A request goes to the model's address, leaves the choice of the model to it, and carries the
/// messages as they are; it offers the tools that are given, and leaves it to the model to call one.
pub proof fn law_request_carries_messages_and_tools(
    runner: AgentRunner,
    messages: Seq<JsonView>,
    tools: Seq<JsonView>,
)
    ensures
        ({
            let request = runner.request(messages, tools);
            &&& request.url == runner.tid_url@ + "/v1/chat/completions"@
            &&& request.body.at("messages"@) == JsonView::Array(messages)
            &&& request.body.at("model"@) == JsonView::Text("auto"@)
            &&& tools.len() > 0 ==> request.body.at("tools"@) == JsonView::Array(tools)
                && request.body.at("tool_choice"@) == JsonView::Text("auto"@)
            &&& tools.len() == 0 ==> request.body.get("tools"@) is None && request.body.get(
                "tool_choice"@,
            ) is None
        }),
{
    reveal_with_fuel(lookup, 5);
    reveal_strlit("messages");
    reveal_strlit("model");
    reveal_strlit("tool_choice");
    reveal_strlit("tools");
    assert("messages"@.len() == 8 && "model"@.len() == 5 && "tool_choice"@.len() == 11
        && "tools"@.len() == 5);
    assert("model"@[0] != "tools"@[0]);
}

/// The first request of a run carries the whole conversation in its order, and before it nothing but
/// the system prompt, where there is one; it offers every tool where tools are on, and none where
/// they are off.
pub proof fn law_first_request_carries_the_conversation(
    runner: AgentRunner,
    messages: Seq<JsonView>,
    system_prompt: Seq<char>,
)
    requires
        runner.max_iter > 0,
    ensures
        ({
            let action = runner.advance(runner.started(messages, system_prompt)).1;
            let request = action->Ask_0;
            let asked = request.body.at("messages"@)->Array_0;
            &&& action is Ask
            &&& request.url == runner.tid_url@ + "/v1/chat/completions"@
            &&& request.body.at("messages"@) is Array
            &&& messages.is_suffix_of(asked)
            &&& system_prompt.len() == 0 ==> asked == messages
            &&& system_prompt.len() > 0 ==> asked.len() == messages.len() + 1 && asked[0].at(
                "role"@,
            ) == JsonView::Text("system"@) && asked[0].at("content"@) == JsonView::Text(
                system_prompt,
            )
            &&& runner.tools_enabled && runner.tool_dispatcher.tools@.len() > 0
                ==> request.body.at("tools"@) == JsonView::Array(
                Seq::new(
                    runner.tool_dispatcher.tools@.len(),
                    |i: int| definition(runner.tool_dispatcher.tools@[i]),
                ),
            )
            &&& !runner.tools_enabled ==> request.body.get("tools"@) is None
        }),
        runner.advance(runner.started(messages, system_prompt)).0.left == runner.max_iter - 1,
{
    let asked = AgentRunner::opening(system_prompt, messages);
    law_request_carries_messages_and_tools(runner, asked, runner.offered());
    law_message_tells_who_says_what("system"@, system_prompt);
    assert(messages =~= asked.subrange(asked.len() - messages.len(), asked.len() as int));
    assert(runner.tool_dispatcher.definitions() =~= Seq::new(
        runner.tool_dispatcher.tools@.len(),
        |i: int| definition(runner.tool_dispatcher.tools@[i]),
    ));
    if system_prompt.len() == 0 {
        assert(asked =~= messages);
    }
}

/// Where the model may not be asked at all, the run ends before it begins.
pub proof fn law_no_request_without_leave(
    runner: AgentRunner,
    messages: Seq<JsonView>,
    system_prompt: Seq<char>,
)
    requires
        runner.max_iter == 0,
    ensures
        runner.advance(runner.started(messages, system_prompt)).1 == RunActionView::Finish(
            AgentResponseView::InfraError("[AgentRunner: iteration cap reached]"@),
        ),
{
}

/// At whatever time a run asks the model, the request carries the whole conversation that the run
/// began with, in its order, before anything that came during the run.
pub proof fn law_every_request_carries_the_conversation(
    runner: AgentRunner,
    messages: Seq<JsonView>,
    system_prompt: Seq<char>,
    events: Seq<RunEvent>,
)
    ensures
        ({
            let action = runner.after(messages, system_prompt, events).1;
            let asked = action->Ask_0.body.at("messages"@)->Array_0;
            let before = if system_prompt.len() > 0 {
                1int
            } else {
                0int
            };
            action is Ask ==> {
                &&& action->Ask_0.body.at("messages"@) is Array
                &&& asked.len() >= before + messages.len()
                &&& asked.subrange(before, before + messages.len()) == messages
                &&& before == 1 ==> asked[0].at("role"@) == JsonView::Text("system"@)
                    && asked[0].at("content"@) == JsonView::Text(system_prompt)
            }
        }),
{
    let (run, action) = runner.after(messages, system_prompt, events);
    let start = runner.started(messages, system_prompt);
    let opening = AgentRunner::opening(system_prompt, messages);
    law_request_carries_what_was_said(runner, messages, system_prompt, events);
    law_request_carries_messages_and_tools(runner, run.messages, runner.offered());
    law_record_only_grows(runner, messages, system_prompt, events, 0);
    assert(events.take(0) =~= Seq::<RunEvent>::empty());
    let first = runner.after(messages, system_prompt, events.take(0)).0;
    lemma_advance(&runner, start);
    lemma_prefix_is_transitive(start.messages, first.messages, run.messages);
    law_message_tells_who_says_what("system"@, system_prompt);
    let before = if system_prompt.len() > 0 {
        1int
    } else {
        0int
    };
    assert(opening =~= run.messages.subrange(0, opening.len() as int));
    assert(run.messages.subrange(before, before + messages.len()) =~= messages) by {
        assert forall|i: int| 0 <= i < messages.len() implies run.messages[before + i]
            == messages[i] by {
            assert(opening[before + i] == messages[i]);
            assert(opening[before + i] == run.messages.subrange(0, opening.len() as int)[before
                + i]);
        }
    }
    if before == 1 {
        assert(opening[0] == run.messages.subrange(0, opening.len() as int)[0]);
    }
}

/// What the model says where it calls no tool is what the run gives, as it stands; the run is then
/// over. A text that begins with `[TID` tells of a failure.
pub proof fn law_what_the_model_says_is_the_answer(
    runner: AgentRunner,
    run: RunView,
    reply: ReplyView,
    answer: JsonView,
    choices: Seq<JsonView>,
    said: Seq<char>,
)
    requires
        reply.json() == Some(answer),
        answer.at("choices"@) == JsonView::Array(choices),
        choices.len() > 0,
        choices[0].at("message"@).at("content"@) == JsonView::Text(said),
    ensures
        choices[0].at("finish_reason"@) != JsonView::Text("tool_calls"@) ==> runner.after_reply(
            run,
            reply,
        ).1 == RunActionView::Finish(
            if "[TID"@.is_prefix_of(said) {
                AgentResponseView::InfraError(said)
            } else {
                AgentResponseView::Content(said)
            },
        ),
        choices[0].at("finish_reason"@) == JsonView::Text("tool_calls"@) && (choices[0].at(
            "message"@,
        ).at("tool_calls"@) matches JsonView::Array(calls) ==> calls.len() == 0)
            ==> runner.after_reply(run, reply).1 == RunActionView::Finish(
            AgentResponseView::Content(said),
        ),
        runner.after_reply(run, reply).0.messages.len() > run.messages.len(),
        runner.after_reply(run, reply).0.messages[run.messages.len() as int] == choices[0].at(
            "message"@,
        ),
{
    reveal_strlit("stop");
    reveal_strlit("tool_calls");
    assert("stop"@.len() != "tool_calls"@.len());
    lemma_step(&runner, run, RunEvent::Reply(reply));
    let message = choices[0].at("message"@);
    let next = runner.after_reply(run, reply).0;
    if choices[0].at("finish_reason"@) == JsonView::Text("tool_calls"@) && message.at(
        "tool_calls"@,
    ).first() is Some {
        let mid = RunView {
            messages: run.messages.push(message),
            pending: message.at("tool_calls"@)->Array_0,
            ..run
        };
        lemma_advance(&runner, mid);
        assert(mid.messages =~= next.messages.subrange(0, mid.messages.len() as int));
        assert(mid.messages[run.messages.len() as int] == message);
    }
}

/// Where the model says nothing with its choice, the run gives an empty text.
pub proof fn law_silence_is_an_empty_answer(
    runner: AgentRunner,
    run: RunView,
    reply: ReplyView,
    answer: JsonView,
    choices: Seq<JsonView>,
)
    requires
        reply.json() == Some(answer),
        answer.at("choices"@) == JsonView::Array(choices),
        choices.len() > 0,
        !(choices[0].at("message"@).at("content"@) is Text),
        choices[0].at("finish_reason"@) != JsonView::Text("tool_calls"@),
    ensures
        runner.after_reply(run, reply).1 == RunActionView::Finish(
            AgentResponseView::Content(Seq::empty()),
        ),
{
    reveal_strlit("stop");
    reveal_strlit("tool_calls");
    reveal_strlit("[TID");
    reveal_strlit("");
    assert("stop"@.len() != "tool_calls"@.len());
    assert(""@ =~= Seq::<char>::empty());
}

/// The first call in the model's answer is carried out by the tool that it names, with the text that
/// it hands over, unless a call of that name with those arguments has been carried out before; then
/// no tool is used for it, and the model is told so under the call's id.
pub proof fn law_first_call_is_carried_out(
    runner: AgentRunner,
    run: RunView,
    reply: ReplyView,
    answer: JsonView,
    choices: Seq<JsonView>,
    calls: Seq<JsonView>,
    name: Seq<char>,
    given: Seq<char>,
    args: JsonView,
    id: Seq<char>,
)
    requires
        reply.json() == Some(answer),
        answer.at("choices"@) == JsonView::Array(choices),
        choices.len() > 0,
        choices[0].at("finish_reason"@) == JsonView::Text("tool_calls"@),
        choices[0].at("message"@).at("tool_calls"@) == JsonView::Array(calls),
        calls.len() > 0,
        calls[0].at("id"@) == JsonView::Text(id),
        calls[0].at("function"@).at("name"@) == JsonView::Text(name),
        calls[0].at("function"@).at("arguments"@) == JsonView::Text(given),
        json_parsed(given) == Some(args),
    ensures
        ({
            let (next, action) = runner.after_reply(run, reply);
            let known = run.seen.contains((name, json_text(args)));
            &&& !known ==> {
                &&& action == RunActionView::Use(
                    runner.tool_dispatcher.invocation(name, primary_arg(args)),
                )
                &&& next.waiting == Some(id)
                &&& next.pending == calls.drop_first()
                &&& next.seen == run.seen.push((name, json_text(args)))
                &&& next.messages == run.messages.push(choices[0].at("message"@))
            }
            &&& known ==> {
                let told = next.messages[run.messages.len() as int + 1];
                &&& next.messages.len() >= run.messages.len() + 2
                &&& told.at("role"@) == JsonView::Text("tool"@)
                &&& told.at("tool_call_id"@) == JsonView::Text(id)
                &&& told.at("content"@) == JsonView::Text(
                    "[tool '"@ + name + "' already called with same args this turn — suppressed]"@,
                )
            }
        }),
{
    let said = choices[0].at("message"@);
    let mid = RunView { messages: run.messages.push(said), pending: calls, ..run };
    law_tool_message_answers_its_call(id, suppressed(name));
    assert(call_key(calls[0]) == (name, json_text(args)));
    if run.seen.contains((name, json_text(args))) {
        let note = tool_message(id, suppressed(name));
        let later = RunView {
            messages: mid.messages.push(note),
            pending: calls.drop_first(),
            ..mid
        };
        lemma_advance(&runner, later);
        let next = runner.after_reply(run, reply).0;
        assert(later.messages =~= next.messages.subrange(0, later.messages.len() as int));
        assert(later.messages[run.messages.len() as int + 1] == note);
    }
}

/// Arguments that are no JSON, or none at all, count as an empty object.
pub proof fn law_unreadable_arguments_are_none(call: JsonView, given: Seq<char>)
    ensures
        call.at("function"@).at("arguments"@) == JsonView::Text(given) && json_parsed(given) is None
            ==> call_args(call) == JsonView::Object(Seq::empty()),
        !(call.at("function"@).at("arguments"@) is Text) && json_parsed("{}"@) == Some(
            JsonView::Object(Seq::empty()),
        ) ==> call_args(call) == JsonView::Object(Seq::empty()),
        !(call.at("id"@) is Text) ==> call_id(call) == ""@,
        !(call.at("function"@).at("name"@) is Text) ==> call_name(call) == ""@,
{
}

/// The result of a call that was carried out is put before the model as it stands, under the id of
/// that call, behind all that was said before.
pub proof fn law_result_is_put_before_the_model(
    runner: AgentRunner,
    run: RunView,
    id: Seq<char>,
    content: Seq<char>,
)
    requires
        run.waiting == Some(id),
    ensures
        ({
            let next = runner.after_result(run, content).0;
            let told = next.messages[run.messages.len() as int];
            &&& run.messages.is_prefix_of(next.messages)
            &&& next.messages.len() > run.messages.len()
            &&& told.at("role"@) == JsonView::Text("tool"@)
            &&& told.at("tool_call_id"@) == JsonView::Text(id)
            &&& told.at("content"@) == JsonView::Text(content)
        }),
        run.pending.len() == 0 && run.left > 0 ==> (runner.after_result(run, content).1
            matches RunActionView::Ask(request) && request.body.at("messages"@) == JsonView::Array(
            runner.after_result(run, content).0.messages,
        ) && runner.after_result(run, content).0.messages.len() == run.messages.len() + 1),
{
    law_tool_message_answers_its_call(id, content);
    lemma_step(&runner, run, RunEvent::Result(content));
    let mid = RunView {
        messages: run.messages.push(tool_message(id, content)),
        waiting: None,
        ..run
    };
    lemma_advance(&runner, mid);
    let next = runner.after_result(run, content).0;
    assert(mid.messages =~= next.messages.subrange(0, mid.messages.len() as int));
    assert(mid.messages[run.messages.len() as int] == tool_message(id, content));
    law_request_carries_messages_and_tools(runner, next.messages, runner.offered());
}

/// A reach is put to the model as it stands, behind the instructions for it and with every tool on
/// offer, whether or not tools are on.
pub proof fn law_reach_is_put_to_the_model(runner: AgentRunner, intent: Seq<char>)
    ensures
        runner.hands_request(intent).url == runner.tid_url@ + "/v1/chat/completions"@,
        runner.hands_request(intent).body.at("messages"@) matches JsonView::Array(asked)
            && asked.len() == 2 && asked[0].at("role"@) == JsonView::Text("system"@) && asked[0].at(
            "content"@,
        ) == JsonView::Text(HANDS_SYSTEM@) && asked[1].at("role"@) == JsonView::Text("user"@)
            && asked[1].at("content"@) == JsonView::Text(intent),
        runner.tool_dispatcher.tools@.len() > 0 ==> (runner.hands_request(intent).body.at("tools"@)
            matches JsonView::Array(tools) && tools.len() == runner.tool_dispatcher.tools@.len()
            && forall|i: int|
            0 <= i < tools.len() ==> #[trigger] tools[i] == definition(
                runner.tool_dispatcher.tools@[i],
            )),
{
    let asked = seq![message("system"@, HANDS_SYSTEM@), message("user"@, intent)];
    law_request_carries_messages_and_tools(runner, asked, runner.tool_dispatcher.definitions());
    law_message_tells_who_says_what("system"@, HANDS_SYSTEM@);
    law_message_tells_who_says_what("user"@, intent);
}

/// A reach is resolved by the first call in the model's answer: the tool that it names does the work,
/// and the badge shows the name and the arguments. Without a call the reach is missed, and both the
/// badge and the result say why.
pub proof fn law_reach_takes_the_first_call(
    runner: AgentRunner,
    intent: Seq<char>,
    reply: ReplyView,
    answer: JsonView,
    choices: Seq<JsonView>,
    calls: Seq<JsonView>,
    name: Seq<char>,
    given: Seq<char>,
    args: JsonView,
)
    requires
        reply.json() == Some(answer),
        answer.at("choices"@) == JsonView::Array(choices),
    ensures
        ({
            let outcome = runner.reach_outcome(intent, reply);
            let called = choices.len() > 0 && choices[0].at("message"@).at("tool_calls"@)
                == JsonView::Array(calls) && calls.len() > 0;
            &&& called && calls[0].at("function"@).at("name"@) == JsonView::Text(name)
                && calls[0].at("function"@).at("arguments"@) == JsonView::Text(given) && json_parsed(
                given,
            ) == Some(args) ==> outcome == (ReachView::Use {
                badge: "🔧 "@ + name + "("@ + json_text(args) + ") ✓"@,
                invocation: runner.tool_dispatcher.invocation(name, primary_arg(args)),
            })
            &&& choices.len() == 0 || !(choices[0].at("message"@).at("tool_calls"@) is Array) || (
            choices[0].at("message"@).at("tool_calls"@) == JsonView::Array(calls) && calls.len()
                == 0) ==> outcome == (ReachView::Miss {
                badge: "🔧 "@ + "reach"@ + "("@ + ("\""@ + intent + "\""@) + ") ✗ "@
                    + "could not map your reach to a tool"@,
                result: "[reach not resolved: "@ + "could not map your reach to a tool"@ + "]"@,
            })
        }),
{
}

/// Tools are off where the variable says `false`, `0`, `no` or `off`, in whatever case and with
/// whatever white space around it; they are on in any other case, and where it is not set.
pub proof fn law_tools_are_on_unless_turned_off(value: Seq<char>)
    ensures
        tools_enabled_by(None),
        trimmed(value).len() > 5 ==> tools_enabled_by(Some(value)),
        trimmed(value).len() == 0 ==> tools_enabled_by(Some(value)),
        ascii_lowered(trimmed(value)) == seq!['0'] || ascii_lowered(trimmed(value)) == seq!['n', 'o']
            || ascii_lowered(trimmed(value)) == seq!['o', 'f', 'f'] || ascii_lowered(trimmed(value))
            == seq!['f', 'a', 'l', 's', 'e'] <==> !tools_enabled_by(Some(value)),
{
    reveal_strlit("false");
    reveal_strlit("0");
    reveal_strlit("no");
    reveal_strlit("off");
    assert("false"@ =~= seq!['f', 'a', 'l', 's', 'e']);
    assert("0"@ =~= seq!['0']);
    assert("no"@ =~= seq!['n', 'o']);
    assert("off"@ =~= seq!['o', 'f', 'f']);
}

/// No call is dropped: each is among those that are carried out, or one of its name with its arguments
/// is, now or before; and nothing is carried out that was not called for.
pub proof fn law_no_call_is_dropped(seen: Seq<(Seq<char>, Seq<char>)>, calls: Seq<JsonView>, i: int)
    requires
        0 <= i < calls.len(),
    ensures
        seen.contains(call_key(calls[i])) || exists|k: int|
            0 <= k < carried_out(seen, calls).len() && call_key(
                #[trigger] carried_out(seen, calls)[k],
            ) == call_key(calls[i]),
        forall|k: int|
            0 <= k < carried_out(seen, calls).len() ==> calls.contains(
                #[trigger] carried_out(seen, calls)[k],
            ),
    decreases calls.len(),
{
    let rest = calls.drop_first();
    let out = carried_out(seen, calls);
    let known = seen.contains(call_key(calls[0]));
    let later = if known {
        seen
    } else {
        seen.push(call_key(calls[0]))
    };
    let more = carried_out(later, rest);
    let d = if known {
        0int
    } else {
        1int
    };
    assert forall|k: int| 0 <= k < out.len() implies calls.contains(#[trigger] out[k]) by {
        if k < d {
            assert(out[k] == calls[0]);
        } else {
            assert(out[k] == more[k - d]);
            law_no_call_is_dropped(later, rest, 0);
            assert(rest.contains(more[k - d]));
            let j = choose|j: int| 0 <= j < rest.len() && rest[j] == more[k - d];
            assert(calls[j + 1] == out[k]);
        }
    }
    if i == 0 {
        if !known {
            assert(out[0] == calls[0]);
        }
    } else {
        law_no_call_is_dropped(later, rest, i - 1);
        assert(rest[i - 1] == calls[i]);
        if later.contains(call_key(calls[i])) {
            lemma_contains_push(seen, call_key(calls[0]), call_key(calls[i]));
            if !seen.contains(call_key(calls[i])) {
                assert(out[0] == calls[0]);
            }
        } else {
            let k = choose|k: int|
                0 <= k < more.len() && call_key(#[trigger] more[k]) == call_key(calls[i]);
            assert(out[k + d] == more[k]);
        }
    }
}

/// Calls that are all new are all carried out, in their order, and each is answered with its own
/// result under its own id.
pub proof fn law_new_calls_are_all_carried_out(
    seen: Seq<(Seq<char>, Seq<char>)>,
    calls: Seq<JsonView>,
    results: Seq<Seq<char>>,
)
    requires
        results.len() == calls.len(),
        forall|i: int| 0 <= i < calls.len() ==> !seen.contains(call_key(#[trigger] calls[i])),
        forall|i: int, j: int|
            0 <= i < j < calls.len() ==> call_key(#[trigger] calls[i]) != call_key(
                #[trigger] calls[j],
            ),
    ensures
        carried_out(seen, calls) == calls,
        answers(seen, calls, results).len() == calls.len(),
        forall|i: int|
            0 <= i < calls.len() ==> {
                let told = #[trigger] answers(seen, calls, results)[i];
                &&& told.at("role"@) == JsonView::Text("tool"@)
                &&& told.at("tool_call_id"@) == JsonView::Text(call_id(calls[i]))
                &&& told.at("content"@) == JsonView::Text(results[i])
            },
    decreases calls.len(),
{
    if calls.len() == 0 {
        assert(carried_out(seen, calls) =~= calls);
    } else {
        let rest = calls.drop_first();
        let later = seen.push(call_key(calls[0]));
        let left = results.drop_first();
        assert forall|i: int| 0 <= i < rest.len() implies !later.contains(
            call_key(#[trigger] rest[i]),
        ) by {
            assert(rest[i] == calls[i + 1]);
            lemma_contains_push(seen, call_key(calls[0]), call_key(calls[i + 1]));
        }
        assert forall|i: int, j: int| 0 <= i < j < rest.len() implies call_key(#[trigger] rest[i])
            != call_key(#[trigger] rest[j]) by {
            assert(rest[i] == calls[i + 1] && rest[j] == calls[j + 1]);
        }
        law_new_calls_are_all_carried_out(later, rest, left);
        assert(!seen.contains(call_key(calls[0])));
        assert(carried_out(seen, calls) =~= calls);
        let all = answers(seen, calls, results);
        law_tool_message_answers_its_call(call_id(calls[0]), results[0]);
        assert forall|i: int| 0 <= i < calls.len() implies {
            let told = #[trigger] all[i];
            &&& told.at("role"@) == JsonView::Text("tool"@)
            &&& told.at("tool_call_id"@) == JsonView::Text(call_id(calls[i]))
            &&& told.at("content"@) == JsonView::Text(results[i])
        } by {
            if i > 0 {
                assert(all[i] == answers(later, rest, left)[i - 1]);
                assert(rest[i - 1] == calls[i] && left[i - 1] == results[i]);
            }
        }
    }
}

/// A response shows its text, whichever kind it is.
pub proof fn law_response_shows_its_text(t: Seq<char>)
    ensures
        AgentResponseView::Content(t).text() == t,
        AgentResponseView::InfraError(t).text() == t,
{
}

/// A call names its tool, its arguments and its id.
pub proof fn law_call_is_read(
    call: JsonView,
    name: Seq<char>,
    given: Seq<char>,
    args: JsonView,
    id: Seq<char>,
)
    ensures
        call.at("function"@).at("name"@) == JsonView::Text(name) ==> call_name(call) == name,
        call.at("id"@) == JsonView::Text(id) ==> call_id(call) == id,
        call.at("function"@).at("arguments"@) == JsonView::Text(given) && json_parsed(given) == Some(
            args,
        ) ==> call_args(call) == args,
        call_key(call).0 == call_name(call),
        call_key(call).1 == json_text(call_args(call)),
{
}

/// Once a result has come in, the next call of the same answer is carried out in its turn, by its tool
/// and with its argument, unless it was carried out before; the calls behind it still wait.
pub proof fn law_next_call_is_carried_out(
    runner: AgentRunner,
    run: RunView,
    content: Seq<char>,
)
    requires
        run.pending.len() > 0,
        !run.seen.contains((call_name(run.pending[0]), json_text(call_args(run.pending[0])))),
    ensures
        ({
            let (next, action) = runner.after_result(run, content);
            let call = run.pending[0];
            &&& action == RunActionView::Use(
                runner.tool_dispatcher.invocation(call_name(call), primary_arg(call_args(call))),
            )
            &&& next.waiting == Some(call_id(call))
            &&& next.pending == run.pending.drop_first()
            &&& next.seen == run.seen.push((call_name(call), json_text(call_args(call))))
            &&& next.left == run.left
        }),
{
}

/// Whatever the first call in the model's answer to a reach looks like, it is the one that is carried
/// out, and the badge shows it.
pub proof fn law_any_first_call_resolves_a_reach(
    runner: AgentRunner,
    intent: Seq<char>,
    reply: ReplyView,
    answer: JsonView,
    choices: Seq<JsonView>,
    calls: Seq<JsonView>,
)
    requires
        reply.json() == Some(answer),
        answer.at("choices"@) == JsonView::Array(choices),
        choices.len() > 0,
        choices[0].at("message"@).at("tool_calls"@) == JsonView::Array(calls),
        calls.len() > 0,
    ensures
        runner.reach_outcome(intent, reply) == (ReachView::Use {
            badge: "🔧 "@ + call_name(calls[0]) + "("@ + json_text(call_args(calls[0])) + ") ✓"@,
            invocation: runner.tool_dispatcher.invocation(
                call_name(calls[0]),
                primary_arg(call_args(calls[0])),
            ),
        }),
{
}

} // verus!

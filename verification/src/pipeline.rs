//! The turn: filter, ingest, build, run, record, respond.
//!
//! A turn is a machine. Each step takes what came of the outside work that the step before asked
//! for, and gives the effects to carry out, in their order, and the next work to do.

use crate::agent_runner::{
    law_first_request_carries_the_conversation, law_message_tells_who_says_what, message,
    message_json, AgentResponse, AgentResponseView, AgentRun, AgentRunSpec, AgentRunner, RunAction,
};
use crate::context_builder::{
    assemble_request, assembled, law_all_messages_are_put_before_the_service,
    law_the_service_decides_what_is_told, ContextBuilder,
};
use crate::history::{
    exchange, newest, opt_bytes, saved_as, taken_up, ConversationHistory,
};
use crate::json::{items_view, lookup, object1, object2, object3, text, Json, JsonView};
use crate::notice::{notice_taken, surfaced, with_notice, Notice, Surfaced};
use crate::reply::{Reply, ReplyView, Request, RequestView, TextRequest};
use crate::strings::{
    concat, contains, is_blank, lemma_last_index_of, lemma_trimmed, occurs_at, occurs_in, opt_str,
    opt_text, same, trimmed,
};
use crate::text::{
    answer, close_tag, law_answer_has_no_close_tag, law_answer_is_trimmed,
    law_answer_stands_behind_the_scratchpad, strip_reasoning,
};
use crate::tract_writer::TractWriter;
use crate::trollguard::{
    law_answer_alone_counts, scan_request_of, scanned, ScanReply, ScanReplyView, ScanResultView, TrollGuardBridge,
};
use std::sync::Arc;
use vstd::prelude::*;
use vstd::slice::slice_to_vec;
use vstd::utf8::encode_utf8;

verus! {

/// How many messages the working memory keeps.
pub const HISTORY_CAPACITY: usize = 40;

/// For how many turns a wish for open models holds.
pub const OSS_PREF_DURATION_TURNS: u64 = 20;

/// How much a wish for open models counts, as a decimal number.
pub const OSS_PREF_BOOST: &'static str = "0.12";

/// `s` in lower case, as Unicode has it.
pub uninterp spec fn lowered(s: Seq<char>) -> Seq<char>;

/// Calls `str::to_lowercase`. It claims that the outcome depends on the text alone and names it
/// `lowered`.
#[verifier::external_body]
fn lowercase(s: &str) -> (r: String)
    ensures
        r@ == lowered(s@),
{
    s.to_lowercase()
}

/// The phrases that tell of a wish for open models.
pub open spec fn wishes() -> Seq<Seq<char>> {
    seq![
        "more open source"@,
        "more open-source"@,
        "more opensource"@,
        "use open source"@,
        "use open-source"@,
        "prefer open source"@,
        "prefer open-source"@,
        "open source model"@,
        "open-source model"@,
        "more oss"@,
        "use oss"@,
        "prefer oss"@,
        "open weights"@,
        "open-weights"@,
        "open weight model"@,
        "open-weight model"@,
        "try open source"@,
        "switch to open source"@,
        "more free model"@,
        "more open model"@,
    ]
}

/// One of the phrases stands in `lower`.
pub open spec fn holds_wish(lower: Seq<char>) -> bool {
    exists|i: int| 0 <= i < wishes().len() && occurs_in(lower, #[trigger] wishes()[i])
}

/// Whether one of the phrases that tell of a wish for open models stands in a text in lower case.
pub fn prefers_open(lower: &str) -> (r: bool)
    ensures
        r == holds_wish(lower@),
{
    let phrases: Vec<&str> = vec![
        "more open source",
        "more open-source",
        "more opensource",
        "use open source",
        "use open-source",
        "prefer open source",
        "prefer open-source",
        "open source model",
        "open-source model",
        "more oss",
        "use oss",
        "prefer oss",
        "open weights",
        "open-weights",
        "open weight model",
        "open-weight model",
        "try open source",
        "switch to open source",
        "more free model",
        "more open model",
    ];
    let mut i: usize = 0;
    assert forall|j: int| 0 <= j < wishes().len() implies phrases@[j]@ == #[trigger] wishes()[j] by {
    }
    while i < phrases.len()
        invariant
            i <= phrases@.len(),
            phrases@.len() == wishes().len(),
            forall|j: int| 0 <= j < wishes().len() ==> phrases@[j]@ == #[trigger] wishes()[j],
            forall|j: int| 0 <= j < i ==> !occurs_in(lower@, #[trigger] wishes()[j]),
        decreases phrases@.len() - i,
    {
        assert(phrases@[i as int]@ == wishes()[i as int]);
        if contains(lower, phrases[i]) {
            return true;
        }
        i += 1;
    }
    false
}

/// Whether a turn tells of a wish for open models.
pub fn detect_routing_preference(text: &str) -> (r: bool)
    ensures
        r == holds_wish(lowered(text@)),
{
    prefers_open(lowercase(text).as_str())
}

/// A stage of a turn.
#[derive(Debug, Clone, Copy, PartialEq, Eq, Structural)]
pub enum Stage {
    Idle,
    Filter,
    Ingest,
    Build,
    Run,
    PostRun,
    AfterTurn,
}

/// How far a stage has come.
#[derive(Debug, Clone, Copy, PartialEq, Eq, Structural)]
pub enum StageState {
    Idle,
    Running,
    Done,
    Error,
}

impl Stage {
    /// The name that a stage is shown by.
    pub open spec fn label_view(&self) -> Seq<char> {
        match self {
            Stage::Idle => "IDLE"@,
            Stage::Filter => "FILTER"@,
            Stage::Ingest => "INGEST"@,
            Stage::Build => "BUILD"@,
            Stage::Run => "RUN"@,
            Stage::PostRun => "POST-RUN"@,
            Stage::AfterTurn => "AFTER-TURN"@,
        }
    }

    /// The name that a stage is shown by.
    pub fn label(&self) -> (r: &'static str)
        ensures
            r@ == self.label_view(),
    {
        match self {
            Stage::Idle => "IDLE",
            Stage::Filter => "FILTER",
            Stage::Ingest => "INGEST",
            Stage::Build => "BUILD",
            Stage::Run => "RUN",
            Stage::PostRun => "POST-RUN",
            Stage::AfterTurn => "AFTER-TURN",
        }
    }
}

impl StageState {
    /// The name that the state of a stage is shown by.
    pub open spec fn label_view(&self) -> Seq<char> {
        match self {
            StageState::Idle => "idle"@,
            StageState::Running => "running"@,
            StageState::Done => "done"@,
            StageState::Error => "error"@,
        }
    }

    /// The name that the state of a stage is shown by.
    pub fn label(&self) -> (r: &'static str)
        ensures
            r@ == self.label_view(),
    {
        match self {
            StageState::Idle => "idle",
            StageState::Running => "running",
            StageState::Done => "done",
            StageState::Error => "error",
        }
    }
}

/// What the pipeline is doing.
#[derive(Debug, Clone)]
pub struct PipelineStatus {
    pub stage: Stage,
    pub stage_state: StageState,
    pub last_tg_verdict: String,
    pub last_after_turn: String,
}

/// What the pipeline is doing, over sequences.
pub struct StatusView {
    pub stage: Stage,
    pub stage_state: StageState,
    pub last_tg_verdict: Seq<char>,
    pub last_after_turn: Seq<char>,
}

impl View for PipelineStatus {
    type V = StatusView;

    open spec fn view(&self) -> StatusView {
        StatusView {
            stage: self.stage,
            stage_state: self.stage_state,
            last_tg_verdict: self.last_tg_verdict@,
            last_after_turn: self.last_after_turn@,
        }
    }
}

impl Default for PipelineStatus {
    fn default() -> (r: Self)
        ensures
            r@ == (StatusView {
                stage: Stage::Idle,
                stage_state: StageState::Idle,
                last_tg_verdict: "unknown"@,
                last_after_turn: "unknown"@,
            }),
    {
        PipelineStatus {
            stage: Stage::Idle,
            stage_state: StageState::Idle,
            last_tg_verdict: "unknown".to_owned(),
            last_after_turn: "unknown".to_owned(),
        }
    }
}

/// Where a turn comes from.
pub enum SourceType {
    Channel,
    Outbound,
    Scheduler,
}

/// A turn as it comes in.
pub struct TurnContext {
    pub text: String,
    pub channel_id: String,
    pub user_id: String,
    pub source: SourceType,
}

/// Something that a step of a turn does to the world around it.
pub enum Effect {
    /// The pipeline enters a stage.
    Enter(Stage, StageState),
    /// The stage has come this far.
    Reach(StageState),
    /// The filter is done, and let the turn pass with this label.
    Passed(String),
    /// An event is deposited to the tract.
    Event { event_type: String, payload: Json },
    /// What was experienced is deposited to the tract.
    Experience { source: String, content: Vec<u8> },
    /// A wish is posted, without waiting for what comes of it.
    Prefer(Request),
    /// The working memory is to be written to where it is kept.
    Keep(String),
    /// The end of the turn is posted, without waiting for what comes of it.
    Close(Request),
}

/// What an effect is, over sequences.
pub enum EffectView {
    Enter(Stage, StageState),
    Reach(StageState),
    Passed(Seq<char>),
    Event { event_type: Seq<char>, payload: JsonView },
    Experience { source: Seq<char>, content: Seq<u8> },
    Prefer(RequestView),
    Keep(Seq<char>),
    Close(RequestView),
}

impl View for Effect {
    type V = EffectView;

    open spec fn view(&self) -> EffectView {
        match self {
            Effect::Enter(stage, state) => EffectView::Enter(*stage, *state),
            Effect::Reach(state) => EffectView::Reach(*state),
            Effect::Passed(label) => EffectView::Passed(label@),
            Effect::Event { event_type, payload } => EffectView::Event {
                event_type: event_type@,
                payload: payload@,
            },
            Effect::Experience { source, content } => EffectView::Experience {
                source: source@,
                content: content@,
            },
            Effect::Prefer(request) => EffectView::Prefer(request@),
            Effect::Keep(path) => EffectView::Keep(path@),
            Effect::Close(request) => EffectView::Close(request@),
        }
    }
}

/// What a list of effects is, over sequences.
pub open spec fn effects_view(effects: Seq<Effect>) -> Seq<EffectView> {
    Seq::new(effects.len(), |i: int| effects[i]@)
}

/// One more effect is one more view.
pub broadcast proof fn lemma_effects_push(effects: Seq<Effect>, effect: Effect)
    ensures
        #[trigger] effects_view(effects.push(effect)) == effects_view(effects).push(effect@),
{
    assert(effects_view(effects.push(effect)) =~= effects_view(effects).push(effect@));
}

/// What an effect does to the status.
pub open spec fn status_after(status: StatusView, effect: EffectView) -> StatusView {
    match effect {
        EffectView::Enter(stage, stage_state) => StatusView { stage, stage_state, ..status },
        EffectView::Reach(stage_state) => StatusView { stage_state, ..status },
        EffectView::Passed(label) => StatusView {
            stage_state: StageState::Done,
            last_tg_verdict: label,
            ..status
        },
        _ => status,
    }
}

impl PipelineStatus {
    /// Notes what an effect does to the status.
    pub fn note(&mut self, effect: &Effect)
        ensures
            final(self)@ == status_after(old(self)@, effect@),
    {
        match effect {
            Effect::Enter(stage, state) => {
                self.stage = *stage;
                self.stage_state = *state;
            },
            Effect::Reach(state) => {
                self.stage_state = *state;
            },
            Effect::Passed(label) => {
                self.stage_state = StageState::Done;
                self.last_tg_verdict = label.clone();
            },
            _ => {},
        }
    }

    /// Notes what came of posting the end of a turn.
    pub fn note_closed(&mut self, posted: bool)
        ensures
            final(self)@ == (StatusView {
                stage: Stage::Idle,
                stage_state: StageState::Idle,
                last_tg_verdict: old(self)@.last_tg_verdict,
                last_after_turn: if posted {
                    "ok"@
                } else {
                    "failed"@
                },
            }),
    {
        self.last_after_turn = if posted {
            "ok".to_owned()
        } else {
            "failed".to_owned()
        };
        self.stage = Stage::Idle;
        self.stage_state = StageState::Idle;
    }
}

/// A turn that the filter let pass.
pub struct Turn {
    /// What the user says, as the filter let it pass.
    pub clean_text: String,
    pub channel_id: String,
    /// The conversation, with what the user says at its end.
    pub messages: Vec<Json>,
}

/// A turn that the filter let pass, over sequences.
pub struct TurnView {
    pub clean_text: Seq<char>,
    pub channel_id: Seq<char>,
    pub messages: Seq<JsonView>,
}

impl View for Turn {
    type V = TurnView;

    open spec fn view(&self) -> TurnView {
        TurnView {
            clean_text: self.clean_text@,
            channel_id: self.channel_id@,
            messages: items_view(self.messages@),
        }
    }
}

/// What follows the filter.
pub enum Filtered {
    /// The turn is over, and this is the response.
    Blocked(String),
    /// The turn goes on, and the memory service is to be asked.
    Build { turn: Turn, request: Request },
}

/// What follows the filter, over sequences.
pub enum FilteredView {
    Blocked(Seq<char>),
    Build { turn: TurnView, request: RequestView },
}

impl View for Filtered {
    type V = FilteredView;

    open spec fn view(&self) -> FilteredView {
        match self {
            Filtered::Blocked(response) => FilteredView::Blocked(response@),
            Filtered::Build { turn, request } => FilteredView::Build {
                turn: turn@,
                request: request@,
            },
        }
    }
}

/// The label that a turn passes the filter with.
pub open spec fn pass_label(verdict: Seq<char>) -> Seq<char> {
    if verdict == "SUSPICIOUS"@ {
        "tg_suspicious"@
    } else {
        "tg_pass"@
    }
}

/// The payload of an event about the filter's verdict.
pub open spec fn verdict_payload(verdict: Seq<char>, channel_id: Seq<char>) -> JsonView {
    JsonView::Object(
        seq![("channel_id"@, JsonView::Text(channel_id)), ("verdict"@, JsonView::Text(verdict))],
    )
}

/// What is done before the filter is asked.
pub open spec fn opening_effects() -> Seq<EffectView> {
    seq![EffectView::Enter(Stage::Filter, StageState::Running)]
}

/// What is done where the filter holds a turn back.
pub open spec fn blocked_effects(verdict: Seq<char>, channel_id: Seq<char>) -> Seq<EffectView> {
    seq![
        EffectView::Enter(Stage::Idle, StageState::Idle),
        EffectView::Event {
            event_type: "tg_block"@,
            payload: verdict_payload(verdict, channel_id),
        },
    ]
}

/// What is done where the filter lets a turn pass, up to where the memory service is asked: what
/// the user says is deposited before anything is made of it.
pub open spec fn passed_effects(
    scan: ScanResultView,
    channel_id: Seq<char>,
    tid_url: Seq<char>,
) -> Seq<EffectView> {
    let label = pass_label(scan.verdict);
    seq![
        EffectView::Event {
            event_type: label,
            payload: verdict_payload(scan.verdict, channel_id),
        },
        EffectView::Passed(label),
        EffectView::Enter(Stage::Ingest, StageState::Running),
        EffectView::Experience { source: "anima"@, content: encode_utf8(scan.sanitized_text) },
        EffectView::Reach(StageState::Done),
    ] + (if holds_wish(lowered(scan.sanitized_text)) {
        seq![EffectView::Prefer(preference_request(tid_url))]
    } else {
        Seq::empty()
    }) + seq![EffectView::Enter(Stage::Build, StageState::Running)]
}

/// The request that tells of a wish for open models.
pub open spec fn preference_request(tid_url: Seq<char>) -> RequestView {
    RequestView {
        url: tid_url + "/routing/preference"@,
        body: JsonView::Object(
            seq![
                ("duration_turns"@, JsonView::Uint(OSS_PREF_DURATION_TURNS)),
                ("note"@, JsonView::Text("User requested more open-source model usage"@)),
                ("oss_boost"@, JsonView::Float(OSS_PREF_BOOST@)),
            ],
        ),
    }
}

/// What is done between the memory service's reply and the run.
pub open spec fn built_effects() -> Seq<EffectView> {
    seq![
        EffectView::Reach(StageState::Done),
        EffectView::Enter(Stage::Run, StageState::Running),
    ]
}

/// What of a response is recorded: the answer in what the model said, unless there is none.
/// Failures around the model are not recorded.
pub open spec fn recorded_text(response: AgentResponseView) -> Option<Seq<char>> {
    match response {
        AgentResponseView::Content(said) => if answer(said).len() > 0 {
            Some(answer(said))
        } else {
            None
        },
        AgentResponseView::InfraError(_) => None,
    }
}

/// The event that records an exchange.
pub open spec fn exchange_event(
    user: Seq<char>,
    assistant: Seq<char>,
    channel_id: Seq<char>,
) -> EffectView {
    EffectView::Event {
        event_type: "turn_exchange"@,
        payload: JsonView::Object(
            seq![
                ("assistant"@, JsonView::Text(assistant)),
                ("channel_id"@, JsonView::Text(channel_id)),
                ("user"@, JsonView::Text(user)),
            ],
        ),
    }
}

/// What is done to record an exchange.
pub open spec fn recording_effects(
    turn: TurnView,
    response: AgentResponseView,
    path: Option<Seq<char>>,
) -> Seq<EffectView> {
    match recorded_text(response) {
        None => Seq::empty(),
        Some(said) => seq![exchange_event(turn.clean_text, said, turn.channel_id)] + (match path {
            Some(p) => seq![EffectView::Keep(p)],
            None => Seq::empty(),
        }),
    }
}

/// The request that tells the memory service that a turn is over.
pub open spec fn close_request(ng_url: Seq<char>, clean_text: Seq<char>) -> RequestView {
    RequestView {
        url: ng_url + "/afterTurn"@,
        body: JsonView::Object(seq![("lastUserMessage"@, message("user"@, clean_text))]),
    }
}

/// The event that tells that a turn is over.
pub open spec fn complete_event(channel_id: Seq<char>, response: Seq<char>) -> EffectView {
    EffectView::Event {
        event_type: "turn_complete"@,
        payload: JsonView::Object(
            seq![
                ("channel_id"@, JsonView::Text(channel_id)),
                ("response_len"@, JsonView::Uint(encode_utf8(response).len() as u64)),
            ],
        ),
    }
}

/// What is done once the run is over.
pub open spec fn closing_effects(
    turn: TurnView,
    response: AgentResponseView,
    path: Option<Seq<char>>,
    ng_url: Seq<char>,
) -> Seq<EffectView> {
    seq![
        EffectView::Reach(StageState::Done),
        EffectView::Enter(Stage::PostRun, StageState::Running),
    ] + recording_effects(turn, response, path) + seq![
        EffectView::Reach(StageState::Done),
        EffectView::Enter(Stage::AfterTurn, StageState::Running),
        EffectView::Close(close_request(ng_url, turn.clean_text)),
        EffectView::Enter(Stage::Idle, StageState::Idle),
        complete_event(turn.channel_id, response.text()),
    ]
}

/// Takes turns through their stages.
pub struct TurnPipeline {
    pub trollguard: Arc<TrollGuardBridge>,
    pub context_builder: Arc<ContextBuilder>,
    pub tract: Arc<TractWriter>,
    pub agent_runner: Arc<AgentRunner>,
    pub history: ConversationHistory,
    pub ng_url: String,
    pub tid_url: String,
    pub status: PipelineStatus,
    pub pending_notice: Option<String>,
}

impl TurnPipeline {
    /// The working memory is in order.
    pub open spec fn well_formed(&self) -> bool {
        self.history.well_formed()
    }

    /// Everything but the working memory and the notice is as in `other`.
    pub open spec fn same_setup(&self, other: &TurnPipeline) -> bool {
        &&& self.trollguard == other.trollguard
        &&& self.context_builder == other.context_builder
        &&& self.tract == other.tract
        &&& self.agent_runner == other.agent_runner
        &&& self.ng_url == other.ng_url
        &&& self.tid_url == other.tid_url
        &&& self.status == other.status
    }

    /// What follows the filter's reply on a turn.
    pub open spec fn filtered(&self, ctx: TurnContext, reply: ScanReplyView) -> FilteredView {
        let scan = scanned(ctx.text@, reply);
        if !scan.is_clean {
            FilteredView::Blocked("[TrollGuard blocked: "@ + scan.verdict + "]"@)
        } else {
            let messages = self.history.messages().push(message("user"@, scan.sanitized_text));
            FilteredView::Build {
                turn: TurnView {
                    clean_text: scan.sanitized_text,
                    channel_id: ctx.channel_id@,
                    messages,
                },
                request: assemble_request(self.context_builder.ng_url@, messages),
            }
        }
    }

    /// What is done about the filter's reply on a turn.
    pub open spec fn filter_effects(&self, ctx: TurnContext, reply: ScanReplyView) -> Seq<
        EffectView,
    > {
        let scan = scanned(ctx.text@, reply);
        if !scan.is_clean {
            blocked_effects(scan.verdict, ctx.channel_id@)
        } else {
            passed_effects(scan, ctx.channel_id@, self.tid_url@)
        }
    }

    /// A pipeline. `history_path` is where the working memory is kept over a restart, and `found`
    /// what was found there.
    pub fn new(
        trollguard: Arc<TrollGuardBridge>,
        context_builder: Arc<ContextBuilder>,
        tract: Arc<TractWriter>,
        agent_runner: Arc<AgentRunner>,
        ng_url: String,
        tid_url: String,
        history_path: Option<String>,
        found: Option<&[u8]>,
    ) -> (r: Self)
        ensures
            r.well_formed(),
            r.trollguard == trollguard,
            r.context_builder == context_builder,
            r.tract == tract,
            r.agent_runner == agent_runner,
            r.ng_url == ng_url,
            r.tid_url == tid_url,
            r.history.capacity() == HISTORY_CAPACITY == 40,
            match history_path {
                Some(p) => {
                    &&& r.history.path() == Some(p@)
                    &&& r.history.messages() == taken_up(opt_bytes(found), HISTORY_CAPACITY as nat)
                },
                None => r.history.path() is None && r.history.messages() == Seq::<
                    JsonView,
                >::empty(),
            },
            r.status@ == (StatusView {
                stage: Stage::Idle,
                stage_state: StageState::Idle,
                last_tg_verdict: "unknown"@,
                last_after_turn: "unknown"@,
            }),
            r.pending_notice is None,
    {
        let history = match history_path {
            Some(p) => ConversationHistory::with_persistence(HISTORY_CAPACITY, p, found),
            None => ConversationHistory::new(HISTORY_CAPACITY),
        };
        TurnPipeline {
            trollguard,
            context_builder,
            tract,
            agent_runner,
            history,
            ng_url,
            tid_url,
            status: PipelineStatus::default(),
            pending_notice: None,
        }
    }

    /// The working memory, oldest message first.
    pub fn history_snapshot(&self) -> (r: Vec<Json>)
        ensures
            items_view(r@) == self.history.messages(),
    {
        self.history.snapshot()
    }

    /// The bytes of the working memory to keep over a restart.
    pub fn history_bytes(&self) -> (r: Option<Vec<u8>>)
        requires
            self.well_formed(),
        ensures
            self.history.path() is None ==> r is None,
            r matches Some(bytes) ==> saved_as(self.history.messages(), bytes@),
    {
        self.history.save()
    }

    /// The place of the notice that waits for the next response.
    pub fn pending_notice_handle(&mut self) -> (r: &mut Option<String>)
        ensures
            *r == old(self).pending_notice,
            *final(self) == (TurnPipeline { pending_notice: *final(r), ..*old(self) }),
    {
        &mut self.pending_notice
    }

    /// Takes the notice that waits for the next response, so that it is delivered once. Where none
    /// waits, one may have been left in a file below the home directory.
    pub fn take_pending_notice(&mut self, home: Option<&str>) -> (r: Notice)
        ensures
            *final(self) == (TurnPipeline { pending_notice: None, ..*old(self) }),
            r@ == notice_taken(opt_text(old(self).pending_notice), opt_str(home)),
    {
        match self.pending_notice.take() {
            Some(n) => Notice::Pending(n),
            None => match home {
                Some(h) => Notice::File(
                    concat(h, "/.et_modules/shared_learning/credit_notice.json"),
                ),
                None => Notice::Absent,
            },
        }
    }

    /// Takes the notice that waits onto the response to a turn, which is then the answer. Where none
    /// waits, one may have been left in a file below the home directory, which is to be looked at.
    pub fn surface(&mut self, response: &str, home: Option<&str>) -> (r: Surfaced)
        ensures
            *final(self) == (TurnPipeline { pending_notice: None, ..*old(self) }),
            r@ == surfaced(opt_text(old(self).pending_notice), opt_str(home), response@),
    {
        match self.take_pending_notice(home) {
            Notice::Pending(n) => Surfaced::Answer(with_notice(Some(n.as_str()), response)),
            Notice::File(path) => Surfaced::Look { path, response: response.to_owned() },
            Notice::Absent => Surfaced::Answer(response.to_owned()),
        }
    }

    /// Begins a turn: the filter is to be asked.
    pub fn run(&self, ctx: &TurnContext) -> (r: (Vec<Effect>, TextRequest))
        ensures
            effects_view(r.0@) == opening_effects(),
            r.1@ == scan_request_of(self.trollguard.base_url@, ctx.text@, "anima"@),
    {
        let effects = vec![Effect::Enter(Stage::Filter, StageState::Running)];
        assert(effects_view(effects@) =~= opening_effects());
        (effects, self.trollguard.scan_request(ctx.text.as_str(), "anima"))
    }

    /// Takes the filter's reply.
    pub fn on_scan(&self, ctx: &TurnContext, reply: &ScanReply) -> (r: (Vec<Effect>, Filtered))
        ensures
            effects_view(r.0@) == self.filter_effects(*ctx, reply@),
            r.1@ == self.filtered(*ctx, reply@),
    {
        let scan = self.trollguard.scan(ctx.text.as_str(), reply);
        let payload = object2(
            "channel_id",
            text(ctx.channel_id.as_str()),
            "verdict",
            text(scan.verdict.as_str()),
        );
        if !scan.is_clean {
            let effects = vec![
                Effect::Enter(Stage::Idle, StageState::Idle),
                Effect::Event { event_type: "tg_block".to_owned(), payload },
            ];
            assert(effects_view(effects@) =~= blocked_effects(scan.verdict@, ctx.channel_id@));
            let mut response = "[TrollGuard blocked: ".to_owned();
            response.append(scan.verdict.as_str());
            response.append("]");
            return (effects, Filtered::Blocked(response));
        }
        let clean_text = scan.sanitized_text;
        let label = if same(scan.verdict.as_str(), "SUSPICIOUS") {
            "tg_suspicious"
        } else {
            "tg_pass"
        };
        let mut effects = vec![
            Effect::Event { event_type: label.to_owned(), payload },
            Effect::Passed(label.to_owned()),
            Effect::Enter(Stage::Ingest, StageState::Running),
            Effect::Experience {
                source: "anima".to_owned(),
                content: slice_to_vec(clean_text.as_str().as_bytes()),
            },
            Effect::Reach(StageState::Done),
        ];
        if detect_routing_preference(clean_text.as_str()) {
            effects.push(Effect::Prefer(self.preference()));
        }
        effects.push(Effect::Enter(Stage::Build, StageState::Running));
        assert(effects_view(effects@) =~= passed_effects(
            scan@,
            ctx.channel_id@,
            self.tid_url@,
        ));
        let messages = self.history.snapshot_with(clean_text.as_str());
        let request = self.context_builder.request(&messages);
        let turn = Turn { clean_text, channel_id: ctx.channel_id.clone(), messages };
        (effects, Filtered::Build { turn, request })
    }

    /// The request that tells of a wish for open models.
    fn preference(&self) -> (r: Request)
        ensures
            r@ == preference_request(self.tid_url@),
    {
        Request {
            url: concat(self.tid_url.as_str(), "/routing/preference"),
            body: object3(
                "duration_turns",
                Json::Uint(OSS_PREF_DURATION_TURNS),
                "note",
                text("User requested more open-source model usage"),
                "oss_boost",
                Json::Float(OSS_PREF_BOOST.to_owned()),
            ),
        }
    }

    /// Takes the memory service's reply, and starts the agent's run.
    pub fn on_assembled(&self, turn: &Turn, reply: &Reply) -> (r: (
        Vec<Effect>,
        AgentRun,
        RunAction,
    ))
        ensures
            effects_view(r.0@) == built_effects(),
            ({
                let told = assembled(turn@.messages, reply@);
                (r.1@, r.2@) == self.agent_runner.advance(
                    self.agent_runner.started(told.messages, told.system_prompt),
                )
            }),
    {
        let told = self.context_builder.build(&turn.messages, reply);
        let effects = vec![
            Effect::Reach(StageState::Done),
            Effect::Enter(Stage::Run, StageState::Running),
        ];
        assert(effects_view(effects@) =~= built_effects());
        let (run, action) = self.agent_runner.run(
            AgentRunSpec { messages: told.messages, system_prompt: told.system_prompt },
        );
        (effects, run, action)
    }

    /// Takes what the run gave, records the exchange, and ends the turn with the response.
    pub fn on_response(&mut self, turn: &Turn, response: AgentResponse) -> (r: (
        Vec<Effect>,
        String,
    ))
        requires
            old(self).well_formed(),
        ensures
            final(self).well_formed(),
            final(self).same_setup(old(self)),
            final(self).pending_notice == old(self).pending_notice,
            final(self).history.capacity() == old(self).history.capacity(),
            final(self).history.path() == old(self).history.path(),
            final(self).history.messages() == (match recorded_text(response@) {
                Some(said) => newest(
                    old(self).history.messages() + exchange(turn@.clean_text, said),
                    old(self).history.capacity(),
                ),
                None => old(self).history.messages(),
            }),
            effects_view(r.0@) == closing_effects(
                turn@,
                response@,
                old(self).history.path(),
                old(self).ng_url@,
            ),
            r.1@ == response@.text(),
    {
        broadcast use lemma_effects_push;

        let ghost path = self.history.path();
        let ghost given = response@;
        let mut effects = vec![
            Effect::Reach(StageState::Done),
            Effect::Enter(Stage::PostRun, StageState::Running),
        ];
        if let AgentResponse::Content(said) = &response {
            let said = strip_reasoning(said.as_str());
            if !is_blank(said.as_str()) {
                effects.push(
                    Effect::Event {
                        event_type: "turn_exchange".to_owned(),
                        payload: object3(
                            "assistant",
                            text(said.as_str()),
                            "channel_id",
                            text(turn.channel_id.as_str()),
                            "user",
                            text(turn.clean_text.as_str()),
                        ),
                    },
                );
                self.history.push_turn(turn.clean_text.as_str(), said.as_str());
                if let Some(p) = self.history.kept_at() {
                    effects.push(Effect::Keep(p));
                }
            }
        }
        let ghost start = effects_view(effects@);
        assert(start =~= seq![
            EffectView::Reach(StageState::Done),
            EffectView::Enter(Stage::PostRun, StageState::Running),
        ] + recording_effects(turn@, given, path));
        let response = response.into_text();
        effects.push(Effect::Reach(StageState::Done));
        effects.push(Effect::Enter(Stage::AfterTurn, StageState::Running));
        effects.push(
            Effect::Close(
                Request {
                    url: concat(self.ng_url.as_str(), "/afterTurn"),
                    body: object1(
                        "lastUserMessage",
                        message_json("user", turn.clean_text.as_str()),
                    ),
                },
            ),
        );
        effects.push(Effect::Enter(Stage::Idle, StageState::Idle));
        effects.push(
            Effect::Event {
                event_type: "turn_complete".to_owned(),
                payload: object2(
                    "channel_id",
                    text(turn.channel_id.as_str()),
                    "response_len",
                    Json::Uint(response.as_str().as_bytes().len() as u64),
                ),
            },
        );
        assert(effects_view(effects@) =~= start + seq![
            EffectView::Reach(StageState::Done),
            EffectView::Enter(Stage::AfterTurn, StageState::Running),
            EffectView::Close(close_request(self.ng_url@, turn@.clean_text)),
            EffectView::Enter(Stage::Idle, StageState::Idle),
            complete_event(turn@.channel_id, response@),
        ]);
        (effects, response)
    }
}

/// The status after `effects`, in their order.
pub open spec fn status_after_all(status: StatusView, effects: Seq<EffectView>) -> StatusView
    decreases effects.len(),
{
    if effects.len() == 0 {
        status
    } else {
        status_after(status_after_all(status, effects.drop_last()), effects.last())
    }
}

/// All that is done in a turn that the filter lets pass, in order.
pub open spec fn whole_turn(
    pipeline: TurnPipeline,
    ctx: TurnContext,
    reply: ScanReplyView,
    response: AgentResponseView,
) -> Seq<EffectView> {
    opening_effects() + pipeline.filter_effects(ctx, reply) + built_effects() + closing_effects(
        pipeline.filtered(ctx, reply)->turn,
        response,
        pipeline.history.path(),
        pipeline.ng_url@,
    )
}

/// The last stage that is entered decides the stage that the pipeline is in.
proof fn lemma_status_after_enter(
    status: StatusView,
    before: Seq<EffectView>,
    stage: Stage,
    state: StageState,
    event: EffectView,
)
    requires
        event is Event,
    ensures
        ({
            let end = status_after_all(
                status,
                before + seq![EffectView::Enter(stage, state), event],
            );
            end.stage == stage && end.stage_state == state
        }),
{
    let all = before + seq![EffectView::Enter(stage, state), event];
    assert(all.drop_last() =~= before.push(EffectView::Enter(stage, state)));
    assert(all.drop_last().drop_last() =~= before);
    reveal_with_fuel(status_after_all, 3);
}

/// Every turn leaves the pipeline idle, whether the filter held it back or not.
pub proof fn law_turn_ends_idle(
    pipeline: TurnPipeline,
    ctx: TurnContext,
    reply: ScanReplyView,
    response: AgentResponseView,
    status: StatusView,
)
    ensures
        ({
            let end = if pipeline.filtered(ctx, reply) is Blocked {
                status_after_all(status, opening_effects() + pipeline.filter_effects(ctx, reply))
            } else {
                status_after_all(status, whole_turn(pipeline, ctx, reply, response))
            };
            end.stage == Stage::Idle && end.stage_state == StageState::Idle
        }),
{
    if pipeline.filtered(ctx, reply) is Blocked {
        let scan = scanned(ctx.text@, reply);
        let effects = opening_effects() + pipeline.filter_effects(ctx, reply);
        lemma_status_after_enter(
            status,
            opening_effects(),
            Stage::Idle,
            StageState::Idle,
            blocked_effects(scan.verdict, ctx.channel_id@)[1],
        );
        assert(effects =~= opening_effects() + seq![
            EffectView::Enter(Stage::Idle, StageState::Idle),
            blocked_effects(scan.verdict, ctx.channel_id@)[1],
        ]);
    } else {
        let turn = pipeline.filtered(ctx, reply)->turn;
        let all = whole_turn(pipeline, ctx, reply, response);
        let before = all.take(all.len() - 2);
        let last = complete_event(turn.channel_id, response.text());
        lemma_status_after_enter(status, before, Stage::Idle, StageState::Idle, last);
        assert(all =~= before + seq![EffectView::Enter(Stage::Idle, StageState::Idle), last]);
    }
}

/// A turn that the filter holds back goes no further: what the user said reaches neither the tract
/// nor the model, and the response tells the verdict.
pub proof fn law_blocked_turn_goes_no_further(
    pipeline: TurnPipeline,
    ctx: TurnContext,
    reply: ScanReplyView,
)
    requires
        !scanned(ctx.text@, reply).is_clean,
    ensures
        pipeline.filtered(ctx, reply) == FilteredView::Blocked(
            "[TrollGuard blocked: "@ + scanned(ctx.text@, reply).verdict + "]"@,
        ),
        forall|i: int|
            0 <= i < pipeline.filter_effects(ctx, reply).len() ==> {
                let effect = #[trigger] pipeline.filter_effects(ctx, reply)[i];
                !(effect is Experience) && !(effect is Prefer) && !(effect is Keep) && !(
                effect is Close) && (effect matches EffectView::Event { event_type, .. }
                    ==> event_type == "tg_block"@)
            },
{
}

/// What the user says is deposited before the pipeline enters the stage that makes something of it.
pub proof fn law_ingest_before_build(
    pipeline: TurnPipeline,
    ctx: TurnContext,
    reply: ScanReplyView,
)
    requires
        scanned(ctx.text@, reply).is_clean,
    ensures
        ({
            let effects = pipeline.filter_effects(ctx, reply);
            &&& effects[3] == (EffectView::Experience {
                source: "anima"@,
                content: encode_utf8(scanned(ctx.text@, reply).sanitized_text),
            })
            &&& effects.last() == EffectView::Enter(Stage::Build, StageState::Running)
            &&& forall|i: int|
                0 <= i < effects.len() - 1 ==> (#[trigger] effects[i]) != EffectView::Enter(
                    Stage::Build,
                    StageState::Running,
                )
        }),
{
}

/// A suspicious turn passes, and the tract is told apart that it was suspicious.
pub proof fn law_suspicion_is_told(pipeline: TurnPipeline, ctx: TurnContext, reply: ScanReplyView)
    requires
        scanned(ctx.text@, reply).is_clean,
    ensures
        pipeline.filter_effects(ctx, reply)[0] matches EffectView::Event { event_type, .. } && (
        event_type == "tg_suspicious"@ <==> scanned(ctx.text@, reply).verdict == "SUSPICIOUS"@),
{
    reveal_strlit("tg_suspicious");
    reveal_strlit("tg_pass");
    assert("tg_suspicious"@.len() != "tg_pass"@.len());
}

/// Neither a failure around the model nor an empty answer is recorded: the recording does nothing.
pub proof fn law_failures_are_not_recorded(
    turn: TurnView,
    response: AgentResponseView,
    path: Option<Seq<char>>,
)
    ensures
        response is InfraError ==> recorded_text(response) is None,
        response.text().len() == 0 ==> recorded_text(response) is None,
        recorded_text(response) is None ==> recording_effects(turn, response, path) == Seq::<
            EffectView,
        >::empty(),
{
    if response.text().len() == 0 {
        let said = response.text();
        lemma_last_index_of(said, close_tag());
        reveal_strlit("</think>");
        let (a, b) = lemma_trimmed(said);
    }
}

/// What is recorded of a response is the answer alone: not empty, without white space around it,
/// and with nothing of a scratchpad in it.
pub proof fn law_scratchpad_is_not_recorded(response: AgentResponseView)
    requires
        recorded_text(response) is Some,
    ensures
        ({
            let said = recorded_text(response)->0;
            &&& said.len() > 0
            &&& said == answer(response.text())
            &&& !occurs_in(said, "</think>"@)
            &&& trimmed(said) == said
        }),
{
    law_answer_has_no_close_tag(response.text());
    law_answer_is_trimmed(response.text());
}

/// A working memory that is not kept over a restart is never written.
pub proof fn law_memory_without_path_is_not_written(
    turn: TurnView,
    response: AgentResponseView,
    ng_url: Seq<char>,
)
    ensures
        forall|i: int|
            0 <= i < closing_effects(turn, response, None, ng_url).len() ==> !(
            #[trigger] closing_effects(turn, response, None, ng_url)[i] is Keep),
{
}

/// What goes on of a turn that an answer of the filter lets pass is the sanitized text of that answer:
/// it is the last message, said by the user, behind the history as it is, both in the turn and in the
/// request to the memory service.
pub proof fn law_sanitized_text_goes_on(
    pipeline: TurnPipeline,
    ctx: TurnContext,
    verdict: Seq<char>,
    sanitized_text: Seq<char>,
)
    requires
        verdict == "SAFE"@ || verdict == "SUSPICIOUS"@,
    ensures
        ({
            let reply = ScanReplyView::Answer { verdict, sanitized_text };
            let filtered = pipeline.filtered(ctx, reply);
            let turn = filtered->turn;
            let request = filtered->request;
            &&& filtered is Build
            &&& turn.clean_text == sanitized_text
            &&& turn.channel_id == ctx.channel_id@
            &&& turn.messages.len() == pipeline.history.messages().len() + 1
            &&& turn.messages.drop_last() == pipeline.history.messages()
            &&& turn.messages.last().at("role"@) == JsonView::Text("user"@)
            &&& turn.messages.last().at("content"@) == JsonView::Text(sanitized_text)
            &&& request.url == pipeline.context_builder.ng_url@ + "/assemble"@
            &&& request.body.at("messages"@) == JsonView::Array(turn.messages)
        }),
{
    let reply = ScanReplyView::Answer { verdict, sanitized_text };
    lemma_clean_text_goes_on(pipeline, ctx, reply);
}

/// Without an answer of the filter the text as it came in goes on in its place.
pub proof fn law_unscanned_text_goes_on(
    pipeline: TurnPipeline,
    ctx: TurnContext,
    reply: ScanReplyView,
)
    requires
        reply is Unreachable || reply is Unreadable,
    ensures
        ({
            let filtered = pipeline.filtered(ctx, reply);
            let turn = filtered->turn;
            &&& filtered is Build
            &&& turn.clean_text == ctx.text@
            &&& turn.messages.drop_last() == pipeline.history.messages()
            &&& turn.messages.last().at("role"@) == JsonView::Text("user"@)
            &&& turn.messages.last().at("content"@) == JsonView::Text(ctx.text@)
            &&& filtered->request.body.at("messages"@) == JsonView::Array(turn.messages)
        }),
{
    lemma_clean_text_goes_on(pipeline, ctx, reply);
}

/// The clean text is the last message of the turn and of the request.
proof fn lemma_clean_text_goes_on(pipeline: TurnPipeline, ctx: TurnContext, reply: ScanReplyView)
    requires
        scanned(ctx.text@, reply).is_clean,
    ensures
        ({
            let clean = scanned(ctx.text@, reply).sanitized_text;
            let filtered = pipeline.filtered(ctx, reply);
            let turn = filtered->turn;
            &&& turn.messages.drop_last() == pipeline.history.messages()
            &&& turn.messages.last().at("role"@) == JsonView::Text("user"@)
            &&& turn.messages.last().at("content"@) == JsonView::Text(clean)
            &&& filtered->request.url == pipeline.context_builder.ng_url@ + "/assemble"@
            &&& filtered->request.body.at("messages"@) == JsonView::Array(turn.messages)
        }),
{
    let clean = scanned(ctx.text@, reply).sanitized_text;
    let turn = pipeline.filtered(ctx, reply)->turn;
    law_message_tells_who_says_what("user"@, clean);
    law_all_messages_are_put_before_the_service(
        pipeline.context_builder.ng_url@,
        turn.messages,
    );
    assert(turn.messages.drop_last() =~= pipeline.history.messages());
}

/// What follows an answer of the filter depends on the answer, the channel and the history alone: two
/// turns on one channel that are answered alike go on alike, whatever their texts were.
pub proof fn law_text_as_it_came_does_not_count(
    pipeline: TurnPipeline,
    one: TurnContext,
    other: TurnContext,
    reply: ScanReplyView,
)
    requires
        reply is Answer,
        one.channel_id@ == other.channel_id@,
    ensures
        pipeline.filtered(one, reply) == pipeline.filtered(other, reply),
        pipeline.filter_effects(one, reply) == pipeline.filter_effects(other, reply),
{
    law_answer_alone_counts(one.text@, other.text@, reply);
}

/// A turn with any other verdict is held back; the response names the verdict, and the tract is told
/// the verdict and the channel.
pub proof fn law_other_verdicts_hold_back(
    pipeline: TurnPipeline,
    ctx: TurnContext,
    verdict: Seq<char>,
    sanitized_text: Seq<char>,
)
    requires
        verdict != "SAFE"@,
        verdict != "SUSPICIOUS"@,
    ensures
        ({
            let reply = ScanReplyView::Answer { verdict, sanitized_text };
            let effects = pipeline.filter_effects(ctx, reply);
            &&& pipeline.filtered(ctx, reply) == FilteredView::Blocked(
                "[TrollGuard blocked: "@ + verdict + "]"@,
            )
            &&& effects.len() == 2
            &&& effects[0] == EffectView::Enter(Stage::Idle, StageState::Idle)
            &&& effects[1] is Event
            &&& effects[1]->event_type == "tg_block"@
            &&& effects[1]->payload.at("verdict"@) == JsonView::Text(verdict)
            &&& effects[1]->payload.at("channel_id"@) == JsonView::Text(ctx.channel_id@)
        }),
{
    lemma_verdict_payload(verdict, ctx.channel_id@);
}

/// The payload of an event about a verdict tells the verdict and the channel.
proof fn lemma_verdict_payload(verdict: Seq<char>, channel_id: Seq<char>)
    ensures
        verdict_payload(verdict, channel_id).at("verdict"@) == JsonView::Text(verdict),
        verdict_payload(verdict, channel_id).at("channel_id"@) == JsonView::Text(channel_id),
{
    reveal_with_fuel(lookup, 3);
    reveal_strlit("verdict");
    reveal_strlit("channel_id");
    assert("verdict"@.len() != "channel_id"@.len());
}

/// What is done about a turn that passes: the tract is told the verdict, the label is noted, the text
/// that passed is deposited, whole and once, a wish for open models is posted where that text tells
/// of one and nowhere else, and then the next stage begins. Where the filter gave no answer the text
/// as it came in passes, and the verdict says why.
pub proof fn law_passed_turn_is_deposited(
    pipeline: TurnPipeline,
    ctx: TurnContext,
    reply: ScanReplyView,
    verdict: Seq<char>,
    passed: Seq<char>,
)
    requires
        match reply {
            ScanReplyView::Answer { verdict: given, sanitized_text } => (given == "SAFE"@ || given
                == "SUSPICIOUS"@) && verdict == given && passed == sanitized_text,
            ScanReplyView::Unreachable => verdict == "TG_UNAVAILABLE"@ && passed == ctx.text@,
            ScanReplyView::Unreadable => verdict == "TG_PARSE_ERROR"@ && passed == ctx.text@,
        },
    ensures
        ({
            let effects = pipeline.filter_effects(ctx, reply);
            let label = if verdict == "SUSPICIOUS"@ {
                "tg_suspicious"@
            } else {
                "tg_pass"@
            };
            let wished = exists|i: int|
                0 <= i < wishes().len() && occurs_in(lowered(passed), #[trigger] wishes()[i]);
            &&& effects.len() == (if wished {
                7int
            } else {
                6int
            })
            &&& effects[0] is Event
            &&& effects[0]->event_type == label
            &&& effects[0]->payload.at("verdict"@) == JsonView::Text(verdict)
            &&& effects[0]->payload.at("channel_id"@) == JsonView::Text(ctx.channel_id@)
            &&& effects[1] == EffectView::Passed(label)
            &&& effects[2] == EffectView::Enter(Stage::Ingest, StageState::Running)
            &&& effects[3] == (EffectView::Experience {
                source: "anima"@,
                content: encode_utf8(passed),
            })
            &&& effects[4] == EffectView::Reach(StageState::Done)
            &&& wished ==> effects[5] is Prefer && effects[5]->Prefer_0.url == pipeline.tid_url@
                + "/routing/preference"@
            &&& effects.last() == EffectView::Enter(Stage::Build, StageState::Running)
        }),
{
    lemma_verdict_payload(verdict, ctx.channel_id@);
}

/// A wish for open models is posted with its weight, for twenty turns, and with the reason.
pub proof fn law_wish_is_posted(tid_url: Seq<char>)
    ensures
        preference_request(tid_url).url == tid_url + "/routing/preference"@,
        preference_request(tid_url).body.at("oss_boost"@) == JsonView::Float("0.12"@),
        preference_request(tid_url).body.at("duration_turns"@) == JsonView::Uint(20),
        preference_request(tid_url).body.at("note"@) == JsonView::Text(
            "User requested more open-source model usage"@,
        ),
{
    reveal_with_fuel(lookup, 4);
    reveal_strlit("oss_boost");
    reveal_strlit("duration_turns");
    reveal_strlit("note");
    assert("oss_boost"@.len() == 9 && "duration_turns"@.len() == 14 && "note"@.len() == 4);
}

/// A text tells of a wish for open models wherever in it one of the phrases stands.
pub proof fn law_wishes_are_heard(before: Seq<char>, after: Seq<char>, i: int)
    requires
        0 <= i < wishes().len(),
    ensures
        holds_wish(before + wishes()[i] + after),
{
    let s = before + wishes()[i] + after;
    let at = before.len() as int;
    assert(s.subrange(at, at + wishes()[i].len()) =~= wishes()[i]);
    assert(occurs_at(s, wishes()[i], at));
}

/// These phrases, and no others, tell of a wish for open models.
pub proof fn law_no_other_words_are_a_wish(lower: Seq<char>)
    ensures
        holds_wish(lower) <==> {
            ||| occurs_in(lower, "more open source"@)
            ||| occurs_in(lower, "more open-source"@)
            ||| occurs_in(lower, "more opensource"@)
            ||| occurs_in(lower, "use open source"@)
            ||| occurs_in(lower, "use open-source"@)
            ||| occurs_in(lower, "prefer open source"@)
            ||| occurs_in(lower, "prefer open-source"@)
            ||| occurs_in(lower, "open source model"@)
            ||| occurs_in(lower, "open-source model"@)
            ||| occurs_in(lower, "more oss"@)
            ||| occurs_in(lower, "use oss"@)
            ||| occurs_in(lower, "prefer oss"@)
            ||| occurs_in(lower, "open weights"@)
            ||| occurs_in(lower, "open-weights"@)
            ||| occurs_in(lower, "open weight model"@)
            ||| occurs_in(lower, "open-weight model"@)
            ||| occurs_in(lower, "try open source"@)
            ||| occurs_in(lower, "switch to open source"@)
            ||| occurs_in(lower, "more free model"@)
            ||| occurs_in(lower, "more open model"@)
        },
{
    let w = wishes();
    assert(w[0] == "more open source"@);
    assert(w[1] == "more open-source"@);
    assert(w[2] == "more opensource"@);
    assert(w[3] == "use open source"@);
    assert(w[4] == "use open-source"@);
    assert(w[5] == "prefer open source"@);
    assert(w[6] == "prefer open-source"@);
    assert(w[7] == "open source model"@);
    assert(w[8] == "open-source model"@);
    assert(w[9] == "more oss"@);
    assert(w[10] == "use oss"@);
    assert(w[11] == "prefer oss"@);
    assert(w[12] == "open weights"@);
    assert(w[13] == "open-weights"@);
    assert(w[14] == "open weight model"@);
    assert(w[15] == "open-weight model"@);
    assert(w[16] == "try open source"@);
    assert(w[17] == "switch to open source"@);
    assert(w[18] == "more free model"@);
    assert(w[19] == "more open model"@);
    if holds_wish(lower) {
        let i = choose|i: int| 0 <= i < wishes().len() && occurs_in(lower, #[trigger] wishes()[i]);
        assert(occurs_in(lower, w[i]));
        assert(0 <= i < 20);
    } else {
        assert(forall|i: int| 0 <= i < 20 ==> !occurs_in(lower, #[trigger] w[i]));
    }
}

/// The model is first asked with what the memory service put together: its messages, behind its
/// addition as the system prompt; or with the messages of the turn and nothing else, where the
/// service was of no use.
pub proof fn law_model_is_told_what_was_assembled(
    runner: AgentRunner,
    turn: TurnView,
    reply: ReplyView,
    answer: JsonView,
    prompt: Seq<char>,
    given: Seq<JsonView>,
)
    requires
        runner.max_iter > 0,
    ensures
        ({
            let told = assembled(turn.messages, reply);
            let action = runner.advance(
                runner.started(told.messages, told.system_prompt),
            ).1;
            let asked = action->Ask_0.body.at("messages"@)->Array_0;
            let good = (reply matches ReplyView::Answered { success: true, .. }) && reply.json()
                == Some(answer);
            &&& action is Ask
            &&& !good && reply.json() != Some(answer) && (reply is Failed || reply.json() is None)
                ==> asked == turn.messages
            &&& good && answer.at("systemPromptAddition"@) == JsonView::Text(prompt) && prompt.len()
                > 0 && answer.at("messages"@) == JsonView::Array(given) && given.len() > 0
                ==> asked.len() == given.len() + 1 && asked.drop_first() == given && asked[0].at(
                "role"@,
            ) == JsonView::Text("system"@) && asked[0].at("content"@) == JsonView::Text(prompt)
            &&& good && !(answer.at("systemPromptAddition"@) is Text) && !(answer.at("messages"@)
                is Array) ==> asked == turn.messages
        }),
{
    let told = assembled(turn.messages, reply);
    law_first_request_carries_the_conversation(
        runner,
        told.messages,
        told.system_prompt,
    );
    law_the_service_decides_what_is_told(turn.messages, reply, answer, prompt, given);
    let action = runner.advance(
        runner.started(told.messages, told.system_prompt),
    ).1;
    let asked = action->Ask_0.body.at("messages"@)->Array_0;
    if told.system_prompt.len() > 0 {
        assert(asked.drop_first() =~= asked.subrange(
            asked.len() - told.messages.len(),
            asked.len() as int,
        ));
    }
}

/// What is recorded of a response: behind the last end of a scratchpad, or all of it where there is
/// none, without the white space around it; unless nothing is left.
pub proof fn law_answer_is_recorded(scratch: Seq<char>, said: Seq<char>)
    requires
        !occurs_in(said, "</think>"@),
    ensures
        recorded_text(AgentResponseView::Content(said)) == (if trimmed(said).len() > 0 {
            Some(trimmed(said))
        } else {
            None
        }),
        recorded_text(AgentResponseView::Content(scratch + "</think>"@ + said)) == (if trimmed(
            said,
        ).len() > 0 {
            Some(trimmed(said))
        } else {
            None
        }),
{
    law_answer_stands_behind_the_scratchpad(scratch, said);
}

/// What is done once the run is over: where something was said that can be recorded, the exchange is
/// deposited, with what the user said, what was answered and the channel, and the working memory is
/// written where it is kept; in any case the memory service is told what the user said, and the tract
/// that the turn is over.
pub proof fn law_turn_is_closed(
    turn: TurnView,
    response: AgentResponseView,
    path: Option<Seq<char>>,
    ng_url: Seq<char>,
)
    ensures
        ({
            let effects = closing_effects(turn, response, path, ng_url);
            let n = effects.len() as int;
            let recorded = recorded_text(response);
            &&& effects[0] == EffectView::Reach(StageState::Done)
            &&& effects[1] == EffectView::Enter(Stage::PostRun, StageState::Running)
            &&& n == 7 + (if recorded is Some {
                1int
            } else {
                0int
            }) + (if recorded is Some && path is Some {
                1int
            } else {
                0int
            })
            &&& recorded matches Some(said) ==> {
                &&& effects[2] is Event
                &&& effects[2]->event_type == "turn_exchange"@
                &&& effects[2]->payload.at("user"@) == JsonView::Text(turn.clean_text)
                &&& effects[2]->payload.at("assistant"@) == JsonView::Text(said)
                &&& effects[2]->payload.at("channel_id"@) == JsonView::Text(turn.channel_id)
                &&& path matches Some(p) ==> effects[3] == EffectView::Keep(p)
            }
            &&& effects[n - 5] == EffectView::Reach(StageState::Done)
            &&& effects[n - 4] == EffectView::Enter(Stage::AfterTurn, StageState::Running)
            &&& effects[n - 3] is Close
            &&& effects[n - 3]->Close_0.url == ng_url + "/afterTurn"@
            &&& effects[n - 3]->Close_0.body.at("lastUserMessage"@).at("role"@) == JsonView::Text(
                "user"@,
            )
            &&& effects[n - 3]->Close_0.body.at("lastUserMessage"@).at("content"@)
                == JsonView::Text(turn.clean_text)
            &&& effects[n - 2] == EffectView::Enter(Stage::Idle, StageState::Idle)
            &&& effects[n - 1] is Event
            &&& effects[n - 1]->event_type == "turn_complete"@
            &&& effects[n - 1]->payload.at("channel_id"@) == JsonView::Text(turn.channel_id)
            &&& effects[n - 1]->payload.at("response_len"@) == JsonView::Uint(
                encode_utf8(response.text()).len() as u64,
            )
        }),
{
    law_message_tells_who_says_what("user"@, turn.clean_text);
    reveal_with_fuel(lookup, 4);
    reveal_strlit("user");
    reveal_strlit("assistant");
    reveal_strlit("channel_id");
    reveal_strlit("response_len");
    assert("user"@.len() == 4 && "assistant"@.len() == 9 && "channel_id"@.len() == 10
        && "response_len"@.len() == 12);
}

/// The status shows the stage that was entered last and how far it has come, and the label that the
/// last turn passed the filter with; depositing and posting do not change it.
pub proof fn law_status_follows_the_turn(
    status: StatusView,
    stage: Stage,
    state: StageState,
    label: Seq<char>,
    effect: EffectView,
)
    ensures
        status_after(status, EffectView::Enter(stage, state)).stage == stage,
        status_after(status, EffectView::Enter(stage, state)).stage_state == state,
        status_after(status, EffectView::Enter(stage, state)).last_tg_verdict
            == status.last_tg_verdict,
        status_after(status, EffectView::Reach(state)).stage == status.stage,
        status_after(status, EffectView::Reach(state)).stage_state == state,
        status_after(status, EffectView::Passed(label)).last_tg_verdict == label,
        status_after(status, EffectView::Passed(label)).stage == status.stage,
        status_after(status, EffectView::Passed(label)).stage_state == StageState::Done,
        status_after(status, effect).last_after_turn == status.last_after_turn,
        effect is Event || effect is Experience || effect is Prefer || effect is Keep
            || effect is Close ==> status_after(status, effect) == status,
{
}

/// After a whole turn the status shows the label that this turn passed the filter with.
pub proof fn law_status_shows_the_label(
    pipeline: TurnPipeline,
    ctx: TurnContext,
    verdict: Seq<char>,
    sanitized_text: Seq<char>,
    status: StatusView,
)
    requires
        verdict == "SAFE"@ || verdict == "SUSPICIOUS"@,
    ensures
        status_after_all(
            status,
            pipeline.filter_effects(ctx, ScanReplyView::Answer { verdict, sanitized_text }),
        ).last_tg_verdict == (if verdict == "SUSPICIOUS"@ {
            "tg_suspicious"@
        } else {
            "tg_pass"@
        }),
        status_after_all(
            status,
            pipeline.filter_effects(ctx, ScanReplyView::Answer { verdict, sanitized_text }),
        ).stage == Stage::Build,
{
    let reply = ScanReplyView::Answer { verdict, sanitized_text };
    let effects = pipeline.filter_effects(ctx, reply);
    law_passed_turn_is_deposited(pipeline, ctx, reply, verdict, sanitized_text);
    let label = pass_label(verdict);
    let first = effects.take(2);
    assert(first.drop_last() =~= seq![effects[0]]);
    assert(seq![effects[0]].drop_last() =~= Seq::<EffectView>::empty());
    reveal_with_fuel(status_after_all, 3);
    assert(status_after_all(status, first).last_tg_verdict == label);
    lemma_label_stays(status, effects, 2);
}

/// A label stays until another turn passes.
proof fn lemma_label_stays(status: StatusView, effects: Seq<EffectView>, k: int)
    requires
        0 <= k <= effects.len(),
        forall|i: int| k <= i < effects.len() ==> !(#[trigger] effects[i] is Passed),
    ensures
        status_after_all(status, effects).last_tg_verdict == status_after_all(
            status,
            effects.take(k),
        ).last_tg_verdict,
    decreases effects.len() - k,
{
    if k == effects.len() {
        assert(effects.take(k) =~= effects);
    } else {
        lemma_label_stays(status, effects, k + 1);
        assert(effects.take(k + 1).drop_last() =~= effects.take(k));
        assert(effects.take(k + 1).last() == effects[k]);
    }
}

/// Stages and their states are shown by names of their own: no two share one.
pub proof fn law_names_tell_stages_apart(a: Stage, b: Stage, x: StageState, y: StageState)
    ensures
        a.label_view() == b.label_view() ==> a == b,
        x.label_view() == y.label_view() ==> x == y,
{
    reveal_strlit("IDLE");
    reveal_strlit("FILTER");
    reveal_strlit("INGEST");
    reveal_strlit("BUILD");
    reveal_strlit("RUN");
    reveal_strlit("POST-RUN");
    reveal_strlit("AFTER-TURN");
    reveal_strlit("idle");
    reveal_strlit("running");
    reveal_strlit("done");
    reveal_strlit("error");
    assert("IDLE"@.len() == 4 && "FILTER"@.len() == 6 && "INGEST"@.len() == 6 && "BUILD"@.len() == 5
        && "RUN"@.len() == 3 && "POST-RUN"@.len() == 8 && "AFTER-TURN"@.len() == 10);
    assert("FILTER"@[0] == 'F' && "INGEST"@[0] == 'I');
    assert("idle"@.len() == 4 && "running"@.len() == 7 && "done"@.len() == 4 && "error"@.len() == 5);
    assert("idle"@[0] == 'i' && "done"@[0] == 'd');
}

/// A turn begins with the filter, and goes from the memory service's reply to the run.
pub proof fn law_stages_are_entered_in_order()
    ensures
        opening_effects().len() == 1,
        opening_effects()[0] == EffectView::Enter(Stage::Filter, StageState::Running),
        built_effects().len() == 2,
        built_effects()[0] == EffectView::Reach(StageState::Done),
        built_effects()[1] == EffectView::Enter(Stage::Run, StageState::Running),
{
}

} // verus!

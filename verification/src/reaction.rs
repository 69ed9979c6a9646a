//! What follows from a turn that the agent began of its own accord.
//!
//! What the agent answers is looked through for markers: tools that it calls are used and their
//! results put to it as further turns, messages that it sends are further turns, what it wants is
//! written down. This goes on until it asks for nothing more, the budget is spent, or it has gone
//! on for long enough.
//!
//! The reaction is a machine. Each step takes what came of the work that the step before asked for,
//! and gives what is to be written down and the next work to do.

use crate::markers::{
    extract_outbound_markers, extract_tool_markers, extract_want_markers, outbound_markers,
    pairs_view, tool_markers, want_markers,
};
use crate::strings::texts;
use crate::tool_dispatcher::{Invocation, InvocationView, ToolDispatcher};
use std::collections::VecDeque;
use vstd::prelude::*;

verus! {

/// How many rounds a reaction may go.
pub const MAX_ITERATIONS: usize = 20;

/// How many seconds a reaction may take.
pub const MAX_SECONDS: u64 = 300;

/// What is logged where the budget ends a reaction.
pub const BUDGET_STOP: &'static str = "[Anima] Budget critical — wrapping up autonomous work";

/// What a reaction waits for.
pub enum Phase {
    /// The response to the turn that began it.
    First,
    /// Whether the budget is spent, and the time that has passed.
    Checking,
    /// The result of a tool.
    Tool { name: String, query: String },
    /// The response to the result of a tool.
    ToolTurn,
    /// The response to a message.
    Message { text: String, channel: String },
    /// Nothing: it is over.
    Over,
}

/// What a reaction waits for, over sequences.
pub enum PhaseView {
    First,
    Checking,
    Tool { name: Seq<char>, query: Seq<char> },
    ToolTurn,
    Message { text: Seq<char>, channel: Seq<char> },
    Over,
}

impl View for Phase {
    type V = PhaseView;

    open spec fn view(&self) -> PhaseView {
        match self {
            Phase::First => PhaseView::First,
            Phase::Checking => PhaseView::Checking,
            Phase::Tool { name, query } => PhaseView::Tool { name: name@, query: query@ },
            Phase::ToolTurn => PhaseView::ToolTurn,
            Phase::Message { text, channel } => PhaseView::Message {
                text: text@,
                channel: channel@,
            },
            Phase::Over => PhaseView::Over,
        }
    }
}

/// The next work to do in a reaction.
pub enum Work {
    /// Put this to the agent as a turn.
    Say(String),
    /// Look whether the budget is spent, and how much time has passed.
    Check,
    /// Do the work of a tool.
    Use(Invocation),
    /// Nothing: the reaction is over.
    Done,
}

/// The next work to do in a reaction, over sequences.
pub enum WorkView {
    Say(Seq<char>),
    Check,
    Use(InvocationView),
    Done,
}

impl View for Work {
    type V = WorkView;

    open spec fn view(&self) -> WorkView {
        match self {
            Work::Say(t) => WorkView::Say(t@),
            Work::Check => WorkView::Check,
            Work::Use(invocation) => WorkView::Use(invocation@),
            Work::Done => WorkView::Done,
        }
    }
}

/// Something that is to be written down.
pub enum Note {
    /// What was sent where, and what came back.
    Log { sent: String, channel: String, response: String },
    /// Something that the agent wants.
    Want(String),
}

/// Something that is to be written down, over sequences.
pub enum NoteView {
    Log { sent: Seq<char>, channel: Seq<char>, response: Seq<char> },
    Want(Seq<char>),
}

impl View for Note {
    type V = NoteView;

    open spec fn view(&self) -> NoteView {
        match self {
            Note::Log { sent, channel, response } => NoteView::Log {
                sent: sent@,
                channel: channel@,
                response: response@,
            },
            Note::Want(t) => NoteView::Want(t@),
        }
    }
}

/// What a list of notes is, over sequences.
pub open spec fn notes_view(notes: Seq<Note>) -> Seq<NoteView> {
    Seq::new(notes.len(), |i: int| notes[i]@)
}

/// What the agent wants, as notes.
pub open spec fn want_notes(wants: Seq<Seq<char>>) -> Seq<NoteView> {
    Seq::new(wants.len(), |i: int| NoteView::Want(wants[i]))
}

/// A reaction under way.
pub struct Reaction {
    /// What the turn that began it says, and on which channel.
    text: String,
    channel: String,
    /// What the agent answered last.
    current: String,
    /// How many rounds it has gone.
    iterations: usize,
    /// The tools and the messages that are still to be taken in this round.
    tools: VecDeque<(String, String)>,
    messages: VecDeque<(String, String)>,
    phase: Phase,
}

/// A reaction under way, over sequences.
#[verifier::ext_equal]
pub struct ReactionView {
    pub text: Seq<char>,
    pub channel: Seq<char>,
    pub current: Seq<char>,
    pub iterations: nat,
    pub tools: Seq<(Seq<char>, Seq<char>)>,
    pub messages: Seq<(Seq<char>, Seq<char>)>,
    pub phase: PhaseView,
}

impl View for Reaction {
    type V = ReactionView;

    closed spec fn view(&self) -> ReactionView {
        ReactionView {
            text: self.text@,
            channel: self.channel@,
            current: self.current@,
            iterations: self.iterations as nat,
            tools: pairs_view(self.tools@),
            messages: pairs_view(self.messages@),
            phase: self.phase@,
        }
    }
}

/// What a step gives: the reaction as it is then, what is to be written down, and the next work.
pub type StepView = (ReactionView, Seq<NoteView>, WorkView);

impl ReactionView {
    /// It has gone no more rounds than it may.
    pub open spec fn well_formed(self) -> bool {
        &&& self.iterations <= MAX_ITERATIONS
        &&& !(self.phase is Checking) && !(self.phase is Over) && !(self.phase is First)
            ==> self.iterations < MAX_ITERATIONS
    }

    /// The reaction that is over.
    pub open spec fn over(self) -> ReactionView {
        ReactionView { phase: PhaseView::Over, ..self }
    }

    /// The next work in a round: the tools in their order, then the messages in theirs, and then
    /// the round is over.
    pub open spec fn next(self, dispatcher: ToolDispatcher) -> (ReactionView, WorkView) {
        if self.tools.len() > 0 {
            let (name, query) = self.tools[0];
            (
                ReactionView {
                    tools: self.tools.drop_first(),
                    phase: PhaseView::Tool { name, query },
                    ..self
                },
                WorkView::Use(dispatcher.invocation(name, query)),
            )
        } else if self.messages.len() > 0 {
            let (text, channel) = self.messages[0];
            (
                ReactionView {
                    messages: self.messages.drop_first(),
                    phase: PhaseView::Message { text, channel },
                    ..self
                },
                WorkView::Say(text),
            )
        } else {
            (
                ReactionView {
                    iterations: self.iterations + 1,
                    phase: PhaseView::Checking,
                    ..self
                },
                WorkView::Check,
            )
        }
    }

    /// What follows a response of the agent.
    pub open spec fn said(self, dispatcher: ToolDispatcher, response: Seq<char>) -> StepView {
        let answered = ReactionView { current: response, ..self };
        match self.phase {
            PhaseView::First => (
                ReactionView { phase: PhaseView::Checking, ..answered },
                seq![NoteView::Log { sent: self.text, channel: self.channel, response }],
                WorkView::Check,
            ),
            PhaseView::ToolTurn => {
                let (then, work) = answered.next(dispatcher);
                (then, Seq::empty(), work)
            },
            PhaseView::Message { text, channel } => {
                let (then, work) = answered.next(dispatcher);
                (then, seq![NoteView::Log { sent: text, channel, response }], work)
            },
            _ => (self.over(), Seq::empty(), WorkView::Done),
        }
    }

    /// What follows a look at the budget and the clock: a spent budget ends the reaction; what the
    /// agent wants is written down; where it calls no tool and sends no message, or has gone on
    /// for long enough, the reaction is over; otherwise a round begins.
    pub open spec fn checked(
        self,
        dispatcher: ToolDispatcher,
        critical: bool,
        late: bool,
    ) -> StepView {
        if !(self.phase is Checking) {
            (self.over(), Seq::empty(), WorkView::Done)
        } else if critical {
            (
                self.over(),
                seq![
                    NoteView::Log {
                        sent: self.text,
                        channel: self.channel,
                        response: BUDGET_STOP@,
                    },
                ],
                WorkView::Done,
            )
        } else {
            let tools = tool_markers(self.current);
            let messages = outbound_markers(self.current);
            let notes = want_notes(want_markers(self.current));
            if tools.len() == 0 && messages.len() == 0 {
                (self.over(), notes, WorkView::Done)
            } else if self.iterations >= MAX_ITERATIONS || late {
                (self.over(), notes, WorkView::Done)
            } else {
                let (then, work) = ReactionView { tools, messages, ..self }.next(dispatcher);
                (then, notes, work)
            }
        }
    }

    /// What follows the result of a tool: it is logged, and put to the agent as a turn.
    pub open spec fn used(self, result: Seq<char>) -> StepView {
        match self.phase {
            PhaseView::Tool { name, query } => (
                ReactionView { phase: PhaseView::ToolTurn, ..self },
                seq![NoteView::Log { sent: query, channel: name, response: result }],
                WorkView::Say(result),
            ),
            _ => (self.over(), Seq::empty(), WorkView::Done),
        }
    }
}

/// More time has passed than a reaction may take.
pub open spec fn is_late(secs: u64, nanos: u32) -> bool {
    secs > MAX_SECONDS || (secs == MAX_SECONDS && nanos > 0)
}

/// A copy of a list of pairs as a queue.
fn queue(pairs: Vec<(String, String)>) -> (r: VecDeque<(String, String)>)
    ensures
        pairs_view(r@) == pairs_view(pairs@),
{
    let mut out: VecDeque<(String, String)> = VecDeque::new();
    let mut i: usize = 0;
    while i < pairs.len()
        invariant
            i <= pairs@.len(),
            pairs_view(out@) == pairs_view(pairs@).take(i as int),
        decreases pairs@.len() - i,
    {
        let ghost before = pairs_view(out@);
        out.push_back((pairs[i].0.clone(), pairs[i].1.clone()));
        assert(pairs_view(out@) =~= before.push(pairs_view(pairs@)[i as int]));
        assert(pairs_view(out@) =~= pairs_view(pairs@).take(i + 1));
        i += 1;
    }
    assert(pairs_view(out@) =~= pairs_view(pairs@));
    out
}

/// What the agent wants, as notes.
fn notes_of(wants: Vec<String>) -> (r: Vec<Note>)
    ensures
        notes_view(r@) == want_notes(texts(wants@)),
{
    let mut out: Vec<Note> = Vec::new();
    let mut i: usize = 0;
    while i < wants.len()
        invariant
            i <= wants@.len(),
            notes_view(out@) == want_notes(texts(wants@)).take(i as int),
        decreases wants@.len() - i,
    {
        let ghost before = notes_view(out@);
        out.push(Note::Want(wants[i].clone()));
        assert(notes_view(out@) =~= before.push(want_notes(texts(wants@))[i as int]));
        assert(notes_view(out@) =~= want_notes(texts(wants@)).take(i + 1));
        i += 1;
    }
    assert(notes_view(out@) =~= want_notes(texts(wants@)));
    out
}

/// A list of one log entry.
fn log(sent: &str, channel: &str, response: &str) -> (r: Vec<Note>)
    ensures
        notes_view(r@) == seq![
            NoteView::Log { sent: sent@, channel: channel@, response: response@ },
        ],
{
    let notes = vec![
        Note::Log {
            sent: sent.to_owned(),
            channel: channel.to_owned(),
            response: response.to_owned(),
        },
    ];
    assert(notes_view(notes@) =~= seq![
        NoteView::Log { sent: sent@, channel: channel@, response: response@ },
    ]);
    notes
}

/// An empty list of notes.
fn no_notes() -> (r: Vec<Note>)
    ensures
        notes_view(r@) == Seq::<NoteView>::empty(),
{
    let notes: Vec<Note> = Vec::new();
    assert(notes_view(notes@) =~= Seq::<NoteView>::empty());
    notes
}

impl Reaction {
    /// The reaction that a turn begins. The work to do is to put `text` to the agent.
    pub open spec fn begun(text: Seq<char>, channel: Seq<char>) -> ReactionView {
        ReactionView {
            text,
            channel,
            current: Seq::empty(),
            iterations: 0,
            tools: Seq::empty(),
            messages: Seq::empty(),
            phase: PhaseView::First,
        }
    }

    /// Begins a reaction with a turn.
    pub fn begin(text: String, channel: String) -> (r: (Reaction, Work))
        ensures
            r.0@ == Self::begun(text@, channel@),
            r.0@.well_formed(),
            r.1@ == WorkView::Say(text@),
    {
        let work = Work::Say(text.clone());
        let reaction = Reaction {
            text,
            channel,
            current: String::new(),
            iterations: 0,
            tools: VecDeque::new(),
            messages: VecDeque::new(),
            phase: Phase::First,
        };
        assert(reaction@ =~= Self::begun(text@, channel@));
        (reaction, work)
    }

    /// Takes the next work in a round.
    fn take_next(&mut self, dispatcher: &ToolDispatcher) -> (r: Work)
        requires
            old(self).iterations < MAX_ITERATIONS,
        ensures
            (final(self)@, r@) == old(self)@.next(*dispatcher),
    {
        match self.tools.pop_front() {
            Some((name, query)) => {
                let work = Work::Use(dispatcher.invoke(name.as_str(), query.as_str()));
                self.phase = Phase::Tool { name, query };
                assert(self@.tools =~= old(self)@.tools.drop_first());
                return work;
            },
            None => {},
        }
        match self.messages.pop_front() {
            Some((text, channel)) => {
                let work = Work::Say(text.clone());
                self.phase = Phase::Message { text, channel };
                assert(self@.messages =~= old(self)@.messages.drop_first());
                return work;
            },
            None => {},
        }
        self.iterations = self.iterations + 1;
        self.phase = Phase::Checking;
        Work::Check
    }

    /// Takes a response of the agent.
    pub fn on_said(&mut self, dispatcher: &ToolDispatcher, response: String) -> (r: (
        Vec<Note>,
        Work,
    ))
        requires
            old(self)@.well_formed(),
        ensures
            final(self)@.well_formed(),
            (final(self)@, notes_view(r.0@), r.1@) == old(self)@.said(*dispatcher, response@),
    {
        match &self.phase {
            Phase::First => {
                let notes = log(self.text.as_str(), self.channel.as_str(), response.as_str());
                self.current = response;
                self.phase = Phase::Checking;
                (notes, Work::Check)
            },
            Phase::ToolTurn => {
                self.current = response;
                let work = self.take_next(dispatcher);
                (no_notes(), work)
            },
            Phase::Message { text, channel } => {
                let notes = log(text.as_str(), channel.as_str(), response.as_str());
                self.current = response;
                let work = self.take_next(dispatcher);
                (notes, work)
            },
            _ => {
                self.phase = Phase::Over;
                (no_notes(), Work::Done)
            },
        }
    }

    /// Takes whether the budget is spent, and the time that has passed since the reaction began.
    pub fn on_checked(
        &mut self,
        dispatcher: &ToolDispatcher,
        critical: bool,
        secs: u64,
        nanos: u32,
    ) -> (r: (Vec<Note>, Work))
        requires
            old(self)@.well_formed(),
        ensures
            final(self)@.well_formed(),
            (final(self)@, notes_view(r.0@), r.1@) == old(self)@.checked(
                *dispatcher,
                critical,
                is_late(secs, nanos),
            ),
    {
        match &self.phase {
            Phase::Checking => {},
            _ => {
                self.phase = Phase::Over;
                return (no_notes(), Work::Done);
            },
        }
        if critical {
            self.phase = Phase::Over;
            return (log(self.text.as_str(), self.channel.as_str(), BUDGET_STOP), Work::Done);
        }
        let tools = extract_tool_markers(self.current.as_str());
        let wants = extract_want_markers(self.current.as_str());
        let messages = extract_outbound_markers(self.current.as_str());
        assert(pairs_view(tools@).len() == tools@.len());
        assert(pairs_view(messages@).len() == messages@.len());
        let notes = notes_of(wants);
        if tools.len() == 0 && messages.len() == 0 {
            self.phase = Phase::Over;
            return (notes, Work::Done);
        }
        let late = secs > MAX_SECONDS || (secs == MAX_SECONDS && nanos > 0);
        if self.iterations >= MAX_ITERATIONS || late {
            self.phase = Phase::Over;
            return (notes, Work::Done);
        }
        self.tools = queue(tools);
        self.messages = queue(messages);
        let work = self.take_next(dispatcher);
        (notes, work)
    }

    /// Takes the result of a tool.
    pub fn on_used(&mut self, result: String) -> (r: (Vec<Note>, Work))
        requires
            old(self)@.well_formed(),
        ensures
            final(self)@.well_formed(),
            (final(self)@, notes_view(r.0@), r.1@) == old(self)@.used(result@),
    {
        match &self.phase {
            Phase::Tool { name, query } => {
                let notes = log(query.as_str(), name.as_str(), result.as_str());
                self.phase = Phase::ToolTurn;
                (notes, Work::Say(result))
            },
            _ => {
                self.phase = Phase::Over;
                (no_notes(), Work::Done)
            },
        }
    }
}

/// What comes to a reaction from outside.
pub enum ReactionEvent {
    Said(Seq<char>),
    Checked { critical: bool, late: bool },
    Used(Seq<char>),
}

impl ReactionView {
    /// What follows an event.
    pub open spec fn step(self, dispatcher: ToolDispatcher, event: ReactionEvent) -> StepView {
        match event {
            ReactionEvent::Said(response) => self.said(dispatcher, response),
            ReactionEvent::Checked { critical, late } => self.checked(dispatcher, critical, late),
            ReactionEvent::Used(result) => self.used(result),
        }
    }

    /// The reaction after `events`.
    pub open spec fn after(
        self,
        dispatcher: ToolDispatcher,
        events: Seq<ReactionEvent>,
    ) -> ReactionView
        decreases events.len(),
    {
        if events.len() == 0 {
            self
        } else {
            self.after(dispatcher, events.drop_last()).step(dispatcher, events.last()).0
        }
    }
}

/// A reaction goes at most as many rounds as it may, whatever comes to it.
pub proof fn law_rounds_are_bounded(
    text: Seq<char>,
    channel: Seq<char>,
    dispatcher: ToolDispatcher,
    events: Seq<ReactionEvent>,
)
    ensures
        Reaction::begun(text, channel).after(dispatcher, events).iterations <= MAX_ITERATIONS,
        Reaction::begun(text, channel).after(dispatcher, events).well_formed(),
    decreases events.len(),
{
    if events.len() > 0 {
        law_rounds_are_bounded(text, channel, dispatcher, events.drop_last());
    }
}

/// After the last round nothing more is put to the agent and no more tool is used.
pub proof fn law_last_round_ends_it(
    reaction: ReactionView,
    dispatcher: ToolDispatcher,
    critical: bool,
    late: bool,
)
    requires
        reaction.iterations >= MAX_ITERATIONS || late || critical,
    ensures
        reaction.checked(dispatcher, critical, late).2 == WorkView::Done,
        reaction.checked(dispatcher, critical, late).0.phase is Over,
{
}

/// What the agent wants is written down and does not keep a reaction going.
pub proof fn law_wants_do_not_continue(
    reaction: ReactionView,
    dispatcher: ToolDispatcher,
    late: bool,
)
    requires
        reaction.phase is Checking,
        tool_markers(reaction.current).len() == 0,
        outbound_markers(reaction.current).len() == 0,
    ensures
        reaction.checked(dispatcher, false, late) == (
            reaction.over(),
            want_notes(want_markers(reaction.current)),
            WorkView::Done,
        ),
{
}

/// In a round the tools come first: a message is sent only once no tool is left to be used.
pub proof fn law_tools_come_first(reaction: ReactionView, dispatcher: ToolDispatcher)
    ensures
        reaction.tools.len() > 0 ==> reaction.next(dispatcher).1 is Use,
        reaction.next(dispatcher).1 is Say ==> reaction.tools.len() == 0,
        reaction.next(dispatcher).0.tools.is_suffix_of(reaction.tools),
        reaction.next(dispatcher).0.messages.is_suffix_of(reaction.messages),
{
    let then = reaction.next(dispatcher).0;
    assert(then.tools =~= reaction.tools.subrange(
        reaction.tools.len() - then.tools.len(),
        reaction.tools.len() as int,
    ));
    assert(then.messages =~= reaction.messages.subrange(
        reaction.messages.len() - then.messages.len(),
        reaction.messages.len() as int,
    ));
}

/// A spent budget ends a reaction before anything of the last response is acted upon, and the log
/// says so.
pub proof fn law_spent_budget_ends_it(
    reaction: ReactionView,
    dispatcher: ToolDispatcher,
    late: bool,
)
    requires
        reaction.phase is Checking,
    ensures
        reaction.checked(dispatcher, true, late) == (
            reaction.over(),
            seq![
                NoteView::Log {
                    sent: reaction.text,
                    channel: reaction.channel,
                    response: BUDGET_STOP@,
                },
            ],
            WorkView::Done,
        ),
{
}

/// A reaction that is over stays over, whatever comes to it.
pub proof fn law_over_stays_over(
    reaction: ReactionView,
    dispatcher: ToolDispatcher,
    event: ReactionEvent,
)
    requires
        reaction.phase is Over,
    ensures
        reaction.step(dispatcher, event) == (reaction, Seq::<NoteView>::empty(), WorkView::Done),
{
}

/// Whichever turn of a reaction is answered, the first, one with a tool's result or a message, the
/// response is what the agent said last.
pub proof fn law_response_is_taken_up(
    reaction: ReactionView,
    dispatcher: ToolDispatcher,
    response: Seq<char>,
)
    requires
        reaction.phase is First || reaction.phase is ToolTurn || reaction.phase is Message,
    ensures
        reaction.said(dispatcher, response).0.current == response,
        reaction.said(dispatcher, response).0.text == reaction.text,
        reaction.said(dispatcher, response).0.channel == reaction.channel,
        !(reaction.said(dispatcher, response).2 is Done),
{
}

/// The next look for markers is at the latest response. After the last response of a round, the tools
/// and the messages of the next round are exactly those that this response asks for, in its order,
/// and exactly what it wants is written down; a response that asks for nothing ends the reaction.
pub proof fn law_latest_response_decides(
    reaction: ReactionView,
    dispatcher: ToolDispatcher,
    response: Seq<char>,
)
    requires
        reaction.phase is First || ((reaction.phase is ToolTurn || reaction.phase is Message)
            && reaction.tools.len() == 0 && reaction.messages.len() == 0),
    ensures
        ({
            let (asked, _, look) = reaction.said(dispatcher, response);
            let (then, notes, work) = asked.checked(dispatcher, false, false);
            let tools = tool_markers(response);
            let messages = outbound_markers(response);
            let wants = want_markers(response);
            &&& look is Check
            &&& asked.phase is Checking
            &&& asked.iterations == (if reaction.phase is First {
                reaction.iterations
            } else {
                reaction.iterations + 1
            })
            &&& then.iterations == asked.iterations
            &&& notes.len() == wants.len()
            &&& forall|i: int|
                0 <= i < notes.len() ==> #[trigger] notes[i] == NoteView::Want(wants[i])
            &&& tools.len() == 0 && messages.len() == 0 ==> work is Done && then.phase is Over
            &&& tools.len() > 0 && asked.iterations < 20 ==> {
                &&& work == WorkView::Use(dispatcher.invocation(tools[0].0, tools[0].1))
                &&& then.tools == tools.drop_first()
                &&& then.messages == messages
            }
            &&& tools.len() == 0 && messages.len() > 0 && asked.iterations < 20 ==> {
                &&& work == WorkView::Say(messages[0].0)
                &&& then.tools.len() == 0
                &&& then.messages == messages.drop_first()
            }
            &&& asked.iterations >= 20 ==> work is Done && then.phase is Over
        }),
{
}

/// While a round lasts its tools are used in their order, each with its own query, and then its
/// messages are sent in theirs; none is passed by and none is taken twice. Once nothing is left the
/// round is counted.
pub proof fn law_round_takes_each_in_order(
    reaction: ReactionView,
    dispatcher: ToolDispatcher,
    response: Seq<char>,
)
    requires
        reaction.phase is ToolTurn || reaction.phase is Message,
    ensures
        ({
            let (then, _, work) = reaction.said(dispatcher, response);
            &&& reaction.tools.len() > 0 ==> {
                &&& work == WorkView::Use(
                    dispatcher.invocation(reaction.tools[0].0, reaction.tools[0].1),
                )
                &&& then.phase == (PhaseView::Tool {
                    name: reaction.tools[0].0,
                    query: reaction.tools[0].1,
                })
                &&& seq![reaction.tools[0]] + then.tools == reaction.tools
                &&& then.messages == reaction.messages
                &&& then.iterations == reaction.iterations
            }
            &&& reaction.tools.len() == 0 && reaction.messages.len() > 0 ==> {
                &&& work == WorkView::Say(reaction.messages[0].0)
                &&& then.phase == (PhaseView::Message {
                    text: reaction.messages[0].0,
                    channel: reaction.messages[0].1,
                })
                &&& seq![reaction.messages[0]] + then.messages == reaction.messages
                &&& then.tools.len() == 0
                &&& then.iterations == reaction.iterations
            }
            &&& reaction.tools.len() == 0 && reaction.messages.len() == 0 ==> {
                &&& work is Check
                &&& then.iterations == reaction.iterations + 1
            }
        }),
{
    let then = reaction.said(dispatcher, response).0;
    if reaction.tools.len() > 0 {
        assert(seq![reaction.tools[0]] + then.tools =~= reaction.tools);
    } else if reaction.messages.len() > 0 {
        assert(seq![reaction.messages[0]] + then.messages =~= reaction.messages);
    }
}

/// The result of a tool is put to the agent as it stands, and the log tells the query, the tool and
/// the result.
pub proof fn law_result_is_put_to_the_agent(
    reaction: ReactionView,
    name: Seq<char>,
    query: Seq<char>,
    result: Seq<char>,
)
    requires
        reaction.phase == (PhaseView::Tool { name, query }),
    ensures
        reaction.used(result).2 == WorkView::Say(result),
        reaction.used(result).0.phase is ToolTurn,
        reaction.used(result).0.tools == reaction.tools,
        reaction.used(result).0.messages == reaction.messages,
        reaction.used(result).0.iterations == reaction.iterations,
        reaction.used(result).1.len() == 1,
        reaction.used(result).1[0] == (NoteView::Log {
            sent: query,
            channel: name,
            response: result,
        }),
{
}

/// Every message that is sent, the first as well, is logged with where it went and what came back.
pub proof fn law_messages_are_logged(
    reaction: ReactionView,
    dispatcher: ToolDispatcher,
    sent: Seq<char>,
    channel: Seq<char>,
    response: Seq<char>,
)
    ensures
        ({
            let notes = reaction.said(dispatcher, response).1;
            &&& reaction.phase == (PhaseView::Message { text: sent, channel }) ==> notes.len() == 1
                && notes[0] == (NoteView::Log { sent, channel, response })
            &&& reaction.phase is First ==> notes.len() == 1 && notes[0] == (NoteView::Log {
                sent: reaction.text,
                channel: reaction.channel,
                response,
            })
            &&& reaction.phase is ToolTurn ==> notes.len() == 0
        }),
{
}

/// At whatever time, and whatever came before, a response that does not come when the reaction is
/// over is the one that is looked at next: nothing but a further response takes its place.
pub proof fn law_last_response_stands(
    text: Seq<char>,
    channel: Seq<char>,
    dispatcher: ToolDispatcher,
    events: Seq<ReactionEvent>,
    response: Seq<char>,
    later: ReactionEvent,
)
    requires
        !(later is Said),
    ensures
        ({
            let now = Reaction::begun(text, channel).after(
                dispatcher,
                events.push(ReactionEvent::Said(response)),
            );
            let then = Reaction::begun(text, channel).after(
                dispatcher,
                events.push(ReactionEvent::Said(response)).push(later),
            );
            &&& !(now.phase is Over) ==> now.current == response
            &&& then.current == now.current
            &&& now.text == text
            &&& now.channel == channel
        }),
    decreases events.len(),
{
    let start = Reaction::begun(text, channel);
    let with = events.push(ReactionEvent::Said(response));
    assert(with.drop_last() =~= events);
    assert(with.push(later).drop_last() =~= with);
    lemma_origin_is_kept(start, dispatcher, with);
}

/// The turn that began a reaction is kept.
proof fn lemma_origin_is_kept(
    reaction: ReactionView,
    dispatcher: ToolDispatcher,
    events: Seq<ReactionEvent>,
)
    ensures
        reaction.after(dispatcher, events).text == reaction.text,
        reaction.after(dispatcher, events).channel == reaction.channel,
    decreases events.len(),
{
    if events.len() > 0 {
        lemma_origin_is_kept(reaction, dispatcher, events.drop_last());
    }
}

/// A reaction is late once more than 300 seconds have passed, be it by a nanosecond.
pub proof fn law_late_after_three_hundred_seconds(secs: u64, nanos: u32)
    requires
        nanos < 1_000_000_000,
    ensures
        is_late(secs, nanos) <==> secs * 1_000_000_000 + nanos > 300 * 1_000_000_000,
{
}

/// A late reaction takes up no more work, whatever the last response asks for, but what the agent
/// wants is still written down.
pub proof fn law_late_reaction_ends(reaction: ReactionView, dispatcher: ToolDispatcher)
    requires
        reaction.phase is Checking,
    ensures
        reaction.checked(dispatcher, false, true).2 is Done,
        reaction.checked(dispatcher, false, true).1.len() == want_markers(reaction.current).len(),
        forall|i: int|
            0 <= i < want_markers(reaction.current).len() ==> #[trigger] reaction.checked(
                dispatcher,
                false,
                true,
            ).1[i] == NoteView::Want(want_markers(reaction.current)[i]),
{
}

/// A reaction begins with nothing done and nothing asked for, and waits for the response to its turn.
pub proof fn law_reaction_begins_fresh(text: Seq<char>, channel: Seq<char>)
    ensures
        ({
            let start = Reaction::begun(text, channel);
            &&& start.text == text
            &&& start.channel == channel
            &&& start.phase is First
            &&& start.iterations == 0
            &&& start.tools.len() == 0
            &&& start.messages.len() == 0
        }),
{
}

/// Where the budget ends a reaction the log says that it wraps up, under the turn that began it.
pub proof fn law_log_says_that_the_budget_is_spent(
    reaction: ReactionView,
    dispatcher: ToolDispatcher,
    late: bool,
)
    requires
        reaction.phase is Checking,
    ensures
        reaction.checked(dispatcher, true, late).1.len() == 1,
        reaction.checked(dispatcher, true, late).1[0] == (NoteView::Log {
            sent: reaction.text,
            channel: reaction.channel,
            response: "[Anima] Budget critical — wrapping up autonomous work"@,
        }),
        reaction.checked(dispatcher, true, late).2 is Done,
{
}

/// Neither a look at the budget nor the result of a tool changes what the agent said last, or the turn
/// that began the reaction.
pub proof fn law_only_a_response_is_a_response(
    reaction: ReactionView,
    dispatcher: ToolDispatcher,
    critical: bool,
    late: bool,
    result: Seq<char>,
)
    ensures
        reaction.checked(dispatcher, critical, late).0.current == reaction.current,
        reaction.checked(dispatcher, critical, late).0.text == reaction.text,
        reaction.checked(dispatcher, critical, late).0.channel == reaction.channel,
        reaction.used(result).0.current == reaction.current,
        reaction.used(result).0.text == reaction.text,
        reaction.used(result).0.channel == reaction.channel,
{
}

} // verus!

//! Turns that the agent begins of its own accord: where they are found, and what is written down
//! of them.

use crate::adapters::cli::{connection_event, CliAdapter};
use crate::btf::{btf_frames, frame_value, is_frame, law_every_frame_is_read, parse_btf_frames};
use crate::codec::{json_parsed, json_text, parse_json, render_json, value_of};
use crate::json::{items_view, lookup, object4, text, Json, JsonView};
use crate::markers::pairs_view;
use crate::pipeline::{Effect, TurnContext};
use crate::strings::{ends_with, is_blank, opt_str, slice, trim, trimmed};
use crate::tool_dispatcher::ToolDispatcher;
use std::sync::Arc;
use vstd::endian::endianness;
use vstd::prelude::*;
use vstd::utf8::{
    decode_utf8, decode_utf8_encode_utf8, encode_utf8, encode_utf8_decode_utf8,
    encode_utf8_valid_utf8, is_char_boundary, is_char_boundary_start_end_of_seq, valid_utf8_split,
};

verus! {

/// The path of the log that belongs to a tract.
pub open spec fn log_path(tract_path: Seq<char>) -> Seq<char> {
    if ".tract"@.is_suffix_of(tract_path) {
        tract_path.take(tract_path.len() - ".tract"@.len()) + ".log.jsonl"@
    } else {
        tract_path + ".log.jsonl"@
    }
}

/// Derives the path of the log from the path of the tract: `.tract` at its end, and nowhere else,
/// gives way to `.log.jsonl`.
pub fn tract_to_log_path(tract_path: &str) -> (r: String)
    ensures
        r@ == log_path(tract_path@),
{
    let mut path = if ends_with(tract_path, ".tract") {
        let total: usize = tract_path.unicode_len();
        let suffix: usize = ".tract".unicode_len();
        slice(tract_path, 0, total - suffix)
    } else {
        tract_path.to_owned()
    };
    path.append(".log.jsonl");
    path
}

/// The path of the log keeps all of the tract's path but the suffix, wherever else `.tract` stands.
pub proof fn law_log_path_is_suffix_safe(base: Seq<char>)
    ensures
        log_path(base + ".tract"@) == base + ".log.jsonl"@,
        !".tract"@.is_suffix_of(base) ==> log_path(base) == base + ".log.jsonl"@,
{
    let path = base + ".tract"@;
    let n = path.len() - ".tract"@.len();
    assert(path.subrange(n, path.len() as int) =~= ".tract"@);
    assert(path.take(n) =~= base);
}

/// How many bytes of a text the log holds.
pub const LOG_CAP: usize = 500;

/// How many bytes of `s` the log holds.
pub open spec fn capped_len(s: Seq<char>) -> int {
    if encode_utf8(s).len() < LOG_CAP {
        encode_utf8(s).len() as int
    } else {
        LOG_CAP as int
    }
}

/// The log can hold `s`: where it is cut a character ends.
pub open spec fn can_be_logged(s: Seq<char>) -> bool {
    is_char_boundary(encode_utf8(s), capped_len(s))
}

/// Whether the log can hold `s`.
pub fn is_loggable(s: &str) -> (r: bool)
    ensures
        r == can_be_logged(s@),
{
    let total: usize = s.as_bytes().len();
    s.is_char_boundary(if total < LOG_CAP { total } else { LOG_CAP })
}

/// What of `s` the log holds: the text in its first bytes.
pub open spec fn capped(s: Seq<char>) -> Seq<char> {
    decode_utf8(encode_utf8(s).take(capped_len(s)))
}

/// What of `s` the log holds.
fn cap(s: &str) -> (r: &str)
    requires
        can_be_logged(s@),
    ensures
        r@ == capped(s@),
{
    let total: usize = s.as_bytes().len();
    let (head, _) = s.split_at(if total < LOG_CAP { total } else { LOG_CAP });
    assert(encode_utf8(head@) =~= encode_utf8(s@).take(capped_len(s@)));
    proof {
        encode_utf8_decode_utf8(head@);
    }
    head
}

/// A text that is not too long is logged as it is.
pub proof fn law_short_texts_are_logged_whole(s: Seq<char>)
    requires
        encode_utf8(s).len() <= LOG_CAP,
    ensures
        can_be_logged(s),
        capped(s) == s,
{
    encode_utf8_decode_utf8(s);
    assert(encode_utf8(s).take(capped_len(s)) =~= encode_utf8(s));
    encode_utf8_valid_utf8(s);
    is_char_boundary_start_end_of_seq(encode_utf8(s));
}

/// An entry of the log of what was sent and what came back.
pub open spec fn log_entry(
    ts: Seq<char>,
    sent: Seq<char>,
    channel: Seq<char>,
    response: Seq<char>,
) -> JsonView {
    JsonView::Object(
        seq![
            ("channel"@, JsonView::Text(channel)),
            ("response"@, JsonView::Text(response)),
            ("sent"@, JsonView::Text(sent)),
            ("ts"@, JsonView::Float(ts)),
        ],
    )
}

/// The line for the log of what was sent and what came back, at most 500 bytes of each. `ts` is the
/// time as a decimal number of seconds.
pub fn outbound_log_line(ts: &str, sent: &str, channel: &str, response: &str) -> (r: String)
    requires
        can_be_logged(sent@),
        can_be_logged(response@),
    ensures
        r@ == json_text(
            value_of(log_entry(ts@, capped(sent@), channel@, capped(response@))),
        ) + "\n"@,
{
    let entry = object4(
        "channel",
        text(channel),
        "response",
        text(cap(response)),
        "sent",
        text(cap(sent)),
        "ts",
        Json::Float(ts.to_owned()),
    );
    let mut line = render_json(&entry);
    line.append("\n");
    line
}

/// An entry of the register of wants.
pub open spec fn want_entry(ts: Seq<char>, want: Seq<char>, source: Seq<char>) -> JsonView {
    JsonView::Object(
        seq![
            ("acted"@, JsonView::Bool(false)),
            ("source"@, JsonView::Text(source)),
            ("text"@, JsonView::Text(want)),
            ("ts"@, JsonView::Float(ts)),
        ],
    )
}

/// The line for the register of wants.
pub fn wants_register_line(ts: &str, want: &str, source: &str) -> (r: String)
    ensures
        r@ == json_text(value_of(want_entry(ts@, want@, source@))) + "\n"@,
{
    let entry = object4(
        "acted",
        Json::Bool(false),
        "source",
        text(source),
        "text",
        text(want),
        "ts",
        Json::Float(ts.to_owned()),
    );
    let mut line = render_json(&entry);
    line.append("\n");
    line
}

/// The source of the wants that the agent states outright.
pub const WANT_SOURCE: &'static str = "syl_explicit";

/// The line for the register of a want that the agent states outright.
pub fn want_line(ts: &str, want: &str) -> (r: String)
    ensures
        r@ == json_text(value_of(want_entry(ts@, want@, "syl_explicit"@))) + "\n"@,
{
    wants_register_line(ts, want, WANT_SOURCE)
}

/// In whose name the agent takes the turns that it begins of its own accord.
pub const OUTBOUND_USER: &'static str = "syl_outbound";

/// The turn in a line that the agent says of its own accord, and the event to deposit before it.
/// White space alone is no turn: its response is empty.
pub fn outbound_line(line: &str, ts: &str) -> (r: Option<(Effect, TurnContext)>)
    ensures
        match r {
            Some((event, ctx)) => {
                &&& trimmed(line@).len() > 0
                &&& event@ == connection_event("syl_outbound"@, ts@)
                &&& ctx.text@ == trimmed(line@)
                &&& ctx.channel_id@ == "cli"@
                &&& ctx.user_id@ == "syl_outbound"@
                &&& ctx.source is Channel
            },
            None => trimmed(line@).len() == 0,
        },
{
    CliAdapter::new().process_line(line, OUTBOUND_USER, ts)
}

/// Whether the budget file says that the budget is spent; no, where there is none or it cannot be
/// read.
pub open spec fn says_critical(raw: Option<Seq<char>>) -> bool {
    match raw {
        Some(t) => match json_parsed(t) {
            Some(v) => v.at("critical"@) == JsonView::Bool(true),
            None => false,
        },
        None => false,
    }
}

/// Where there is no budget file, or it is no JSON, or does not say whether the budget is critical,
/// the budget does not count as spent.
pub proof fn law_unknown_budget_is_not_spent(raw: Seq<char>)
    ensures
        !says_critical(None),
        json_parsed(raw) is None ==> !says_critical(Some(raw)),
        (json_parsed(raw) matches Some(v) && !(v.at("critical"@) is Bool)) ==> !says_critical(
            Some(raw),
        ),
{
}

/// Reads whether the budget is spent from the content of the budget file.
pub fn read_budget_flag(raw: Option<&str>) -> (r: bool)
    ensures
        r == says_critical(opt_str(raw)),
{
    match raw {
        Some(t) => match parse_json(t) {
            Some(v) => match v.get("critical") {
                Some(Json::Bool(b)) => *b,
                _ => false,
            },
            None => false,
        },
        None => false,
    }
}

/// The text and the channel of the turn that a frame holds; nothing where it holds no text, or
/// white space alone.
pub open spec fn turn_in(frame: JsonView) -> Option<(Seq<char>, Seq<char>)> {
    match frame.at("payload"@).at("text"@) {
        JsonView::Text(t) => if trimmed(t).len() > 0 {
            Some((t, frame.at("payload"@).at("channel_id"@).text_or("cli"@)))
        } else {
            None
        },
        _ => None,
    }
}

/// The text and the channel of the turn that a frame holds.
pub fn outbound_turn(frame: &Json) -> (r: Option<(String, String)>)
    ensures
        match r {
            Some((t, channel)) => turn_in(frame@) == Some((t@, channel@)),
            None => turn_in(frame@) is None,
        },
{
    let payload = frame.copy_at("payload");
    match payload.opt_text_at("text") {
        Some(t) => {
            if is_blank(trim(t.as_str()).as_str()) {
                None
            } else {
                Some((t, payload.text_at("channel_id", "cli")))
            }
        },
        None => None,
    }
}

/// The turns that `frames` hold, in order.
pub open spec fn turns_in(frames: Seq<JsonView>) -> Seq<(Seq<char>, Seq<char>)>
    decreases frames.len(),
{
    if frames.len() == 0 {
        Seq::empty()
    } else {
        match turn_in(frames.last()) {
            Some(turn) => turns_in(frames.drop_last()).push(turn),
            None => turns_in(frames.drop_last()),
        }
    }
}

/// Takes the turns from the outbound tract.
pub struct OutboundInitiator {
    pub tract_path: String,
    pub pulse_interval_secs: u64,
    pub tool_dispatcher: Arc<ToolDispatcher>,
    pub budget_path: String,
    pub wants_path: String,
}

impl OutboundInitiator {
    /// An initiator for the tract at `tract_path`, which is looked at every `pulse_interval_secs`.
    pub fn new(
        tract_path: &str,
        pulse_interval_secs: u64,
        tool_dispatcher: Arc<ToolDispatcher>,
        budget_path: &str,
        wants_path: &str,
    ) -> (r: Self)
        ensures
            r.tract_path@ == tract_path@,
            r.pulse_interval_secs == pulse_interval_secs,
            r.tool_dispatcher == tool_dispatcher,
            r.budget_path@ == budget_path@,
            r.wants_path@ == wants_path@,
    {
        OutboundInitiator {
            tract_path: tract_path.to_owned(),
            pulse_interval_secs,
            tool_dispatcher,
            budget_path: budget_path.to_owned(),
            wants_path: wants_path.to_owned(),
        }
    }

    /// The turns in what the tract holds, as pairs of a text and a channel, in order. Each begins
    /// a reaction.
    pub fn drain(&self, data: &[u8]) -> (r: Vec<(String, String)>)
        ensures
            pairs_view(r@) == turns_in(btf_frames(data@, endianness() is Little)),
    {
        let frames = parse_btf_frames(data);
        let mut turns: Vec<(String, String)> = Vec::new();
        let mut i: usize = 0;
        let ghost all = items_view(frames@);
        assert(pairs_view(turns@) =~= turns_in(all.take(0)));
        while i < frames.len()
            invariant
                i <= frames@.len(),
                all == items_view(frames@),
                pairs_view(turns@) == turns_in(all.take(i as int)),
            decreases frames@.len() - i,
        {
            let ghost before = pairs_view(turns@);
            assert(all.take(i + 1).drop_last() =~= all.take(i as int));
            if let Some(turn) = outbound_turn(&frames[i]) {
                turns.push(turn);
                assert(pairs_view(turns@) =~= before.push((turn.0@, turn.1@)));
            }
            i += 1;
        }
        assert(all.take(i as int) =~= all);
        turns
    }
}

/// The turns in frames that follow one another: first those in the first frames, then those in the
/// others. None is lost and none changes its place.
pub proof fn law_turns_follow_the_frames(a: Seq<JsonView>, b: Seq<JsonView>)
    ensures
        turns_in(a + b) == turns_in(a) + turns_in(b),
    decreases b.len(),
{
    if b.len() == 0 {
        assert(a + b =~= a);
        assert(turns_in(a) + turns_in(b) =~= turns_in(a));
    } else {
        law_turns_follow_the_frames(a, b.drop_last());
        assert((a + b).drop_last() =~= a + b.drop_last());
        assert(turns_in(a + b) =~= turns_in(a) + turns_in(b));
    }
}

/// A frame whose text is not blank gives exactly one turn: the text as it stands, on the channel that
/// is named, or on the command line where none is. Any other frame gives none.
pub proof fn law_each_frame_gives_its_turn(frame: JsonView, said: Seq<char>, channel: Seq<char>)
    ensures
        ({
            let payload = frame.at("payload"@);
            let told = payload.at("text"@) == JsonView::Text(said) && trimmed(said).len() > 0;
            &&& told && payload.at("channel_id"@) == JsonView::Text(channel) ==> turns_in(
                seq![frame],
            ) == seq![(said, channel)]
            &&& told && !(payload.at("channel_id"@) is Text) ==> turns_in(seq![frame]) == seq![
                (said, "cli"@),
            ]
            &&& payload.at("text"@) == JsonView::Text(said) && trimmed(said).len() == 0 ==> turns_in(
                seq![frame],
            ) == Seq::<(Seq<char>, Seq<char>)>::empty()
            &&& !(payload.at("text"@) is Text) ==> turns_in(seq![frame]) == Seq::<
                (Seq<char>, Seq<char>),
            >::empty()
        }),
{
    reveal_with_fuel(turns_in, 2);
    assert(seq![frame].drop_last() =~= Seq::empty());
}

/// Where every frame has a text that is not blank there is one turn for each, in the frames' order.
pub proof fn law_no_turn_is_lost(frames: Seq<JsonView>, said: Seq<Seq<char>>)
    requires
        said.len() == frames.len(),
        forall|i: int|
            0 <= i < frames.len() ==> (#[trigger] frames[i]).at("payload"@).at("text"@)
                == JsonView::Text(said[i]) && trimmed(said[i]).len() > 0,
    ensures
        turns_in(frames).len() == frames.len(),
        forall|i: int| 0 <= i < frames.len() ==> (#[trigger] turns_in(frames)[i]).0 == said[i],
    decreases frames.len(),
{
    if frames.len() > 0 {
        let before = frames.drop_last();
        let last = frames.last();
        assert forall|i: int| 0 <= i < before.len() implies (#[trigger] before[i]).at(
            "payload"@,
        ).at("text"@) == JsonView::Text(said.drop_last()[i]) && trimmed(said.drop_last()[i]).len()
            > 0 by {
            assert(before[i] == frames[i]);
        }
        law_no_turn_is_lost(before, said.drop_last());
        law_turns_follow_the_frames(before, seq![last]);
        assert(before + seq![last] =~= frames);
        assert(frames[frames.len() - 1] == last);
        let channel = last.at("payload"@).at("channel_id"@).text_or("cli"@);
        law_each_frame_gives_its_turn(last, said.last(), channel);
        assert forall|i: int| 0 <= i < frames.len() implies (#[trigger] turns_in(frames)[i]).0
            == said[i] by {
            if i < before.len() {
                assert(turns_in(frames)[i] == turns_in(before)[i]);
            }
        }
    }
}

/// Draining a tract gives the turns of all its frames, in the order in which they were written.
pub proof fn law_drained_tract_gives_every_turn(
    frames: Seq<Seq<u8>>,
    values: Seq<JsonView>,
    little: bool,
)
    requires
        frames.len() == values.len(),
        forall|i: int|
            0 <= i < frames.len() ==> is_frame(#[trigger] frames[i], little) && frame_value(
                frames[i],
                little,
            ) == Some(values[i]),
    ensures
        turns_in(btf_frames(frames.flatten(), little)) == turns_in(values),
{
    law_every_frame_is_read(frames, values, little);
}

/// The budget counts as spent exactly where the file says that it is critical.
pub proof fn law_spent_is_what_the_file_says(raw: Seq<char>, v: JsonView)
    requires
        json_parsed(raw) == Some(v),
    ensures
        says_critical(Some(raw)) <==> v.at("critical"@) == JsonView::Bool(true),
{
}

/// The log tells when what was sent where, and what came back.
pub proof fn law_log_tells_all(
    ts: Seq<char>,
    sent: Seq<char>,
    channel: Seq<char>,
    response: Seq<char>,
)
    ensures
        log_entry(ts, sent, channel, response).at("ts"@) == JsonView::Float(ts),
        log_entry(ts, sent, channel, response).at("sent"@) == JsonView::Text(sent),
        log_entry(ts, sent, channel, response).at("channel"@) == JsonView::Text(channel),
        log_entry(ts, sent, channel, response).at("response"@) == JsonView::Text(response),
{
    reveal_with_fuel(lookup, 5);
    reveal_strlit("ts");
    reveal_strlit("sent");
    reveal_strlit("channel");
    reveal_strlit("response");
    assert("channel"@.len() == 7 && "response"@.len() == 8 && "sent"@.len() == 4 && "ts"@.len()
        == 2);
}

/// The register tells when what was wanted and by which way it was said, and that nothing has been
/// done about it.
pub proof fn law_register_tells_all(ts: Seq<char>, want: Seq<char>, source: Seq<char>)
    ensures
        want_entry(ts, want, source).at("ts"@) == JsonView::Float(ts),
        want_entry(ts, want, source).at("text"@) == JsonView::Text(want),
        want_entry(ts, want, source).at("source"@) == JsonView::Text(source),
        want_entry(ts, want, source).at("acted"@) == JsonView::Bool(false),
{
    reveal_with_fuel(lookup, 5);
    reveal_strlit("ts");
    reveal_strlit("text");
    reveal_strlit("source");
    reveal_strlit("acted");
    assert("acted"@.len() == 5 && "source"@.len() == 6 && "text"@.len() == 4 && "ts"@.len() == 2);
}

/// Of a long text the log holds the first 500 bytes and no other.
pub proof fn law_long_texts_are_cut(s: Seq<char>)
    requires
        can_be_logged(s),
        encode_utf8(s).len() > 500,
    ensures
        encode_utf8(capped(s)) == encode_utf8(s).take(500),
{
    let bytes = encode_utf8(s);
    encode_utf8_valid_utf8(s);
    valid_utf8_split(bytes, capped_len(s));
    decode_utf8_encode_utf8(bytes.take(capped_len(s)));
    assert(bytes.take(capped_len(s)) =~= bytes.subrange(0, capped_len(s)));
}

} // verus!

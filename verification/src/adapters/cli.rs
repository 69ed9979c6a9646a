//! The command line: each line is a turn.

use crate::json::{lookup, object4, text, Json, JsonView};
use crate::pipeline::{Effect, EffectView, SourceType, TurnContext};
use crate::strings::{trim, trimmed};
use vstd::prelude::*;

verus! {

/// The event that tells of a connection by the command line. `connection_start` is the time as a
/// decimal number of seconds.
pub open spec fn connection_event(user_id: Seq<char>, connection_start: Seq<char>) -> EffectView {
    EffectView::Event {
        event_type: "channel_connection"@,
        payload: JsonView::Object(
            seq![
                ("channel_id"@, JsonView::Text("cli"@)),
                ("channel_type"@, JsonView::Text("cli"@)),
                ("connection_start"@, JsonView::Float(connection_start)),
                ("user_id"@, JsonView::Text(user_id)),
            ],
        ),
    }
}

/// Makes turns from lines.
pub struct CliAdapter {}

impl CliAdapter {
    /// An adapter.
    pub fn new() -> (r: Self) {
        CliAdapter {  }
    }

    /// The turn in a line, and the event to deposit before it. White space alone is no turn: its
    /// response is empty.
    pub fn process_line(&self, line: &str, user_id: &str, connection_start: &str) -> (r: Option<
        (Effect, TurnContext),
    >)
        ensures
            match r {
                Some((event, ctx)) => {
                    &&& trimmed(line@).len() > 0
                    &&& event@ == connection_event(user_id@, connection_start@)
                    &&& ctx.text@ == trimmed(line@)
                    &&& ctx.channel_id@ == "cli"@
                    &&& ctx.user_id@ == user_id@
                    &&& ctx.source is Channel
                },
                None => trimmed(line@).len() == 0,
            },
    {
        let line = trim(line);
        if line.as_str().is_empty() {
            return None;
        }
        let event = Effect::Event {
            event_type: "channel_connection".to_owned(),
            payload: object4(
                "channel_id",
                text("cli"),
                "channel_type",
                text("cli"),
                "connection_start",
                Json::Float(connection_start.to_owned()),
                "user_id",
                text(user_id),
            ),
        };
        let ctx = TurnContext {
            text: line,
            channel_id: "cli".to_owned(),
            user_id: user_id.to_owned(),
            source: SourceType::Channel,
        };
        Some((event, ctx))
    }
}

/// A connection is told with the channel, the user and the time.
pub proof fn law_connection_is_told(user_id: Seq<char>, connection_start: Seq<char>)
    ensures
        connection_event(user_id, connection_start) matches EffectView::Event { event_type, payload }
            && event_type == "channel_connection"@ && payload.at("channel_id"@) == JsonView::Text(
            "cli"@,
        ) && payload.at("channel_type"@) == JsonView::Text("cli"@) && payload.at(
            "connection_start"@,
        ) == JsonView::Float(connection_start) && payload.at("user_id"@) == JsonView::Text(user_id),
{
    reveal_with_fuel(lookup, 5);
    reveal_strlit("channel_id");
    reveal_strlit("channel_type");
    reveal_strlit("connection_start");
    reveal_strlit("user_id");
    assert("channel_id"@.len() == 10 && "channel_type"@.len() == 12 && "connection_start"@.len()
        == 16 && "user_id"@.len() == 7);
}

} // verus!

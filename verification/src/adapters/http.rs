//! The HTTP interface: what each route answers.

use crate::codec::{json_text, quote_json};
use crate::json::{
    array, array1, items_view, lookup, object1, object2, object5, text, Json, JsonView,
};
use crate::pipeline::{PipelineStatus, SourceType, StatusView, TurnContext};
use crate::strings::{concat, concat3, decimal, decimal_text, same};
use vstd::prelude::*;

verus! {

/// What the route for the status answers.
pub open spec fn status_json(status: StatusView) -> JsonView {
    JsonView::Object(
        seq![
            ("anima_alive"@, JsonView::Bool(true)),
            ("last_after_turn"@, JsonView::Text(status.last_after_turn)),
            ("last_tg_verdict"@, JsonView::Text(status.last_tg_verdict)),
            ("stage"@, JsonView::Text(status.stage.label_view())),
            ("stage_state"@, JsonView::Text(status.stage_state.label_view())),
        ],
    )
}

/// What the route for the channels answers: there is one channel, and it is connected.
pub open spec fn channels_json() -> JsonView {
    JsonView::Object(
        seq![
            (
                "channels"@,
                JsonView::Array(
                    seq![
                        JsonView::Object(
                            seq![
                                ("name"@, JsonView::Text("gui"@)),
                                ("status"@, JsonView::Text("connected"@)),
                            ],
                        ),
                    ],
                ),
            ),
        ],
    )
}

/// What the route for connecting a channel again answers: the JSON text of an object that says
/// whether it was done and, where it was not, why.
pub open spec fn reconnect_text(name: Seq<char>) -> Seq<char> {
    if name == "gui"@ {
        "{\"ok\":true}"@
    } else {
        "{\"ok\":false,\"error\":"@ + json_text(
            JsonView::Text("channel '"@ + name + "' not implemented in v1"@),
        ) + "}"@
    }
}

/// The turn that is posted.
pub fn handle_turn(turn_text: String, sender: String) -> (r: TurnContext)
    ensures
        r.text == turn_text,
        r.channel_id@ == "gui"@,
        r.user_id == sender,
        r.source is Channel,
{
    TurnContext {
        text: turn_text,
        channel_id: "gui".to_owned(),
        user_id: sender,
        source: SourceType::Channel,
    }
}

/// What is answered to a turn that was posted.
pub fn turn_response(response: &str) -> (r: Json)
    ensures
        r@ == JsonView::Object(seq![("response"@, JsonView::Text(response@))]),
{
    object1("response", text(response))
}

/// What the route for the status answers.
pub fn handle_status(status: &PipelineStatus) -> (r: Json)
    ensures
        r@ == status_json(status@),
{
    object5(
        "anima_alive",
        Json::Bool(true),
        "last_after_turn",
        text(status.last_after_turn.as_str()),
        "last_tg_verdict",
        text(status.last_tg_verdict.as_str()),
        "stage",
        text(status.stage.label()),
        "stage_state",
        text(status.stage_state.label()),
    )
}

/// What the route for the history answers.
pub fn handle_history(messages: Vec<Json>) -> (r: Json)
    ensures
        r@ == JsonView::Object(seq![("messages"@, JsonView::Array(items_view(messages@)))]),
{
    object1("messages", array(messages))
}

/// What the route for the channels answers.
pub fn handle_channels() -> (r: Json)
    ensures
        r@ == channels_json(),
{
    object1("channels", array1(object2("name", text("gui"), "status", text("connected"))))
}

/// What the route for connecting the channel `name` again answers.
pub fn handle_reconnect(name: &str) -> (r: String)
    ensures
        r@ == reconnect_text(name@),
{
    if same(name, "gui") {
        "{\"ok\":true}".to_owned()
    } else {
        let error = concat3("channel '", name, "' not implemented in v1");
        concat3("{\"ok\":false,\"error\":", quote_json(error.as_str()).as_str(), "}")
    }
}

/// Serves the HTTP interface.
pub struct HttpAdapter {
    pub port: u16,
}

impl HttpAdapter {
    /// An adapter that serves at `port`.
    pub fn new(port: u16) -> (r: Self)
        ensures
            r.port == port,
    {
        HttpAdapter { port }
    }

    /// The address that is served at.
    pub fn address(&self) -> (r: String)
        ensures
            r@ == "127.0.0.1:"@ + decimal(self.port as nat),
    {
        concat("127.0.0.1:", decimal_text(self.port as u64).as_str())
    }
}

/// The status tells the stage and how far it has come, by their names, the last label of the filter,
/// what came of the last end of a turn, and that the gateway is alive.
pub proof fn law_status_is_told_whole(status: StatusView)
    ensures
        status_json(status).at("stage"@) == JsonView::Text(status.stage.label_view()),
        status_json(status).at("stage_state"@) == JsonView::Text(status.stage_state.label_view()),
        status_json(status).at("last_tg_verdict"@) == JsonView::Text(status.last_tg_verdict),
        status_json(status).at("last_after_turn"@) == JsonView::Text(status.last_after_turn),
        status_json(status).at("anima_alive"@) == JsonView::Bool(true),
{
    reveal_with_fuel(lookup, 6);
    reveal_strlit("stage");
    reveal_strlit("stage_state");
    reveal_strlit("last_tg_verdict");
    reveal_strlit("last_after_turn");
    reveal_strlit("anima_alive");
    assert("stage"@.len() == 5 && "stage_state"@.len() == 11 && "last_tg_verdict"@.len() == 15
        && "last_after_turn"@.len() == 15 && "anima_alive"@.len() == 11);
    assert("stage_state"@[0] == 's' && "anima_alive"@[0] == 'a');
    assert("last_tg_verdict"@[5] == 't' && "last_after_turn"@[5] == 'a');
}

/// There is one channel, `gui`, and it is connected.
pub proof fn law_one_channel_is_connected()
    ensures
        channels_json().at("channels"@) matches JsonView::Array(channels) && channels.len() == 1
            && channels[0].at("name"@) == JsonView::Text("gui"@) && channels[0].at("status"@)
            == JsonView::Text("connected"@),
{
    reveal_with_fuel(lookup, 3);
    reveal_strlit("name");
    reveal_strlit("status");
    assert("name"@.len() != "status"@.len());
}

/// Only `gui` can be connected again; for any other channel the answer says that it cannot, and why.
pub proof fn law_other_channels_are_not_connected(name: Seq<char>)
    ensures
        name == "gui"@ ==> reconnect_text(name) == "{\"ok\":true}"@,
        name != "gui"@ ==> reconnect_text(name) == "{\"ok\":false,\"error\":"@ + json_text(
            JsonView::Text("channel '"@ + name + "' not implemented in v1"@),
        ) + "}"@,
{
}

} // verus!

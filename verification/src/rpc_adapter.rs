//! Calls to the bridge process: one JSON text on a line for each request and each response.

use crate::codec::{
    json_read, json_text, lemma_canonical_field, render_json, try_parse_json, value_of,
};
use crate::json::{lookup, object4, text, Json, JsonView};
use crate::strings::{concat, same, trim, trimmed};
use vstd::prelude::*;

verus! {

/// The ids of requests.
pub struct RequestIds {
    pub next: u64,
}

impl RequestIds {
    /// The ids begin with one.
    pub fn new() -> (r: Self)
        ensures
            r.next == 1,
    {
        RequestIds { next: 1 }
    }

    /// The next id. After the largest number the ids begin again with zero.
    pub fn next_id(&mut self) -> (r: u64)
        ensures
            r == old(self).next,
            final(self).next == (if old(self).next == u64::MAX {
                0
            } else {
                (old(self).next + 1) as u64
            }),
    {
        let id: u64 = self.next;
        self.next = id.wrapping_add(1);
        id
    }
}

/// The id of the request numbered `n`, from zero.
pub open spec fn nth_id(n: nat) -> u64
    decreases n,
{
    if n == 0 {
        1
    } else {
        let last = nth_id((n - 1) as nat);
        if last == u64::MAX {
            0
        } else {
            (last + 1) as u64
        }
    }
}

/// Ids count up until the largest number, so that none occurs twice until then.
pub proof fn law_ids_count_up(n: nat)
    requires
        n < u64::MAX,
    ensures
        nth_id(n) == n + 1,
    decreases n,
{
    if n > 0 {
        law_ids_count_up((n - 1) as nat);
    }
}

/// A request to the bridge.
pub open spec fn request(id: u64, method: Seq<char>, params: JsonView) -> JsonView {
    JsonView::Object(
        seq![
            ("id"@, JsonView::Uint(id)),
            ("jsonrpc"@, JsonView::Text("2.0"@)),
            ("method"@, JsonView::Text(method)),
            ("params"@, params),
        ],
    )
}

/// What a line from the bridge says of a call: the result, or what went wrong.
pub open spec fn response_in(line: Seq<char>) -> Result<JsonView, Seq<char>> {
    match json_read(trimmed(line)) {
        Err(e) => Err("Bad bridge response: "@ + e),
        Ok(v) => match v.get("error"@) {
            Some(e) => Err("NG RPC error: "@ + json_text(e)),
            None => Ok(v.at("result"@)),
        },
    }
}

/// What is wrong with the line by which the bridge says that it is ready, if anything is.
pub open spec fn ready_error(line: Seq<char>) -> Option<Seq<char>> {
    match json_read(trimmed(line)) {
        Err(e) => Some("Bad ready signal: "@ + e),
        Ok(v) => if v.at("method"@) == JsonView::Text("ready"@) {
            None
        } else {
            Some("Unexpected ready signal: "@ + line)
        },
    }
}

/// How many times a restart is tried.
pub const RESTARTS: usize = 6;

/// How many seconds to wait before a restart is tried for the time numbered `attempt`, from zero.
pub open spec fn restart_delay(attempt: int) -> Option<u64> {
    if attempt == 0 {
        Some(1)
    } else if attempt == 1 {
        Some(2)
    } else if attempt == 2 {
        Some(4)
    } else if attempt == 3 {
        Some(8)
    } else if attempt == 4 {
        Some(16)
    } else if attempt == 5 {
        Some(30)
    } else {
        None
    }
}

/// The wait doubles from one try to the next, up to thirty seconds; after the last try there is
/// none.
pub proof fn law_restart_backs_off(attempt: int)
    requires
        0 <= attempt,
    ensures
        restart_delay(attempt) is Some <==> attempt < RESTARTS,
        restart_delay(attempt + 1) is None || (restart_delay(attempt) matches Some(d)
            && restart_delay(attempt + 1) matches Some(next) && (next == 2 * d || next == 30)
            && d < next <= 30),
{
}

/// Speaks to the bridge process.
pub struct RpcAdapter {
    pub bridge_path: String,
}

impl RpcAdapter {
    /// The adapter to a bridge whose first line is `ready_line`.
    pub fn new(bridge_path: &str, ready_line: &str) -> (r: Result<Self, String>)
        ensures
            match r {
                Ok(adapter) => ready_error(ready_line@) is None && adapter.bridge_path@
                    == bridge_path@,
                Err(e) => ready_error(ready_line@) == Some(e@),
            },
    {
        match Self::check_ready(ready_line) {
            Some(e) => Err(e),
            None => Ok(RpcAdapter { bridge_path: bridge_path.to_owned() }),
        }
    }

    /// Looks what is wrong with the line by which the bridge says that it is ready.
    pub fn check_ready(ready_line: &str) -> (r: Option<String>)
        ensures
            match r {
                Some(e) => ready_error(ready_line@) == Some(e@),
                None => ready_error(ready_line@) is None,
            },
    {
        match try_parse_json(trim(ready_line).as_str()) {
            Err(e) => Some(concat("Bad ready signal: ", e.as_str())),
            Ok(v) => {
                if let Some(method) = v.opt_text_at("method") {
                    if same(method.as_str(), "ready") {
                        return None;
                    }
                }
                Some(concat("Unexpected ready signal: ", ready_line))
            },
        }
    }

    /// The line that asks the bridge for a call.
    pub fn call(&self, id: u64, method: &str, params: &Json) -> (r: String)
        ensures
            r@ == json_text(value_of(request(id, method@, params@))) + "\n"@,
    {
        let request = object4(
            "id",
            Json::Uint(id),
            "jsonrpc",
            text("2.0"),
            "method",
            text(method),
            "params",
            params.copy(),
        );
        concat(render_json(&request).as_str(), "\n")
    }

    /// What a line from the bridge says of a call.
    pub fn on_response(&self, response_line: &str) -> (r: Result<Json, String>)
        ensures
            match r {
                Ok(v) => response_in(response_line@) == Ok::<JsonView, Seq<char>>(v@),
                Err(e) => response_in(response_line@) == Err::<JsonView, Seq<char>>(e@),
            },
    {
        match try_parse_json(trim(response_line).as_str()) {
            Err(e) => Err(concat("Bad bridge response: ", e.as_str())),
            Ok(v) => {
                proof {
                    lemma_canonical_field(v@, "error"@);
                }
                match v.get("error") {
                    Some(e) => Err(concat("NG RPC error: ", render_json(e).as_str())),
                    None => Ok(v.copy_at("result")),
                }
            },
        }
    }

    /// How many seconds to wait before a restart is tried for the time numbered `attempt`, from
    /// zero; nothing where it is not to be tried again.
    pub fn restart(&self, attempt: usize) -> (r: Option<u64>)
        ensures
            r == restart_delay(attempt as int),
    {
        match attempt {
            0 => Some(1),
            1 => Some(2),
            2 => Some(4),
            3 => Some(8),
            4 => Some(16),
            5 => Some(30),
            _ => None,
        }
    }
}

/// A request names the call and carries its parameters and its id.
pub proof fn law_request_names_the_call(id: u64, method: Seq<char>, params: JsonView)
    ensures
        request(id, method, params).at("jsonrpc"@) == JsonView::Text("2.0"@),
        request(id, method, params).at("id"@) == JsonView::Uint(id),
        request(id, method, params).at("method"@) == JsonView::Text(method),
        request(id, method, params).at("params"@) == params,
{
    reveal_with_fuel(lookup, 5);
    reveal_strlit("jsonrpc");
    reveal_strlit("id");
    reveal_strlit("method");
    reveal_strlit("params");
    assert("id"@.len() == 2 && "jsonrpc"@.len() == 7 && "method"@.len() == 6 && "params"@.len() == 6);
    assert("method"@[0] == 'm' && "params"@[0] == 'p');
}

/// A response gives the result that it holds, unless it holds an error; then it fails with that error,
/// whatever else it holds. A line that is no JSON fails with what is wrong with it.
pub proof fn law_errors_come_before_results(line: Seq<char>, v: JsonView, e: JsonView, bad: Seq<char>)
    ensures
        json_read(trimmed(line)) == Ok::<JsonView, Seq<char>>(v) && v.get("error"@) == Some(e)
            ==> response_in(line) == Err::<JsonView, Seq<char>>("NG RPC error: "@ + json_text(e)),
        json_read(trimmed(line)) == Ok::<JsonView, Seq<char>>(v) && v.get("error"@) is None
            ==> response_in(line) == Ok::<JsonView, Seq<char>>(v.at("result"@)),
        json_read(trimmed(line)) == Err::<JsonView, Seq<char>>(bad) ==> response_in(line) == Err::<
            JsonView,
            Seq<char>,
        >("Bad bridge response: "@ + bad),
{
}

/// The bridge is ready where its first line says so, and in no other case.
pub proof fn law_only_a_ready_bridge_is_taken(line: Seq<char>, v: JsonView, bad: Seq<char>)
    ensures
        json_read(trimmed(line)) == Ok::<JsonView, Seq<char>>(v) ==> (ready_error(line) is None
            <==> v.at("method"@) == JsonView::Text("ready"@)),
        json_read(trimmed(line)) == Ok::<JsonView, Seq<char>>(v) && v.at("method"@)
            != JsonView::Text("ready"@) ==> ready_error(line) == Some(
            "Unexpected ready signal: "@ + line,
        ),
        json_read(trimmed(line)) == Err::<JsonView, Seq<char>>(bad) ==> ready_error(line) == Some(
            "Bad ready signal: "@ + bad,
        ),
{
}

/// The first try comes after one second, and the wait doubles up to the fifth; the sixth, after thirty
/// seconds, is the last.
pub proof fn law_first_wait_is_a_second(attempt: int)
    requires
        0 <= attempt,
    ensures
        restart_delay(0) == Some(1u64),
        attempt < 4 ==> restart_delay(attempt + 1)->0 == 2 * restart_delay(attempt)->0,
        restart_delay(5) == Some(30u64),
        attempt > 5 ==> restart_delay(attempt) is None,
{
}

} // verus!

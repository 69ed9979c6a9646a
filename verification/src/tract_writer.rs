//! What is deposited to the tract: events of the gateway and what it experiences.

use crate::codec::{
    canonical, encode_msgpack, fits, msgpack_bytes, msgpack_parsed, text_before, value_of, MAX_LEVELS,
};
use crate::json::{lookup, object3, text, Json, JsonView};
use crate::strings::concat;
use vstd::prelude::*;
use vstd::slice::slice_to_vec;

verus! {

/// An entry of the tract.
pub enum TractEntry {
    /// An event, with its metadata as MessagePack.
    Outcome { module_id: String, target_id: String, success: bool, metadata: Vec<u8> },
    /// Something that was experienced.
    Experience { source: String, content_type: String, content: Vec<u8> },
}

/// What an entry is, over sequences.
pub enum TractEntryView {
    Outcome { module_id: Seq<char>, target_id: Seq<char>, success: bool, metadata: Seq<u8> },
    Experience { source: Seq<char>, content_type: Seq<char>, content: Seq<u8> },
}

impl View for TractEntry {
    type V = TractEntryView;

    open spec fn view(&self) -> TractEntryView {
        match self {
            TractEntry::Outcome { module_id, target_id, success, metadata } => {
                TractEntryView::Outcome {
                    module_id: module_id@,
                    target_id: target_id@,
                    success: *success,
                    metadata: metadata@,
                }
            },
            TractEntry::Experience { source, content_type, content } => {
                TractEntryView::Experience {
                    source: source@,
                    content_type: content_type@,
                    content: content@,
                }
            },
        }
    }
}

/// The metadata of an event.
pub open spec fn event_metadata(event_type: Seq<char>, payload: JsonView) -> JsonView {
    JsonView::Object(
        seq![
            ("event_type"@, JsonView::Text(event_type)),
            ("module_id"@, JsonView::Text("anima"@)),
            ("payload"@, payload),
        ],
    )
}

/// The metadata of an event with a canonical payload is written the one way there is for it.
pub proof fn lemma_metadata_canonical(event_type: Seq<char>, payload: JsonView)
    requires
        canonical(payload),
    ensures
        canonical(event_metadata(event_type, payload)),
{
    reveal_strlit("event_type");
    reveal_strlit("module_id");
    reveal_strlit("payload");
    reveal_with_fuel(canonical, 2);
    assert(text_before("event_type"@, "module_id"@));
    assert(text_before("event_type"@, "payload"@));
    assert(text_before("module_id"@, "payload"@));
}

/// The entry for an event.
pub open spec fn event_entry(event_type: Seq<char>, payload: JsonView) -> TractEntryView {
    TractEntryView::Outcome {
        module_id: "anima"@,
        target_id: event_type,
        success: true,
        metadata: msgpack_bytes(value_of(event_metadata(event_type, payload))),
    }
}

/// The entry for something that was experienced.
pub open spec fn experience_entry(source: Seq<char>, content: Seq<u8>) -> TractEntryView {
    TractEntryView::Experience { source, content_type: "text"@, content }
}

/// What went wrong, behind what was being done.
pub open spec fn told(doing: Seq<char>, outcome: Result<(), Seq<char>>) -> Result<(), Seq<char>> {
    match outcome {
        Ok(()) => Ok(()),
        Err(e) => Err(doing + e),
    }
}

/// An outcome over sequences.
pub open spec fn outcome_view(outcome: Result<(), String>) -> Result<(), Seq<char>> {
    match outcome {
        Ok(()) => Ok(()),
        Err(e) => Err(e@),
    }
}

/// Makes the entries for a tract file.
pub struct TractWriter {
    pub path: String,
}

impl TractWriter {
    /// A writer for the tract file at `path`.
    pub fn new(path: &str) -> (r: Self)
        ensures
            r.path@ == path@,
    {
        TractWriter { path: path.to_owned() }
    }

    /// The entry for a named event. It fails only where the memory for the metadata cannot be had.
    /// What is read from the metadata is the event.
    pub fn deposit_event(&self, event_type: &str, payload: &Json) -> (r: Result<TractEntry, String>)
        ensures
            match r {
                Ok(entry) => entry@ == event_entry(event_type@, payload@) && (canonical(payload@)
                    && fits(event_metadata(event_type@, payload@), MAX_LEVELS as nat)
                    ==> msgpack_parsed(entry@->metadata) == Some(
                    event_metadata(event_type@, payload@),
                )),
                Err(e) => "msgpack encode failed: "@.is_prefix_of(e@),
            },
    {
        let metadata = object3(
            "event_type",
            text(event_type),
            "module_id",
            text("anima"),
            "payload",
            payload.copy(),
        );
        let encoded = encode_msgpack(&metadata);
        proof {
            if canonical(payload@) {
                lemma_metadata_canonical(event_type@, payload@);
            }
            if encoded is Err {
                let out = "msgpack encode failed: "@ + encoded->Err_0@;
                assert("msgpack encode failed: "@ =~= out.subrange(
                    0,
                    "msgpack encode failed: "@.len() as int,
                ));
            }
        }
        self.event_of(event_type, encoded)
    }

    /// The entry for a named event, given what came of writing its metadata as bytes.
    pub fn event_of(&self, event_type: &str, encoded: Result<Vec<u8>, String>) -> (r: Result<
        TractEntry,
        String,
    >)
        ensures
            match encoded {
                Ok(bytes) => r matches Ok(entry) && entry@ == (TractEntryView::Outcome {
                    module_id: "anima"@,
                    target_id: event_type@,
                    success: true,
                    metadata: bytes@,
                }),
                Err(e) => r matches Err(out) && out@ == "msgpack encode failed: "@ + e@,
            },
    {
        match encoded {
            Ok(bytes) => Ok(
                TractEntry::Outcome {
                    module_id: "anima".to_owned(),
                    target_id: event_type.to_owned(),
                    success: true,
                    metadata: bytes,
                },
            ),
            Err(e) => Err(concat("msgpack encode failed: ", e.as_str())),
        }
    }

    /// The entry for a named event, nothing where there is none to be had: a turn goes on without.
    /// There is none only where the memory for the metadata cannot be had. What is read from the
    /// metadata is the event.
    pub fn deposit_event_silent(&self, event_type: &str, payload: &Json) -> (r: Option<TractEntry>)
        ensures
            r matches Some(entry) ==> entry@ == event_entry(event_type@, payload@) && (canonical(
                payload@,
            ) && fits(event_metadata(event_type@, payload@), MAX_LEVELS as nat) ==> msgpack_parsed(
                entry@->metadata,
            ) == Some(event_metadata(event_type@, payload@))),
    {
        Self::unless_failed(self.deposit_event(event_type, payload))
    }

    /// The entry, given what came of making it; nothing where that failed, whatever went wrong.
    pub fn unless_failed(made: Result<TractEntry, String>) -> (r: Option<TractEntry>)
        ensures
            match made {
                Ok(entry) => r == Some(entry),
                Err(_) => r is None,
            },
    {
        match made {
            Ok(entry) => Some(entry),
            Err(_) => None,
        }
    }

    /// The entry for something that was experienced, such as the bytes of a text.
    pub fn deposit_experience(&self, source: &str, content: &[u8]) -> (r: TractEntry)
        ensures
            r@ == experience_entry(source@, content@),
    {
        TractEntry::Experience {
            source: source.to_owned(),
            content_type: "text".to_owned(),
            content: slice_to_vec(content),
        }
    }

    /// The entry for something that was experienced during a turn.
    pub fn deposit_experience_silent(&self, source: &str, content: &[u8]) -> (r: Option<TractEntry>)
        ensures
            r matches Some(entry) && entry@ == experience_entry(source@, content@),
    {
        Some(self.deposit_experience(source, content))
    }

    /// What came of writing an event's entry, in words.
    pub fn event_outcome(&self, outcome: Result<(), String>) -> (r: Result<(), String>)
        ensures
            outcome_view(r) == told("deposit_event failed: "@, outcome_view(outcome)),
    {
        match outcome {
            Ok(()) => Ok(()),
            Err(e) => Err(concat("deposit_event failed: ", e.as_str())),
        }
    }

    /// What came of writing the entry of an experience, in words.
    pub fn experience_outcome(&self, outcome: Result<(), String>) -> (r: Result<(), String>)
        ensures
            outcome_view(r) == told("deposit_experience failed: "@, outcome_view(outcome)),
    {
        match outcome {
            Ok(()) => Ok(()),
            Err(e) => Err(concat("deposit_experience failed: ", e.as_str())),
        }
    }
}

/// The metadata of an event tell its type, who deposits it and its payload as it is.
pub proof fn law_event_tells_type_and_payload(event_type: Seq<char>, payload: JsonView)
    ensures
        event_metadata(event_type, payload).at("event_type"@) == JsonView::Text(event_type),
        event_metadata(event_type, payload).at("module_id"@) == JsonView::Text("anima"@),
        event_metadata(event_type, payload).at("payload"@) == payload,
        event_entry(event_type, payload) matches TractEntryView::Outcome {
            module_id,
            target_id,
            success,
            ..
        } && module_id == "anima"@ && target_id == event_type && success,
{
    reveal_with_fuel(lookup, 4);
    reveal_strlit("event_type");
    reveal_strlit("module_id");
    reveal_strlit("payload");
    assert("event_type"@.len() == 10 && "module_id"@.len() == 9 && "payload"@.len() == 7);
}

/// What was experienced is deposited as it is, as text, under its source.
pub proof fn law_experience_is_deposited_as_it_is(source: Seq<char>, content: Seq<u8>)
    ensures
        experience_entry(source, content) == (TractEntryView::Experience {
            source,
            content_type: "text"@,
            content,
        }),
{
}

/// What went well is told as it is, and what went wrong is told behind what was being done.
pub proof fn law_failures_are_told(doing: Seq<char>, e: Seq<char>)
    ensures
        told(doing, Ok(())) is Ok,
        told(doing, Err(e)) == Err::<(), Seq<char>>(doing + e),
{
}

} // verus!

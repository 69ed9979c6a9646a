//! The perimeter: every turn is scanned before it is acted upon.

use crate::codec::{json_text, quote_json};
use crate::json::JsonView;
use crate::reply::{TextRequest, TextRequestView};
use crate::strings::{concat, same};
use vstd::prelude::*;

verus! {

/// What the scan of a turn says.
#[derive(Debug, Clone)]
pub struct ScanResult {
    pub is_clean: bool,
    pub sanitized_text: String,
    pub verdict: String,
    pub tg_unavailable: bool,
}

/// What a scan says, over sequences.
pub struct ScanResultView {
    pub is_clean: bool,
    pub sanitized_text: Seq<char>,
    pub verdict: Seq<char>,
    pub tg_unavailable: bool,
}

impl View for ScanResult {
    type V = ScanResultView;

    open spec fn view(&self) -> ScanResultView {
        ScanResultView {
            is_clean: self.is_clean,
            sanitized_text: self.sanitized_text@,
            verdict: self.verdict@,
            tg_unavailable: self.tg_unavailable,
        }
    }
}

/// What came of asking the scanner.
pub enum ScanReply {
    /// It could not be reached.
    Unreachable,
    /// Its answer could not be read.
    Unreadable,
    /// Its answer.
    Answer { verdict: String, sanitized_text: String },
}

/// What came of asking the scanner, over sequences.
pub enum ScanReplyView {
    Unreachable,
    Unreadable,
    Answer { verdict: Seq<char>, sanitized_text: Seq<char> },
}

impl View for ScanReply {
    type V = ScanReplyView;

    open spec fn view(&self) -> ScanReplyView {
        match self {
            ScanReply::Unreachable => ScanReplyView::Unreachable,
            ScanReply::Unreadable => ScanReplyView::Unreadable,
            ScanReply::Answer { verdict, sanitized_text } => ScanReplyView::Answer {
                verdict: verdict@,
                sanitized_text: sanitized_text@,
            },
        }
    }
}

/// What is made of the scanner's reply: without an answer the turn is let through as it is, with
/// a flag; with one it is let through, sanitized, where the verdict is `SAFE` or `SUSPICIOUS`.
pub open spec fn scanned(text: Seq<char>, reply: ScanReplyView) -> ScanResultView {
    match reply {
        ScanReplyView::Unreachable => ScanResultView {
            is_clean: true,
            sanitized_text: text,
            verdict: "TG_UNAVAILABLE"@,
            tg_unavailable: true,
        },
        ScanReplyView::Unreadable => ScanResultView {
            is_clean: true,
            sanitized_text: text,
            verdict: "TG_PARSE_ERROR"@,
            tg_unavailable: true,
        },
        ScanReplyView::Answer { verdict, sanitized_text } => ScanResultView {
            is_clean: verdict == "SAFE"@ || verdict == "SUSPICIOUS"@,
            sanitized_text,
            verdict,
            tg_unavailable: false,
        },
    }
}

/// The request for a scan: its body is the JSON text of an object with a text and a source, in that
/// order.
pub open spec fn scan_request_of(
    base_url: Seq<char>,
    text: Seq<char>,
    source: Seq<char>,
) -> TextRequestView {
    TextRequestView {
        url: base_url + "/scan/text"@,
        body: "{\"text\":"@ + json_text(JsonView::Text(text)) + ",\"source\":"@ + json_text(
            JsonView::Text(source),
        ) + "}"@,
    }
}

/// The way to the scanner.
pub struct TrollGuardBridge {
    pub base_url: String,
}

impl TrollGuardBridge {
    /// The way to the scanner at `base_url`.
    pub fn new(base_url: &str) -> (r: Self)
        ensures
            r.base_url@ == base_url@,
    {
        TrollGuardBridge { base_url: base_url.to_owned() }
    }

    /// The request for a scan of `text`.
    pub fn scan_request(&self, turn_text: &str, source: &str) -> (r: TextRequest)
        ensures
            r@ == scan_request_of(self.base_url@, turn_text@, source@),
    {
        let mut body = concat("{\"text\":", quote_json(turn_text).as_str());
        body.append(",\"source\":");
        body.append(quote_json(source).as_str());
        body.append("}");
        TextRequest { url: concat(self.base_url.as_str(), "/scan/text"), body }
    }

    /// Makes the result of a scan of `text` from the scanner's reply.
    pub fn scan(&self, turn_text: &str, reply: &ScanReply) -> (r: ScanResult)
        ensures
            r@ == scanned(turn_text@, reply@),
    {
        match reply {
            ScanReply::Unreachable => ScanResult {
                is_clean: true,
                sanitized_text: turn_text.to_owned(),
                verdict: "TG_UNAVAILABLE".to_owned(),
                tg_unavailable: true,
            },
            ScanReply::Unreadable => ScanResult {
                is_clean: true,
                sanitized_text: turn_text.to_owned(),
                verdict: "TG_PARSE_ERROR".to_owned(),
                tg_unavailable: true,
            },
            ScanReply::Answer { verdict, sanitized_text } => ScanResult {
                is_clean: same(verdict.as_str(), "SAFE") || same(verdict.as_str(), "SUSPICIOUS"),
                sanitized_text: sanitized_text.clone(),
                verdict: verdict.clone(),
                tg_unavailable: false,
            },
        }
    }
}

/// A turn is held back only by a verdict that the scanner gave; where the scanner is of no use the
/// turn passes unchanged, and the result says so.
pub proof fn law_only_a_verdict_blocks(text: Seq<char>, reply: ScanReplyView)
    ensures
        !scanned(text, reply).is_clean ==> reply is Answer,
        scanned(text, reply).tg_unavailable <==> !(reply is Answer),
        !(reply is Answer) ==> scanned(text, reply).sanitized_text == text,
{
}

/// A verdict lets a turn pass exactly where it is `SAFE` or `SUSPICIOUS`, and what passes is the text
/// that came with it; the verdict is told as it was given.
pub proof fn law_verdict_decides(text: Seq<char>, verdict: Seq<char>, sanitized_text: Seq<char>)
    ensures
        ({
            let scan = scanned(text, ScanReplyView::Answer { verdict, sanitized_text });
            &&& scan.is_clean <==> verdict == "SAFE"@ || verdict == "SUSPICIOUS"@
            &&& scan.sanitized_text == sanitized_text
            &&& scan.verdict == verdict
        }),
{
}

/// What is made of an answer depends on the answer alone, not on the text that was scanned.
pub proof fn law_answer_alone_counts(one: Seq<char>, other: Seq<char>, reply: ScanReplyView)
    requires
        reply is Answer,
    ensures
        scanned(one, reply) == scanned(other, reply),
{
}

/// The scanner is asked for the text as it came in: the request holds it as JSON, and behind it where
/// it comes from.
pub proof fn law_text_is_scanned_as_it_came(
    base_url: Seq<char>,
    text: Seq<char>,
    source: Seq<char>,
)
    ensures
        ({
            let request = scan_request_of(base_url, text, source);
            &&& request.url == base_url + "/scan/text"@
            &&& ("{\"text\":"@ + json_text(JsonView::Text(text))).is_prefix_of(request.body)
            &&& (",\"source\":"@ + json_text(JsonView::Text(source)) + "}"@).is_suffix_of(
                request.body,
            )
            &&& request.body.len() == "{\"text\":"@.len() + json_text(JsonView::Text(text)).len()
                + ",\"source\":"@.len() + json_text(JsonView::Text(source)).len() + "}"@.len()
        }),
{
    let body = scan_request_of(base_url, text, source).body;
    let head = "{\"text\":"@ + json_text(JsonView::Text(text));
    let tail = ",\"source\":"@ + json_text(JsonView::Text(source)) + "}"@;
    assert(head =~= body.subrange(0, head.len() as int));
    assert(tail =~= body.subrange(body.len() - tail.len(), body.len() as int));
}

/// Without an answer the turn passes as it came, and the result says which way the scanner failed.
pub proof fn law_silence_lets_pass(text: Seq<char>)
    ensures
        scanned(text, ScanReplyView::Unreachable) == (ScanResultView {
            is_clean: true,
            sanitized_text: text,
            verdict: "TG_UNAVAILABLE"@,
            tg_unavailable: true,
        }),
        scanned(text, ScanReplyView::Unreadable) == (ScanResultView {
            is_clean: true,
            sanitized_text: text,
            verdict: "TG_PARSE_ERROR"@,
            tg_unavailable: true,
        }),
{
}

} // verus!

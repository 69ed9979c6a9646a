//! Notices for the user: one that waits in the gateway, and one that another process left in a file.

use crate::codec::{json_parsed, parse_json};
use crate::json::JsonView;
use crate::strings::{concat3, occurs_at, occurs_in, opt_str, opt_text};
use vstd::prelude::*;

verus! {

/// Where a notice for the user may be found.
pub enum Notice {
    /// Here it is.
    Pending(String),
    /// Perhaps in the file at this path.
    File(String),
    /// Nowhere.
    Absent,
}

/// Where a notice for the user may be found, over sequences.
pub enum NoticeView {
    Pending(Seq<char>),
    File(Seq<char>),
    Absent,
}

impl View for Notice {
    type V = NoticeView;

    open spec fn view(&self) -> NoticeView {
        match self {
            Notice::Pending(t) => NoticeView::Pending(t@),
            Notice::File(p) => NoticeView::File(p@),
            Notice::Absent => NoticeView::Absent,
        }
    }
}

/// Where a notice is found, given the one that waits and the home directory.
pub open spec fn notice_taken(waiting: Option<Seq<char>>, home: Option<Seq<char>>) -> NoticeView {
    match (waiting, home) {
        (Some(n), _) => NoticeView::Pending(n),
        (None, Some(h)) => NoticeView::File(
            h + "/.et_modules/shared_learning/credit_notice.json"@,
        ),
        (None, None) => NoticeView::Absent,
    }
}

/// The notice in the content of a notice file: the text in the field `text` of the JSON object that
/// it holds.
pub open spec fn notice_in(raw: Seq<char>) -> Option<Seq<char>> {
    match json_parsed(raw) {
        Some(v) => v.at("text"@).as_text(),
        None => None,
    }
}

/// What is made of a notice file, given its content, if it could be read: the notice in it, and
/// whether the file is to be removed. A file that could be read is removed, whatever it holds.
pub open spec fn file_outcome(raw: Option<Seq<char>>) -> (Option<Seq<char>>, bool) {
    match raw {
        Some(raw) => (notice_in(raw), true),
        None => (None, false),
    }
}

/// Takes the content of a notice file, if it could be read, and gives the notice in it and whether
/// the file is to be removed.
pub fn read_credit_notice_file(raw: Option<&str>) -> (r: (Option<String>, bool))
    ensures
        (opt_text(r.0), r.1) == file_outcome(opt_str(raw)),
{
    match raw {
        None => (None, false),
        Some(raw) => match parse_json(raw) {
            Some(v) => (v.opt_text_at("text"), true),
            None => (None, true),
        },
    }
}

/// The answer to a turn: the notice, if there is one, and then the response.
pub open spec fn answer_with(notice: Option<Seq<char>>, response: Seq<char>) -> Seq<char> {
    match notice {
        Some(n) => n + "\n\n"@ + response,
        None => response,
    }
}

/// Puts a notice, if there is one, before a response.
pub fn with_notice(notice: Option<&str>, response: &str) -> (r: String)
    ensures
        r@ == answer_with(opt_str(notice), response@),
{
    match notice {
        Some(n) => concat3(n, "\n\n", response),
        None => response.to_owned(),
    }
}

/// What the response to a turn has become.
pub enum Surfaced {
    /// The answer.
    Answer(String),
    /// A response that waits for the file at this path to be looked at.
    Look { path: String, response: String },
}

/// What the response to a turn has become, over sequences.
pub enum SurfacedView {
    Answer(Seq<char>),
    Look { path: Seq<char>, response: Seq<char> },
}

impl View for Surfaced {
    type V = SurfacedView;

    open spec fn view(&self) -> SurfacedView {
        match self {
            Surfaced::Answer(t) => SurfacedView::Answer(t@),
            Surfaced::Look { path, response } => SurfacedView::Look {
                path: path@,
                response: response@,
            },
        }
    }
}

/// What the response to a turn becomes, given the notice that waits and the home directory.
pub open spec fn surfaced(
    waiting: Option<Seq<char>>,
    home: Option<Seq<char>>,
    response: Seq<char>,
) -> SurfacedView {
    match notice_taken(waiting, home) {
        NoticeView::Pending(n) => SurfacedView::Answer(answer_with(Some(n), response)),
        NoticeView::File(path) => SurfacedView::Look { path, response },
        NoticeView::Absent => SurfacedView::Answer(response),
    }
}

/// Takes the content of the notice file that was to be looked at, if it could be read, onto a
/// response. It gives the answer and whether the file is to be removed.
pub fn surface_file(raw: Option<&str>, response: &str) -> (r: (String, bool))
    ensures
        r.0@ == answer_with(file_outcome(opt_str(raw)).0, response@),
        r.1 == file_outcome(opt_str(raw)).1,
{
    let (notice, remove) = read_credit_notice_file(raw);
    match notice {
        Some(n) => (with_notice(Some(n.as_str()), response), remove),
        None => (with_notice(None, response), remove),
    }
}

/// The notices there are: the one that waits, and the content of the notice file, if there is one.
pub struct Notices {
    pub waiting: Option<Seq<char>>,
    pub file: Option<Seq<char>>,
}

impl Notices {
    /// The notice that a taking gives, and the notices there are then. The file is looked at, and
    /// removed, as is said where the taking does not give the notice itself.
    pub open spec fn take(self, home: Option<Seq<char>>) -> (Option<Seq<char>>, Notices) {
        match notice_taken(self.waiting, home) {
            NoticeView::Pending(n) => (Some(n), Notices { waiting: None, ..self }),
            NoticeView::Absent => (None, Notices { waiting: None, ..self }),
            NoticeView::File(_) => {
                let (notice, removed) = file_outcome(self.file);
                (
                    notice,
                    Notices {
                        waiting: None,
                        file: if removed {
                            None
                        } else {
                            self.file
                        },
                    },
                )
            },
        }
    }
}

/// Each notice is delivered once: the one that waits first, and the file stays as it is; then the
/// one in the file, which is then gone, also where there is no notice in it; then none.
pub proof fn law_notices_are_delivered_once(
    waiting: Seq<char>,
    raw: Seq<char>,
    home: Seq<char>,
)
    ensures
        ({
            let first = Notices { waiting: Some(waiting), file: Some(raw) }.take(Some(home));
            let second = first.1.take(Some(home));
            let third = second.1.take(Some(home));
            &&& first == (Some(waiting), Notices { waiting: None, file: Some(raw) })
            &&& second == (notice_in(raw), Notices { waiting: None, file: None })
            &&& third == (None::<Seq<char>>, Notices { waiting: None, file: None })
        }),
{
}

/// A notice that waits is in the answer to the next turn, before the response, and in that answer
/// alone: it is gone once taken, and the answer after that is made without it.
pub proof fn law_waiting_notice_is_surfaced(
    notice: Seq<char>,
    home: Option<Seq<char>>,
    response: Seq<char>,
    next: Seq<char>,
)
    ensures
        surfaced(Some(notice), home, response) matches SurfacedView::Answer(answer)
            && notice.is_prefix_of(answer) && occurs_in(answer, notice) && response.is_suffix_of(
            answer,
        ),
        surfaced(None, home, next) matches SurfacedView::Answer(answer) ==> answer == next,
{
    let answer = answer_with(Some(notice), response);
    assert(notice =~= answer.subrange(0, notice.len() as int));
    assert(occurs_at(answer, notice, 0));
    assert(response =~= answer.subrange(answer.len() - response.len(), answer.len() as int));
}

/// With a notice the answer is the notice, an empty line, and the response; without one it is the
/// response.
pub proof fn law_notice_stands_before_the_response(notice: Seq<char>, response: Seq<char>)
    ensures
        answer_with(Some(notice), response).len() == notice.len() + 2 + response.len(),
        answer_with(Some(notice), response).take(notice.len() as int) == notice,
        answer_with(Some(notice), response)[notice.len() as int] == '\n',
        answer_with(Some(notice), response)[notice.len() as int + 1] == '\n',
        answer_with(Some(notice), response).skip(notice.len() as int + 2) == response,
        answer_with(None, response) == response,
{
    reveal_strlit("\n\n");
    let whole = answer_with(Some(notice), response);
    assert(whole.take(notice.len() as int) =~= notice);
    assert(whole[notice.len() as int] == "\n\n"@[0]);
    assert(whole[notice.len() as int + 1] == "\n\n"@[1]);
    assert(whole.skip(notice.len() as int + 2) =~= response);
}

/// A notice that waits comes before one in a file; without one that waits the file below the home
/// directory is looked at, and without a home directory nothing is.
pub proof fn law_waiting_notice_comes_first(
    notice: Seq<char>,
    home: Seq<char>,
    other: Option<Seq<char>>,
    response: Seq<char>,
)
    ensures
        notice_taken(Some(notice), other) == NoticeView::Pending(notice),
        notice_taken(None, Some(home)) == NoticeView::File(
            home + "/.et_modules/shared_learning/credit_notice.json"@,
        ),
        notice_taken(None, None) is Absent,
        surfaced(None, Some(home), response) == (SurfacedView::Look {
            path: home + "/.et_modules/shared_learning/credit_notice.json"@,
            response,
        }),
        surfaced(None, None, response) == SurfacedView::Answer(response),
        surfaced(Some(notice), other, response) is Answer,
{
}

/// A notice file gives the text that it holds, and is removed once it could be read, whatever it holds;
/// a file that could not be read gives nothing and stays.
pub proof fn law_notice_file_gives_its_text(raw: Seq<char>, v: JsonView, notice: Seq<char>)
    ensures
        json_parsed(raw) == Some(v) && v.at("text"@) == JsonView::Text(notice) ==> file_outcome(
            Some(raw),
        ) == (Some(notice), true),
        json_parsed(raw) == Some(v) && !(v.at("text"@) is Text) ==> file_outcome(Some(raw)) == (
            None::<Seq<char>>,
            true,
        ),
        json_parsed(raw) is None ==> file_outcome(Some(raw)) == (None::<Seq<char>>, true),
        file_outcome(None) == (None::<Seq<char>>, false),
{
}

} // verus!

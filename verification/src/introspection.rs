//! What the gateway tells the agent of its own state: how large its memory is, and what it has been
//! doing lately.

use crate::codec::{json_parsed, parse_json};
use crate::json::{items_view, lemma_items_push, Json, JsonView};
use crate::reply::{Reply, ReplyView};
use crate::strings::{
    concat, decimal, decimal_text, join, joined, law_text_is_split_at_separators,
    lemma_texts_push, slice, split, split_on, texts,
};
use vstd::prelude::*;
use vstd::utf8::encode_utf8;

verus! {

/// `a` comes before `b` in the order of bytes.
pub open spec fn bytes_before(a: Seq<u8>, b: Seq<u8>) -> bool
    decreases a.len(),
{
    if b.len() == 0 {
        false
    } else if a.len() == 0 {
        true
    } else if a[0] == b[0] {
        bytes_before(a.drop_first(), b.drop_first())
    } else {
        a[0] < b[0]
    }
}

/// What comes before something comes before all that this comes before.
proof fn lemma_bytes_before_transitive(a: Seq<u8>, b: Seq<u8>, c: Seq<u8>)
    requires
        bytes_before(a, b),
        bytes_before(b, c),
    ensures
        bytes_before(a, c),
    decreases a.len(),
{
    if a.len() > 0 && a[0] == b[0] && b[0] == c[0] {
        lemma_bytes_before_transitive(a.drop_first(), b.drop_first(), c.drop_first());
    }
}

/// A file of that name records activity.
pub open spec fn is_activity_log(name: Seq<u8>) -> bool {
    &&& encode_utf8("bunyan"@).is_prefix_of(name)
    &&& encode_utf8(".jsonl"@).is_suffix_of(name)
}

/// Whether `a` comes before `b` in the order of bytes.
fn comes_before(a: &Vec<u8>, b: &Vec<u8>) -> (r: bool)
    ensures
        r == bytes_before(a@, b@),
{
    let mut i: usize = 0;
    assert(a@.skip(0) =~= a@);
    assert(b@.skip(0) =~= b@);
    loop
        invariant
            i <= a@.len(),
            i <= b@.len(),
            bytes_before(a@, b@) == bytes_before(a@.skip(i as int), b@.skip(i as int)),
        decreases a@.len() - i,
    {
        if i == b.len() {
            return false;
        }
        if i == a.len() {
            return true;
        }
        if a[i] != b[i] {
            return a[i] < b[i];
        }
        assert(a@.skip(i as int).drop_first() =~= a@.skip(i + 1));
        assert(b@.skip(i as int).drop_first() =~= b@.skip(i + 1));
        i += 1;
    }
}

/// Whether `part` stands in `name` at `at`.
fn stands_at(name: &Vec<u8>, part: &[u8], at: usize) -> (r: bool)
    requires
        at + part@.len() <= name@.len(),
    ensures
        r == (name@.subrange(at as int, at + part@.len()) == part@),
{
    let mut i: usize = 0;
    while i < part.len()
        invariant
            at + part@.len() <= name.len(),
            i <= part@.len(),
            forall|j: int| 0 <= j < i ==> name@[at + j] == part@[j],
        decreases part@.len() - i,
    {
        if name[at + i] != part[i] {
            assert(name@.subrange(at as int, at + part@.len())[i as int] != part@[i as int]);
            return false;
        }
        i += 1;
    }
    assert(name@.subrange(at as int, at + part@.len()) =~= part@);
    true
}

/// Whether a file of that name records activity.
pub fn names_activity_log(name: &Vec<u8>) -> (r: bool)
    ensures
        r == is_activity_log(name@),
{
    let prefix = "bunyan".as_bytes();
    let suffix = ".jsonl".as_bytes();
    if name.len() < prefix.len() || name.len() < suffix.len() {
        return false;
    }
    stands_at(name, prefix, 0) && stands_at(name, suffix, name.len() - suffix.len())
}

/// The files that record activity among `names`, by their places, the last name first.
pub fn activity_logs(names: &Vec<Vec<u8>>) -> (r: Vec<usize>)
    ensures
        r@.no_duplicates(),
        forall|k: usize|
            r@.contains(k) <==> k < names@.len() && is_activity_log(#[trigger] names@[k as int]@),
        forall|i: int, j: int|
            0 <= i < j < r@.len() ==> !bytes_before(
                names@[#[trigger] r@[i] as int]@,
                names@[#[trigger] r@[j] as int]@,
            ),
{
    let mut out: Vec<usize> = Vec::new();
    let mut k: usize = 0;
    while k < names.len()
        invariant
            k <= names@.len(),
            out@.no_duplicates(),
            forall|m: usize|
                out@.contains(m) <==> m < k && is_activity_log(#[trigger] names@[m as int]@),
            forall|i: int| 0 <= i < out@.len() ==> #[trigger] out@[i] < k,
            forall|i: int, j: int|
                0 <= i < j < out@.len() ==> !bytes_before(
                    names@[#[trigger] out@[i] as int]@,
                    names@[#[trigger] out@[j] as int]@,
                ),
        decreases names@.len() - k,
    {
        if names_activity_log(&names[k]) {
            let ghost before = out@;
            let mut p: usize = 0;
            while p < out.len() && !comes_before(&names[out[p]], &names[k])
                invariant
                    k < names@.len(),
                    p <= out@.len(),
                    out@ == before,
                    forall|i: int| 0 <= i < out@.len() ==> #[trigger] out@[i] < k,
                    forall|i: int|
                        0 <= i < p ==> !bytes_before(
                            names@[#[trigger] out@[i] as int]@,
                            names@[k as int]@,
                        ),
                decreases out@.len() - p,
            {
                p += 1;
            }
            out.insert(p, k);
            proof {
                lemma_inserted(names@, before, k, p as int);
            }
        }
        k += 1;
    }
    out
}

/// A place put before the first of a lesser name leaves the names in order.
proof fn lemma_inserted(names: Seq<Vec<u8>>, before: Seq<usize>, k: usize, p: int)
    requires
        k < names.len(),
        0 <= p <= before.len(),
        is_activity_log(names[k as int]@),
        before.no_duplicates(),
        forall|i: int| 0 <= i < before.len() ==> #[trigger] before[i] < k,
        forall|m: usize|
            before.contains(m) <==> m < k && is_activity_log(#[trigger] names[m as int]@),
        forall|i: int, j: int|
            0 <= i < j < before.len() ==> !bytes_before(
                names[#[trigger] before[i] as int]@,
                names[#[trigger] before[j] as int]@,
            ),
        forall|i: int|
            0 <= i < p ==> !bytes_before(names[#[trigger] before[i] as int]@, names[k as int]@),
        p < before.len() ==> bytes_before(names[before[p] as int]@, names[k as int]@),
    ensures
        ({
            let after = before.insert(p, k);
            &&& after.no_duplicates()
            &&& forall|i: int| 0 <= i < after.len() ==> #[trigger] after[i] < k + 1
            &&& forall|m: usize|
                after.contains(m) <==> m < k + 1 && is_activity_log(#[trigger] names[m as int]@)
            &&& forall|i: int, j: int|
                0 <= i < j < after.len() ==> !bytes_before(
                    names[#[trigger] after[i] as int]@,
                    names[#[trigger] after[j] as int]@,
                )
        }),
{
    let after = before.insert(p, k);
    assert forall|m: usize|
        after.contains(m) <==> m < k + 1 && is_activity_log(#[trigger] names[m as int]@) by {
        if after.contains(m) {
            let i = choose|i: int| 0 <= i < after.len() && after[i] == m;
            if i < p {
                assert(before[i] == m);
                assert(before.contains(m));
            } else if i > p {
                assert(before[i - 1] == m);
                assert(before.contains(m));
            }
        }
        if m < k && is_activity_log(names[m as int]@) {
            assert(before.contains(m));
            let i = choose|i: int| 0 <= i < before.len() && before[i] == m;
            if i < p {
                assert(after[i] == m);
            } else {
                assert(after[i + 1] == m);
            }
        }
        if m == k {
            assert(after[p] == k);
        }
    }
    assert forall|i: int, j: int| 0 <= i < j < after.len() implies !bytes_before(
        names[#[trigger] after[i] as int]@,
        names[#[trigger] after[j] as int]@,
    ) by {
        if i == p {
            assert(after[j] == before[j - 1]);
            if bytes_before(names[k as int]@, names[before[j - 1] as int]@) {
                lemma_bytes_before_transitive(
                    names[before[p] as int]@,
                    names[k as int]@,
                    names[before[j - 1] as int]@,
                );
                if p == j - 1 {
                    lemma_not_before_itself(names[before[p] as int]@);
                }
            }
        } else if j == p {
            assert(after[i] == before[i]);
        } else {
            let a = if i < p {
                i
            } else {
                i - 1
            };
            let b = if j < p {
                j
            } else {
                j - 1
            };
            assert(after[i] == before[a]);
            assert(after[j] == before[b]);
        }
    }
}

/// Nothing comes before itself.
proof fn lemma_not_before_itself(a: Seq<u8>)
    ensures
        !bytes_before(a, a),
    decreases a.len(),
{
    if a.len() > 0 {
        lemma_not_before_itself(a.drop_first());
    }
}

/// `line` without the carriage return at its end.
pub open spec fn without_return(line: Seq<char>) -> Seq<char> {
    if line.len() > 0 && line.last() == '\r' {
        line.drop_last()
    } else {
        line
    }
}

/// The lines of `s`: a line ends with a line feed, before which a carriage return may stand; what
/// follows the last line feed is a line unless it is empty.
pub open spec fn lines_of(s: Seq<char>) -> Seq<Seq<char>> {
    let pieces = split_on(s, '\n');
    let ended = pieces.drop_last();
    Seq::new(ended.len(), |i: int| without_return(ended[i])) + (if pieces.last().len() > 0 {
        seq![pieces.last()]
    } else {
        Seq::empty()
    })
}

/// The values on those of `lines` that are JSON, in order.
pub open spec fn values_on(lines: Seq<Seq<char>>) -> Seq<JsonView>
    decreases lines.len(),
{
    if lines.len() == 0 {
        Seq::empty()
    } else {
        let before = values_on(lines.drop_last());
        match json_parsed(lines.last()) {
            Some(v) => before.push(v),
            None => before,
        }
    }
}

/// The events that a file with that content records, oldest first.
pub open spec fn events_in(content: Seq<char>) -> Seq<JsonView> {
    values_on(lines_of(content))
}

/// There is always a piece.
proof fn lemma_split_is_not_empty(s: Seq<char>, sep: char)
    ensures
        split_on(s, sep).len() > 0,
    decreases s.len(),
{
    if s.len() > 0 {
        lemma_split_is_not_empty(s.drop_last(), sep);
    }
}

/// The lines of a text.
pub fn lines(s: &str) -> (r: Vec<String>)
    ensures
        texts(r@) == lines_of(s@),
{
    let mut pieces = split(s, '\n');
    let ghost all = texts(pieces@);
    proof {
        lemma_split_is_not_empty(s@, '\n');
    }
    let last = match pieces.pop() {
        Some(last) => last,
        None => String::new(),
    };
    assert(texts(pieces@) =~= all.drop_last());
    let ghost ended = all.drop_last();
    let ghost stripped = Seq::new(ended.len(), |i: int| without_return(ended[i]));
    let mut out: Vec<String> = Vec::new();
    let mut i: usize = 0;
    while i < pieces.len()
        invariant
            i <= pieces@.len(),
            texts(pieces@) == ended,
            stripped == Seq::new(ended.len(), |i: int| without_return(ended[i])),
            texts(out@) == stripped.take(i as int),
        decreases pieces@.len() - i,
    {
        broadcast use lemma_texts_push;

        let line = pieces[i].as_str();
        assert(line@ == ended[i as int]);
        let total: usize = line.unicode_len();
        let ghost before = texts(out@);
        if total > 0 && line.get_char(total - 1) == '\r' {
            out.push(slice(line, 0, total - 1));
            assert(line@.subrange(0, total - 1) =~= line@.drop_last());
        } else {
            out.push(line.to_owned());
        }
        assert(texts(out@) == before.push(stripped[i as int]));
        assert(texts(out@) =~= stripped.take(i + 1));
        i += 1;
    }
    assert(texts(out@) =~= stripped);
    if !last.as_str().is_empty() {
        out.push(last);
    }
    assert(texts(out@) =~= lines_of(s@));
    out
}

/// The events that a file with that content records, oldest first.
pub fn parse_events(content: &str) -> (r: Vec<Json>)
    ensures
        items_view(r@) == events_in(content@),
{
    let all = lines(content);
    let mut out: Vec<Json> = Vec::new();
    let mut i: usize = 0;
    assert(items_view(out@) =~= values_on(texts(all@).take(0)));
    while i < all.len()
        invariant
            i <= all@.len(),
            items_view(out@) == values_on(texts(all@).take(i as int)),
        decreases all@.len() - i,
    {
        broadcast use lemma_items_push;

        assert(texts(all@).take(i + 1).drop_last() =~= texts(all@).take(i as int));
        let ghost before = items_view(out@);
        if let Some(v) = parse_json(all[i].as_str()) {
            out.push(v);
            assert(items_view(out@) == before.push(v@));
        }
        i += 1;
    }
    assert(texts(all@).take(i as int) =~= texts(all@));
    out
}

/// The last `n` of `events`, all of them where there are no more.
pub open spec fn last_events(events: Seq<JsonView>, n: nat) -> Seq<JsonView> {
    if events.len() > n {
        events.skip(events.len() - n)
    } else {
        events
    }
}

/// The newest events, gathered file by file, the newest file first.
pub struct ActivityTail {
    /// What has been gathered, oldest first.
    pub events: Vec<Json>,
    /// How many events are wanted.
    pub wanted: usize,
}

impl ActivityTail {
    /// Nothing has been gathered of `wanted` events.
    pub fn new(wanted: usize) -> (r: Self)
        ensures
            items_view(r.events@) == Seq::<JsonView>::empty(),
            r.wanted == wanted,
    {
        let r = ActivityTail { events: Vec::new(), wanted };
        assert(items_view(r.events@) =~= Seq::<JsonView>::empty());
        r
    }

    /// Takes the content of the next older file, and tells whether that is enough.
    pub fn take_file(&mut self, content: &str) -> (r: bool)
        ensures
            items_view(final(self).events@) == events_in(content@) + items_view(old(self).events@),
            final(self).wanted == old(self).wanted,
            r == (items_view(final(self).events@).len() >= final(self).wanted),
    {
        let mut gathered = parse_events(content);
        let ghost older = gathered@;
        let ghost newer = self.events@;
        gathered.append(&mut self.events);
        assert(items_view(gathered@) =~= items_view(older) + items_view(newer));
        self.events = gathered;
        self.events.len() >= self.wanted
    }

    /// The events that were wanted, oldest first.
    pub fn finish(self) -> (r: Vec<Json>)
        ensures
            items_view(r@) == last_events(items_view(self.events@), self.wanted as nat),
    {
        let mut events = self.events;
        let total: usize = events.len();
        if total > self.wanted {
            let kept = events.split_off(total - self.wanted);
            assert(items_view(kept@) =~= last_events(
                items_view(self.events@),
                self.wanted as nat,
            ));
            kept
        } else {
            events
        }
    }
}

/// Once enough has been gathered, older files make no difference.
pub proof fn law_enough_is_enough(gathered: Seq<JsonView>, older: Seq<JsonView>, wanted: nat)
    requires
        gathered.len() >= wanted,
    ensures
        last_events(older + gathered, wanted) == last_events(gathered, wanted),
        last_events(gathered, wanted).len() == wanted,
{
    assert(last_events(older + gathered, wanted) =~= last_events(gathered, wanted));
}

/// The number in the field `key`, zero where there is none.
pub open spec fn count_at(v: JsonView, key: Seq<char>) -> u64 {
    match v.at(key) {
        JsonView::Uint(n) => n,
        _ => 0,
    }
}

/// The summaries of those of `events` that have one, in order.
pub open spec fn summaries(events: Seq<JsonView>) -> Seq<Seq<char>>
    decreases events.len(),
{
    if events.len() == 0 {
        Seq::empty()
    } else {
        let before = summaries(events.drop_last());
        match events.last().at("summary"@) {
            JsonView::Text(t) => before.push(t),
            _ => before,
        }
    }
}

/// The line on the size of the memory, if anything is known of it.
pub open spec fn substrate_lines(stats: JsonView) -> Seq<Seq<char>> {
    if stats is Null {
        Seq::empty()
    } else {
        seq![
            "[Syl substrate] "@ + decimal(count_at(stats, "nodes"@) as nat) + " nodes, "@ + decimal(
                count_at(stats, "synapses"@) as nat,
            ) + " synapses"@,
        ]
    }
}

/// The line on recent activity, if there was any.
pub open spec fn activity_lines(events: Seq<JsonView>) -> Seq<Seq<char>> {
    if summaries(events).len() == 0 {
        Seq::empty()
    } else {
        seq!["[Recent activity] "@ + joined(summaries(events), " | "@)]
    }
}

/// What the dashboard's reply says; nothing where it does not say anything.
pub open spec fn stats_in(reply: ReplyView) -> JsonView {
    match reply.json() {
        Some(v) => v,
        None => JsonView::Null,
    }
}

/// What the agent is told of its own state.
pub struct IntrospectionRelay {
    pub ces_url: String,
    pub shared_learning_dir: String,
}

impl IntrospectionRelay {
    /// A relay that asks the dashboard at `ces_url` and looks into the shared directory.
    pub fn new(ces_url: &str, shared_learning_dir: &str) -> (r: Self)
        ensures
            r.ces_url@ == ces_url@,
            r.shared_learning_dir@ == shared_learning_dir@,
    {
        IntrospectionRelay {
            ces_url: ces_url.to_owned(),
            shared_learning_dir: shared_learning_dir.to_owned(),
        }
    }

    /// Where the dashboard is asked.
    pub fn stats_url(&self) -> (r: String)
        ensures
            r@ == self.ces_url@ + "/stats"@,
    {
        concat(self.ces_url.as_str(), "/stats")
    }

    /// What the dashboard's reply says.
    pub fn fetch_ces_snapshot(&self, reply: &Reply) -> (r: Json)
        ensures
            r@ == stats_in(reply@),
    {
        match reply.json() {
            Some(v) => v,
            None => Json::Null,
        }
    }

    /// The last `n` events that files with these contents record, the newest file first. A file
    /// that could not be read has no content.
    pub fn read_bunyan_events(&self, contents: &Vec<Option<String>>, n: usize) -> (r: Vec<Json>)
        ensures
            items_view(r@) == last_events(events_of_all(contents@), n as nat),
    {
        let mut tail = ActivityTail::new(n);
        let mut i: usize = 0;
        assert(events_of_all(contents@.take(0)) =~= Seq::empty());
        assert(contents@.take(contents@.len() as int) =~= contents@);
        while i < contents.len()
            invariant_except_break
                i <= contents@.len(),
                contents@.take(contents@.len() as int) == contents@,
                tail.wanted == n,
                items_view(tail.events@) == events_of_all(contents@.take(i as int)),
            ensures
                tail.wanted == n,
                last_events(items_view(tail.events@), n as nat) == last_events(
                    events_of_all(contents@),
                    n as nat,
                ),
            decreases contents@.len() - i,
        {
            assert(contents@.take(i + 1).drop_last() =~= contents@.take(i as int));
            if let Some(content) = &contents[i] {
                let enough = tail.take_file(content.as_str());
                if enough {
                    proof {
                        lemma_events_of_more(contents@, i + 1);
                        let older = events_of_all(contents@).take(
                            events_of_all(contents@).len() - items_view(tail.events@).len(),
                        );
                        law_enough_is_enough(items_view(tail.events@), older, n as nat);
                        assert(events_of_all(contents@) =~= older + items_view(tail.events@));
                    }
                    break;
                }
            } else {
                assert(events_of_all(contents@.take(i + 1)) =~= events_of_all(
                    contents@.take(i as int),
                ));
            }
            i += 1;
        }
        tail.finish()
    }

    /// Puts into words how large the memory is and what the agent has been doing lately.
    pub fn format_context(&self, stats: &Json, events: &Vec<Json>) -> (r: String)
        ensures
            r@ == joined(
                substrate_lines(stats@) + activity_lines(items_view(events@)),
                "\n"@,
            ),
    {
        let mut parts: Vec<String> = Vec::new();
        match stats {
            Json::Null => {},
            _ => {
                let mut line = "[Syl substrate] ".to_owned();
                line.append(decimal_text(Self::count(stats, "nodes")).as_str());
                line.append(" nodes, ");
                line.append(decimal_text(Self::count(stats, "synapses")).as_str());
                line.append(" synapses");
                parts.push(line);
            },
        }
        assert(texts(parts@) =~= substrate_lines(stats@));
        let narratives = Self::summaries_of(events);
        assert(texts(narratives@).len() == narratives@.len());
        if narratives.len() > 0 {
            parts.push(concat("[Recent activity] ", join(&narratives, " | ").as_str()));
        }
        assert(texts(parts@) =~= substrate_lines(stats@) + activity_lines(items_view(events@)));
        join(&parts, "\n")
    }

    /// The number in the field `key`, zero where there is none.
    fn count(v: &Json, key: &str) -> (r: u64)
        ensures
            r == count_at(v@, key@),
    {
        match v.get(key) {
            Some(Json::Uint(n)) => *n,
            _ => 0,
        }
    }

    /// The summaries of those of `events` that have one, in order.
    fn summaries_of(events: &Vec<Json>) -> (r: Vec<String>)
        ensures
            texts(r@) == summaries(items_view(events@)),
    {
        let mut out: Vec<String> = Vec::new();
        let mut i: usize = 0;
        let ghost all = items_view(events@);
        assert(texts(out@) =~= summaries(all.take(0)));
        while i < events.len()
            invariant
                i <= events@.len(),
                all == items_view(events@),
                texts(out@) == summaries(all.take(i as int)),
            decreases events@.len() - i,
        {
            broadcast use lemma_texts_push;

            assert(all.take(i + 1).drop_last() =~= all.take(i as int));
            let ghost before = texts(out@);
            if let Some(t) = events[i].opt_text_at("summary") {
                out.push(t);
                assert(texts(out@) == before.push(t@));
            }
            i += 1;
        }
        assert(all.take(i as int) =~= all);
        out
    }
}

/// The events that files with these contents record, oldest first, where the newest file comes
/// first.
pub open spec fn events_of_all(contents: Seq<Option<String>>) -> Seq<JsonView>
    decreases contents.len(),
{
    if contents.len() == 0 {
        Seq::empty()
    } else {
        (match contents.last() {
            Some(content) => events_in(content@),
            None => Seq::empty(),
        }) + events_of_all(contents.drop_last())
    }
}

/// Older files add older events.
proof fn lemma_events_of_more(contents: Seq<Option<String>>, k: int)
    requires
        0 <= k <= contents.len(),
    ensures
        events_of_all(contents.take(k)).is_suffix_of(events_of_all(contents)),
    decreases contents.len() - k,
{
    let part = events_of_all(contents.take(k));
    let all = events_of_all(contents);
    if k == contents.len() {
        assert(contents.take(k) =~= contents);
        assert(all =~= all.subrange(0, all.len() as int));
    } else {
        lemma_events_of_more(contents, k + 1);
        let more = events_of_all(contents.take(k + 1));
        assert(contents.take(k + 1).drop_last() =~= contents.take(k));
        let d = all.len() - part.len();
        assert forall|i: int| 0 <= i < part.len() implies part[i] == all[d + i] by {
            let e = more.len() - part.len();
            assert(more[e + i] == part[i]);
            assert(more[e + i] == all.subrange(all.len() - more.len(), all.len() as int)[e + i]);
        }
        assert(part =~= all.subrange(d, all.len() as int));
    }
}

/// The first byte in which two names differ decides which comes first, and the shorter comes first
/// where there is none; of two names that differ one comes before the other and not the other way
/// round.
pub proof fn law_first_difference_decides(
    front: Seq<u8>,
    x: u8,
    y: u8,
    a: Seq<u8>,
    b: Seq<u8>,
)
    ensures
        x < y ==> bytes_before(front + seq![x] + a, front + seq![y] + b) && !bytes_before(
            front + seq![y] + b,
            front + seq![x] + a,
        ),
        bytes_before(front, front + seq![x] + a) && !bytes_before(front + seq![x] + a, front),
        !bytes_before(front, front),
    decreases front.len(),
{
    let p = front + seq![x] + a;
    let q = front + seq![y] + b;
    if front.len() > 0 {
        law_first_difference_decides(front.drop_first(), x, y, a, b);
        assert(p.drop_first() =~= front.drop_first() + seq![x] + a);
        assert(q.drop_first() =~= front.drop_first() + seq![y] + b);
        assert(p[0] == front[0] && q[0] == front[0]);
    } else {
        assert(p[0] == x && q[0] == y);
    }
}

/// A name that begins with `bunyan` and ends with `.jsonl` names a log of activity.
pub proof fn law_activity_logs_go_by_name(middle: Seq<u8>)
    ensures
        is_activity_log(encode_utf8("bunyan"@) + middle + encode_utf8(".jsonl"@)),
        forall|name: Seq<u8>|
            #![trigger is_activity_log(name)]
            is_activity_log(name) <==> encode_utf8("bunyan"@).is_prefix_of(name) && encode_utf8(
                ".jsonl"@,
            ).is_suffix_of(name),
{
    let head = encode_utf8("bunyan"@);
    let tail = encode_utf8(".jsonl"@);
    let name = head + middle + tail;
    assert(head =~= name.subrange(0, head.len() as int));
    assert(tail =~= name.subrange(name.len() - tail.len(), name.len() as int));
}

/// A line ends with a line feed, before which a carriage return may stand; what follows is lines of its
/// own. What stands behind the last line feed is a line where it is not empty.
pub proof fn law_lines_end_with_a_line_feed(line: Seq<char>, rest: Seq<char>)
    requires
        !line.contains('\n'),
    ensures
        !(line.len() > 0 && line.last() == '\r') ==> lines_of(line + seq!['\n'] + rest) == seq![line]
            + lines_of(rest),
        lines_of(line + seq!['\r'] + seq!['\n'] + rest) == seq![line] + lines_of(rest),
        line.len() > 0 ==> lines_of(line) == seq![line],
        lines_of(Seq::empty()) == Seq::<Seq<char>>::empty(),
{
    law_text_is_split_at_separators(line, rest, '\n');
    lemma_split_is_not_empty(rest, '\n');
    lemma_first_line(line, rest);
    let returned = line + seq!['\r'];
    assert(!returned.contains('\n')) by {
        assert forall|i: int| 0 <= i < returned.len() implies returned[i] != '\n' by {
            if i < line.len() {
                assert(returned[i] == line[i]);
            }
        }
    }
    law_text_is_split_at_separators(returned, rest, '\n');
    lemma_first_line(returned, rest);
    assert(returned.drop_last() =~= line);
    assert(lines_of(line) =~= (if line.len() > 0 {
        seq![line]
    } else {
        Seq::empty()
    }));
    assert(lines_of(Seq::empty()) =~= Seq::<Seq<char>>::empty());
}

/// The first line of a text comes before the lines of the rest.
proof fn lemma_first_line(line: Seq<char>, rest: Seq<char>)
    requires
        split_on(line + seq!['\n'] + rest, '\n') == seq![line] + split_on(rest, '\n'),
        split_on(rest, '\n').len() > 0,
    ensures
        lines_of(line + seq!['\n'] + rest) == seq![without_return(line)] + lines_of(rest),
{
    let pieces = seq![line] + split_on(rest, '\n');
    assert(pieces.last() == split_on(rest, '\n').last());
    assert(pieces.drop_last() =~= seq![line] + split_on(rest, '\n').drop_last());
    assert(lines_of(line + seq!['\n'] + rest) =~= seq![without_return(line)] + lines_of(rest));
}

/// The values on lines that follow one another are those on the first and then those on the others;
/// a line gives its value where it is JSON and nothing where it is not.
pub proof fn law_values_follow_the_lines(a: Seq<Seq<char>>, b: Seq<Seq<char>>, line: Seq<char>)
    ensures
        values_on(a + b) == values_on(a) + values_on(b),
        json_parsed(line) matches Some(v) ==> values_on(seq![line]) == seq![v],
        json_parsed(line) is None ==> values_on(seq![line]) == Seq::<JsonView>::empty(),
    decreases b.len(),
{
    reveal_with_fuel(values_on, 2);
    assert(seq![line].drop_last() =~= Seq::<Seq<char>>::empty());
    assert(json_parsed(line) matches Some(v) ==> values_on(seq![line]) =~= seq![v]);
    if b.len() == 0 {
        assert(a + b =~= a);
        assert(values_on(a) + values_on(b) =~= values_on(a));
    } else {
        law_values_follow_the_lines(a, b.drop_last(), line);
        assert((a + b).drop_last() =~= a + b.drop_last());
        assert(values_on(a + b) =~= values_on(a) + values_on(b));
    }
}

/// An event that is written on a line of its own is read, before the events on the lines behind it; a
/// line that is no JSON costs nothing but itself.
pub proof fn law_written_events_are_read(line: Seq<char>, rest: Seq<char>)
    requires
        !line.contains('\n'),
        !(line.len() > 0 && line.last() == '\r'),
    ensures
        json_parsed(line) matches Some(v) ==> events_in(line + seq!['\n'] + rest) == seq![v]
            + events_in(rest),
        json_parsed(line) is None ==> events_in(line + seq!['\n'] + rest) == events_in(rest),
{
    law_lines_end_with_a_line_feed(line, rest);
    law_values_follow_the_lines(seq![line], lines_of(rest), line);
    assert(Seq::<JsonView>::empty() + events_in(rest) =~= events_in(rest));
}

/// The events of an older file come before those of the newer ones; a file that could not be read adds
/// nothing.
pub proof fn law_older_files_come_first(newer: Seq<Option<String>>, older: String)
    ensures
        events_of_all(newer.push(Some(older))) == events_in(older@) + events_of_all(newer),
        events_of_all(newer.push(None)) == events_of_all(newer),
        events_of_all(seq![Some(older)]) == events_in(older@),
{
    assert(newer.push(Some(older)).drop_last() =~= newer);
    assert(newer.push(None).drop_last() =~= newer);
    assert(events_of_all(newer.push(None)) =~= events_of_all(newer));
    reveal_with_fuel(events_of_all, 2);
    assert(seq![Some(older)].drop_last() =~= Seq::<Option<String>>::empty());
    assert(events_of_all(seq![Some(older)]) =~= events_in(older@));
}

/// As many events are told as are wanted, which are the last ones, in their order; all of them where
/// there are no more.
pub proof fn law_the_last_events_are_told(events: Seq<JsonView>, n: nat)
    ensures
        events.len() <= n ==> last_events(events, n) == events,
        events.len() > n ==> last_events(events, n).len() == n && forall|i: int|
            0 <= i < n ==> #[trigger] last_events(events, n)[i] == events[events.len() - n + i],
{
}

/// The summaries of events that follow one another are those of the first and then those of the
/// others; an event without a summary adds none.
pub proof fn law_summaries_follow_the_events(
    a: Seq<JsonView>,
    b: Seq<JsonView>,
    event: JsonView,
    summary: Seq<char>,
)
    ensures
        summaries(a + b) == summaries(a) + summaries(b),
        event.at("summary"@) == JsonView::Text(summary) ==> summaries(seq![event]) == seq![summary],
        !(event.at("summary"@) is Text) ==> summaries(seq![event]) == Seq::<Seq<char>>::empty(),
    decreases b.len(),
{
    reveal_with_fuel(summaries, 2);
    assert(seq![event].drop_last() =~= Seq::<JsonView>::empty());
    assert(event.at("summary"@) == JsonView::Text(summary) ==> summaries(seq![event]) =~= seq![
        summary,
    ]);
    if b.len() == 0 {
        assert(a + b =~= a);
        assert(summaries(a) + summaries(b) =~= summaries(a));
    } else {
        law_summaries_follow_the_events(a, b.drop_last(), event, summary);
        assert((a + b).drop_last() =~= a + b.drop_last());
        assert(summaries(a + b) =~= summaries(a) + summaries(b));
    }
}

/// What the agent is told of itself: the size of its memory where anything is known of it, and on a
/// line of its own what it did lately, where it did anything that has a summary.
pub proof fn law_state_is_told(
    stats: JsonView,
    events: Seq<JsonView>,
    nodes: u64,
    synapses: u64,
)
    ensures
        ({
            let told = joined(substrate_lines(stats) + activity_lines(events), "\n"@);
            let size = "[Syl substrate] "@ + decimal(nodes as nat) + " nodes, "@ + decimal(
                synapses as nat,
            ) + " synapses"@;
            let known = !(stats is Null) && nodes == (match stats.at("nodes"@) {
                JsonView::Uint(n) => n,
                _ => 0,
            }) && synapses == (match stats.at("synapses"@) {
                JsonView::Uint(n) => n,
                _ => 0,
            });
            let lately = "[Recent activity] "@ + joined(summaries(events), " | "@);
            &&& known && summaries(events).len() > 0 ==> told == size + "\n"@ + lately
            &&& known && summaries(events).len() == 0 ==> told == size
            &&& stats is Null && summaries(events).len() > 0 ==> told == lately
            &&& stats is Null && summaries(events).len() == 0 ==> told.len() == 0
        }),
        forall|key: Seq<char>|
            #![trigger count_at(stats, key)]
            !(stats.at(key) is Uint) ==> count_at(stats, key) == 0,
{
    let size = substrate_lines(stats);
    let lately = activity_lines(events);
    reveal_with_fuel(joined, 3);
    if size.len() == 1 && lately.len() == 1 {
        assert((size + lately).drop_last() =~= size);
        assert((size + lately).last() == lately[0]);
    }
}

/// What the dashboard says is what its reply holds, and nothing where it holds nothing.
pub proof fn law_dashboard_is_taken_at_its_word(reply: ReplyView, v: JsonView)
    ensures
        reply.json() == Some(v) ==> stats_in(reply) == v,
        reply.json() is None ==> stats_in(reply) is Null,
{
}

} // verus!

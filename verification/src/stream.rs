//! Streamed replies, cut into frames. Ollama sends one JSON object per line; OpenRouter
//! sends server-sent events, messages separated by a blank line whose `data: ` lines hold
//! JSON. The text arrives in chunks cut anywhere; a frame is handed out once its
//! separator has arrived, and the cut never changes what comes out.
use vstd::prelude::*;

use crate::replies::{
    calls_or_none, flush_calls, flushed, latest_after, line_chunks, ollama_calls_view, push_text,
    NdjsonLine, OllamaCallView, OllamaToolCall,
};
use crate::types::{chunks_view, copy_opt_str, ChunkView, StreamChunk};
use crate::text::{
    chars_of, occurs_at, occurs_at_exec, starts_with, str_eq, str_starts_with, string_from_range, trim,
    trim_str,
};

verus! {

/// The first position at or after `i` where `sep` occurs in `s`; `s.len()` when none does.
pub open spec fn find_from(s: Seq<char>, sep: Seq<char>, i: int) -> int
    decreases s.len() - i,
{
    if i < 0 || i >= s.len() || i + sep.len() > s.len() {
        s.len() as int
    } else if occurs_at(s, sep, i) {
        i
    } else {
        find_from(s, sep, i + 1)
    }
}

/// The complete frames of `s`: the text before each separator, cutting at the first
/// separator each time.
pub open spec fn frames(s: Seq<char>, sep: Seq<char>) -> Seq<Seq<char>>
    decreases s.len(),
{
    let p = find_from(s, sep, 0);
    if sep.len() > 0 && 0 <= p && p + sep.len() <= s.len() {
        seq![s.take(p)] + frames(s.skip(p + sep.len()), sep)
    } else {
        Seq::empty()
    }
}

/// What follows the last complete frame of `s`: the start of a frame yet to be completed.
pub open spec fn unframed(s: Seq<char>, sep: Seq<char>) -> Seq<char>
    decreases s.len(),
{
    let p = find_from(s, sep, 0);
    if sep.len() > 0 && 0 <= p && p + sep.len() <= s.len() {
        unframed(s.skip(p + sep.len()), sep)
    } else {
        s
    }
}

pub open spec fn string_views(v: Seq<String>) -> Seq<Seq<char>> {
    v.map_values(|s: String| s@)
}

proof fn lemma_find_from(s: Seq<char>, sep: Seq<char>, i: int, q: int)
    requires
        0 <= i <= q,
        forall|j: int| i <= j < q ==> !occurs_at(s, sep, j),
        occurs_at(s, sep, q) || q + sep.len() > s.len(),
    ensures
        find_from(s, sep, i) == (if occurs_at(s, sep, q) { q } else { s.len() as int }),
    decreases q - i,
{
    if i >= s.len() || i + sep.len() > s.len() {
    } else if occurs_at(s, sep, i) {
    } else {
        lemma_find_from(s, sep, i + 1, q);
    }
}

proof fn lemma_find_bounds(s: Seq<char>, sep: Seq<char>, i: int)
    requires
        0 <= i,
    ensures
        find_from(s, sep, i) == s.len() || (i <= find_from(s, sep, i) && occurs_at(s, sep, find_from(s, sep, i))),
        find_from(s, sep, i) <= s.len(),
        forall|j: int| i <= j < find_from(s, sep, i) ==> !occurs_at(s, sep, j),
    decreases s.len() - i,
{
    if i >= s.len() || i + sep.len() > s.len() {
    } else if occurs_at(s, sep, i) {
    } else {
        lemma_find_bounds(s, sep, i + 1);
    }
}

/// An occurrence found in `s` is still the first one once more text follows.
proof fn lemma_find_extends(s: Seq<char>, t: Seq<char>, sep: Seq<char>, i: int)
    requires
        0 <= i,
        find_from(s, sep, i) < s.len(),
    ensures
        find_from(s + t, sep, i) == find_from(s, sep, i),
    decreases s.len() - i,
{
    let st = s + t;
    assert(i + sep.len() <= s.len());
    assert(st.subrange(i, i + sep.len()) =~= s.subrange(i, i + sep.len()));
    if !occurs_at(s, sep, i) {
        lemma_find_extends(s, t, sep, i + 1);
    }
}

/// The frames that come out do not depend on where the text was cut: taking `s`, then
/// `t` after what `s` left over, gives the frames of `s + t` and leaves what `s + t`
/// leaves.
pub proof fn lemma_frames_split(s: Seq<char>, t: Seq<char>, sep: Seq<char>)
    ensures
        frames(s, sep) + frames(unframed(s, sep) + t, sep) == frames(s + t, sep),
        unframed(unframed(s, sep) + t, sep) == unframed(s + t, sep),
    decreases s.len(),
{
    let p = find_from(s, sep, 0);
    lemma_find_bounds(s, sep, 0);
    if sep.len() > 0 && p < s.len() {
        lemma_find_extends(s, t, sep, 0);
        let k = sep.len() as int;
        assert((s + t).take(p) =~= s.take(p));
        assert((s + t).skip(p + k) =~= s.skip(p + k) + t);
        lemma_frames_split(s.skip(p + k), t, sep);
        assert(frames(s, sep) + frames(unframed(s, sep) + t, sep) =~= seq![s.take(p)] + (frames(
            s.skip(p + k),
            sep,
        ) + frames(unframed(s.skip(p + k), sep) + t, sep)));
    } else {
        assert(frames(s, sep) + frames(unframed(s, sep) + t, sep) =~= frames(s + t, sep));
    }
}

/// Text waiting for its separator.
pub struct Framer {
    buffer: Vec<char>,
    sep: Vec<char>,
}

impl Framer {
    pub closed spec fn pending(&self) -> Seq<char> {
        self.buffer@
    }

    pub closed spec fn separator(&self) -> Seq<char> {
        self.sep@
    }

    /// A framer that cuts at `sep`, which must not be empty.
    pub fn new(sep: &str) -> (r: Framer)
        requires
            sep@.len() > 0,
        ensures
            r.pending() == Seq::<char>::empty(),
            r.separator() == sep@,
    {
        Framer { buffer: Vec::new(), sep: chars_of(sep) }
    }

    /// Takes the next piece of text and hands out the frames it completes.
    pub fn push(&mut self, text: &str) -> (r: Vec<String>)
        requires
            old(self).separator().len() > 0,
        ensures
            final(self).separator() == old(self).separator(),
            string_views(r@) == frames(old(self).pending() + text@, old(self).separator()),
            final(self).pending() == unframed(old(self).pending() + text@, old(self).separator()),
    {
        let ghost sep = self.sep@;
        let ghost all = self.buffer@ + text@;
        let mut buf: Vec<char> = Vec::new();
        std::mem::swap(&mut buf, &mut self.buffer);
        let more = chars_of(text);
        let mut j: usize = 0;
        while j < more.len()
            invariant
                0 <= j <= more.len(),
                more@ == text@,
                buf@ == old(self).buffer@ + text@.take(j as int),
            decreases more.len() - j,
        {
            buf.push(more[j]);
            j += 1;
            assert(buf@ =~= old(self).buffer@ + text@.take(j as int));
        }
        assert(text@.take(j as int) =~= text@);
        let k = self.sep.len();
        let n = buf.len();
        let mut out: Vec<String> = Vec::new();
        let mut start: usize = 0;
        let mut i: usize = 0;
        assert(buf@.skip(0) =~= buf@);
        while i < n && k <= n - i
            invariant
                buf@ == all,
                n == buf.len(),
                k == sep.len() > 0,
                self.sep@ == sep,
                0 <= start <= i <= n,
                forall|q: int| start <= q < i ==> !occurs_at(buf@, sep, q),
                string_views(out@) + frames(buf@.skip(start as int), sep) == frames(all, sep),
                unframed(buf@.skip(start as int), sep) == unframed(all, sep),
            decreases n - i,
        {
            let ghost rest = buf@.skip(start as int);
            if occurs_at_exec(&buf, &self.sep, i) {
                proof {
                    assert forall|q: int| 0 <= q < i - start implies !occurs_at(rest, sep, q) by {
                        assert(!occurs_at(buf@, sep, start + q));
                        if q + k <= rest.len() {
                            assert(rest.subrange(q, q + k) =~= buf@.subrange(start + q, start + q + k));
                        }
                    }
                    assert(rest.subrange(i - start, i - start + k) =~= buf@.subrange(i as int, i + k));
                    lemma_find_from(rest, sep, 0, i - start);
                    assert(rest.skip(i - start + k) =~= buf@.skip(i + k));
                }
                let frame = string_from_range(&buf, start, i);
                proof {
                    assert(frame@ =~= rest.take(i - start));
                    assert(string_views(out@.push(frame)) =~= string_views(out@).push(frame@));
                }
                out.push(frame);
                start = i + k;
                i = i + k;
            } else {
                i += 1;
            }
        }
        proof {
            let rest = buf@.skip(start as int);
            assert forall|q: int| 0 <= q < n - start implies !occurs_at(rest, sep, q) by {
                if q + k <= rest.len() {
                    assert(start + q < i);
                    assert(!occurs_at(buf@, sep, start + q));
                    assert(rest.subrange(q, q + k) =~= buf@.subrange(start + q, start + q + k));
                }
            }
            if n - start >= k {
                lemma_find_from(rest, sep, 0, n - start - k + 1);
            } else {
                lemma_find_from(rest, sep, 0, 0);
            }
            assert(frames(rest, sep) =~= Seq::<Seq<char>>::empty());
            assert(string_views(out@) =~= string_views(out@) + frames(rest, sep));
        }
        let rest_buf = split_off_front(buf, start);
        self.buffer = rest_buf;
        out
    }
}

/// `v` without its first `start` items.
fn split_off_front(v: Vec<char>, start: usize) -> (r: Vec<char>)
    requires
        start <= v.len(),
    ensures
        r@ == v@.skip(start as int),
{
    let mut r: Vec<char> = Vec::new();
    let mut i = start;
    while i < v.len()
        invariant
            start <= i <= v.len(),
            r@ == v@.subrange(start as int, i as int),
        decreases v.len() - i,
    {
        r.push(v[i]);
        i += 1;
        assert(r@ =~= v@.subrange(start as int, i as int));
    }
    assert(v@.skip(start as int) =~= v@.subrange(start as int, v.len() as int));
    r
}


// ── Server-sent events ────────────────────────────────────────────────────────

/// What a `data: ` line of an event stream carries.
pub enum SseEvent {
    /// A payload, trimmed.
    Data(String),
    /// `[DONE]`: the stream is over.
    Done,
}

pub enum SseEventView {
    Data(Seq<char>),
    Done,
}

impl View for SseEvent {
    type V = SseEventView;

    open spec fn view(&self) -> SseEventView {
        match self {
            SseEvent::Data(d) => SseEventView::Data(d@),
            SseEvent::Done => SseEventView::Done,
        }
    }
}

pub open spec fn events_view(v: Seq<SseEvent>) -> Seq<SseEventView> {
    v.map_values(|e: SseEvent| e@)
}

pub open spec fn data_prefix() -> Seq<char> {
    "data: "@
}

/// The event of one line: lines that do not start with `data: ` carry none.
pub open spec fn line_event(l: Seq<char>) -> Option<SseEventView> {
    if starts_with(l, data_prefix()) {
        let d = trim(l.skip(data_prefix().len() as int));
        if d == "[DONE]"@ {
            Some(SseEventView::Done)
        } else {
            Some(SseEventView::Data(d))
        }
    } else {
        None
    }
}

/// The event of one line, as a sequence of none or one.
pub open spec fn line_events(l: Seq<char>) -> Seq<SseEventView> {
    match line_event(l) {
        Some(e) => seq![e],
        None => Seq::empty(),
    }
}

/// The events of a run of lines, in order.
pub open spec fn lines_events(lines: Seq<Seq<char>>) -> Seq<SseEventView>
    decreases lines.len(),
{
    if lines.len() == 0 {
        Seq::empty()
    } else {
        line_events(lines[0]) + lines_events(lines.drop_first())
    }
}

/// The lines of a message: the text between its line breaks.
pub open spec fn message_lines(m: Seq<char>) -> Seq<Seq<char>> {
    frames(m + seq!['\n'], seq!['\n'])
}

/// The events of a run of complete messages, in order.
pub open spec fn messages_events(ms: Seq<Seq<char>>) -> Seq<SseEventView>
    decreases ms.len(),
{
    if ms.len() == 0 {
        Seq::empty()
    } else {
        lines_events(message_lines(ms[0])) + messages_events(ms.drop_first())
    }
}

/// `events` up to and including the first `Done`.
pub open spec fn until_done(events: Seq<SseEventView>) -> Seq<SseEventView>
    decreases events.len(),
{
    if events.len() == 0 {
        Seq::empty()
    } else if events[0] is Done {
        seq![SseEventView::Done]
    } else {
        seq![events[0]] + until_done(events.drop_first())
    }
}

pub open spec fn has_done(events: Seq<SseEventView>) -> bool {
    exists|i: int| 0 <= i < events.len() && events[i] is Done
}

proof fn lemma_lines_events_push(lines: Seq<Seq<char>>, l: Seq<char>)
    ensures
        lines_events(lines.push(l)) == lines_events(lines) + line_events(l),
    decreases lines.len(),
{
    if lines.len() > 0 {
        assert(lines.push(l)[0] == lines[0]);
        assert(lines.push(l).drop_first() =~= lines.drop_first().push(l));
        lemma_lines_events_push(lines.drop_first(), l);
        assert(lines_events(lines.push(l)) =~= lines_events(lines) + line_events(l));
    } else {
        assert(lines.push(l) =~= seq![l]);
        assert(seq![l].drop_first() =~= Seq::<Seq<char>>::empty());
        assert(seq![l][0] == l);
        assert(lines_events(seq![l]) =~= line_events(l) + lines_events(Seq::<Seq<char>>::empty()));
        assert(lines_events(lines.push(l)) =~= lines_events(lines) + line_events(l));
    }
}

proof fn lemma_messages_events_push(ms: Seq<Seq<char>>, m: Seq<char>)
    ensures
        messages_events(ms.push(m)) == messages_events(ms) + lines_events(message_lines(m)),
    decreases ms.len(),
{
    if ms.len() > 0 {
        assert(ms.push(m)[0] == ms[0]);
        assert(ms.push(m).drop_first() =~= ms.drop_first().push(m));
        lemma_messages_events_push(ms.drop_first(), m);
        assert(messages_events(ms.push(m)) =~= messages_events(ms) + lines_events(message_lines(m)));
    } else {
        assert(seq![m].drop_first() =~= Seq::<Seq<char>>::empty());
        assert(ms.push(m) =~= seq![m]);
        assert(seq![m][0] == m);
        assert(messages_events(seq![m]) =~= lines_events(message_lines(m)) + messages_events(Seq::<Seq<char>>::empty()));
        assert(messages_events(ms.push(m)) =~= lines_events(message_lines(m)));
    }
}

/// The event of one line.
fn read_line_event(line: &str) -> (r: Option<SseEvent>)
    ensures
        match r {
            Some(e) => line_event(line@) == Some(e@),
            None => line_event(line@) is None,
        },
{
    proof {
        reveal_strlit("data: ");
        reveal_strlit("[DONE]");
    }
    if !str_starts_with(line, "data: ") {
        return None;
    }
    let v = chars_of(line);
    let rest = string_from_range(&v, 6, v.len());
    let d = trim_str(rest.as_str());
    assert(rest@ =~= line@.skip(6));
    if str_eq(d.as_str(), "[DONE]") {
        Some(SseEvent::Done)
    } else {
        Some(SseEvent::Data(d))
    }
}

/// The events of one complete message, in order.
pub fn message_events(message: &str) -> (r: Vec<SseEvent>)
    ensures
        events_view(r@) == lines_events(message_lines(message@)),
{
    proof {
        reveal_strlit("\n");
    }
    let mut lines = Framer::new("\n");
    let mut all = lines.push(message);
    let last = lines.push("\n");
    proof {
        assert("\n"@ =~= seq!['\n']);
        lemma_frames_split(message@, seq!['\n'], seq!['\n']);
        assert(Seq::<char>::empty() + message@ =~= message@);
    }
    let ghost first = string_views(all@);
    let mut k: usize = 0;
    let n = last.len();
    assert(string_views(all@) + string_views(last@) == message_lines(message@));
    let mut out: Vec<SseEvent> = Vec::new();
    let mut i: usize = 0;
    assert(first.take(0) =~= Seq::<Seq<char>>::empty());
    while i < all.len()
        invariant
            0 <= i <= all.len(),
            string_views(all@) == first,
            events_view(out@) == lines_events(first.take(i as int)),
        decreases all.len() - i,
    {
        let e = read_line_event(all[i].as_str());
        proof {
            assert(first.take(i + 1) =~= first.take(i as int).push(first[i as int]));
            lemma_lines_events_push(first.take(i as int), first[i as int]);
        }
        match e {
            Some(e) => {
                out.push(e);
                assert(events_view(out@) =~= lines_events(first.take(i + 1)));
            },
            None => {},
        }
        i += 1;
    }
    assert(first.take(all.len() as int) =~= first);
    let ghost second = string_views(last@);
    let mut j: usize = 0;
    assert(second.take(0) =~= Seq::<Seq<char>>::empty());
    while j < n
        invariant
            0 <= j <= n == last.len(),
            string_views(last@) == second,
            events_view(out@) == lines_events(first + second.take(j as int)),
        decreases n - j,
    {
        let e = read_line_event(last[j].as_str());
        proof {
            assert(first + second.take(j + 1) =~= (first + second.take(j as int)).push(second[j as int]));
            lemma_lines_events_push(first + second.take(j as int), second[j as int]);
        }
        match e {
            Some(e) => {
                out.push(e);
                assert(events_view(out@) =~= lines_events(first + second.take(j + 1)));
            },
            None => {},
        }
        j += 1;
    }
    assert(second.take(n as int) =~= second);
    out
}

/// The events of an OpenRouter reply stream, read chunk by chunk.
pub struct SseDecoder {
    messages: Framer,
    finished: bool,
}

impl SseDecoder {
    pub closed spec fn pending(&self) -> Seq<char> {
        self.messages.pending()
    }

    /// `[DONE]` has come: nothing more is handed out.
    pub closed spec fn is_finished(&self) -> bool {
        self.finished
    }

    pub closed spec fn wf(&self) -> bool {
        self.messages.separator() == seq!['\n', '\n']
    }

    pub fn new() -> (r: SseDecoder)
        ensures
            r.wf(),
            r.pending() == Seq::<char>::empty(),
            !r.is_finished(),
    {
        proof {
            reveal_strlit("\n\n");
        }
        let messages = Framer::new("\n\n");
        assert("\n\n"@ =~= seq!['\n', '\n']);
        SseDecoder { messages, finished: false }
    }

    pub fn finished(&self) -> (r: bool)
        ensures
            r == self.is_finished(),
    {
        self.finished
    }

    /// Takes the next piece of the stream and hands out the events of the messages it
    /// completes, up to and including `[DONE]`.
    pub fn push(&mut self, text: &str) -> (r: Vec<SseEvent>)
        requires
            old(self).wf(),
        ensures
            final(self).wf(),
            old(self).is_finished() ==> r@.len() == 0 && *final(self) == *old(self),
            !old(self).is_finished() ==> {
                let all = old(self).pending() + text@;
                let events = messages_events(frames(all, seq!['\n', '\n']));
                &&& events_view(r@) == until_done(events)
                &&& final(self).is_finished() == has_done(events)
                &&& final(self).pending() == unframed(all, seq!['\n', '\n'])
            },
    {
        if self.finished {
            return Vec::new();
        }
        let msgs = self.messages.push(text);
        let ghost ms = string_views(msgs@);
        let ghost framer = self.messages;
        assert(ms.len() == msgs.len());
        let mut out: Vec<SseEvent> = Vec::new();
        let mut i: usize = 0;
        assert(ms.take(0) =~= Seq::<Seq<char>>::empty());
        while i < msgs.len()
            invariant
                0 <= i <= msgs.len(),
                string_views(msgs@) == ms,
                ms.len() == msgs.len(),
                self.messages == framer,
                framer.separator() == seq!['\n', '\n'],
                framer.pending() == unframed(old(self).pending() + text@, seq!['\n', '\n']),
                !old(self).finished,
                !self.finished,
                ms == frames(old(self).pending() + text@, seq!['\n', '\n']),
                events_view(out@) == until_done(messages_events(ms.take(i as int))),
                !has_done(messages_events(ms.take(i as int))),
            decreases msgs.len() - i,
        {
            let evs = message_events(msgs[i].as_str());
            let ghost before = messages_events(ms.take(i as int));
            proof {
                assert(ms[i as int] == msgs@[i as int]@);
                assert(ms.take(i + 1) =~= ms.take(i as int).push(ms[i as int]));
                lemma_messages_events_push(ms.take(i as int), ms[i as int]);
            }
            let mut j: usize = 0;
            while j < evs.len()
                invariant
                    0 <= j <= evs.len(),
                    events_view(out@) == until_done(before + events_view(evs@).take(j as int)),
                    !has_done(before + events_view(evs@).take(j as int)),
                    !has_done(before),
                    self.messages == framer,
                    framer.separator() == seq!['\n', '\n'],
                    framer.pending() == unframed(old(self).pending() + text@, seq!['\n', '\n']),
                    !old(self).finished,
                    !self.finished,
                    ms == frames(old(self).pending() + text@, seq!['\n', '\n']),
                    0 <= i < msgs.len(),
                    ms.len() == msgs.len(),
                    before == messages_events(ms.take(i as int)),
                    messages_events(ms.take(i + 1)) == before + events_view(evs@),
                decreases evs.len() - j,
            {
                proof {
                    lemma_until_done_push(before + events_view(evs@).take(j as int), evs[j as int]@);
                    assert(before + events_view(evs@).take(j + 1) =~= (before + events_view(evs@).take(j as int)).push(evs[j as int]@));
                }
                match &evs[j] {
                    SseEvent::Done => {
                        let ghost prev = out@;
                        out.push(SseEvent::Done);
                        self.finished = true;
                        proof {
                            let pre = before + events_view(evs@).take(j + 1);
                            assert(events_view(out@) =~= events_view(prev).push(SseEventView::Done));
                            lemma_until_done_stops(pre, events_view(evs@).skip(j + 1));
                            assert(pre + events_view(evs@).skip(j + 1) =~= before + events_view(evs@));
                            lemma_messages_events_append(ms.take(i + 1), ms.skip(i + 1));
                            assert(ms.take(i + 1) + ms.skip(i + 1) =~= ms);
                            lemma_until_done_stops(before + events_view(evs@), messages_events(ms.skip(i + 1)));
                        }
                        return out;
                    },
                    SseEvent::Data(d) => {
                        out.push(SseEvent::Data(d.clone()));
                        assert(events_view(out@) =~= until_done(before + events_view(evs@).take(j + 1)));
                    },
                }
                j += 1;
            }
            assert(events_view(evs@).take(evs.len() as int) =~= events_view(evs@));
            i += 1;
        }
        assert(ms.take(msgs.len() as int) =~= ms);
        out
    }
}

proof fn lemma_messages_events_append(a: Seq<Seq<char>>, b: Seq<Seq<char>>)
    ensures
        messages_events(a + b) == messages_events(a) + messages_events(b),
    decreases a.len(),
{
    if a.len() > 0 {
        assert((a + b).drop_first() =~= a.drop_first() + b);
        lemma_messages_events_append(a.drop_first(), b);
        assert(messages_events(a + b) =~= messages_events(a) + messages_events(b));
    } else {
        assert(a + b =~= b);
        assert(messages_events(a) + messages_events(b) =~= messages_events(b));
    }
}

proof fn lemma_until_done_push(events: Seq<SseEventView>, e: SseEventView)
    requires
        !has_done(events),
    ensures
        until_done(events.push(e)) == until_done(events).push(e),
        until_done(events) == events,
        has_done(events.push(e)) == (e is Done),
    decreases events.len(),
{
    if events.len() > 0 {
        assert(!(events[0] is Done));
        assert(events.push(e)[0] == events[0]);
        assert(events.push(e).drop_first() =~= events.drop_first().push(e));
        assert forall|i: int| 0 <= i < events.drop_first().len() implies !(#[trigger] events.drop_first()[i] is Done) by {
            assert(events.drop_first()[i] == events[i + 1]);
        }
        lemma_until_done_push(events.drop_first(), e);
        assert(until_done(events) =~= events);
        assert(until_done(events.push(e)) =~= until_done(events).push(e));
        if e is Done {
            assert(events.push(e)[events.len() as int] is Done);
        } else {
            assert forall|i: int| 0 <= i < events.push(e).len() implies !(#[trigger] events.push(e)[i] is Done) by {
                if i < events.len() {
                    assert(events.push(e)[i] == events[i]);
                }
            }
        }
    } else {
        assert(events.push(e) =~= seq![e]);
        assert(seq![e].drop_first() =~= Seq::<SseEventView>::empty());
        assert(seq![e][0] == e);
        assert(until_done(events) =~= events);
        if e is Done {
            assert(events.push(e)[0] is Done);
        }
    }
}

proof fn lemma_until_done_stops(events: Seq<SseEventView>, more: Seq<SseEventView>)
    requires
        has_done(events),
    ensures
        until_done(events + more) == until_done(events),
        has_done(events + more),
    decreases events.len(),
{
    let k = choose|k: int| 0 <= k < events.len() && events[k] is Done;
    assert((events + more)[k] is Done);
    if !(events[0] is Done) {
        assert((events + more).drop_first() =~= events.drop_first() + more);
        assert(events.drop_first()[k - 1] is Done);
        lemma_until_done_stops(events.drop_first(), more);
    }
}


// ── Ollama's JSON lines ───────────────────────────────────────────────────────

/// The lines worth reading: each trimmed, the blank ones left out.
pub open spec fn nonblank_lines(ls: Seq<Seq<char>>) -> Seq<Seq<char>>
    decreases ls.len(),
{
    if ls.len() == 0 {
        Seq::empty()
    } else {
        let t = trim(ls[0]);
        (if t.len() > 0 {
            seq![t]
        } else {
            Seq::empty()
        }) + nonblank_lines(ls.drop_first())
    }
}

proof fn lemma_nonblank_push(ls: Seq<Seq<char>>, l: Seq<char>)
    ensures
        nonblank_lines(ls.push(l)) == nonblank_lines(ls) + (if trim(l).len() > 0 {
            seq![trim(l)]
        } else {
            Seq::empty()
        }),
    decreases ls.len(),
{
    if ls.len() > 0 {
        assert(ls.push(l)[0] == ls[0]);
        assert(ls.push(l).drop_first() =~= ls.drop_first().push(l));
        lemma_nonblank_push(ls.drop_first(), l);
    } else {
        assert(ls.push(l) =~= seq![l]);
        assert(seq![l].drop_first() =~= Seq::<Seq<char>>::empty());
        assert(seq![l][0] == l);
        assert(nonblank_lines(seq![l]) =~= (if trim(l).len() > 0 {
            seq![trim(l)]
        } else {
            Seq::empty()
        }) + nonblank_lines(Seq::<Seq<char>>::empty()));
    }
    assert(nonblank_lines(ls.push(l)) =~= nonblank_lines(ls) + (if trim(l).len() > 0 {
        seq![trim(l)]
    } else {
        Seq::empty()
    }));
}

/// The events of an Ollama reply stream, read chunk by chunk. Ollama sends tool calls
/// whole, on one line or on several; the last non-empty list is kept and handed out once,
/// when the reply ends.
pub struct NdjsonDecoder {
    lines: Framer,
    latest: Option<Vec<OllamaToolCall>>,
    finished: bool,
}

impl NdjsonDecoder {
    pub closed spec fn pending(&self) -> Seq<char> {
        self.lines.pending()
    }

    /// The tool calls kept for the end of the reply.
    pub closed spec fn kept_calls(&self) -> Option<Seq<OllamaCallView>> {
        match self.latest {
            Some(c) => Some(ollama_calls_view(c@)),
            None => None,
        }
    }

    /// The reply is over: nothing more is handed out.
    pub closed spec fn is_finished(&self) -> bool {
        self.finished
    }

    pub closed spec fn wf(&self) -> bool {
        self.lines.separator() == seq!['\n']
    }

    pub fn new() -> (r: NdjsonDecoder)
        ensures
            r.wf(),
            r.pending() == Seq::<char>::empty(),
            r.kept_calls() is None,
            !r.is_finished(),
    {
        proof {
            reveal_strlit("\n");
        }
        let lines = Framer::new("\n");
        assert("\n"@ =~= seq!['\n']);
        NdjsonDecoder { lines, latest: None, finished: false }
    }

    pub fn finished(&self) -> (r: bool)
        ensures
            r == self.is_finished(),
    {
        self.finished
    }

    /// Takes the next piece of the stream and hands out the lines it completes, trimmed,
    /// blank ones left out; each is to be decoded and given to `on_line`.
    pub fn push(&mut self, text: &str) -> (r: Vec<String>)
        requires
            old(self).wf(),
        ensures
            final(self).wf(),
            final(self).kept_calls() == old(self).kept_calls(),
            final(self).is_finished() == old(self).is_finished(),
            old(self).is_finished() ==> r@.len() == 0 && final(self).pending() == old(self).pending(),
            !old(self).is_finished() ==> {
                let all = old(self).pending() + text@;
                &&& string_views(r@) == nonblank_lines(frames(all, seq!['\n']))
                &&& final(self).pending() == unframed(all, seq!['\n'])
            },
    {
        if self.finished {
            return Vec::new();
        }
        let ls = self.lines.push(text);
        let ghost v = string_views(ls@);
        let mut out: Vec<String> = Vec::new();
        let mut i: usize = 0;
        assert(v.take(0) =~= Seq::<Seq<char>>::empty());
        while i < ls.len()
            invariant
                0 <= i <= ls.len(),
                v == string_views(ls@),
                string_views(out@) == nonblank_lines(v.take(i as int)),
            decreases ls.len() - i,
        {
            let t = trim_str(ls[i].as_str());
            proof {
                assert(v[i as int] == ls@[i as int]@);
                assert(v.take(i + 1) =~= v.take(i as int).push(v[i as int]));
                lemma_nonblank_push(v.take(i as int), v[i as int]);
            }
            if !t.as_str().is_empty() {
                let ghost prev = out@;
                out.push(t);
                assert(string_views(out@) =~= string_views(prev).push(t@));
            }
            assert(string_views(out@) =~= nonblank_lines(v.take(i + 1)));
            i += 1;
        }
        assert(v.take(ls.len() as int) =~= v);
        out
    }

    /// Takes one decoded line: hands out its reasoning and content, keeps its tool calls,
    /// and when it ends the reply, hands out the kept calls and `Done`. Ids for calls that
    /// came without one are drawn from `counter`.
    pub fn on_line(&mut self, line: NdjsonLine, counter: &mut u64) -> (r: Vec<StreamChunk>)
        requires
            old(self).wf(),
        ensures
            final(self).wf(),
            final(self).pending() == old(self).pending(),
            old(self).is_finished() ==> r@.len() == 0 && *final(self) == *old(self) && *final(counter)
                == *old(counter),
            !old(self).is_finished() ==> {
                let latest = latest_after(line, old(self).kept_calls());
                let out = flushed(calls_or_none(latest), 0, *old(counter));
                if line.done {
                    &&& chunks_view(r@) == line_chunks(line) + out.0 + seq![ChunkView::Done]
                    &&& *final(counter) == out.1
                    &&& final(self).is_finished()
                    &&& final(self).kept_calls() is None
                } else {
                    &&& chunks_view(r@) == line_chunks(line)
                    &&& *final(counter) == *old(counter)
                    &&& !final(self).is_finished()
                    &&& final(self).kept_calls() == latest
                }
            },
    {
        if self.finished {
            return Vec::new();
        }
        let ghost whole = line;
        let mut out: Vec<StreamChunk> = Vec::new();
        let done = line.done;
        match line.message {
            Some(m) => {
                push_text(&mut out, &m.thinking, true);
                push_text(&mut out, &m.content, false);
                match m.tool_calls {
                    Some(c) => {
                        if c.len() > 0 {
                            self.latest = Some(c);
                        }
                    },
                    None => {},
                }
            },
            None => {},
        }
        assert(chunks_view(out@) =~= line_chunks(whole));
        assert(self.kept_calls() == latest_after(whole, old(self).kept_calls()));
        if done {
            let rest = self.finish(counter);
            let ghost prev = out@;
            let mut k: usize = 0;
            while k < rest.len()
                invariant
                    0 <= k <= rest.len(),
                    chunks_view(out@) == chunks_view(prev) + chunks_view(rest@).take(k as int),
                decreases rest.len() - k,
            {
                let c = copy_chunk(&rest[k]);
                let ghost before = out@;
                out.push(c);
                assert(chunks_view(out@) =~= chunks_view(before).push(c@));
                assert(chunks_view(rest@).take(k + 1) =~= chunks_view(rest@).take(k as int).push(
                    rest@[k as int]@,
                ));
                k += 1;
            }
            assert(chunks_view(rest@).take(rest.len() as int) =~= chunks_view(rest@));
            assert(chunks_view(out@) =~= line_chunks(whole) + flushed(
                calls_or_none(latest_after(whole, old(self).kept_calls())),
                0,
                *old(counter),
            ).0 + seq![ChunkView::Done]);
        }
        out
    }

    /// The stream has ended: hands out the kept calls and `Done`, unless the reply was
    /// already over.
    pub fn finish(&mut self, counter: &mut u64) -> (r: Vec<StreamChunk>)
        requires
            old(self).wf(),
        ensures
            final(self).wf(),
            final(self).pending() == old(self).pending(),
            old(self).is_finished() ==> r@.len() == 0 && *final(self) == *old(self) && *final(counter)
                == *old(counter),
            !old(self).is_finished() ==> {
                let out = flushed(calls_or_none(old(self).kept_calls()), 0, *old(counter));
                &&& chunks_view(r@) == out.0 + seq![ChunkView::Done]
                &&& *final(counter) == out.1
                &&& final(self).is_finished()
                &&& final(self).kept_calls() is None
            },
    {
        if self.finished {
            return Vec::new();
        }
        let mut out = match &self.latest {
            Some(calls) => flush_calls(calls, counter),
            None => {
                assert(ollama_calls_view(Seq::<OllamaToolCall>::empty()) =~= Seq::<OllamaCallView>::empty());
                Vec::new()
            },
        };
        let ghost prev = out@;
        out.push(StreamChunk::Done);
        assert(chunks_view(out@) =~= chunks_view(prev) + seq![ChunkView::Done]);
        self.latest = None;
        self.finished = true;
        out
    }
}

/// A copy of a chunk.
pub fn copy_chunk(c: &StreamChunk) -> (r: StreamChunk)
    ensures
        r@ == c@,
{
    match c {
        StreamChunk::ContentDelta(t) => StreamChunk::ContentDelta(t.clone()),
        StreamChunk::ThinkingDelta(t) => StreamChunk::ThinkingDelta(t.clone()),
        StreamChunk::ToolCallDelta { index, id, name, arguments_fragment } =>
            StreamChunk::ToolCallDelta {
                index: *index,
                id: copy_opt_str(id),
                name: copy_opt_str(name),
                arguments_fragment: arguments_fragment.clone(),
            },
        StreamChunk::Done => StreamChunk::Done,
        StreamChunk::Error(e) => StreamChunk::Error(e.clone()),
    }
}


// ── Laws ──────────────────────────────────────────────────────────────────────

proof fn lemma_until_done_append(a: Seq<SseEventView>, b: Seq<SseEventView>)
    requires
        !has_done(a),
    ensures
        until_done(a + b) == a + until_done(b),
        has_done(a + b) == has_done(b),
    decreases a.len(),
{
    if a.len() > 0 {
        assert(!(a[0] is Done));
        assert((a + b)[0] == a[0]);
        assert((a + b).drop_first() =~= a.drop_first() + b);
        assert forall|i: int| 0 <= i < a.drop_first().len() implies !(#[trigger] a.drop_first()[i] is Done) by {
            assert(a.drop_first()[i] == a[i + 1]);
        }
        lemma_until_done_append(a.drop_first(), b);
        assert(until_done(a + b) =~= a + until_done(b));
        if has_done(a + b) {
            let k = choose|k: int| 0 <= k < (a + b).len() && (a + b)[k] is Done;
            assert(k >= a.len());
            assert(b[k - a.len()] is Done);
        }
        if has_done(b) {
            let k = choose|k: int| 0 <= k < b.len() && b[k] is Done;
            assert((a + b)[k + a.len()] is Done);
        }
    } else {
        assert(a + b =~= b);
    }
}

/// An event stream read in two pieces hands out what it hands out read whole: the events
/// of the first piece, then, unless they ended the stream, those of the second; and the
/// same text is left waiting.
pub proof fn lemma_sse_pieces(pending: Seq<char>, t1: Seq<char>, t2: Seq<char>)
    ensures
        ({
            let sep = seq!['\n', '\n'];
            let first = messages_events(frames(pending + t1, sep));
            let second = messages_events(frames(unframed(pending + t1, sep) + t2, sep));
            let whole = messages_events(frames(pending + (t1 + t2), sep));
            &&& has_done(first) ==> until_done(first) == until_done(whole) && has_done(whole)
            &&& !has_done(first) ==> until_done(first) + until_done(second) == until_done(whole)
                && has_done(second) == has_done(whole)
            &&& unframed(unframed(pending + t1, sep) + t2, sep) == unframed(pending + (t1 + t2), sep)
        }),
{
    let sep = seq!['\n', '\n'];
    assert(pending + (t1 + t2) =~= (pending + t1) + t2);
    lemma_frames_split(pending + t1, t2, sep);
    lemma_messages_events_append(
        frames(pending + t1, sep),
        frames(unframed(pending + t1, sep) + t2, sep),
    );
    let first = messages_events(frames(pending + t1, sep));
    let second = messages_events(frames(unframed(pending + t1, sep) + t2, sep));
    if has_done(first) {
        lemma_until_done_stops(first, second);
    } else {
        lemma_until_done_append(first, second);
        lemma_until_done_push(first, SseEventView::Done);
    }
}

proof fn lemma_nonblank_append(a: Seq<Seq<char>>, b: Seq<Seq<char>>)
    ensures
        nonblank_lines(a + b) == nonblank_lines(a) + nonblank_lines(b),
    decreases a.len(),
{
    if a.len() > 0 {
        assert((a + b)[0] == a[0]);
        assert((a + b).drop_first() =~= a.drop_first() + b);
        lemma_nonblank_append(a.drop_first(), b);
        assert(nonblank_lines(a + b) =~= nonblank_lines(a) + nonblank_lines(b));
    } else {
        assert(a + b =~= b);
        assert(nonblank_lines(a) + nonblank_lines(b) =~= nonblank_lines(b));
    }
}

/// A line stream read in two pieces hands out the lines it hands out read whole, and
/// leaves the same text waiting.
pub proof fn lemma_ndjson_pieces(pending: Seq<char>, t1: Seq<char>, t2: Seq<char>)
    ensures
        ({
            let sep = seq!['\n'];
            &&& nonblank_lines(frames(pending + t1, sep)) + nonblank_lines(
                frames(unframed(pending + t1, sep) + t2, sep),
            ) == nonblank_lines(frames(pending + (t1 + t2), sep))
            &&& unframed(unframed(pending + t1, sep) + t2, sep) == unframed(pending + (t1 + t2), sep)
        }),
{
    let sep = seq!['\n'];
    assert(pending + (t1 + t2) =~= (pending + t1) + t2);
    lemma_frames_split(pending + t1, t2, sep);
    lemma_nonblank_append(frames(pending + t1, sep), frames(unframed(pending + t1, sep) + t2, sep));
}

} // verus!

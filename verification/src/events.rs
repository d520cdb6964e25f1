//! Compositor push events: line parsing and translation into commands.
//!
//! The event socket delivers newline-delimited text lines of the form
//! `TAG>>PAYLOAD`.  A read may split a line across two chunks, so
//! `LineAssembler` buffers partial input and releases only whole lines.
//! `parse_event` turns one line into a typed event, exactly following the
//! versioned payload formats; `translate_event` maps events to renderer
//! commands independently of the poll loop.

use crate::commands::RendererCommand;
use crate::text::char_from;
use crate::text::find_char_from;
use crate::text::lemma_char_from_props;
use crate::text::str_eq;
use vstd::prelude::*;
use vstd::string::StrSliceExecFns;
use vstd::string::StringExecFns;

verus! {

/// Compositor events the engine cares about.
#[derive(Debug, Clone)]
pub enum HyprEvent {
    /// A monitor was connected.
    MonitorAdded(String),
    /// A monitor was disconnected.
    MonitorRemoved(String),
    /// The focused monitor changed.
    FocusedMonitor(String),
    /// A workspace changed; informational only.
    Workspace(String),
    /// Anything unrecognized, carried verbatim.
    Other(String),
}

/// The mathematical shape of a `HyprEvent`: the same variants over
/// character sequences.
pub enum EventView {
    MonitorAdded(Seq<char>),
    MonitorRemoved(Seq<char>),
    FocusedMonitor(Seq<char>),
    Workspace(Seq<char>),
    Other(Seq<char>),
}

impl View for HyprEvent {
    type V = EventView;

    open spec fn view(&self) -> EventView {
        match self {
            HyprEvent::MonitorAdded(s) => EventView::MonitorAdded(s@),
            HyprEvent::MonitorRemoved(s) => EventView::MonitorRemoved(s@),
            HyprEvent::FocusedMonitor(s) => EventView::FocusedMonitor(s@),
            HyprEvent::Workspace(s) => EventView::Workspace(s@),
            HyprEvent::Other(s) => EventView::Other(s@),
        }
    }
}

impl DeepView for HyprEvent {
    type V = EventView;

    open spec fn deep_view(&self) -> EventView {
        self.view()
    }
}

/// The first position at or after `i` where the two-character separator
/// `>>` begins in `s`.
pub open spec fn sep_from(s: Seq<char>, i: int) -> Option<int>
    decreases s.len() - i,
{
    if i < 0 || i + 2 > s.len() {
        None
    } else if s[i] == '>' && s[i + 1] == '>' {
        Some(i)
    } else {
        sep_from(s, i + 1)
    }
}

/// The payload's first comma-separated field: everything before the first
/// comma, or the whole payload when it has no comma.
pub open spec fn first_field(s: Seq<char>) -> Seq<char> {
    match char_from(s, ',', 0) {
        None => s,
        Some(i) => s.subrange(0, i),
    }
}

/// The payload's second comma-separated field, or the whole payload when it
/// has no comma.
pub open spec fn second_field(s: Seq<char>) -> Seq<char> {
    match char_from(s, ',', 0) {
        None => s,
        Some(i) => match char_from(s, ',', i + 1) {
            None => s.subrange(i + 1, s.len() as int),
            Some(j) => s.subrange(i + 1, j),
        },
    }
}

/// The event denoted by one raw line.  Lines read `TAG>>PAYLOAD`; versioned
/// tags carry comma-separated payloads whose name field is extracted here.
/// A line without the separator, or with an unknown tag, maps to `Other`
/// carrying the original text unchanged.
pub open spec fn spec_parse_event(line: Seq<char>) -> EventView {
    match sep_from(line, 0) {
        None => EventView::Other(line),
        Some(i) => {
            let tag = line.subrange(0, i);
            let data = line.subrange(i + 2, line.len() as int);
            if tag == "monitoradded"@ {
                EventView::MonitorAdded(data)
            } else if tag == "monitoraddedv2"@ {
                EventView::MonitorAdded(second_field(data))
            } else if tag == "monitorremoved"@ {
                EventView::MonitorRemoved(data)
            } else if tag == "monitorremovedv2"@ {
                EventView::MonitorRemoved(second_field(data))
            } else if tag == "focusedmon"@ {
                EventView::FocusedMonitor(first_field(data))
            } else if tag == "workspace"@ || tag == "workspacev2"@ {
                EventView::Workspace(data)
            } else {
                EventView::Other(line)
            }
        },
    }
}

/// A line with no `>>` separator always maps to the raw event, its text
/// unchanged.
pub proof fn lemma_no_separator_is_other(line: Seq<char>)
    requires
        sep_from(line, 0) is None,
    ensures
        spec_parse_event(line) == EventView::Other(line),
{
}

/// Find the first `>>` separator in `s`.
fn find_sep(s: &str) -> (r: Option<usize>)
    ensures
        match r {
            Some(j) => sep_from(s@, 0) == Some(j as int) && j + 2 <= s@.len(),
            None => sep_from(s@, 0) is None,
        },
{
    let len = s.unicode_len();
    if len < 2 {
        return None;
    }
    let mut i: usize = 0;
    while i < len - 1
        invariant
            2 <= len,
            0 <= i <= len - 1,
            len == s@.len(),
            sep_from(s@, 0) == sep_from(s@, i as int),
        decreases len - i,
    {
        if s.get_char(i) == '>' && s.get_char(i + 1) == '>' {
            return Some(i);
        }
        i = i + 1;
    }
    None
}

/// The payload's second comma field, or the payload itself without commas.
fn second_field_exec(data: &str) -> (r: String)
    ensures
        r@ == second_field(data@),
{
    let len = data.unicode_len();
    match find_char_from(data, ',', 0) {
        None => data.to_owned(),
        Some(i) => match find_char_from(data, ',', i + 1) {
            None => data.substring_char(i + 1, len).to_owned(),
            Some(j) => data.substring_char(i + 1, j).to_owned(),
        },
    }
}

/// The payload's first comma field, or the payload itself without commas.
fn first_field_exec(data: &str) -> (r: String)
    ensures
        r@ == first_field(data@),
{
    match find_char_from(data, ',', 0) {
        None => data.to_owned(),
        Some(i) => data.substring_char(0, i).to_owned(),
    }
}

/// Parse one raw event line into a typed event, exactly as
/// `spec_parse_event` describes: `TAG>>PAYLOAD` with the documented payload
/// formats, and `Other` for anything else.
pub fn parse_event(line: &str) -> (r: HyprEvent)
    ensures
        r@ == spec_parse_event(line@),
{
    match find_sep(line) {
        None => HyprEvent::Other(line.to_owned()),
        Some(i) => {
            let len = line.unicode_len();
            let tag = line.substring_char(0, i);
            let data = line.substring_char(i + 2, len);
            if str_eq(tag, "monitoradded") {
                HyprEvent::MonitorAdded(data.to_owned())
            } else if str_eq(tag, "monitoraddedv2") {
                HyprEvent::MonitorAdded(second_field_exec(data))
            } else if str_eq(tag, "monitorremoved") {
                HyprEvent::MonitorRemoved(data.to_owned())
            } else if str_eq(tag, "monitorremovedv2") {
                HyprEvent::MonitorRemoved(second_field_exec(data))
            } else if str_eq(tag, "focusedmon") {
                HyprEvent::FocusedMonitor(first_field_exec(data))
            } else if str_eq(tag, "workspace") || str_eq(tag, "workspacev2") {
                HyprEvent::Workspace(data.to_owned())
            } else {
                HyprEvent::Other(line.to_owned())
            }
        },
    }
}

/// Translate one push event into at most one renderer command: removals
/// clean up, focus changes are a fast-path wake, and everything else —
/// including monitor additions, which the poll loop's own enumeration
/// handles authoritatively — produces nothing.
pub fn translate_event(ev: &HyprEvent) -> (r: Option<RendererCommand>)
    ensures
        match *ev {
            HyprEvent::MonitorRemoved(n) => r == Some(
                RendererCommand::MonitorRemoved { monitor: n },
            ),
            HyprEvent::FocusedMonitor(n) => r == Some(RendererCommand::Stop { monitor: n }),
            HyprEvent::MonitorAdded(n) => r is None,
            HyprEvent::Workspace(n) => r is None,
            HyprEvent::Other(n) => r is None,
        },
{
    match ev {
        HyprEvent::MonitorRemoved(name) => Some(
            RendererCommand::MonitorRemoved { monitor: name.clone() },
        ),
        HyprEvent::FocusedMonitor(name) => Some(RendererCommand::Stop { monitor: name.clone() }),
        HyprEvent::MonitorAdded(_) => None,
        HyprEvent::Workspace(_) => None,
        HyprEvent::Other(_) => None,
    }
}

/// The whole lines contained in `s[i..]`, and the partial line left after
/// the last newline.
pub open spec fn split_from(s: Seq<char>, i: int) -> (Seq<Seq<char>>, Seq<char>)
    decreases s.len() - i,
    via split_from_decreases
{
    match char_from(s, '\n', i) {
        None => (Seq::empty(), s.subrange(i, s.len() as int)),
        Some(j) => {
            let r = split_from(s, j + 1);
            (seq![s.subrange(i, j)] + r.0, r.1)
        },
    }
}

#[via_fn]
proof fn split_from_decreases(s: Seq<char>, i: int) {
    lemma_char_from_props(s, '\n', i);
}

proof fn lemma_char_from_offset(s1: Seq<char>, s2: Seq<char>, c: char, k: int)
    requires
        0 <= k <= s2.len(),
    ensures
        char_from(s1 + s2, c, s1.len() + k) == (match char_from(s2, c, k) {
            Some(j) => Some(s1.len() + j),
            None => None::<int>,
        }),
    decreases s2.len() - k,
{
    if k < s2.len() {
        assert((s1 + s2)[s1.len() + k] == s2[k]);
        if s2[k] != c {
            lemma_char_from_offset(s1, s2, c, k + 1);
        }
    }
}

proof fn lemma_char_from_concat(s1: Seq<char>, s2: Seq<char>, c: char, i: int)
    requires
        0 <= i <= s1.len(),
    ensures
        char_from(s1 + s2, c, i) == (match char_from(s1, c, i) {
            Some(j) => Some(j),
            None => (match char_from(s2, c, 0) {
                Some(k) => Some(s1.len() + k),
                None => None::<int>,
            }),
        }),
    decreases s1.len() - i,
{
    if i == s1.len() {
        lemma_char_from_offset(s1, s2, c, 0);
    } else {
        assert((s1 + s2)[i] == s1[i]);
        if s1[i] != c {
            lemma_char_from_concat(s1, s2, c, i + 1);
        }
    }
}

proof fn lemma_char_from_shift(s: Seq<char>, c: char, i: int, k: int)
    requires
        0 <= i,
        0 <= k,
        i + k <= s.len(),
    ensures
        char_from(s, c, i + k) == (match char_from(s.skip(i), c, k) {
            Some(j) => Some(i + j),
            None => None::<int>,
        }),
    decreases s.len() - i - k,
{
    let t = s.skip(i);
    if i + k < s.len() {
        assert(s[i + k] == t[k]);
        if s[i + k] != c {
            lemma_char_from_shift(s, c, i, k + 1);
        }
    }
}

proof fn lemma_split_shift(s: Seq<char>, i: int, k: int)
    requires
        0 <= i,
        0 <= k,
        i + k <= s.len(),
    ensures
        split_from(s, i + k).0 == split_from(s.skip(i), k).0,
        split_from(s, i + k).1 == split_from(s.skip(i), k).1,
    decreases s.len() - i - k,
{
    let t = s.skip(i);
    lemma_char_from_shift(s, '\n', i, k);
    lemma_char_from_props(t, '\n', k);
    match char_from(t, '\n', k) {
        None => {
            assert(s.subrange(i + k, s.len() as int) =~= t.subrange(k, t.len() as int));
        },
        Some(j) => {
            lemma_split_shift(s, i, j + 1);
            assert(s.subrange(i + k, i + j) =~= t.subrange(k, j));
            assert(split_from(s, i + k).0 =~= split_from(t, k).0);
        },
    }
}

proof fn lemma_split_concat(s1: Seq<char>, s2: Seq<char>, i: int)
    requires
        0 <= i <= s1.len(),
    ensures
        ({
            let whole = split_from(s1 + s2, i);
            let first = split_from(s1, i);
            let second = split_from(first.1 + s2, 0);
            whole.0 == first.0 + second.0 && whole.1 == second.1
        }),
    decreases s1.len() - i,
{
    let whole = split_from(s1 + s2, i);
    let first = split_from(s1, i);
    let second = split_from(first.1 + s2, 0);
    lemma_char_from_concat(s1, s2, '\n', i);
    lemma_char_from_props(s1, '\n', i);
    match char_from(s1, '\n', i) {
        None => {
            assert(first.1 =~= s1.skip(i));
            lemma_split_shift(s1 + s2, i, 0);
            assert((s1 + s2).skip(i) =~= s1.skip(i) + s2);
            assert(first.1 + s2 == (s1 + s2).skip(i));
            assert(whole.0 =~= first.0 + second.0);
        },
        Some(j) => {
            lemma_split_concat(s1, s2, j + 1);
            assert((s1 + s2).subrange(i, j) =~= s1.subrange(i, j));
            assert(first.1 == split_from(s1, j + 1).1);
            assert(whole.0 =~= first.0 + second.0);
        },
    }
}

/// Chunking law: however the stream is cut into reads, reassembly gives
/// the same lines.  Splitting what remains buffered plus two chunks in one
/// go yields exactly the lines of the first feed followed by the lines of
/// the second, and the same final buffer.
pub proof fn lemma_feed_in_two_chunks(buffer: Seq<char>, c1: Seq<char>, c2: Seq<char>)
    ensures
        ({
            let whole = split_from(buffer + (c1 + c2), 0);
            let first = split_from(buffer + c1, 0);
            let second = split_from(first.1 + c2, 0);
            whole.0 == first.0 + second.0 && whole.1 == second.1
        }),
{
    assert(buffer + (c1 + c2) =~= (buffer + c1) + c2);
    lemma_split_concat(buffer + c1, c2, 0);
}

/// The events of a batch of lines, in order: empty lines are dropped and
/// every other line is parsed.
pub open spec fn events_of_prefix(lines: Seq<Seq<char>>, i: int) -> Seq<EventView>
    decreases i,
{
    if i <= 0 {
        Seq::empty()
    } else {
        let r = events_of_prefix(lines, i - 1);
        if lines[i - 1].len() == 0 {
            r
        } else {
            r.push(spec_parse_event(lines[i - 1]))
        }
    }
}

/// Reassembles newline-delimited lines from a stream of chunks.  A read
/// may split a line anywhere; only text up to the last newline is released,
/// and the remainder is buffered for the next chunk.
#[derive(Debug)]
pub struct LineAssembler {
    /// Text after the last newline seen so far, waiting for its line end.
    pub buffer: String,
}

impl View for LineAssembler {
    type V = Seq<char>;

    open spec fn view(&self) -> Seq<char> {
        self.buffer@
    }
}

impl LineAssembler {
    /// An assembler with nothing buffered.
    pub fn new() -> (r: Self)
        ensures
            r@.len() == 0,
    {
        LineAssembler { buffer: String::new() }
    }

    /// Append one chunk and release every line it completes, in order; the
    /// text after the last newline stays buffered.
    pub fn feed(&mut self, chunk: &str) -> (lines: Vec<String>)
        ensures
            lines.deep_view() == split_from(old(self)@ + chunk@, 0).0,
            final(self)@ == split_from(old(self)@ + chunk@, 0).1,
    {
        let combined: String = self.buffer.clone().concat(chunk);
        let len = combined.as_str().unicode_len();
        let mut out: Vec<String> = Vec::new();
        let mut start: usize = 0;
        let mut done = false;
        while !done
            invariant
                0 <= start <= len,
                len == combined@.len(),
                combined@ == old(self)@ + chunk@,
                split_from(combined@, 0).0 == out.deep_view() + split_from(
                    combined@,
                    start as int,
                ).0,
                split_from(combined@, 0).1 == split_from(combined@, start as int).1,
                done ==> char_from(combined@, '\n', start as int) is None,
            decreases len - start, (if done {
                0int
            } else {
                1int
            }),
        {
            match find_char_from(combined.as_str(), '\n', start) {
                Some(j) => {
                    let ghost out_before = out.deep_view();
                    let piece = combined.as_str().substring_char(start, j).to_owned();
                    out.push(piece);
                    proof {
                        assert(out.deep_view() =~= out_before.push(
                            combined@.subrange(start as int, j as int),
                        ));
                        assert(split_from(combined@, start as int).0 == seq![
                            combined@.subrange(start as int, j as int),
                        ] + split_from(combined@, j as int + 1).0);
                        assert(out_before + split_from(combined@, start as int).0
                            =~= out.deep_view() + split_from(combined@, j as int + 1).0);
                    }
                    start = j + 1;
                },
                None => {
                    done = true;
                },
            }
        }
        let tail = combined.as_str().substring_char(start, len).to_owned();
        self.buffer = tail;
        proof {
            assert(split_from(combined@, start as int).0 =~= Seq::<Seq<char>>::empty());
            assert(out.deep_view() + Seq::<Seq<char>>::empty() =~= out.deep_view());
        }
        out
    }

    /// Append one chunk and parse every line it completes into events,
    /// dropping empty lines, exactly in arrival order.
    pub fn drain_events(&mut self, chunk: &str) -> (evs: Vec<HyprEvent>)
        ensures
            final(self)@ == split_from(old(self)@ + chunk@, 0).1,
            evs.deep_view() == ({
                let lines = split_from(old(self)@ + chunk@, 0).0;
                events_of_prefix(lines, lines.len() as int)
            }),
    {
        let lines = self.feed(chunk);
        let mut evs: Vec<HyprEvent> = Vec::new();
        let mut i: usize = 0;
        while i < lines.len()
            invariant
                0 <= i <= lines@.len(),
                lines.deep_view() == split_from(old(self)@ + chunk@, 0).0,
                lines.deep_view().len() == lines@.len(),
                evs.deep_view() == events_of_prefix(lines.deep_view(), i as int),
            decreases lines@.len() - i,
        {
            let ghost evs_before = evs.deep_view();
            if !lines[i].as_str().is_empty() {
                let ev = parse_event(lines[i].as_str());
                evs.push(ev);
                proof {
                    assert(evs.deep_view() =~= evs_before.push(
                        spec_parse_event(lines.deep_view()[i as int]),
                    ));
                }
            }
            i = i + 1;
        }
        evs
    }
}

} // verus!

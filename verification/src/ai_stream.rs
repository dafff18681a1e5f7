//! Decoding a streamed chat completion (server-sent events): the text of
//! the stream is cut into lines, and each `data:` line gives the next piece
//! of the reply.
use vstd::prelude::*;

use crate::text::{
    chars_of, string_of, slice_chars, trim, trim_chars, first_index, find_char_from, is_prefix,
    has_prefix, chars_eq, lemma_first_index, lemma_first_index_is,
};

use crate::ai_client::{parse_generate_output, postprocess, fallback_parse, lines_view};
use crate::presets::TextLine;
use crate::json::{json_tree_of, parse_json_tree};
use crate::yaml::{Yaml, YamlNode, get, get_node, lemma_list_view};
use crate::text::lines;

verus! {

/// The string at `choices[0].<field>.content` of a reply value, where the
/// value has a non-empty `choices` list whose first entry holds `field`
/// with a string `content`; indexing a missing member or entry finds
/// nothing, as `serde_json::Value` indexing gives `null` there.
pub open spec fn choice_text(v: Yaml, field: Seq<char>) -> Option<Seq<char>> {
    match get(v, "choices"@) {
        Some(Yaml::List(l)) => if l.len() > 0 {
            match get(l[0], field) {
                Some(m) => match get(m, "content"@) {
                    Some(Yaml::Str(s)) => Some(s),
                    _ => None,
                },
                None => None,
            }
        } else {
            None
        },
        _ => None,
    }
}

pub fn choice_text_exec(v: &YamlNode, field: &str) -> (r: Option<String>)
    ensures
        match r {
            Some(s) => choice_text(v@, field@) == Some(s@),
            None => choice_text(v@, field@) is None,
        },
{
    proof {
        reveal_strlit("choices");
        reveal_strlit("content");
    }
    match get_node(v, "choices") {
        Some(YamlNode::List(l)) => {
            proof {
                lemma_list_view(l@);
            }
            if l.len() > 0 {
                match get_node(&l[0], field) {
                    Some(m) => match get_node(m, "content") {
                        Some(YamlNode::Str(s)) => Some(s.clone()),
                        _ => None,
                    },
                    None => None,
                }
            } else {
                None
            }
        },
        _ => None,
    }
}

/// What one event's data gives: parsed as JSON, the string at
/// `choices[0].delta.content`, if the data is JSON and a string stands
/// there.
pub open spec fn delta_content_of(data: Seq<char>) -> Option<Seq<char>> {
    match json_tree_of(data) {
        Ok(t) => choice_text(t, "delta"@),
        Err(_) => None,
    }
}

fn delta_content(data: &str) -> (r: Option<String>)
    ensures
        match r {
            Some(c) => delta_content_of(data@) == Some(c@),
            None => delta_content_of(data@) is None,
        },
{
    match parse_json_tree(data) {
        Ok(t) => choice_text_exec(&t, "delta"),
        Err(_) => None,
    }
}

/// The data of an event line: what follows `data: `, trimmed.
pub open spec fn event_data(line: Seq<char>) -> Option<Seq<char>> {
    if is_prefix("data: "@, line) {
        Some(trim(line.subrange(6, line.len() as int)))
    } else {
        None
    }
}

/// A trimmed line that ends the events of the current read: `data: [DONE]`.
pub open spec fn line_is_done(line: Seq<char>) -> bool {
    event_data(line) == Some("[DONE]"@)
}

/// The piece of reply that a trimmed line carries: a `data:` line other
/// than `[DONE]` whose JSON holds delta content. Empty lines and comment
/// lines (starting with `:`) carry none.
pub open spec fn line_content(line: Seq<char>) -> Option<Seq<char>> {
    if line.len() == 0 || line[0] == ':' {
        None
    } else {
        match event_data(line) {
            Some(d) => if d == "[DONE]"@ {
                None
            } else {
                delta_content_of(d)
            },
            None => None,
        }
    }
}

/// Reading the complete lines of `buf`: the pieces of reply they carry,
/// and what is left in the buffer. Reading stops after the last complete
/// line, or right after a `[DONE]` line.
pub open spec fn drain(buf: Seq<char>) -> (Seq<Seq<char>>, Seq<char>)
    decreases buf.len(),
{
    match first_index(buf, '\n') {
        Some(pos) => if 0 <= pos < buf.len() {
            let line = trim(buf.subrange(0, pos));
            let rest = buf.subrange(pos + 1, buf.len() as int);
            if line_is_done(line) {
                (Seq::empty(), rest)
            } else {
                let (pieces, left) = drain(rest);
                match line_content(line) {
                    Some(c) => (seq![c] + pieces, left),
                    None => (pieces, left),
                }
            }
        } else {
            (Seq::empty(), buf)
        },
        None => (Seq::empty(), buf),
    }
}

/// Classifies one trimmed line: `None` for `[DONE]`, else the piece of
/// reply it carries, if any.
fn classify_line(line: &Vec<char>) -> (r: Option<Option<String>>)
    ensures
        match r {
            None => line_is_done(line@),
            Some(c) => !line_is_done(line@) && match c {
                Some(s) => line_content(line@) == Some(s@),
                None => line_content(line@) is None,
            },
        },
{
    let prefix = chars_of("data: ");
    proof {
        reveal_strlit("data: ");
        reveal_strlit("[DONE]");
    }
    if !has_prefix(line, &prefix) {
        return Some(None);
    }
    let data = trim_chars(&slice_chars(line, 6, line.len()));
    let done = chars_of("[DONE]");
    if chars_eq(&data, &done) {
        return None;
    }
    proof {
        assert(line@.len() > 0 && line@[0] == 'd') by {
            assert(line@.subrange(0, 6)[0] == line@[0]);
        }
    }
    match delta_content(string_of(&data).as_str()) {
        Some(s) => Some(Some(s)),
        None => Some(None),
    }
}

/// A decoder of one event stream: the text received and not yet read.
#[derive(Debug)]
pub struct SseDecoder {
    pub buffer: String,
}

impl SseDecoder {
    pub fn new() -> (r: SseDecoder)
        ensures
            r.buffer@ == Seq::<char>::empty(),
    {
        SseDecoder { buffer: String::new() }
    }

    /// Takes the next chunk of the stream and gives the pieces of reply that
    /// its complete lines carry, in order; the rest stays buffered.
    pub fn feed(&mut self, chunk: &str) -> (pieces: Vec<String>)
        ensures
            pieces@.map_values(|s: String| s@) == drain(old(self).buffer@ + chunk@).0,
            final(self).buffer@ == drain(old(self).buffer@ + chunk@).1,
    {
        let a = chars_of(self.buffer.as_str());
        let b = chars_of(chunk);
        let v = crate::text::concat(&a, &b);
        let ghost all = v@;
        let mut out: Vec<String> = Vec::new();
        let mut start: usize = 0;
        let mut done = false;
        assert(v@.subrange(0, v.len() as int) =~= v@);
        assert(out@.map_values(|s: String| s@) =~= Seq::<Seq<char>>::empty());
        while !done
            invariant
                0 <= start <= v.len(),
                v@ == all,
                !done ==> out@.map_values(|s: String| s@) + drain(v@.subrange(start as int, v.len() as int)).0
                    == drain(all).0,
                !done ==> drain(v@.subrange(start as int, v.len() as int)).1 == drain(all).1,
                done ==> out@.map_values(|s: String| s@) == drain(all).0,
                done ==> v@.subrange(start as int, v.len() as int) == drain(all).1,
            decreases v.len() - start + (if done { 0int } else { 1int }),
        {
            let ghost rest = v@.subrange(start as int, v.len() as int);
            let ghost o0 = out@.map_values(|s: String| s@);
            match find_char_from(&v, '\n', start) {
                None => {
                    proof {
                        assert(drain(rest) == (Seq::<Seq<char>>::empty(), rest));
                        assert(o0 + Seq::<Seq<char>>::empty() =~= o0);
                    }
                    done = true;
                },
                Some(pos) => {
                    let line = trim_chars(&slice_chars(&v, start, pos));
                    proof {
                        assert(v@.subrange(start as int, pos as int) =~= rest.subrange(0, pos - start));
                        assert(rest.subrange(pos - start + 1, rest.len() as int) =~= v@.subrange(
                            pos + 1,
                            v.len() as int,
                        ));
                    }
                    match classify_line(&line) {
                        None => {
                            proof {
                                assert(o0 + Seq::<Seq<char>>::empty() =~= o0);
                            }
                            start = pos + 1;
                            done = true;
                        },
                        Some(c) => {
                            match c {
                                Some(s) => {
                                    out.push(s);
                                    proof {
                                        let tail = drain(v@.subrange(pos + 1, v.len() as int));
                                        assert(out@.map_values(|s: String| s@) =~= o0.push(s@));
                                        assert(o0 + (seq![s@] + tail.0) =~= o0.push(s@) + tail.0);
                                    }
                                },
                                None => {},
                            }
                            start = pos + 1;
                        },
                    }
                },
            }
        }
        self.buffer = string_of(&slice_chars(&v, start, v.len()));
        out
    }
}

/// No complete line of `buf` that [`drain`] reads is a `[DONE]` line.
pub open spec fn no_done(buf: Seq<char>) -> bool
    decreases buf.len(),
{
    match first_index(buf, '\n') {
        Some(pos) => if 0 <= pos < buf.len() {
            !line_is_done(trim(buf.subrange(0, pos))) && no_done(buf.subrange(pos + 1, buf.len() as int))
        } else {
            true
        },
        None => true,
    }
}

/// Law (chunking does not matter): when the complete lines of the text
/// received so far hold no `[DONE]`, reading it and then the next chunk
/// gives the same pieces, and leaves the same buffer, as reading all of it
/// at once. So [`SseDecoder::feed`] gives the same reply however the
/// stream is cut into chunks.
pub proof fn law_chunking_invariant(buf: Seq<char>, next: Seq<char>)
    requires
        no_done(buf),
    ensures
        drain(buf + next) == (drain(buf).0 + drain(drain(buf).1 + next).0, drain(drain(buf).1 + next).1),
    decreases buf.len(),
{
    lemma_first_index(buf, '\n');
    match first_index(buf, '\n') {
        Some(pos) => {
            let both = buf + next;
            assert forall|j: int| 0 <= j < pos implies #[trigger] both[j] != '\n' by {
                assert(both[j] == buf[j]);
            }
            assert(both[pos] == buf[pos]);
            lemma_first_index_is(both, '\n', pos);
            assert(both.subrange(0, pos) =~= buf.subrange(0, pos));
            let rest = buf.subrange(pos + 1, buf.len() as int);
            assert(both.subrange(pos + 1, both.len() as int) =~= rest + next);
            law_chunking_invariant(rest, next);
            let line = trim(buf.subrange(0, pos));
            let (p, l) = drain(rest + next);
            match line_content(line) {
                Some(c) => {
                    assert(seq![c] + (drain(rest).0 + drain(drain(rest).1 + next).0) =~= (seq![c]
                        + drain(rest).0) + drain(drain(rest).1 + next).0);
                },
                None => {},
            }
        },
        None => {
            assert(Seq::<Seq<char>>::empty() + drain(buf + next).0 =~= drain(buf + next).0);
        },
    }
}


// ── Relaying a streamed generation ─────────────────────────────────────

/// What is passed on to the client of a streamed generation.
#[derive(Debug)]
pub enum StreamEvent {
    /// The next piece of the reply.
    Chunk(String),
    /// The stream broke with this error; nothing follows but the end.
    Error(String),
}

/// The reply received so far, and whether the stream broke.
#[derive(Debug)]
pub struct StreamRelay {
    pub full: String,
    pub stopped: bool,
}

impl StreamRelay {
    pub fn new() -> (r: StreamRelay)
        ensures
            r.full@ == Seq::<char>::empty(),
            !r.stopped,
    {
        StreamRelay { full: String::new(), stopped: false }
    }

    /// The next item of the reply stream: a piece is added to the reply and
    /// passed on; an error is passed on and ends the stream.
    pub fn on_item(&mut self, item: Result<String, String>) -> (ev: StreamEvent)
        requires
            !old(self).stopped,
        ensures
            match item {
                Ok(c) => final(self).full@ == old(self).full@ + c@ && !final(self).stopped
                    && (ev matches StreamEvent::Chunk(x) && x@ == c@),
                Err(e) => final(self).full@ == old(self).full@ && final(self).stopped
                    && (ev matches StreamEvent::Error(x) && x@ == e@),
            },
    {
        match item {
            Ok(c) => {
                let joined = self.full.clone().concat(c.as_str());
                self.full = joined;
                StreamEvent::Chunk(c)
            },
            Err(e) => {
                self.stopped = true;
                StreamEvent::Error(e)
            },
        }
    }

    /// At the end of the stream: the lines of the whole reply (see
    /// [`parse_generate_output`] for `json_lines`), and whether they go to
    /// the history (when there is any).
    pub fn finish(&self, json_lines: Option<Vec<TextLine>>) -> (r: (Vec<TextLine>, bool))
        ensures
            lines_view(r.0@) == match json_lines {
                Some(items) => postprocess(lines_view(items@)),
                None => postprocess(fallback_parse(lines(self.full@))),
            },
            r.1 == (r.0@.len() > 0),
    {
        let texts = parse_generate_output(self.full.as_str(), json_lines);
        let keep = texts.len() > 0;
        (texts, keep)
    }
}

} // verus!

//! The streaming core: upstream dialect selection, the protocol frame
//! decoder for both wire dialects, upstream request building, the retry
//! schedule, quick-response selection, stream composition and the metrics
//! report. Network transport stays at the boundary; everything here is a
//! decision from plain values to plain values.

use vstd::prelude::*;
use vstd::string::{StrSliceExecFns, StringExecFns};
use vstd::utf8::encode_utf8;

use crate::config::Config;
use crate::errors::LoroError;
use crate::json::{choice_delta_json, jstr, serialize_chunk};
use crate::models::{
    ChatCompletionChunk, ChoiceDelta, Message, MessageDelta, OpenAIChoice, OpenAIMessage,
    RequestCategory,
};
use crate::stats::StatsCollector;
use crate::text::{
    chars_eq, chars_skip, chars_start_with, chars_vec, dec_int, string_from_chars, trim_chars,
    trim_spec,
};

verus! {

/// The wire dialect of an upstream, chosen by inspecting its base URL: a
/// local NDJSON server is recognized by its conventional port in the URL.
#[derive(Debug, Clone, Copy, PartialEq, Eq, Structural)]
pub enum UpstreamDialect {
    OpenAICompatible,
    LocalNDJSON,
}

/// Which dialect a base URL selects.
pub open spec fn spec_dialect_of(url: Seq<char>) -> UpstreamDialect {
    if crate::text::contains_sub_spec(url, "11434"@) {
        UpstreamDialect::LocalNDJSON
    } else {
        UpstreamDialect::OpenAICompatible
    }
}

impl UpstreamDialect {
    /// Selects the dialect for a configured base URL.
    pub fn from_base_url(url: &str) -> (r: UpstreamDialect)
        ensures
            r == spec_dialect_of(url@),
    {
        let hay = chars_vec(url);
        let needle = chars_vec("11434");
        if crate::text::chars_contain(&hay, &needle) {
            UpstreamDialect::LocalNDJSON
        } else {
            UpstreamDialect::OpenAICompatible
        }
    }
}

/// Relies on `chrono::Utc::now().timestamp()`: the current Unix time in
/// seconds. Nothing is promised of the clock's value. `Utc::now` panics if
/// the system clock stands before 1970 — an environmental failure no input
/// can trigger.
#[verifier::external_body]
fn now_timestamp() -> i64 {
    chrono::Utc::now().timestamp()
}

/// Relies on `rand::random_range`: a uniformly random index below `n`.
/// Nothing beyond the bound can be promised of a random value.
#[verifier::external_body]
fn pick_index(n: usize) -> (r: usize)
    requires
        n > 0,
    ensures
        r < n,
{
    rand::random_range(0..n)
}

/// What parsing one SSE data payload yields: `None` when the text is not
/// valid JSON, `Some(None)` when the document has no first choice (a
/// non-object document included), otherwise the first choice's fields. A
/// pure function of the text, named here and tied to the real parser by the
/// trusted wrapper below.
pub uninterp spec fn openai_frame_of(s: Seq<char>) -> Option<Option<OpenAIChoice>>;

/// Relies on `serde_json::from_str` and `serde_json::Value`'s accessors:
/// parses one OpenAI-style frame and reads the first choice's `message`,
/// `delta` and `finish_reason` fields, a function of the text alone.
#[verifier::external_body]
fn parse_openai_frame(s: &str) -> (r: Option<Option<OpenAIChoice>>)
    ensures
        r == openai_frame_of(s@),
{
    let v: serde_json::Value = serde_json::from_str(s).ok()?;
    let g = |m: &serde_json::Value, k: &str| m.get(k).and_then(|x| x.as_str()).map(String::from);
    let c = match v.get("choices").and_then(|x| x.as_array()).and_then(|a| a.first()) {
        Some(c) => c,
        None => return Some(None),
    };
    let f = |m: &serde_json::Value| OpenAIMessage { role: g(m, "role"), content: g(m, "content") };
    let (message, delta) = (c.get("message").map(f), c.get("delta").map(f));
    Some(Some(OpenAIChoice { message, delta, finish_reason: g(c, "finish_reason") }))
}

/// What parsing one NDJSON line yields: the `message.content` string of the
/// object, or `None` when the line is not such an object. A pure function of
/// the text, named here and tied to the real parser by the wrapper below.
pub uninterp spec fn ndjson_frame_of(s: Seq<char>) -> Option<String>;

/// Relies on `serde_json::from_str` and `serde_json::Value`'s accessors:
/// parses one NDJSON line and reads `message.content`, a function of the
/// text alone.
#[verifier::external_body]
fn parse_ndjson_frame(s: &str) -> (r: Option<String>)
    ensures
        r == ndjson_frame_of(s@),
{
    let v: serde_json::Value = match serde_json::from_str(s) {
        Ok(v) => v,
        Err(_) => return None,
    };
    v.get("message").and_then(|m| m.get("content")).and_then(|c| c.as_str()).map(String::from)
}

/// The frame size limit: an oversized serialized chunk is not forwarded.
pub open spec fn gate(payload: Seq<char>) -> Option<Seq<char>> {
    if encode_utf8(payload).len() as usize > 1048576 {
        None
    } else {
        Some(payload)
    }
}

/// The serialized single-choice chunk this gateway emits for a frame, over
/// plain texts: the id carries the request id, the object tag is fixed.
pub open spec fn one_choice_chunk_json_v(
    rid: Seq<char>,
    created: int,
    model: Seq<char>,
    role: Option<Seq<char>>,
    content: Option<Seq<char>>,
    finish: Option<Seq<char>>,
) -> Seq<char> {
    "{\"id\":"@ + jstr("chatcmpl-"@ + rid) + ",\"object\":"@ + jstr("chat.completion.chunk"@)
        + ",\"created\":"@ + dec_int(created) + ",\"model\":"@ + jstr(model) + ",\"choices\":["@
        + crate::json::choice_json_v(0, role, content, finish) + "]}"@
}

/// The serialized single-choice chunk for a choice value with index 0.
pub open spec fn one_choice_chunk_json(
    rid: Seq<char>,
    created: int,
    model: Seq<char>,
    cd: ChoiceDelta,
) -> Seq<char> {
    "{\"id\":"@ + jstr("chatcmpl-"@ + rid) + ",\"object\":"@ + jstr("chat.completion.chunk"@)
        + ",\"created\":"@ + dec_int(created) + ",\"model\":"@ + jstr(model) + ",\"choices\":["@
        + choice_delta_json(cd) + "]}"@
}

/// Builds and serializes the single-choice chunk for one decoded frame.
fn one_choice_payload(request_id: &str, model_name: &str, created: i64, cd: ChoiceDelta) -> (r:
    String)
    ensures
        r@ == one_choice_chunk_json(request_id@, created as int, model_name@, cd),
{
    let mut id = String::from_str("chatcmpl-");
    id.append(request_id);
    let mut choices: Vec<ChoiceDelta> = Vec::new();
    let ghost cd0 = cd;
    choices.push(cd);
    let chunk = ChatCompletionChunk {
        id,
        object: String::from_str("chat.completion.chunk"),
        created,
        model: String::from_str(model_name),
        choices,
    };
    let out = serialize_chunk(&chunk);
    proof {
        assert(chunk.choices@ =~= seq![cd0]);
        assert(crate::json::choices_json(seq![cd0]) == choice_delta_json(cd0));
        assert(out@ =~= one_choice_chunk_json(request_id@, created as int, model_name@, cd0));
    }
    out
}

/// A copy of an optional string, equal to the original.
fn clone_opt(o: &Option<String>) -> (r: Option<String>)
    ensures
        r == *o,
{
    match o {
        Some(s) => Some(s.clone()),
        None => None,
    }
}

/// The content an SSE choice carries: the delta's when a delta is present,
/// else the message's (the non-streaming form reuses this path).
pub open spec fn sse_content(c: OpenAIChoice) -> Option<String> {
    match c.delta {
        Some(d) => d.content,
        None => match c.message {
            Some(m) => m.content,
            None => None,
        },
    }
}

/// The role an SSE choice carries, with the same precedence as the content.
pub open spec fn sse_role(c: OpenAIChoice) -> Option<String> {
    match c.delta {
        Some(d) => d.role,
        None => match c.message {
            Some(m) => m.role,
            None => None,
        },
    }
}

/// What one parsed SSE choice yields: a content-carrying chunk when it has
/// non-empty content, a content-less terminal chunk when only a finish
/// reason is present, nothing otherwise; oversized chunks are dropped.
pub open spec fn spec_sse_choice_result(
    c: OpenAIChoice,
    rid: Seq<char>,
    model: Seq<char>,
    created: int,
) -> Option<Seq<char>> {
    if sse_content(c) matches Some(ct) && ct@.len() > 0 {
        gate(
            one_choice_chunk_json(
                rid,
                created,
                model,
                (ChoiceDelta {
                    index: 0,
                    delta: MessageDelta { role: sse_role(c), content: sse_content(c) },
                    finish_reason: c.finish_reason,
                }),
            ),
        )
    } else if c.finish_reason is Some && sse_content(c) is None {
        gate(
            one_choice_chunk_json(
                rid,
                created,
                model,
                (ChoiceDelta {
                    index: 0,
                    delta: MessageDelta { role: None, content: None },
                    finish_reason: c.finish_reason,
                }),
            ),
        )
    } else {
        None
    }
}

/// What one SSE line yields: only `data:` lines count; `[DONE]`, blank
/// payloads, unparsable frames and choice-less frames yield nothing.
pub open spec fn spec_sse_line(
    line: Seq<char>,
    rid: Seq<char>,
    model: Seq<char>,
    created: int,
) -> Option<Seq<char>> {
    if !crate::text::starts_with_spec(line, "data: "@) {
        None
    } else {
        let jd = trim_spec(line.skip(6));
        if jd == "[DONE]"@ {
            None
        } else if jd.len() == 0 {
            None
        } else {
            match openai_frame_of(jd) {
                None => None,
                Some(None) => None,
                Some(Some(c)) => spec_sse_choice_result(c, rid, model, created),
            }
        }
    }
}

/// Decodes one SSE line into at most one serialized chunk, deterministically
/// for a given creation timestamp.
pub fn sse_line_payload(line: &str, request_id: &str, model_name: &str, created: i64) -> (r:
    Option<String>)
    ensures
        match r {
            Some(p) => spec_sse_line(line@, request_id@, model_name@, created as int) == Some(p@),
            None => spec_sse_line(line@, request_id@, model_name@, created as int) is None,
        },
{
    let lv = chars_vec(line);
    let prefix = chars_vec("data: ");
    if !chars_start_with(&lv, &prefix) {
        return None;
    }
    proof {
        reveal_strlit("data: ");
    }
    let rest = chars_skip(&lv, 6);
    let jd = trim_chars(&rest);
    let done_marker = chars_vec("[DONE]");
    if chars_eq(&jd, &done_marker) {
        return None;
    }
    if jd.len() == 0 {
        return None;
    }
    let jd_str = string_from_chars(&jd);
    match parse_openai_frame(jd_str.as_str()) {
        None => None,
        Some(None) => None,
        Some(Some(c)) => {
            let content_present_nonempty = match &c.delta {
                Some(d) => match &d.content {
                    Some(ct) => ct.as_str().unicode_len() > 0,
                    None => false,
                },
                None => match &c.message {
                    Some(m) => match &m.content {
                        Some(ct) => ct.as_str().unicode_len() > 0,
                        None => false,
                    },
                    None => false,
                },
            };
            let content_absent = match &c.delta {
                Some(d) => d.content.is_none(),
                None => match &c.message {
                    Some(m) => m.content.is_none(),
                    None => true,
                },
            };
            if content_present_nonempty {
                let role = match &c.delta {
                    Some(d) => clone_opt(&d.role),
                    None => match &c.message {
                        Some(m) => clone_opt(&m.role),
                        None => None,
                    },
                };
                let content = match &c.delta {
                    Some(d) => clone_opt(&d.content),
                    None => match &c.message {
                        Some(m) => clone_opt(&m.content),
                        None => None,
                    },
                };
                let cd = ChoiceDelta {
                    index: 0,
                    delta: MessageDelta { role, content },
                    finish_reason: clone_opt(&c.finish_reason),
                };
                let payload = one_choice_payload(request_id, model_name, created, cd);
                if payload.as_str().len() > 1048576 {
                    None
                } else {
                    Some(payload)
                }
            } else if c.finish_reason.is_some() && content_absent {
                let cd = ChoiceDelta {
                    index: 0,
                    delta: MessageDelta { role: None, content: None },
                    finish_reason: clone_opt(&c.finish_reason),
                };
                let payload = one_choice_payload(request_id, model_name, created, cd);
                if payload.as_str().len() > 1048576 {
                    None
                } else {
                    Some(payload)
                }
            } else {
                None
            }
        }
    }
}

/// What one NDJSON line yields: a parse failure is an error for the caller
/// to handle, empty content is no chunk, other content becomes one chunk
/// unless oversized.
pub open spec fn spec_ndjson_line(
    line: Seq<char>,
    rid: Seq<char>,
    model: Seq<char>,
    created: int,
) -> Result<Option<Seq<char>>, ()> {
    match ndjson_frame_of(line) {
        None => Err(()),
        Some(content) => if content@.len() == 0 {
            Ok(None)
        } else {
            Ok(
                gate(
                    one_choice_chunk_json(
                        rid,
                        created,
                        model,
                        (ChoiceDelta {
                            index: 0,
                            delta: MessageDelta { role: None, content: Some(content) },
                            finish_reason: None,
                        }),
                    ),
                ),
            )
        },
    }
}

/// Decodes one NDJSON line into at most one serialized chunk,
/// deterministically for a given creation timestamp.
pub fn ndjson_line_payload(line: &str, request_id: &str, model_name: &str, created: i64) -> (r:
    Result<Option<String>, LoroError>)
    ensures
        match r {
            Ok(o) => (match o {
                Some(p) => spec_ndjson_line(line@, request_id@, model_name@, created as int)
                    == Ok::<Option<Seq<char>>, ()>(Some(p@)),
                None => spec_ndjson_line(line@, request_id@, model_name@, created as int)
                    == Ok::<Option<Seq<char>>, ()>(None),
            }),
            Err(e) => e is JsonParse && spec_ndjson_line(
                line@,
                request_id@,
                model_name@,
                created as int,
            ) is Err,
        },
{
    match parse_ndjson_frame(line) {
        None => Err(LoroError::JsonParse(String::from_str("invalid NDJSON frame"))),
        Some(content) => {
            if content.as_str().unicode_len() == 0 {
                Ok(None)
            } else {
                let cd = ChoiceDelta {
                    index: 0,
                    delta: MessageDelta { role: None, content: Some(content) },
                    finish_reason: None,
                };
                let payload = one_choice_payload(request_id, model_name, created, cd);
                if payload.as_str().len() > 1048576 {
                    Ok(None)
                } else {
                    Ok(Some(payload))
                }
            }
        }
    }
}

/// The index of the first newline in `buf`, or -1 when there is none.
pub open spec fn find_nl(buf: Seq<char>) -> int
    decreases buf.len(),
{
    if buf.len() == 0 {
        -1
    } else if buf[0] == '\n' {
        0
    } else {
        let r = find_nl(buf.drop_first());
        if r < 0 {
            -1
        } else {
            r + 1
        }
    }
}

proof fn lemma_find_nl(buf: Seq<char>)
    ensures
        find_nl(buf) == -1 ==> forall|k: int| 0 <= k < buf.len() ==> buf[k] != '\n',
        find_nl(buf) >= 0 ==> 0 <= find_nl(buf) < buf.len() && buf[find_nl(buf)] == '\n' && (forall|
            k: int,
        |
            0 <= k < find_nl(buf) ==> buf[k] != '\n'),
    decreases buf.len(),
{
    if buf.len() > 0 && buf[0] != '\n' {
        lemma_find_nl(buf.drop_first());
        let t = buf.drop_first();
        if find_nl(t) == -1 {
            assert forall|k: int| 0 <= k < buf.len() implies buf[k] != '\n' by {
                if k > 0 {
                    assert(buf[k] == t[k - 1]);
                }
            }
        } else {
            assert(buf[find_nl(buf)] == t[find_nl(t)]);
            assert forall|k: int| 0 <= k < find_nl(buf) implies buf[k] != '\n' by {
                if k > 0 {
                    assert(buf[k] == t[k - 1]);
                }
            }
        }
    }
}

/// The newline-terminated lines of `buf`, in order, without their newlines.
pub open spec fn complete_lines(buf: Seq<char>) -> Seq<Seq<char>>
    decreases buf.len(),
{
    let i = find_nl(buf);
    if i < 0 || i >= buf.len() {
        Seq::<Seq<char>>::empty()
    } else {
        seq![buf.take(i)] + complete_lines(buf.skip(i + 1))
    }
}

/// What remains of `buf` after its last newline: the incomplete trailing
/// line that waits for the next delivery.
pub open spec fn line_tail(buf: Seq<char>) -> Seq<char>
    decreases buf.len(),
{
    let i = find_nl(buf);
    if i < 0 || i >= buf.len() {
        buf
    } else {
        line_tail(buf.skip(i + 1))
    }
}

proof fn lemma_find_nl_is(buf: Seq<char>, i: int)
    requires
        0 <= i < buf.len(),
        buf[i] == '\n',
        forall|k: int| 0 <= k < i ==> buf[k] != '\n',
    ensures
        find_nl(buf) == i,
{
    lemma_find_nl(buf);
    if find_nl(buf) == -1 {
        assert(buf[i] != '\n');
    } else {
        if find_nl(buf) < i {
            assert(buf[find_nl(buf)] != '\n');
        }
        if find_nl(buf) > i {
            assert(buf[i] != '\n');
        }
    }
}

proof fn lemma_find_nl_none(buf: Seq<char>)
    requires
        forall|k: int| 0 <= k < buf.len() ==> buf[k] != '\n',
    ensures
        find_nl(buf) < 0,
{
    lemma_find_nl(buf);
    if find_nl(buf) >= 0 {
        assert(buf[find_nl(buf)] != '\n');
    }
}

/// Appending more text to a buffer completes its old lines first: the
/// complete lines of `u + v` are those of `u` followed by those of the
/// unconsumed tail of `u` joined with `v`, and the tails agree.
proof fn lemma_lines_append(u: Seq<char>, v: Seq<char>)
    ensures
        complete_lines(u + v) == complete_lines(u) + complete_lines(line_tail(u) + v),
        line_tail(u + v) == line_tail(line_tail(u) + v),
    decreases u.len(),
{
    lemma_find_nl(u);
    let i = find_nl(u);
    if i < 0 {
        assert(line_tail(u) == u);
        assert(complete_lines(u) =~= Seq::<Seq<char>>::empty());
        assert(complete_lines(u + v) =~= complete_lines(u) + complete_lines(line_tail(u) + v));
    } else {
        assert(0 <= i < u.len());
        assert forall|k: int| 0 <= k < i implies (u + v)[k] != '\n' by {
            assert((u + v)[k] == u[k]);
        }
        assert((u + v)[i] == u[i]);
        lemma_find_nl_is(u + v, i);
        let rest = u.skip(i + 1);
        assert((u + v).take(i) =~= u.take(i));
        assert((u + v).skip(i + 1) =~= rest + v);
        lemma_lines_append(rest, v);
        assert(line_tail(u) == line_tail(rest));
        assert(complete_lines(u + v) == seq![u.take(i)] + complete_lines(rest + v));
        assert(complete_lines(u) == seq![u.take(i)] + complete_lines(rest));
        assert(seq![u.take(i)] + (complete_lines(rest) + complete_lines(line_tail(rest) + v))
            =~= (seq![u.take(i)] + complete_lines(rest)) + complete_lines(line_tail(rest) + v));
    }
}

/// Decoding a concatenated line list splits into decoding the first part
/// and then the second from the completion state the first one left.
proof fn lemma_decode_lines_append(
    l1: Seq<Seq<char>>,
    l2: Seq<Seq<char>>,
    d: UpstreamDialect,
    rid: Seq<char>,
    model: Seq<char>,
    created: int,
    done0: bool,
)
    ensures
        ({
            let a = spec_decode_lines(l1, d, rid, model, created, done0);
            let b = spec_decode_lines(l2, d, rid, model, created, a.1);
            let all = spec_decode_lines(l1 + l2, d, rid, model, created, done0);
            all.0 == a.0 + b.0 && all.1 == b.1
        }),
    decreases l1.len(),
{
    let a = spec_decode_lines(l1, d, rid, model, created, done0);
    let b = spec_decode_lines(l2, d, rid, model, created, a.1);
    if l1.len() == 0 {
        assert(l1 + l2 =~= l2);
        assert(Seq::<Seq<char>>::empty() + b.0 =~= b.0);
    } else {
        assert((l1 + l2)[0] == l1[0]);
        assert((l1 + l2).drop_first() =~= l1.drop_first() + l2);
        let first = spec_decode_line(l1[0], d, rid, model, created, done0);
        lemma_decode_lines_append(l1.drop_first(), l2, d, rid, model, created, first.1);
        let ra = spec_decode_lines(l1.drop_first(), d, rid, model, created, first.1);
        assert(first.0 + (ra.0 + b.0) =~= (first.0 + ra.0) + b.0);
    }
}

/// Reassembly: feeding an upstream text in two deliveries yields exactly
/// the chunks of feeding it in one, in the same order, with the same
/// completion flag and the same buffered tail — wherever the split falls,
/// even inside a line.
pub proof fn lemma_feed_reassembly(
    buf: Seq<char>,
    c1: Seq<char>,
    c2: Seq<char>,
    d: UpstreamDialect,
    rid: Seq<char>,
    model: Seq<char>,
    created: int,
    done0: bool,
)
    ensures
        ({
            let whole = spec_decode_lines(
                complete_lines(buf + (c1 + c2)),
                d,
                rid,
                model,
                created,
                done0,
            );
            let first = spec_decode_lines(complete_lines(buf + c1), d, rid, model, created, done0);
            let second = spec_decode_lines(
                complete_lines(line_tail(buf + c1) + c2),
                d,
                rid,
                model,
                created,
                first.1,
            );
            &&& whole.0 == first.0 + second.0
            &&& whole.1 == second.1
            &&& line_tail(buf + (c1 + c2)) == line_tail(line_tail(buf + c1) + c2)
        }),
{
    assert(buf + (c1 + c2) =~= (buf + c1) + c2);
    lemma_lines_append(buf + c1, c2);
    lemma_decode_lines_append(
        complete_lines(buf + c1),
        complete_lines(line_tail(buf + c1) + c2),
        d,
        rid,
        model,
        created,
        done0,
    );
}

/// What one raw line yields and whether the stream is complete afterwards.
/// Lines are trimmed first; blank lines and everything after completion are
/// ignored. In the SSE dialect a `data: [DONE]` line marks completion; in
/// the NDJSON dialect an unparsable line is skipped, never fatal.
pub open spec fn spec_decode_line(
    raw: Seq<char>,
    d: UpstreamDialect,
    rid: Seq<char>,
    model: Seq<char>,
    created: int,
    done0: bool,
) -> (Seq<Seq<char>>, bool) {
    let line = trim_spec(raw);
    if line.len() == 0 || done0 {
        (Seq::<Seq<char>>::empty(), done0)
    } else {
        match d {
            UpstreamDialect::OpenAICompatible => {
                if crate::text::starts_with_spec(line, "data: "@) && trim_spec(line.skip(6))
                    == "[DONE]"@ {
                    (Seq::<Seq<char>>::empty(), true)
                } else {
                    match spec_sse_line(line, rid, model, created) {
                        Some(p) => (seq![p], done0),
                        None => (Seq::<Seq<char>>::empty(), done0),
                    }
                }
            }
            UpstreamDialect::LocalNDJSON => {
                match spec_ndjson_line(line, rid, model, created) {
                    Ok(Some(p)) => (seq![p], done0),
                    _ => (Seq::<Seq<char>>::empty(), done0),
                }
            }
        }
    }
}

/// What a sequence of raw lines yields, threading the completion flag.
pub open spec fn spec_decode_lines(
    lines: Seq<Seq<char>>,
    d: UpstreamDialect,
    rid: Seq<char>,
    model: Seq<char>,
    created: int,
    done0: bool,
) -> (Seq<Seq<char>>, bool)
    decreases lines.len(),
{
    if lines.len() == 0 {
        (Seq::<Seq<char>>::empty(), done0)
    } else {
        let first = spec_decode_line(lines[0], d, rid, model, created, done0);
        let rest = spec_decode_lines(lines.drop_first(), d, rid, model, created, first.1);
        (first.0 + rest.0, rest.1)
    }
}

/// The stateful frame decoder of one upstream connection: it buffers the
/// unconsumed tail of the last delivery so that a line split across two
/// reads is reassembled, and remembers when the stream completed.
pub struct FrameDecoder {
    pub dialect: UpstreamDialect,
    pub request_id: String,
    pub model_name: String,
    pub buffer: Vec<char>,
    pub done: bool,
}

impl FrameDecoder {
    /// A fresh decoder for one connection.
    pub fn new(dialect: UpstreamDialect, request_id: String, model_name: String) -> (r:
        FrameDecoder)
        ensures
            r.dialect == dialect,
            r.request_id == request_id,
            r.model_name == model_name,
            r.buffer@ == Seq::<char>::empty(),
            !r.done,
    {
        FrameDecoder { dialect, request_id, model_name, buffer: Vec::new(), done: false }
    }

    /// Consumes one delivery of upstream text: every line completed by it is
    /// decoded in order, the trailing incomplete line stays buffered, and
    /// chunks created in this delivery carry the given timestamp.
    /// Successive deliveries compose: [`lemma_feed_reassembly`] shows that
    /// splitting a text across two calls yields the chunks of one call.
    pub fn feed(&mut self, chunk: &str, created: i64) -> (r: Vec<String>)
        ensures
            ({
                let combined = old(self).buffer@ + chunk@;
                let dec = spec_decode_lines(
                    complete_lines(combined),
                    old(self).dialect,
                    old(self).request_id@,
                    old(self).model_name@,
                    created as int,
                    old(self).done,
                );
                &&& final(self).dialect == old(self).dialect
                &&& final(self).request_id == old(self).request_id
                &&& final(self).model_name == old(self).model_name
                &&& final(self).buffer@ == line_tail(combined)
                &&& final(self).done == dec.1
                &&& r@.map_values(|s: String| s@) == dec.0
            }),
    {
        let ghost combined = self.buffer@ + chunk@;
        let ghost d = self.dialect;
        let ghost rid = self.request_id@;
        let ghost model = self.model_name@;
        let ghost done0 = self.done;
        let cv = chars_vec(chunk);
        let mut k: usize = 0;
        while k < cv.len()
            invariant
                k <= cv@.len(),
                self.buffer@ == old(self).buffer@ + cv@.take(k as int),
                self.dialect == old(self).dialect,
                self.request_id == old(self).request_id,
                self.model_name == old(self).model_name,
                self.done == old(self).done,
            decreases cv@.len() - k,
        {
            let c = cv[k];
            self.buffer.push(c);
            proof {
                assert(self.buffer@ =~= old(self).buffer@ + cv@.take(k + 1 as int));
            }
            k = k + 1;
        }
        proof {
            assert(cv@.take(cv@.len() as int) =~= cv@);
            assert(self.buffer@ == combined);
        }
        let mut out: Vec<String> = Vec::new();
        let ghost full = spec_decode_lines(
            complete_lines(combined),
            d,
            rid,
            model,
            created as int,
            done0,
        );
        loop
            invariant
                self.dialect == d,
                self.request_id@ == rid,
                self.model_name@ == model,
                self.dialect == old(self).dialect,
                self.request_id == old(self).request_id,
                self.model_name == old(self).model_name,
                ({
                    let cur = spec_decode_lines(
                        complete_lines(self.buffer@),
                        d,
                        rid,
                        model,
                        created as int,
                        self.done,
                    );
                    &&& out@.map_values(|s: String| s@) + cur.0 == full.0
                    &&& cur.1 == full.1
                    &&& line_tail(self.buffer@) == line_tail(combined)
                }),
            ensures
                find_nl(self.buffer@) < 0,
                self.dialect == old(self).dialect,
                self.request_id == old(self).request_id,
                self.model_name == old(self).model_name,
                ({
                    let cur = spec_decode_lines(
                        complete_lines(self.buffer@),
                        d,
                        rid,
                        model,
                        created as int,
                        self.done,
                    );
                    &&& out@.map_values(|s: String| s@) + cur.0 == full.0
                    &&& cur.1 == full.1
                    &&& line_tail(self.buffer@) == line_tail(combined)
                }),
            decreases self.buffer@.len(),
        {
            let buf_len = self.buffer.len();
            let mut idx: usize = 0;
            let mut found = false;
            while idx < buf_len && !found
                invariant
                    idx <= buf_len,
                    buf_len == self.buffer@.len(),
                    found ==> idx < buf_len && self.buffer@[idx as int] == '\n',
                    forall|t: int| 0 <= t < idx ==> self.buffer@[t] != '\n',
                decreases buf_len - idx + (if found {
                    0int
                } else {
                    1int
                }),
            {
                if self.buffer[idx] == '\n' {
                    found = true;
                } else {
                    idx = idx + 1;
                }
            }
            proof {
                lemma_find_nl(self.buffer@);
            }
            if !found {
                proof {
                    assert(find_nl(self.buffer@) < 0);
                }
                break ;
            }
            proof {
                assert(find_nl(self.buffer@) == idx as int) by {
                    if find_nl(self.buffer@) == -1 {
                        assert(self.buffer@[idx as int] != '\n');
                    } else {
                        if find_nl(self.buffer@) < idx as int {
                            assert(self.buffer@[find_nl(self.buffer@)] != '\n');
                        }
                        if find_nl(self.buffer@) > idx as int {
                            assert(self.buffer@[idx as int] != '\n');
                        }
                    }
                }
            }
            let ghost buf0 = self.buffer@;
            let ghost done_before = self.done;
            let line_chars = crate::text::chars_take(&self.buffer, idx);
            let rest = chars_skip(&self.buffer, idx + 1);
            self.buffer = rest;
            proof {
                assert(complete_lines(buf0) == seq![buf0.take(idx as int)] + complete_lines(
                    self.buffer@,
                ));
                assert(line_tail(buf0) == line_tail(self.buffer@));
                assert((seq![buf0.take(idx as int)] + complete_lines(self.buffer@)).drop_first()
                    =~= complete_lines(self.buffer@));
                assert((seq![buf0.take(idx as int)] + complete_lines(self.buffer@))[0] == buf0.take(
                    idx as int,
                ));
            }
            let ghost step = spec_decode_line(
                buf0.take(idx as int),
                d,
                rid,
                model,
                created as int,
                done_before,
            );
            let trimmed = trim_chars(&line_chars);
            let ghost out_before = out@;
            if trimmed.len() == 0 || self.done {
                proof {
                    assert(step.0 =~= Seq::<Seq<char>>::empty());
                }
            } else {
                match self.dialect {
                    UpstreamDialect::OpenAICompatible => {
                        let prefix = chars_vec("data: ");
                        let is_done_line = if chars_start_with(&trimmed, &prefix) {
                            proof {
                                reveal_strlit("data: ");
                            }
                            let after = chars_skip(&trimmed, 6);
                            let dd = trim_chars(&after);
                            let done_marker = chars_vec("[DONE]");
                            chars_eq(&dd, &done_marker)
                        } else {
                            false
                        };
                        if is_done_line {
                            self.done = true;
                            proof {
                                assert(step.0 =~= Seq::<Seq<char>>::empty());
                                assert(step.1 == true);
                            }
                        } else {
                            let line_str = string_from_chars(&trimmed);
                            match sse_line_payload(
                                line_str.as_str(),
                                self.request_id.as_str(),
                                self.model_name.as_str(),
                                created,
                            ) {
                                Some(p) => {
                                    let ghost pv = p@;
                                    out.push(p);
                                    proof {
                                        assert(step.0 =~= seq![pv]);
                                    }
                                }
                                None => {
                                    proof {
                                        assert(step.0 =~= Seq::<Seq<char>>::empty());
                                    }
                                }
                            }
                        }
                    }
                    UpstreamDialect::LocalNDJSON => {
                        let line_str = string_from_chars(&trimmed);
                        match ndjson_line_payload(
                            line_str.as_str(),
                            self.request_id.as_str(),
                            self.model_name.as_str(),
                            created,
                        ) {
                            Ok(Some(p)) => {
                                let ghost pv = p@;
                                out.push(p);
                                proof {
                                    assert(step.0 =~= seq![pv]);
                                }
                            }
                            Ok(None) => {
                                proof {
                                    assert(step.0 =~= Seq::<Seq<char>>::empty());
                                }
                            }
                            Err(_) => {
                                proof {
                                    assert(step.0 =~= Seq::<Seq<char>>::empty());
                                }
                            }
                        }
                    }
                }
            }
            proof {
                assert(self.done == step.1);
                assert(out@.map_values(|s: String| s@) =~= out_before.map_values(|s: String| s@)
                    + step.0);
                let cur = spec_decode_lines(
                    complete_lines(self.buffer@),
                    d,
                    rid,
                    model,
                    created as int,
                    self.done,
                );
                let prev = spec_decode_lines(
                    complete_lines(buf0),
                    d,
                    rid,
                    model,
                    created as int,
                    done_before,
                );
                assert(prev.0 =~= step.0 + cur.0);
                assert(out_before.map_values(|s: String| s@) + prev.0 =~= out@.map_values(
                    |s: String| s@,
                ) + cur.0);
            }
        }
        proof {
            let cur = spec_decode_lines(
                complete_lines(self.buffer@),
                d,
                rid,
                model,
                created as int,
                self.done,
            );
            assert(complete_lines(self.buffer@) =~= Seq::<Seq<char>>::empty());
            assert(cur.0 =~= Seq::<Seq<char>>::empty());
            assert(out@.map_values(|s: String| s@) =~= full.0);
            assert(line_tail(self.buffer@) == self.buffer@);
        }
        out
    }
}

/// Whether a decoded payload agrees with a specified optional result.
pub open spec fn opt_payload_matches(o: Option<String>, s: Option<Seq<char>>) -> bool {
    match o {
        Some(p) => s == Some(p@),
        None => s is None,
    }
}

/// The verified service core: the configuration and the two per-mode
/// latency collectors. Transport and task plumbing live at the boundary.
pub struct LoroService {
    pub config: Config,
    pub quick_stats: StatsCollector,
    pub direct_stats: StatsCollector,
}

impl LoroService {
    /// A service around a validated configuration, with empty statistics.
    pub fn new(config: Config) -> (r: LoroService)
        ensures
            r.config == config,
            r.quick_stats.wf(),
            r.direct_stats.wf(),
            r.quick_stats.request_count == 0,
            r.direct_stats.request_count == 0,
            r.quick_stats.max_entries == config.stats_max_entries,
            r.direct_stats.max_entries == config.stats_max_entries,
    {
        let max = config.stats_max_entries;
        LoroService {
            config,
            quick_stats: StatsCollector::new(max),
            direct_stats: StatsCollector::new(max),
        }
    }

    /// Decodes one SSE line, stamping the chunk with the current time. The
    /// result is the decision of `spec_sse_line` for some timestamp the
    /// clock can produce — the binder's `i64` type bounds it, so a line
    /// whose decision is the same at every admissible timestamp (every
    /// ordinary line: a 64-bit timestamp adds at most twenty digits, far
    /// under the size gate) has its result forced. This dialect never
    /// reports an error for a single line.
    pub fn process_sse_line_static(line: &str, request_id: &str, model_name: &str) -> (r: Result<
        Option<String>,
        LoroError,
    >)
        ensures
            r matches Ok(o) && exists|t: i64|
                opt_payload_matches(
                    o,
                    #[trigger] spec_sse_line(line@, request_id@, model_name@, t as int),
                ),
    {
        let created = now_timestamp();
        let o = sse_line_payload(line, request_id, model_name, created);
        proof {
            assert(opt_payload_matches(
                o,
                spec_sse_line(line@, request_id@, model_name@, created as int),
            ));
        }
        Ok(o)
    }

    /// Decodes one NDJSON line, stamping the chunk with the current time.
    /// The result is the decision of `spec_ndjson_line` for some timestamp
    /// the clock can produce (the binder's `i64` type bounds it, so a
    /// content-bearing line is forced to yield its chunk); an unparsable
    /// line is reported as a JSON error, and only such a line is.
    pub fn process_ollama_line_static(line: &str, request_id: &str, model_name: &str) -> (r: Result<
        Option<String>,
        LoroError,
    >)
        ensures
            r matches Ok(o) ==> exists|t: i64|
                (#[trigger] spec_ndjson_line(line@, request_id@, model_name@, t as int)) matches Ok(
                    s,
                ) && opt_payload_matches(o, s),
            r is Err ==> ndjson_frame_of(line@) is None,
    {
        let created = now_timestamp();
        match ndjson_line_payload(line, request_id, model_name, created) {
            Ok(o) => {
                proof {
                    let t = created as int;
                    assert(spec_ndjson_line(line@, request_id@, model_name@, t) matches Ok(s)
                        && opt_payload_matches(o, s));
                }
                Ok(o)
            }
            Err(e) => Err(e),
        }
    }
}

/// The apology text shown when the transport fails mid-stream.
pub open spec fn apology_text() -> Seq<char> {
    " [抱歉，出现了问题]"@
}

/// What the transport-failure chunk looks like for a given timestamp.
pub open spec fn spec_apology_payload(rid: Seq<char>, model: Seq<char>, t: int) -> Option<
    Seq<char>,
> {
    gate(one_choice_chunk_json_v(rid, t, model, None, Some(apology_text()), Some("stop"@)))
}

/// The chunk emitted for a mid-stream transport failure: an apology with
/// `finish_reason` `stop`, so the client-visible stream still terminates
/// cleanly. Oversized output (possible only through an enormous request id
/// or model name) is an error instead.
pub fn transport_error_payload(request_id: &str, model_name: &str) -> (r: Result<String, LoroError>)
    ensures
        match r {
            Ok(p) => exists|t: i64|
                #[trigger] spec_apology_payload(request_id@, model_name@, t as int) == Some(p@),
            Err(e) => e matches LoroError::Internal(m) && m@ == "Error chunk too large"@ && (exists|
                t: i64,
            | #[trigger] spec_apology_payload(request_id@, model_name@, t as int) is None),
        },
{
    let created = now_timestamp();
    let content = String::from_str(" [抱歉，出现了问题]");
    let finish = String::from_str("stop");
    let cd = ChoiceDelta {
        index: 0,
        delta: MessageDelta { role: None, content: Some(content) },
        finish_reason: Some(finish),
    };
    let payload = one_choice_payload(request_id, model_name, created, cd);
    proof {
        assert(choice_delta_json(cd) == crate::json::choice_json_v(
            0,
            None,
            Some(apology_text()),
            Some("stop"@),
        ));
    }
    if payload.as_str().len() > 1048576 {
        proof {
            assert(spec_apology_payload(request_id@, model_name@, created as int) is None);
        }
        Err(LoroError::Internal(String::from_str("Error chunk too large")))
    } else {
        proof {
            assert(spec_apology_payload(request_id@, model_name@, created as int) == Some(
                payload@,
            ));
        }
        Ok(payload)
    }
}

/// What the synthetic first chunk of the quick path looks like for a given
/// timestamp: the quick text as assistant content, no finish reason.
pub open spec fn spec_first_chunk_payload(
    rid: Seq<char>,
    model: Seq<char>,
    quick: Seq<char>,
    t: int,
) -> Seq<char> {
    one_choice_chunk_json_v(rid, t, model, Some("assistant"@), Some(quick), None)
}

/// Builds the synthetic first chunk that carries the quick response. An
/// oversized first chunk is a hard error: a broken stream must never start.
pub fn build_first_chunk_payload(request_id: &str, model_name: &str, quick_response: &str) -> (r:
    Result<String, LoroError>)
    ensures
        match r {
            Ok(p) => exists|t: i64|
                gate(
                    #[trigger] spec_first_chunk_payload(
                        request_id@,
                        model_name@,
                        quick_response@,
                        t as int,
                    ),
                ) == Some(p@),
            Err(e) => e is Internal && (exists|t: i64|
                gate(
                    #[trigger] spec_first_chunk_payload(
                        request_id@,
                        model_name@,
                        quick_response@,
                        t as int,
                    ),
                ) is None),
        },
{
    let created = now_timestamp();
    let cd = ChoiceDelta {
        index: 0,
        delta: MessageDelta {
            role: Some(String::from_str("assistant")),
            content: Some(String::from_str(quick_response)),
        },
        finish_reason: None,
    };
    let payload = one_choice_payload(request_id, model_name, created, cd);
    proof {
        assert(choice_delta_json(cd) == crate::json::choice_json_v(
            0,
            Some("assistant"@),
            Some(quick_response@),
            None,
        ));
    }
    let byte_len = payload.as_str().len();
    if byte_len > 1048576 {
        let mut m = String::from_str("Response chunk too large: ");
        m.append(crate::text::u64_to_string(byte_len as u64).as_str());
        m.append(" bytes");
        proof {
            assert(gate(
                spec_first_chunk_payload(
                    request_id@,
                    model_name@,
                    quick_response@,
                    created as int,
                ),
            ) is None);
        }
        Err(LoroError::Internal(m))
    } else {
        proof {
            assert(gate(
                spec_first_chunk_payload(
                    request_id@,
                    model_name@,
                    quick_response@,
                    created as int,
                ),
            ) == Some(payload@));
        }
        Ok(payload)
    }
}

/// The event text forwarded for one stream item: a decoded chunk as it is,
/// an error as a visible inline marker, never a silent drop.
pub open spec fn spec_event_payload(item: Result<String, LoroError>) -> Seq<char> {
    match item {
        Ok(p) => p@,
        Err(e) => "[ERROR: "@ + crate::errors::spec_error_message(e) + "]"@,
    }
}

/// Maps one stream item to the event text sent to the client.
pub fn event_payload(item: Result<String, LoroError>) -> (r: String)
    ensures
        r@ == spec_event_payload(item),
{
    match item {
        Ok(p) => p,
        Err(e) => {
            let mut s = String::from_str("[ERROR: ");
            s.append(e.message().as_str());
            s.append("]");
            s
        }
    }
}

/// The incremental composer of one client-visible stream, for the boundary
/// layer to drive event by event as upstream items arrive: the synthetic
/// first chunk is handed out exactly once and before anything else, each
/// item maps to its event text (errors inline, never a silent drop), and
/// the terminal sentinel comes exactly once. `compose_stream` below is this
/// machine folded over a finished item list and states the sequence the
/// machine produces.
pub struct StreamComposer {
    pub pending_first: Option<String>,
    pub finished: bool,
}

impl StreamComposer {
    /// A composer for one request, holding the synthetic first chunk when
    /// the quick path produced one.
    pub fn new(first_chunk: Option<String>) -> (r: StreamComposer)
        ensures
            r.pending_first == first_chunk,
            !r.finished,
    {
        StreamComposer { pending_first: first_chunk, finished: false }
    }

    /// The stream's opening event: the synthetic first chunk, exactly once.
    pub fn opening(&mut self) -> (r: Option<String>)
        ensures
            r == old(self).pending_first,
            final(self).pending_first is None,
            final(self).finished == old(self).finished,
    {
        self.pending_first.take()
    }

    /// The event forwarded for one upstream item.
    pub fn on_item(&self, item: Result<String, LoroError>) -> (r: String)
        ensures
            r@ == spec_event_payload(item),
    {
        event_payload(item)
    }

    /// The terminal sentinel once the upstream ends: `Some` the first time,
    /// `None` ever after.
    pub fn terminal(&mut self) -> (r: Option<String>)
        ensures
            final(self).finished,
            final(self).pending_first == old(self).pending_first,
            match r {
                Some(s) => !old(self).finished && s@ == "[DONE]"@,
                None => old(self).finished,
            },
    {
        if self.finished {
            None
        } else {
            self.finished = true;
            Some(String::from_str("[DONE]"))
        }
    }
}

/// The full event sequence of one request: the synthetic first chunk when
/// the quick path ran, then every upstream item in order (errors inline),
/// then the terminal sentinel.
pub fn compose_stream(first_chunk: Option<String>, items: Vec<Result<String, LoroError>>) -> (r:
    Vec<String>)
    ensures
        r@.map_values(|s: String| s@) == (match first_chunk {
            Some(f) => seq![f@],
            None => Seq::<Seq<char>>::empty(),
        }) + items@.map_values(|it: Result<String, LoroError>| spec_event_payload(it)) + seq![
            "[DONE]"@
        ],
{
    let ghost first0 = first_chunk;
    let ghost items0 = items@;
    let mut composer = StreamComposer::new(first_chunk);
    let mut r: Vec<String> = Vec::new();
    match composer.opening() {
        Some(f) => {
            r.push(f);
        }
        None => {}
    }
    let ghost head = r@.map_values(|s: String| s@);
    proof {
        assert(head =~= (match first0 {
            Some(f) => seq![f@],
            None => Seq::<Seq<char>>::empty(),
        }));
    }
    let mut rest = items;
    while rest.len() > 0
        invariant
            rest@.len() <= items0.len(),
            rest@ == items0.skip(items0.len() - rest@.len()),
            r@.map_values(|s: String| s@) == head + items0.take(
                items0.len() - rest@.len(),
            ).map_values(|it: Result<String, LoroError>| spec_event_payload(it)),
        decreases rest@.len(),
    {
        let ghost c = items0.len() - rest@.len();
        let ghost rest0 = rest@;
        let item = rest.remove(0);
        let ghost itemv = item;
        let ev = composer.on_item(item);
        let ghost rv = r@;
        r.push(ev);
        proof {
            assert(rest@ =~= rest0.remove(0));
            assert(rest0.remove(0) =~= rest0.drop_first());
            assert(itemv == rest0[0]);
            assert(rest0[0] == items0[c as int]);
            assert(rest@ =~= items0.skip(items0.len() - rest@.len()));
            assert(r@.map_values(|s: String| s@) =~= rv.map_values(|s: String| s@).push(
                spec_event_payload(itemv),
            ));
            assert(items0.take(c + 1).map_values(
                |it: Result<String, LoroError>| spec_event_payload(it),
            ) =~= items0.take(c as int).map_values(
                |it: Result<String, LoroError>| spec_event_payload(it),
            ).push(spec_event_payload(items0[c as int])));
            assert(r@.map_values(|s: String| s@) =~= head + items0.take(c + 1).map_values(
                |it: Result<String, LoroError>| spec_event_payload(it),
            ));
        }
    }
    let ghost rv = r@;
    match composer.terminal() {
        Some(s) => {
            r.push(s);
        }
        None => {}
    }
    proof {
        assert(items0.take(items0.len() as int) =~= items0);
        assert(r@.map_values(|s: String| s@) =~= rv.map_values(|s: String| s@).push("[DONE]"@));
        assert(r@.map_values(|s: String| s@) =~= (match first0 {
            Some(f) => seq![f@],
            None => Seq::<Seq<char>>::empty(),
        }) + items0.map_values(|it: Result<String, LoroError>| spec_event_payload(it)) + seq![
            "[DONE]"@
        ]);
    }
    r
}

/// The backoff before retrying after attempt `attempt`: 100 ms times the
/// square of the attempt number, without jitter or cap.
pub open spec fn spec_backoff_ms(attempt: int) -> int {
    100 * attempt * attempt
}

/// The backoff delay in milliseconds after the given (1-based) attempt.
pub fn backoff_delay_ms(attempt: u32) -> (r: u64)
    requires
        attempt <= 11,
    ensures
        r as int == spec_backoff_ms(attempt as int),
{
    proof {
        assert((attempt as int) * (attempt as int) <= 121) by (nonlinear_arith)
            requires
                0 <= attempt as int <= 11,
        ;
        assert(100 * ((attempt as int) * (attempt as int)) == 100 * (attempt as int) * (
        attempt as int)) by (nonlinear_arith);
    }
    100u64 * (attempt as u64) * (attempt as u64)
}

/// The index of the first successful outcome, or -1 when every attempt
/// fails.
pub open spec fn first_success(outcomes: Seq<bool>) -> int
    decreases outcomes.len(),
{
    if outcomes.len() == 0 {
        -1
    } else if outcomes[0] {
        0
    } else {
        let r = first_success(outcomes.drop_first());
        if r < 0 {
            -1
        } else {
            r + 1
        }
    }
}

proof fn lemma_first_success(s: Seq<bool>)
    ensures
        first_success(s) == -1 ==> forall|k: int| 0 <= k < s.len() ==> !s[k],
        first_success(s) >= 0 ==> 0 <= first_success(s) < s.len() && s[first_success(s)] && (forall|
            k: int,
        |
            0 <= k < first_success(s) ==> !s[k]),
    decreases s.len(),
{
    if s.len() > 0 && !s[0] {
        lemma_first_success(s.drop_first());
        let t = s.drop_first();
        if first_success(t) == -1 {
            assert forall|k: int| 0 <= k < s.len() implies !s[k] by {
                if k > 0 {
                    assert(s[k] == t[k - 1]);
                }
            }
        } else {
            assert(s[first_success(s)] == t[first_success(t)]);
            assert forall|k: int| 0 <= k < first_success(s) implies !s[k] by {
                if k > 0 {
                    assert(s[k] == t[k - 1]);
                }
            }
        }
    }
}

/// How many times the retry executor invokes an operation whose attempt
/// outcomes are given: it stops at the first success, and never makes more
/// than `max_retries + 1` attempts.
pub open spec fn spec_invocations(outcomes: Seq<bool>, max_retries: int) -> int {
    let f = first_success(outcomes);
    if 0 <= f <= max_retries {
        f + 1
    } else {
        max_retries + 1
    }
}

/// Whether a run with the given outcomes ends in success.
pub open spec fn spec_retry_succeeds(outcomes: Seq<bool>, max_retries: int) -> bool {
    0 <= first_success(outcomes) <= max_retries
}

/// Runs the retry schedule against a given sequence of attempt outcomes
/// (one per possible attempt) and reports how many attempts were made and
/// whether the run succeeded.
pub fn run_retry_schedule(outcomes: &Vec<bool>, max_retries: u32) -> (r: (u32, bool))
    requires
        max_retries <= 10,
        outcomes@.len() > max_retries,
    ensures
        r.0 as int == spec_invocations(outcomes@, max_retries as int),
        r.1 == spec_retry_succeeds(outcomes@, max_retries as int),
{
    let mut attempt: u32 = 0;
    loop
        invariant_except_break
            attempt <= max_retries,
            max_retries <= 10,
            outcomes@.len() > max_retries,
            forall|k: int| 0 <= k < attempt ==> !outcomes@[k],
        ensures
            attempt as int == spec_invocations(outcomes@, max_retries as int),
            outcomes@[attempt - 1] == spec_retry_succeeds(outcomes@, max_retries as int),
        decreases max_retries - attempt,
    {
        attempt = attempt + 1;
        if outcomes[attempt as usize - 1] {
            proof {
                lemma_first_success(outcomes@);
                if first_success(outcomes@) == -1 {
                    assert(outcomes@[attempt - 1]);
                }
                if first_success(outcomes@) < attempt - 1 {
                    assert(!outcomes@[first_success(outcomes@)]);
                }
                if first_success(outcomes@) > attempt - 1 {
                    assert(!outcomes@[attempt - 1]);
                }
            }
            break ;
        }
        if attempt > max_retries {
            proof {
                lemma_first_success(outcomes@);
                if 0 <= first_success(outcomes@) <= max_retries {
                    assert(outcomes@[first_success(outcomes@)]);
                }
            }
            break ;
        }
    }
    let success = outcomes[attempt as usize - 1];
    (attempt, success)
}

/// An operation that fails on every attempt is invoked exactly
/// `max_retries + 1` times before the final error is returned.
pub proof fn lemma_retry_exhaustion(outcomes: Seq<bool>, max_retries: int)
    requires
        0 <= max_retries,
        outcomes.len() > max_retries,
        forall|i: int| 0 <= i < outcomes.len() ==> !outcomes[i],
    ensures
        spec_invocations(outcomes, max_retries) == max_retries + 1,
        !spec_retry_succeeds(outcomes, max_retries),
{
    lemma_first_success(outcomes);
    if first_success(outcomes) >= 0 {
        assert(outcomes[first_success(outcomes)]);
    }
}

/// What the executor does after a failed attempt: retry after the quadratic
/// backoff while attempts remain, otherwise give up and surface the error.
#[derive(Debug, Clone, Copy, PartialEq, Eq, Structural)]
pub enum RetryDecision {
    Retry { delay_ms: u64 },
    GiveUp,
}

/// The retry executor's state: how many attempts were made against the
/// policy's bound. The boundary layer performs the waiting and the calls;
/// every decision is taken here.
#[derive(Debug, Clone, Copy, PartialEq, Eq, Structural)]
pub struct RetryState {
    pub max_retries: u32,
    pub attempt: u32,
}

impl RetryState {
    /// A fresh executor state; the policy bounds retries at ten.
    pub fn new(max_retries: u32) -> (r: RetryState)
        requires
            max_retries <= 10,
        ensures
            r.max_retries == max_retries,
            r.attempt == 0,
    {
        RetryState { max_retries, attempt: 0 }
    }

    /// Counts one attempt as begun.
    pub fn begin_attempt(&mut self)
        requires
            old(self).attempt <= old(self).max_retries,
            old(self).max_retries <= 10,
        ensures
            final(self).attempt == old(self).attempt + 1,
            final(self).max_retries == old(self).max_retries,
    {
        self.attempt = self.attempt + 1;
    }

    /// The decision after the current attempt failed: retry with the
    /// quadratic backoff exactly while attempts remain.
    pub fn after_failure(&self) -> (r: RetryDecision)
        requires
            1 <= self.attempt <= self.max_retries + 1,
            self.max_retries <= 10,
        ensures
            self.attempt <= self.max_retries ==> r == (RetryDecision::Retry {
                delay_ms: spec_backoff_ms(self.attempt as int) as u64,
            }),
            self.attempt > self.max_retries ==> r == RetryDecision::GiveUp,
    {
        if self.attempt <= self.max_retries {
            RetryDecision::Retry { delay_ms: backoff_delay_ms(self.attempt) }
        } else {
            RetryDecision::GiveUp
        }
    }
}

/// The sentence-ending and comma marks a quick response may carry at most
/// one of.
pub open spec fn is_terse_punct(c: char) -> bool {
    c == '。' || c == '！' || c == '？' || c == '，'
}

/// How many such marks the text carries.
pub open spec fn spec_punct_count(t: Seq<char>) -> int {
    t.filter(|c: char| is_terse_punct(c)).len() as int
}

/// A quick response is appropriate when it stays within six code points and
/// carries at most one sentence-ending or comma mark.
pub open spec fn spec_appropriate(t: Seq<char>) -> bool {
    t.len() <= 6 && spec_punct_count(t) <= 1
}

/// Whether a quick response qualifies for the fallback-free path.
fn appropriate_quick_response(text: &str) -> (r: bool)
    ensures
        r == spec_appropriate(text@),
{
    let v = chars_vec(text);
    if v.len() > 6 {
        return false;
    }
    let mut count: usize = 0;
    let mut i: usize = 0;
    while i < v.len()
        invariant
            i <= v@.len(),
            count == v@.take(i as int).filter(|c: char| is_terse_punct(c)).len(),
        decreases v@.len() - i,
    {
        proof {
            assert(v@.take(i + 1 as int).drop_last() =~= v@.take(i as int));
            reveal_with_fuel(Seq::filter, 2);
        }
        let c = v[i];
        if c == '。' || c == '！' || c == '？' || c == '，' {
            count = count + 1;
        }
        i = i + 1;
    }
    proof {
        assert(v@.take(v@.len() as int) =~= v@);
    }
    count <= 1
}

impl LoroService {
    /// Whether a small-model reply is short and conversational enough to be
    /// forwarded as the quick response.
    pub fn is_appropriate_quick_response(&self, text: &str) -> (r: bool)
        ensures
            r == spec_appropriate(text@),
    {
        appropriate_quick_response(text)
    }
}

/// Whether `r` is one of the fixed phrases of `cat`; each of those stays
/// within six code points.
pub open spec fn spec_fallback_phrase(r: Result<String, LoroError>, cat: RequestCategory) -> bool {
    r matches Ok(s) && (exists|i: int|
        0 <= i < crate::models::spec_responses(cat).len() && s@ == crate::models::spec_responses(
            cat,
        )[i]) && s@.len() <= 6
}

/// Picks the quick response: the small model's reply when it qualifies,
/// else a canned phrase of the last message's category, chosen at random
/// within the category. An empty message list is rejected.
pub fn choose_quick_response(messages: &Vec<Message>, small_result: Option<String>) -> (r: Result<
    String,
    LoroError,
>)
    ensures
        r is Err <==> messages@.len() == 0,
        r matches Err(e) ==> e matches LoroError::Internal(m) && m@
            == "Messages array cannot be empty"@,
        messages@.len() > 0 ==> (match small_result {
            Some(t) => if spec_appropriate(t@) {
                r == Ok::<String, LoroError>(t)
            } else {
                spec_fallback_phrase(
                    r,
                    crate::models::spec_categorize(
                        crate::text::lower_of(messages@.last().content@),
                    ),
                )
            },
            None => spec_fallback_phrase(
                r,
                crate::models::spec_categorize(crate::text::lower_of(messages@.last().content@)),
            ),
        }),
{
    if messages.len() == 0 {
        return Err(LoroError::Internal(String::from_str("Messages array cannot be empty")));
    }
    match small_result {
        Some(t) => {
            if appropriate_quick_response(t.as_str()) {
                return Ok(t);
            }
        }
        None => {}
    }
    let last = &messages[messages.len() - 1];
    let category = last.categorize();
    let responses = category.get_responses();
    let idx = pick_index(responses.len());
    let phrase = responses[idx].clone();
    proof {
        crate::models::lemma_responses_short(category);
        assert(phrase@ == crate::models::spec_responses(category)[idx as int]);
        assert(messages@[messages@.len() - 1] == messages@.last());
    }
    Ok(phrase)
}

/// The system prompt that constrains the small model to terse interjections.
pub open spec fn quick_system_prompt() -> Seq<char> {
    "/no_think 你是一个AI语音助手。请用1-3个字的简短语气词回应用户，比如：'你好！'、'好的，'、'嗯，'、'让我想想，'，要自然像真人对话。只输出语气词，不要完整回答。"@
}

/// The system prompt that sets the large model's terse, voice-appropriate
/// persona.
pub open spec fn large_system_prompt() -> Seq<char> {
    "你是一个友好的AI语音助手，用自然对话的方式回应用户。回答要简洁明了，适合语音交互。"@
}

/// The chat endpoint a base URL selects: the NDJSON server has its own
/// path.
pub open spec fn spec_endpoint(base: Seq<char>) -> Seq<char> {
    if spec_dialect_of(base) is LocalNDJSON {
        base + "/api/chat"@
    } else {
        base + "/chat/completions"@
    }
}

/// The authorization header value for a key: none for the `"none"` sentinel
/// of local, unauthenticated backends.
pub open spec fn spec_auth(key: Seq<char>) -> Option<Seq<char>> {
    if key == "none"@ {
        None
    } else {
        Some("Bearer "@ + key)
    }
}

fn endpoint_for(base_url: &str) -> (r: String)
    ensures
        r@ == spec_endpoint(base_url@),
{
    let dialect = UpstreamDialect::from_base_url(base_url);
    let mut e = String::from_str(base_url);
    match dialect {
        UpstreamDialect::LocalNDJSON => e.append("/api/chat"),
        UpstreamDialect::OpenAICompatible => e.append("/chat/completions"),
    }
    e
}

fn auth_for(key: &str) -> (r: Option<String>)
    ensures
        crate::json::opt_view(r) == spec_auth(key@),
{
    let none_marker = chars_vec("none");
    let kv = chars_vec(key);
    if chars_eq(&kv, &none_marker) {
        None
    } else {
        let mut h = String::from_str("Bearer ");
        h.append(key);
        Some(h)
    }
}

/// The small-model request body: for the NDJSON dialect a non-streaming
/// call with deterministic low-temperature options; for the OpenAI dialect
/// a non-streaming completion with a small token budget and low
/// temperature. Both carry the terse system prompt and the last message.
pub open spec fn spec_small_body(
    d: UpstreamDialect,
    name: Seq<char>,
    last_content: Seq<char>,
) -> Seq<char> {
    match d {
        UpstreamDialect::LocalNDJSON => "{\"model\":"@ + crate::json::jstr(name)
            + ",\"messages\":["@ + crate::json::message_json_v("system"@, quick_system_prompt())
            + seq![','] + crate::json::message_json_v("user"@, last_content)
            + "],\"stream\":false,\"keep_alive\":\"10m\",\"options\":{\"temperature\":0.0,\"num_predict\":3,\"top_k\":1,\"top_p\":0.1,\"repeat_penalty\":1.0}}"@,
        UpstreamDialect::OpenAICompatible => "{\"model\":"@ + crate::json::jstr(name)
            + ",\"messages\":["@ + crate::json::message_json_v("system"@, quick_system_prompt())
            + seq![','] + crate::json::message_json_v("user"@, last_content) + "]"@
            + ",\"max_tokens\":"@ + crate::text::dec_digits(10) + ",\"temperature\":"@
            + crate::json::temp_json(300) + ",\"stream\":"@ + "false"@ + "}"@,
    }
}

/// Builds the endpoint, body and authorization of the small-model call.
pub fn small_model_request_plan(config: &Config, last_content: &str) -> (r: (
    String,
    String,
    Option<String>,
))
    ensures
        r.0@ == spec_endpoint(config.small_model.base_url@),
        r.1@ == spec_small_body(
            spec_dialect_of(config.small_model.base_url@),
            config.small_model.model_name@,
            last_content@,
        ),
        crate::json::opt_view(r.2) == spec_auth(config.small_model.api_key@),
{
    let endpoint = endpoint_for(config.small_model.base_url.as_str());
    let auth = auth_for(config.small_model.api_key.as_str());
    let dialect = UpstreamDialect::from_base_url(config.small_model.base_url.as_str());
    let sys = Message {
        role: String::from_str("system"),
        content: String::from_str(
            "/no_think 你是一个AI语音助手。请用1-3个字的简短语气词回应用户，比如：'你好！'、'好的，'、'嗯，'、'让我想想，'，要自然像真人对话。只输出语气词，不要完整回答。",
        ),
    };
    let user = Message { role: String::from_str("user"), content: String::from_str(last_content) };
    let body = match dialect {
        UpstreamDialect::LocalNDJSON => {
            let mut b = String::from_str("{\"model\":");
            crate::json::append_jstr(&mut b, config.small_model.model_name.as_str());
            b.append(",\"messages\":[");
            crate::json::append_messages(&mut b, &two_messages(sys, user));
            b.append(
                "],\"stream\":false,\"keep_alive\":\"10m\",\"options\":{\"temperature\":0.0,\"num_predict\":3,\"top_k\":1,\"top_p\":0.1,\"repeat_penalty\":1.0}}",
            );
            b
        }
        UpstreamDialect::OpenAICompatible => {
            let req = crate::models::OpenAIRequest {
                model: config.small_model.model_name.clone(),
                messages: two_messages(sys, user),
                max_tokens: Some(10),
                temperature_milli: Some(300),
                stop: None,
                stream: false,
                prefix: None,
            };
            crate::json::serialize_openai_request(&req)
        }
    };
    proof {
        reveal_with_fuel(crate::json::messages_json, 3);
    }
    (endpoint, body, auth)
}

/// A two-element message list.
fn two_messages(a: Message, b: Message) -> (r: Vec<Message>)
    ensures
        r@ =~= seq![a, b],
{
    let mut v: Vec<Message> = Vec::new();
    v.push(a);
    v.push(b);
    v
}

/// The large-model message list on the wire: the fixed persona prompt
/// first, then the caller's messages in order.
pub open spec fn enhanced_messages_json(msgs: Seq<Message>) -> Seq<char> {
    crate::json::message_json_v("system"@, large_system_prompt()) + (if msgs.len() > 0 {
        seq![','] + crate::json::messages_json(msgs)
    } else {
        Seq::<char>::empty()
    })
}

/// The large-model request body: a streaming call in either dialect, with
/// the persona prompt prepended. The OpenAI dialect carries the caller's
/// sampling settings, a default token budget of 150, and the quick response
/// as a continuation prefix when one was emitted.
pub open spec fn spec_large_body(
    d: UpstreamDialect,
    name: Seq<char>,
    req: crate::models::ChatCompletionRequest,
    prefix: Option<Seq<char>>,
) -> Seq<char> {
    match d {
        UpstreamDialect::LocalNDJSON => "{\"model\":"@ + crate::json::jstr(name)
            + ",\"messages\":["@ + enhanced_messages_json(req.messages@)
            + "],\"stream\":true,\"keep_alive\":\"10m\"}"@,
        UpstreamDialect::OpenAICompatible => "{\"model\":"@ + crate::json::jstr(name)
            + ",\"messages\":["@ + enhanced_messages_json(req.messages@) + "]"@
            + ",\"max_tokens\":"@ + crate::text::dec_digits(
            match req.max_tokens {
                Some(t) => t as int,
                None => 150,
            },
        ) + ",\"temperature\":"@ + crate::json::temp_json(req.temperature_milli as int) + (
        match req.stop {
            Some(s) => ",\"stop\":"@ + crate::json::stop_json(s),
            None => Seq::<char>::empty(),
        }) + ",\"stream\":"@ + "true"@ + (match prefix {
            Some(p) => ",\"extra_body\":{\"prefix\":"@ + crate::json::jstr(p) + "}"@,
            None => Seq::<char>::empty(),
        }) + "}"@,
    }
}

/// A copy of a message, equal to the original.
fn clone_message(m: &Message) -> (r: Message)
    ensures
        r == *m,
{
    Message { role: m.role.clone(), content: m.content.clone() }
}

/// Builds the endpoint, body and authorization of the large-model call.
/// The NDJSON dialect never carries an authorization header.
pub fn large_model_request_plan(
    config: &Config,
    request: &crate::models::ChatCompletionRequest,
    prefix: Option<String>,
) -> (r: (String, String, Option<String>))
    requires
        0 <= request.temperature_milli <= 2000,
    ensures
        r.0@ == spec_endpoint(config.large_model.base_url@),
        r.1@ == spec_large_body(
            spec_dialect_of(config.large_model.base_url@),
            config.large_model.model_name@,
            *request,
            crate::json::opt_view(prefix),
        ),
        crate::json::opt_view(r.2) == (if spec_dialect_of(
            config.large_model.base_url@,
        ) is LocalNDJSON {
            None::<Seq<char>>
        } else {
            spec_auth(config.large_model.api_key@)
        }),
{
    let endpoint = endpoint_for(config.large_model.base_url.as_str());
    let dialect = UpstreamDialect::from_base_url(config.large_model.base_url.as_str());
    let sys = Message {
        role: String::from_str("system"),
        content: String::from_str(
            "你是一个友好的AI语音助手，用自然对话的方式回应用户。回答要简洁明了，适合语音交互。",
        ),
    };
    let ghost sys0 = sys;
    let mut enhanced: Vec<Message> = Vec::new();
    enhanced.push(sys);
    let mut i: usize = 0;
    while i < request.messages.len()
        invariant
            i <= request.messages@.len(),
            enhanced@ =~= seq![sys0] + request.messages@.take(i as int),
        decreases request.messages@.len() - i,
    {
        let m = clone_message(&request.messages[i]);
        enhanced.push(m);
        proof {
            assert(enhanced@ =~= seq![sys0] + request.messages@.take(i + 1 as int));
        }
        i = i + 1;
    }
    proof {
        assert(request.messages@.take(request.messages@.len() as int) =~= request.messages@);
        crate::json::lemma_messages_json_cons(sys0, request.messages@);
        assert(crate::json::messages_json(enhanced@) == enhanced_messages_json(request.messages@));
    }
    let (body, auth) = match dialect {
        UpstreamDialect::LocalNDJSON => {
            let mut b = String::from_str("{\"model\":");
            crate::json::append_jstr(&mut b, config.large_model.model_name.as_str());
            b.append(",\"messages\":[");
            crate::json::append_messages(&mut b, &enhanced);
            b.append("],\"stream\":true,\"keep_alive\":\"10m\"}");
            (b, None)
        }
        UpstreamDialect::OpenAICompatible => {
            let max_tokens = match request.max_tokens {
                Some(t) => Some(t),
                None => Some(150),
            };
            let stop = match &request.stop {
                Some(crate::models::Stop::Single(s)) => Some(
                    crate::models::Stop::Single(s.clone()),
                ),
                Some(crate::models::Stop::Multiple(v)) => Some(
                    crate::models::Stop::Multiple(clone_strings(v)),
                ),
                None => None,
            };
            let req = crate::models::OpenAIRequest {
                model: config.large_model.model_name.clone(),
                messages: enhanced,
                max_tokens,
                temperature_milli: Some(request.temperature_milli),
                stop,
                stream: true,
                prefix,
            };
            let b = crate::json::serialize_openai_request(&req);
            (b, auth_for(config.large_model.api_key.as_str()))
        }
    };
    (endpoint, body, auth)
}

/// The error reported when the large model answers a non-success status:
/// there is no fallback for the primary content, so this surfaces to the
/// caller. `status` is the rendered HTTP status line, `body` the upstream's
/// error text.
pub fn large_model_error(status: &str, body: &str) -> (r: LoroError)
    ensures
        r matches LoroError::LargeModelFailed(m) && m@ == "Large model API error "@ + status@
            + ": "@ + body@,
{
    let mut m = String::from_str("Large model API error ");
    m.append(status);
    m.append(": ");
    m.append(body);
    LoroError::LargeModelFailed(m)
}

/// A copy of a string list, equal element by element.
fn clone_strings(v: &Vec<String>) -> (r: Vec<String>)
    ensures
        r@ =~= v@,
{
    let mut r: Vec<String> = Vec::new();
    let mut i: usize = 0;
    while i < v.len()
        invariant
            i <= v@.len(),
            r@ =~= v@.take(i as int),
        decreases v@.len() - i,
    {
        let s = v[i].clone();
        r.push(s);
        proof {
            assert(r@ =~= v@.take(i + 1 as int));
        }
        i = i + 1;
    }
    proof {
        assert(v@.take(v@.len() as int) =~= v@);
    }
    r
}

/// What the small model's reply body yields: its content, trimmed, per the
/// dialect's shape; a body without usable content is an error.
pub open spec fn spec_small_content(d: UpstreamDialect, body: Seq<char>) -> Result<Seq<char>, ()> {
    match d {
        UpstreamDialect::LocalNDJSON => match ndjson_frame_of(body) {
            None => Err(()),
            Some(c) => Ok(trim_spec(c@)),
        },
        UpstreamDialect::OpenAICompatible => match openai_frame_of(body) {
            None => Err(()),
            Some(None) => Err(()),
            Some(Some(c)) => match c.message {
                Some(m) => match m.content {
                    Some(ct) => Ok(trim_spec(ct@)),
                    None => Err(()),
                },
                None => Err(()),
            },
        },
    }
}

/// Extracts the quick-response text from the small model's reply body:
/// the NDJSON object's `message.content`, or the first choice's message
/// content in the OpenAI shape, trimmed either way.
pub fn extract_small_model_content(dialect: UpstreamDialect, body: &str) -> (r: Result<
    String,
    LoroError,
>)
    ensures
        match r {
            Ok(s) => spec_small_content(dialect, body@) == Ok::<Seq<char>, ()>(s@),
            Err(e) => spec_small_content(dialect, body@) is Err && (e_is_parse_or_content(
                dialect,
                body@,
            ) matches Some(b) && (if b {
                e is JsonParse
            } else {
                e is Internal
            })),
        },
{
    match dialect {
        UpstreamDialect::LocalNDJSON => {
            match parse_ndjson_frame(body) {
                None => Err(
                    LoroError::JsonParse(String::from_str("Failed to parse Ollama response")),
                ),
                Some(c) => Ok(crate::text::trim_str(c.as_str())),
            }
        }
        UpstreamDialect::OpenAICompatible => {
            match parse_openai_frame(body) {
                None => Err(
                    LoroError::JsonParse(String::from_str("Failed to parse small model response")),
                ),
                Some(None) => Err(
                    LoroError::Internal(String::from_str("No content in small model response")),
                ),
                Some(Some(c)) => match &c.message {
                    Some(m) => match &m.content {
                        Some(ct) => Ok(crate::text::trim_str(ct.as_str())),
                        None => Err(
                            LoroError::Internal(
                                String::from_str("No content in small model response"),
                            ),
                        ),
                    },
                    None => Err(
                        LoroError::Internal(String::from_str("No content in small model response")),
                    ),
                },
            }
        }
    }
}

/// Whether a failed extraction was a parse failure (`true`) or a missing
/// content (`false`); `None` when extraction succeeds.
pub open spec fn e_is_parse_or_content(d: UpstreamDialect, body: Seq<char>) -> Option<bool> {
    match d {
        UpstreamDialect::LocalNDJSON => match ndjson_frame_of(body) {
            None => Some(true),
            Some(_) => None,
        },
        UpstreamDialect::OpenAICompatible => match openai_frame_of(body) {
            None => Some(true),
            Some(None) => Some(false),
            Some(Some(c)) => match c.message {
                Some(m) => match m.content {
                    Some(_) => None,
                    None => Some(false),
                },
                None => Some(false),
            },
        },
    }
}

/// The headline comparison: how much faster the first response arrives in
/// quick mode, zero until both modes have data.
pub open spec fn spec_improvement(quick_avg: u64, direct_avg: u64) -> int {
    if direct_avg > 0 && quick_avg > 0 {
        direct_avg - quick_avg
    } else {
        0
    }
}

/// The metrics surface of the service: one snapshot per mode and the
/// comparison derived from both.
#[derive(Clone, Copy, Debug, PartialEq, Eq, Structural)]
pub struct MetricsReport {
    pub quick_response_mode: crate::stats::StatsSnapshot,
    pub direct_mode: crate::stats::StatsSnapshot,
    pub quick_mode_requests: u64,
    pub direct_mode_requests: u64,
    pub avg_first_response_improvement_ms: i128,
}

impl LoroService {
    /// The current metrics: a snapshot of each mode and the difference of
    /// the first-response averages when both modes have data.
    pub fn get_metrics(&self) -> (r: MetricsReport)
        ensures
            r.quick_response_mode == self.quick_stats.spec_snapshot(),
            r.direct_mode == self.direct_stats.spec_snapshot(),
            r.quick_mode_requests == self.quick_stats.request_count,
            r.direct_mode_requests == self.direct_stats.request_count,
            r.avg_first_response_improvement_ms as int == spec_improvement(
                crate::stats::spec_avg(self.quick_stats.first_response_times@),
                crate::stats::spec_avg(self.direct_stats.first_response_times@),
            ),
    {
        let quick = self.quick_stats.get_stats();
        let direct = self.direct_stats.get_stats();
        let quick_avg = self.quick_stats.get_avg_first_response_time();
        let direct_avg = self.direct_stats.get_avg_first_response_time();
        let improvement: i128 = if direct_avg > 0 && quick_avg > 0 {
            (direct_avg as i128) - (quick_avg as i128)
        } else {
            0
        };
        MetricsReport {
            quick_response_mode: quick,
            direct_mode: direct,
            quick_mode_requests: self.quick_stats.get_request_count(),
            direct_mode_requests: self.direct_stats.get_request_count(),
            avg_first_response_improvement_ms: improvement,
        }
    }

    /// Resets both modes' statistics; the configuration is untouched.
    pub fn reset_metrics(&mut self)
        ensures
            final(self).config == old(self).config,
            final(self).quick_stats.wf(),
            final(self).direct_stats.wf(),
            final(self).quick_stats.request_count == 0,
            final(self).direct_stats.request_count == 0,
            final(self).quick_stats.first_response_times@ == Seq::<crate::stats::Sample>::empty(),
            final(self).quick_stats.total_response_times@ == Seq::<crate::stats::Sample>::empty(),
            final(self).quick_stats.quick_response_times@ == Seq::<crate::stats::Sample>::empty(),
            final(self).quick_stats.large_model_times@ == Seq::<crate::stats::Sample>::empty(),
            final(self).direct_stats.first_response_times@ == Seq::<crate::stats::Sample>::empty(),
            final(self).direct_stats.total_response_times@ == Seq::<crate::stats::Sample>::empty(),
            final(self).direct_stats.quick_response_times@ == Seq::<crate::stats::Sample>::empty(),
            final(self).direct_stats.large_model_times@ == Seq::<crate::stats::Sample>::empty(),
            final(self).quick_stats.max_entries == old(self).quick_stats.max_entries,
            final(self).direct_stats.max_entries == old(self).direct_stats.max_entries,
    {
        self.quick_stats.reset();
        self.direct_stats.reset();
    }

    /// Records one completed quick-path request: the quick phase is the
    /// first response, and both phase durations are stored.
    pub fn record_quick_request(
        &mut self,
        quick_time: crate::stats::Sample,
        total_time: crate::stats::Sample,
        large_time: crate::stats::Sample,
    )
        requires
            old(self).quick_stats.wf(),
            old(self).quick_stats.request_count < u64::MAX,
        ensures
            final(self).config == old(self).config,
            final(self).direct_stats == old(self).direct_stats,
            final(self).quick_stats.wf(),
            final(self).quick_stats.request_count == old(self).quick_stats.request_count + 1,
            final(self).quick_stats.first_response_times@.len() <= old(
                self,
            ).quick_stats.max_entries,
            final(self).quick_stats.max_entries == old(self).quick_stats.max_entries,
    {
        self.quick_stats.add_request(quick_time, total_time, Some(quick_time), Some(large_time));
    }

    /// Records one completed direct-path request: first chunk and total
    /// time, with the total also standing as the large-model phase.
    pub fn record_direct_request(
        &mut self,
        first_time: crate::stats::Sample,
        total_time: crate::stats::Sample,
    )
        requires
            old(self).direct_stats.wf(),
            old(self).direct_stats.request_count < u64::MAX,
        ensures
            final(self).config == old(self).config,
            final(self).quick_stats == old(self).quick_stats,
            final(self).direct_stats.wf(),
            final(self).direct_stats.request_count == old(self).direct_stats.request_count + 1,
            final(self).direct_stats.first_response_times@.len() <= old(
                self,
            ).direct_stats.max_entries,
            final(self).direct_stats.max_entries == old(self).direct_stats.max_entries,
    {
        self.direct_stats.add_request(first_time, total_time, None, Some(total_time));
    }
}

/// The serialized error body of the HTTP surface.
pub open spec fn error_body_v(msg: Seq<char>, etype: Seq<char>, code: Seq<char>) -> Seq<char> {
    "{\"error\":{\"message\":"@ + crate::json::jstr(msg) + ",\"type\":"@ + crate::json::jstr(etype)
        + ",\"code\":"@ + crate::json::jstr(code) + "}}"@
}

/// The HTTP status an error maps to: timeouts 408, upstream failures 502,
/// rejected requests 400, everything else 500.
pub open spec fn spec_error_status(e: LoroError) -> int {
    match e {
        LoroError::Timeout { .. } => 408,
        LoroError::ApiError { .. } => 502,
        LoroError::Validation(_) => 400,
        _ => 500,
    }
}

/// The error body an error maps to.
pub open spec fn spec_error_body(e: LoroError) -> Seq<char> {
    match e {
        LoroError::Timeout { timeout_secs } => error_body_v(
            "Request timeout after "@ + crate::text::dec_digits(timeout_secs as int) + "s"@,
            "timeout_error"@,
            "request_timeout"@,
        ),
        LoroError::ApiError { provider, status, message } => error_body_v(
            "API error from "@ + provider@ + ": "@ + message@,
            "api_error"@,
            "upstream_error"@,
        ),
        LoroError::Validation(m) => error_body_v(
            m@,
            "invalid_request_error"@,
            "validation_failed"@,
        ),
        _ => error_body_v("Internal server error"@, "internal_error"@, "internal_error"@),
    }
}

/// Maps a failure of the chat-completion path to its HTTP status and error
/// body.
pub fn error_response_parts(e: &LoroError) -> (r: (u16, String))
    ensures
        r.0 as int == spec_error_status(*e),
        r.1@ == spec_error_body(*e),
{
    let (status, msg, etype, code): (u16, String, &str, &str) = match e {
        LoroError::Timeout { timeout_secs } => {
            let mut m = String::from_str("Request timeout after ");
            m.append(crate::text::u64_to_string(*timeout_secs).as_str());
            m.append("s");
            (408, m, "timeout_error", "request_timeout")
        }
        LoroError::ApiError { provider, status, message } => {
            let mut m = String::from_str("API error from ");
            m.append(provider.as_str());
            m.append(": ");
            m.append(message.as_str());
            (502, m, "api_error", "upstream_error")
        }
        LoroError::Validation(m) => (400, m.clone(), "invalid_request_error", "validation_failed"),
        _ => (
            500,
            String::from_str("Internal server error"),
            "internal_error",
            "internal_error",
        ),
    };
    let mut body = String::from_str("{\"error\":{\"message\":");
    crate::json::append_jstr(&mut body, msg.as_str());
    body.append(",\"type\":");
    crate::json::append_jstr(&mut body, etype);
    body.append(",\"code\":");
    crate::json::append_jstr(&mut body, code);
    body.append("}}");
    (status, body)
}

} // verus!

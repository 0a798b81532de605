//! Verified JSON output: string escaping and the serialized forms of the
//! normalized chunks and upstream request bodies that this gateway emits.
//! Each builder's contract gives the produced text exactly.

use vstd::prelude::*;

use crate::models::{ChatCompletionChunk, ChoiceDelta, Message, MessageDelta};
use crate::text::{chars_vec, dec_digits, dec_int, digit_char, push_char};

verus! {

/// The lower-case hexadecimal digit for `d`.
pub open spec fn hex_digit(d: int) -> char {
    if d < 10 {
        digit_char(d)
    } else if d == 10 {
        'a'
    } else if d == 11 {
        'b'
    } else if d == 12 {
        'c'
    } else if d == 13 {
        'd'
    } else if d == 14 {
        'e'
    } else {
        'f'
    }
}

/// How one character is written inside a JSON string: quotes and backslashes
/// are escaped, control characters take their short or `\u00..` form, and
/// everything else stands as itself.
pub open spec fn esc_char(c: char) -> Seq<char> {
    if c == '"' {
        seq!['\\', '"']
    } else if c == '\\' {
        seq!['\\', '\\']
    } else if c == '\u{8}' {
        seq!['\\', 'b']
    } else if c == '\u{c}' {
        seq!['\\', 'f']
    } else if c == '\n' {
        seq!['\\', 'n']
    } else if c == '\r' {
        seq!['\\', 'r']
    } else if c == '\t' {
        seq!['\\', 't']
    } else if (c as u32) < 32 {
        seq!['\\', 'u', '0', '0', hex_digit(c as u32 as int / 16), hex_digit(c as u32 as int % 16)]
    } else {
        seq![c]
    }
}

/// The body of a JSON string holding the text `s`.
pub open spec fn esc_str(s: Seq<char>) -> Seq<char>
    decreases s.len(),
{
    if s.len() == 0 {
        Seq::<char>::empty()
    } else {
        esc_str(s.drop_last()) + esc_char(s.last())
    }
}

/// A JSON string literal holding the text `s`, quotes included.
pub open spec fn jstr(s: Seq<char>) -> Seq<char> {
    seq!['"'] + esc_str(s) + seq!['"']
}

fn hex_digit_exec(d: u32) -> (r: char)
    requires
        d < 16,
    ensures
        r == hex_digit(d as int),
{
    if d < 10 {
        crate::text::digit_char_exec(d as u64)
    } else if d == 10 {
        'a'
    } else if d == 11 {
        'b'
    } else if d == 12 {
        'c'
    } else if d == 13 {
        'd'
    } else if d == 14 {
        'e'
    } else {
        'f'
    }
}

/// Appends the escaped form of `s` to `out`.
pub fn append_escaped(out: &mut String, s: &str)
    ensures
        final(out)@ == old(out)@ + esc_str(s@),
{
    let v = chars_vec(s);
    let ghost base = out@;
    let mut i: usize = 0;
    while i < v.len()
        invariant
            i <= v@.len(),
            v@ == s@,
            out@ == base + esc_str(v@.take(i as int)),
        decreases v@.len() - i,
    {
        let c = v[i];
        let ghost before = out@;
        if c == '"' {
            push_char(out, '\\');
            push_char(out, '"');
        } else if c == '\\' {
            push_char(out, '\\');
            push_char(out, '\\');
        } else if c == '\u{8}' {
            push_char(out, '\\');
            push_char(out, 'b');
        } else if c == '\u{c}' {
            push_char(out, '\\');
            push_char(out, 'f');
        } else if c == '\n' {
            push_char(out, '\\');
            push_char(out, 'n');
        } else if c == '\r' {
            push_char(out, '\\');
            push_char(out, 'r');
        } else if c == '\t' {
            push_char(out, '\\');
            push_char(out, 't');
        } else if (c as u32) < 32 {
            let code = c as u32;
            push_char(out, '\\');
            push_char(out, 'u');
            push_char(out, '0');
            push_char(out, '0');
            push_char(out, hex_digit_exec(code / 16));
            push_char(out, hex_digit_exec(code % 16));
        } else {
            push_char(out, c);
        }
        proof {
            assert(out@ =~= before + esc_char(c));
            assert(v@.take(i + 1 as int).drop_last() =~= v@.take(i as int));
            assert(v@.take(i + 1 as int).last() == c);
            assert(out@ =~= base + esc_str(v@.take(i + 1 as int)));
        }
        i = i + 1;
    }
    proof {
        assert(v@.take(v@.len() as int) =~= v@);
    }
}

/// Appends the JSON string literal for `s` to `out`.
pub fn append_jstr(out: &mut String, s: &str)
    ensures
        final(out)@ == old(out)@ + jstr(s@),
{
    let ghost base = out@;
    push_char(out, '"');
    append_escaped(out, s);
    push_char(out, '"');
    proof {
        assert(out@ =~= base + jstr(s@));
    }
}

/// The character view of an optional string.
pub open spec fn opt_view(o: Option<String>) -> Option<Seq<char>> {
    match o {
        Some(s) => Some(s@),
        None => None,
    }
}

/// The serialized delta object over plain texts: absent fields are left
/// out, as the wire format requires.
pub open spec fn delta_json_v(role: Option<Seq<char>>, content: Option<Seq<char>>) -> Seq<char> {
    match (role, content) {
        (Some(r), Some(c)) => "{\"role\":"@ + jstr(r) + ",\"content\":"@ + jstr(c) + "}"@,
        (Some(r), None) => "{\"role\":"@ + jstr(r) + "}"@,
        (None, Some(c)) => "{\"content\":"@ + jstr(c) + "}"@,
        (None, None) => "{}"@,
    }
}

/// The serialized delta object of a value.
pub open spec fn delta_json(d: MessageDelta) -> Seq<char> {
    delta_json_v(opt_view(d.role), opt_view(d.content))
}

/// The serialized form of one streamed choice, over plain texts.
pub open spec fn choice_json_v(
    index: int,
    role: Option<Seq<char>>,
    content: Option<Seq<char>>,
    finish: Option<Seq<char>>,
) -> Seq<char> {
    "{\"index\":"@ + dec_digits(index) + ",\"delta\":"@ + delta_json_v(role, content) + (
    match finish {
        Some(f) => ",\"finish_reason\":"@ + jstr(f),
        None => Seq::<char>::empty(),
    }) + "}"@
}

/// The serialized form of one streamed choice value.
pub open spec fn choice_delta_json(c: ChoiceDelta) -> Seq<char> {
    choice_json_v(
        c.index as int,
        opt_view(c.delta.role),
        opt_view(c.delta.content),
        opt_view(c.finish_reason),
    )
}

/// The serialized choice list body (without the surrounding brackets).
pub open spec fn choices_json(s: Seq<ChoiceDelta>) -> Seq<char>
    decreases s.len(),
{
    if s.len() == 0 {
        Seq::<char>::empty()
    } else if s.len() == 1 {
        choice_delta_json(s[0])
    } else {
        choices_json(s.drop_last()) + seq![','] + choice_delta_json(s.last())
    }
}

/// The serialized form of one normalized chunk.
pub open spec fn chunk_json(c: ChatCompletionChunk) -> Seq<char> {
    "{\"id\":"@ + jstr(c.id@) + ",\"object\":"@ + jstr(c.object@) + ",\"created\":"@ + dec_int(
        c.created as int,
    ) + ",\"model\":"@ + jstr(c.model@) + ",\"choices\":["@ + choices_json(c.choices@) + "]}"@
}

fn append_delta(out: &mut String, d: &MessageDelta)
    ensures
        final(out)@ == old(out)@ + delta_json(*d),
{
    let ghost base = out@;
    match (&d.role, &d.content) {
        (Some(r), Some(c)) => {
            out.append("{\"role\":");
            append_jstr(out, r.as_str());
            out.append(",\"content\":");
            append_jstr(out, c.as_str());
            out.append("}");
        }
        (Some(r), None) => {
            out.append("{\"role\":");
            append_jstr(out, r.as_str());
            out.append("}");
        }
        (None, Some(c)) => {
            out.append("{\"content\":");
            append_jstr(out, c.as_str());
            out.append("}");
        }
        (None, None) => {
            out.append("{}");
        }
    }
    proof {
        assert(out@ =~= base + delta_json(*d));
    }
}

fn append_choice_delta(out: &mut String, c: &ChoiceDelta)
    ensures
        final(out)@ == old(out)@ + choice_delta_json(*c),
{
    let ghost base = out@;
    out.append("{\"index\":");
    let idx = crate::text::u64_to_string(c.index as u64);
    out.append(idx.as_str());
    out.append(",\"delta\":");
    append_delta(out, &c.delta);
    match &c.finish_reason {
        Some(f) => {
            out.append(",\"finish_reason\":");
            append_jstr(out, f.as_str());
        }
        None => {}
    }
    out.append("}");
    proof {
        assert(out@ =~= base + choice_delta_json(*c));
    }
}

/// Serializes a normalized chunk to its exact wire form.
pub fn serialize_chunk(c: &ChatCompletionChunk) -> (r: String)
    ensures
        r@ == chunk_json(*c),
{
    let mut out = String::new();
    out.append("{\"id\":");
    append_jstr(&mut out, c.id.as_str());
    out.append(",\"object\":");
    append_jstr(&mut out, c.object.as_str());
    out.append(",\"created\":");
    let created = crate::text::i64_to_string(c.created);
    out.append(created.as_str());
    out.append(",\"model\":");
    append_jstr(&mut out, c.model.as_str());
    out.append(",\"choices\":[");
    let ghost head = out@;
    let mut i: usize = 0;
    while i < c.choices.len()
        invariant
            i <= c.choices@.len(),
            out@ == head + choices_json(c.choices@.take(i as int)),
        decreases c.choices@.len() - i,
    {
        if i > 0 {
            push_char(&mut out, ',');
        }
        append_choice_delta(&mut out, &c.choices[i]);
        proof {
            let t1 = c.choices@.take(i + 1 as int);
            assert(t1.drop_last() =~= c.choices@.take(i as int));
            assert(t1.last() == c.choices@[i as int]);
            assert(out@ =~= head + choices_json(t1));
        }
        i = i + 1;
    }
    proof {
        assert(c.choices@.take(c.choices@.len() as int) =~= c.choices@);
    }
    out.append("]}");
    proof {
        assert(out@ =~= chunk_json(*c));
    }
    out
}

/// One message object on the wire, over plain texts.
pub open spec fn message_json_v(role: Seq<char>, content: Seq<char>) -> Seq<char> {
    "{\"role\":"@ + jstr(role) + ",\"content\":"@ + jstr(content) + "}"@
}

/// One message object on the wire.
pub open spec fn message_json(m: Message) -> Seq<char> {
    message_json_v(m.role@, m.content@)
}

/// A comma-separated message list (without the surrounding brackets).
pub open spec fn messages_json(s: Seq<Message>) -> Seq<char>
    decreases s.len(),
{
    if s.len() == 0 {
        Seq::<char>::empty()
    } else if s.len() == 1 {
        message_json(s[0])
    } else {
        messages_json(s.drop_last()) + seq![','] + message_json(s.last())
    }
}

fn append_message(out: &mut String, m: &Message)
    ensures
        final(out)@ == old(out)@ + message_json(*m),
{
    let ghost base = out@;
    out.append("{\"role\":");
    append_jstr(out, m.role.as_str());
    out.append(",\"content\":");
    append_jstr(out, m.content.as_str());
    out.append("}");
    proof {
        assert(out@ =~= base + message_json(*m));
    }
}

/// Appends the comma-separated serialization of `msgs` to `out`.
pub fn append_messages(out: &mut String, msgs: &Vec<Message>)
    ensures
        final(out)@ == old(out)@ + messages_json(msgs@),
{
    let ghost base = out@;
    let mut i: usize = 0;
    while i < msgs.len()
        invariant
            i <= msgs@.len(),
            out@ == base + messages_json(msgs@.take(i as int)),
        decreases msgs@.len() - i,
    {
        if i > 0 {
            push_char(out, ',');
        }
        append_message(out, &msgs[i]);
        proof {
            let t1 = msgs@.take(i + 1 as int);
            assert(t1.drop_last() =~= msgs@.take(i as int));
            assert(t1.last() == msgs@[i as int]);
            assert(out@ =~= base + messages_json(t1));
        }
        i = i + 1;
    }
    proof {
        assert(msgs@.take(msgs@.len() as int) =~= msgs@);
    }
}

/// Prepending a message to a list serializes as that message, a comma when
/// anything follows, and the rest.
pub proof fn lemma_messages_json_cons(m: Message, s: Seq<Message>)
    ensures
        messages_json(seq![m] + s) == message_json(m) + (if s.len() > 0 {
            seq![','] + messages_json(s)
        } else {
            Seq::<char>::empty()
        }),
    decreases s.len(),
{
    let t = seq![m] + s;
    if s.len() == 0 {
        assert(t =~= seq![m]);
        assert(message_json(m) + Seq::<char>::empty() =~= message_json(m));
    } else {
        assert(t.len() >= 2);
        assert(t.drop_last() =~= seq![m] + s.drop_last());
        assert(t.last() == s.last());
        lemma_messages_json_cons(m, s.drop_last());
        if s.len() == 1 {
            assert(s.drop_last().len() == 0);
            assert(messages_json(t.drop_last()) == message_json(m) + Seq::<char>::empty());
            assert(messages_json(s) == message_json(s[0]));
            assert(messages_json(t) =~= message_json(m) + (seq![','] + messages_json(s)));
        } else {
            assert(messages_json(t) =~= message_json(m) + (seq![','] + messages_json(s)));
        }
    }
}

/// A temperature in thousandths, rendered with three decimal places
/// (700 becomes `0.700`).
pub open spec fn temp_json(m: int) -> Seq<char> {
    dec_digits(m / 1000) + seq!['.'] + seq![
        digit_char(m % 1000 / 100),
        digit_char(m % 1000 / 10 % 10),
        digit_char(m % 1000 % 10),
    ]
}

fn append_temp(out: &mut String, m: i32)
    requires
        0 <= m <= 2000,
    ensures
        final(out)@ == old(out)@ + temp_json(m as int),
{
    let ghost base = out@;
    let whole = crate::text::u64_to_string((m / 1000) as u64);
    out.append(whole.as_str());
    push_char(out, '.');
    let frac = m % 1000;
    push_char(out, crate::text::digit_char_exec((frac / 100) as u64));
    push_char(out, crate::text::digit_char_exec((frac / 10 % 10) as u64));
    push_char(out, crate::text::digit_char_exec((frac % 10) as u64));
    proof {
        assert(out@ =~= base + temp_json(m as int));
    }
}

/// The serialized stop condition: one string or an array of strings.
pub open spec fn stop_json(s: crate::models::Stop) -> Seq<char> {
    match s {
        crate::models::Stop::Single(x) => jstr(x@),
        crate::models::Stop::Multiple(v) => seq!['['] + strings_json(v@) + seq![']'],
    }
}

/// A comma-separated list of JSON strings (without brackets).
pub open spec fn strings_json(s: Seq<String>) -> Seq<char>
    decreases s.len(),
{
    if s.len() == 0 {
        Seq::<char>::empty()
    } else if s.len() == 1 {
        jstr(s[0]@)
    } else {
        strings_json(s.drop_last()) + seq![','] + jstr(s.last()@)
    }
}

fn append_stop(out: &mut String, s: &crate::models::Stop)
    ensures
        final(out)@ == old(out)@ + stop_json(*s),
{
    let ghost base = out@;
    match s {
        crate::models::Stop::Single(x) => {
            append_jstr(out, x.as_str());
        }
        crate::models::Stop::Multiple(v) => {
            push_char(out, '[');
            let ghost head = out@;
            let mut i: usize = 0;
            while i < v.len()
                invariant
                    i <= v@.len(),
                    out@ == head + strings_json(v@.take(i as int)),
                decreases v@.len() - i,
            {
                if i > 0 {
                    push_char(out, ',');
                }
                append_jstr(out, v[i].as_str());
                proof {
                    let t1 = v@.take(i + 1 as int);
                    assert(t1.drop_last() =~= v@.take(i as int));
                    assert(t1.last() == v@[i as int]);
                    assert(out@ =~= head + strings_json(t1));
                }
                i = i + 1;
            }
            proof {
                assert(v@.take(v@.len() as int) =~= v@);
            }
            push_char(out, ']');
        }
    }
    proof {
        assert(out@ =~= base + stop_json(*s));
    }
}

/// The serialized OpenAI-compatible request body: absent optional fields are
/// left out.
pub open spec fn openai_request_json(r: crate::models::OpenAIRequest) -> Seq<char> {
    "{\"model\":"@ + jstr(r.model@) + ",\"messages\":["@ + messages_json(r.messages@) + "]"@ + (
    match r.max_tokens {
        Some(t) => ",\"max_tokens\":"@ + dec_digits(t as int),
        None => Seq::<char>::empty(),
    }) + (match r.temperature_milli {
        Some(m) => ",\"temperature\":"@ + temp_json(m as int),
        None => Seq::<char>::empty(),
    }) + (match r.stop {
        Some(s) => ",\"stop\":"@ + stop_json(s),
        None => Seq::<char>::empty(),
    }) + ",\"stream\":"@ + (if r.stream {
        "true"@
    } else {
        "false"@
    }) + (match r.prefix {
        Some(p) => ",\"extra_body\":{\"prefix\":"@ + jstr(p@) + "}"@,
        None => Seq::<char>::empty(),
    }) + "}"@
}

/// Serializes an OpenAI-compatible request body to its exact wire form.
#[verifier::rlimit(60)]
pub fn serialize_openai_request(r: &crate::models::OpenAIRequest) -> (out: String)
    requires
        r.temperature_milli matches Some(m) ==> 0 <= m <= 2000,
    ensures
        out@ == openai_request_json(*r),
{
    let mut out = String::new();
    out.append("{\"model\":");
    append_jstr(&mut out, r.model.as_str());
    out.append(",\"messages\":[");
    append_messages(&mut out, &r.messages);
    out.append("]");
    if let Some(t) = r.max_tokens {
        out.append(",\"max_tokens\":");
        let ts = crate::text::u64_to_string(t as u64);
        out.append(ts.as_str());
    }
    if let Some(m) = r.temperature_milli {
        out.append(",\"temperature\":");
        append_temp(&mut out, m);
    }
    match &r.stop {
        Some(s) => {
            out.append(",\"stop\":");
            append_stop(&mut out, s);
        }
        None => {}
    }
    out.append(",\"stream\":");
    if r.stream {
        out.append("true");
    } else {
        out.append("false");
    }
    match &r.prefix {
        Some(p) => {
            out.append(",\"extra_body\":{\"prefix\":");
            append_jstr(&mut out, p.as_str());
            out.append("}");
        }
        None => {}
    }
    out.append("}");
    proof {
        assert(out@ =~= openai_request_json(*r));
    }
    out
}

} // verus!

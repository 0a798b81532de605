//! Request and response data model: the chat-completion request with its
//! validation rules, normalized chunks, upstream frame mirrors, and the
//! quick-response categories.

use vstd::prelude::*;
use vstd::string::StringExecFns;

use crate::text::{
    chars_contain, chars_vec, contains_sub_spec, dec_digits, is_blank_spec, lower_of, lowercase,
    str_is_blank, u64_to_string,
};

verus! {

/// One chat message: a role (`system`, `user` or `assistant`) and its text.
#[derive(Debug, Clone)]
pub struct Message {
    pub role: String,
    pub content: String,
}

/// A stop condition: one string or several.
#[derive(Debug, Clone)]
pub enum Stop {
    Single(String),
    Multiple(Vec<String>),
}

/// A validated client request. The sampling temperature is carried in
/// thousandths (700 stands for 0.7) so that its range can be reasoned about
/// exactly.
#[derive(Debug, Clone)]
pub struct ChatCompletionRequest {
    pub model: String,
    pub messages: Vec<Message>,
    pub max_tokens: Option<u32>,
    pub temperature_milli: i32,
    pub stream: bool,
    pub stop: Option<Stop>,
    pub disable_quick_response: bool,
}

/// The default stream flag of a request.
pub fn default_stream() -> (r: bool)
    ensures
        r == true,
{
    true
}

/// The default sampling temperature, in thousandths (0.7).
pub fn default_temperature_milli() -> (r: i32)
    ensures
        r == 700,
{
    700
}

/// The roles a message may carry.
pub open spec fn valid_role(r: Seq<char>) -> bool {
    r == "system"@ || r == "user"@ || r == "assistant"@
}

/// Error text for message `i` with a blank role.
pub open spec fn role_empty_msg(i: int) -> Seq<char> {
    "Message "@ + dec_digits(i) + " role cannot be empty"@
}

/// Error text for message `i` with blank content.
pub open spec fn content_empty_msg(i: int) -> Seq<char> {
    "Message "@ + dec_digits(i) + " content cannot be empty"@
}

/// Error text for message `i` whose role is not in the closed set.
pub open spec fn invalid_role_msg(i: int, role: Seq<char>) -> Seq<char> {
    "Message "@ + dec_digits(i) + " has invalid role: "@ + role
}

/// The first per-message validation error at or after index `i`, if any.
pub open spec fn spec_message_error(msgs: Seq<Message>, i: int) -> Option<Seq<char>>
    decreases msgs.len() - i,
{
    if i < 0 || i >= msgs.len() {
        None
    } else {
        let m = msgs[i];
        if is_blank_spec(m.role@) {
            Some(role_empty_msg(i))
        } else if is_blank_spec(m.content@) {
            Some(content_empty_msg(i))
        } else if !valid_role(m.role@) {
            Some(invalid_role_msg(i, m.role@))
        } else {
            spec_message_error(msgs, i + 1)
        }
    }
}

impl ChatCompletionRequest {
    /// What validation decides: `None` when the request is acceptable,
    /// otherwise the exact error text, checks in order.
    pub open spec fn spec_validate(self) -> Option<Seq<char>> {
        if is_blank_spec(self.model@) {
            Some("Model name cannot be empty"@)
        } else if self.messages@.len() == 0 {
            Some("Messages array cannot be empty"@)
        } else if spec_message_error(self.messages@, 0) is Some {
            spec_message_error(self.messages@, 0)
        } else if self.max_tokens matches Some(t) && (t == 0 || t > 8192) {
            Some("max_tokens must be between 1 and 8192"@)
        } else if self.temperature_milli < 0 || self.temperature_milli > 2000 {
            Some("Temperature must be between 0.0 and 2.0"@)
        } else {
            None
        }
    }

    /// Rejects a request exactly when a field breaks the schema: blank model
    /// name, no messages, a blank or unknown role, blank content,
    /// `max_tokens` outside 1..=8192, or a temperature outside 0..=2.
    pub fn validate(&self) -> (r: Result<(), String>)
        ensures
            r is Ok <==> self.spec_validate() is None,
            r matches Err(m) ==> self.spec_validate() matches Some(s) && m@ == s,
    {
        if str_is_blank(self.model.as_str()) {
            return Err(String::from_str("Model name cannot be empty"));
        }
        if self.messages.len() == 0 {
            return Err(String::from_str("Messages array cannot be empty"));
        }
        let mut i: usize = 0;
        while i < self.messages.len()
            invariant
                i <= self.messages@.len(),
                !is_blank_spec(self.model@),
                self.messages@.len() > 0,
                spec_message_error(self.messages@, 0) == spec_message_error(
                    self.messages@,
                    i as int,
                ),
            decreases self.messages@.len() - i,
        {
            let m = &self.messages[i];
            if str_is_blank(m.role.as_str()) {
                let mut e = String::from_str("Message ");
                e.append(u64_to_string(i as u64).as_str());
                e.append(" role cannot be empty");
                return Err(e);
            }
            if str_is_blank(m.content.as_str()) {
                let mut e = String::from_str("Message ");
                e.append(u64_to_string(i as u64).as_str());
                e.append(" content cannot be empty");
                return Err(e);
            }
            let role_ok = crate::text::str_eq(m.role.as_str(), "system") || crate::text::str_eq(
                m.role.as_str(),
                "user",
            ) || crate::text::str_eq(m.role.as_str(), "assistant");
            if !role_ok {
                let mut e = String::from_str("Message ");
                e.append(u64_to_string(i as u64).as_str());
                e.append(" has invalid role: ");
                e.append(m.role.as_str());
                return Err(e);
            }
            i = i + 1;
        }
        if let Some(t) = self.max_tokens {
            if t == 0 || t > 8192 {
                return Err(String::from_str("max_tokens must be between 1 and 8192"));
            }
        }
        if self.temperature_milli < 0 || self.temperature_milli > 2000 {
            return Err(String::from_str("Temperature must be between 0.0 and 2.0"));
        }
        Ok(())
    }
}

/// One choice of a non-streaming completion response.
#[derive(Debug, Clone)]
pub struct Choice {
    pub index: u32,
    pub message: Message,
    pub finish_reason: Option<String>,
}

/// The delta payload of one streamed choice.
#[derive(Debug, Clone)]
pub struct MessageDelta {
    pub role: Option<String>,
    pub content: Option<String>,
}

/// One choice of a streamed chunk.
#[derive(Debug, Clone)]
pub struct ChoiceDelta {
    pub index: u32,
    pub delta: MessageDelta,
    pub finish_reason: Option<String>,
}

/// Token accounting of a completion response.
#[derive(Debug, Clone)]
pub struct Usage {
    pub prompt_tokens: u32,
    pub completion_tokens: u32,
    pub total_tokens: u32,
}

/// A complete (non-streamed) completion response.
#[derive(Debug, Clone)]
pub struct ChatCompletionResponse {
    pub id: String,
    pub object: String,
    pub created: i64,
    pub model: String,
    pub choices: Vec<Choice>,
    pub usage: Usage,
}

/// One normalized streamed chunk; its `choices` sequence is never empty when
/// built by this crate.
#[derive(Debug, Clone)]
pub struct ChatCompletionChunk {
    pub id: String,
    pub object: String,
    pub created: i64,
    pub model: String,
    pub choices: Vec<ChoiceDelta>,
}

/// An OpenAI-compatible request body, as this gateway sends it upstream.
/// The temperature is in thousandths, rendered as a decimal on the wire.
#[derive(Debug, Clone)]
pub struct OpenAIRequest {
    pub model: String,
    pub messages: Vec<Message>,
    pub max_tokens: Option<u32>,
    pub temperature_milli: Option<i32>,
    pub stop: Option<Stop>,
    pub stream: bool,
    pub prefix: Option<String>,
}

/// The relevant fields of one upstream message or delta object.
#[derive(Debug, Clone)]
pub struct OpenAIMessage {
    pub role: Option<String>,
    pub content: Option<String>,
}

/// The relevant fields of one upstream choice: a frame may carry content via
/// `delta` (streaming) or `message` (non-streaming).
#[derive(Debug, Clone)]
pub struct OpenAIChoice {
    pub message: Option<OpenAIMessage>,
    pub delta: Option<OpenAIMessage>,
    pub finish_reason: Option<String>,
}

/// An upstream response: its choices, in order.
#[derive(Debug, Clone)]
pub struct OpenAIResponse {
    pub choices: Vec<OpenAIChoice>,
}

/// The four quick-response categories of the voice assistant.
#[derive(Debug, Clone)]
pub enum RequestCategory {
    Greeting,
    Question,
    Request,
    Thinking,
}

/// The fixed phrase set of each category.
pub open spec fn spec_responses(c: RequestCategory) -> Seq<Seq<char>> {
    match c {
        RequestCategory::Greeting => seq!["你好！"@, "嗨！"@, "您好，"@, "我在，"@],
        RequestCategory::Question => seq!["好的，"@, "这个，"@, "关于，"@, "我来，"@],
        RequestCategory::Request => seq!["好的，"@, "明白，"@, "我来，"@, "让我，"@],
        RequestCategory::Thinking => seq!["嗯，"@, "我觉得，"@, "让我，"@, "根据，"@],
    }
}

/// Every canned phrase stays within six code points.
pub proof fn lemma_responses_short(c: RequestCategory)
    ensures
        forall|i: int|
            0 <= i < spec_responses(c).len() ==> #[trigger] spec_responses(c)[i].len() <= 6,
{
    reveal_strlit("你好！");
    reveal_strlit("嗨！");
    reveal_strlit("您好，");
    reveal_strlit("我在，");
    reveal_strlit("好的，");
    reveal_strlit("这个，");
    reveal_strlit("关于，");
    reveal_strlit("我来，");
    reveal_strlit("明白，");
    reveal_strlit("让我，");
    reveal_strlit("嗯，");
    reveal_strlit("我觉得，");
    reveal_strlit("根据，");
}

impl RequestCategory {
    /// The category's four canned phrases, in their fixed order.
    pub fn get_responses(&self) -> (r: Vec<String>)
        ensures
            r@.len() == spec_responses(*self).len(),
            forall|i: int| 0 <= i < r@.len() ==> #[trigger] r@[i]@ == spec_responses(*self)[i],
    {
        let mut r: Vec<String> = Vec::new();
        match self {
            RequestCategory::Greeting => {
                r.push(String::from_str("你好！"));
                r.push(String::from_str("嗨！"));
                r.push(String::from_str("您好，"));
                r.push(String::from_str("我在，"));
            }
            RequestCategory::Question => {
                r.push(String::from_str("好的，"));
                r.push(String::from_str("这个，"));
                r.push(String::from_str("关于，"));
                r.push(String::from_str("我来，"));
            }
            RequestCategory::Request => {
                r.push(String::from_str("好的，"));
                r.push(String::from_str("明白，"));
                r.push(String::from_str("我来，"));
                r.push(String::from_str("让我，"));
            }
            RequestCategory::Thinking => {
                r.push(String::from_str("嗯，"));
                r.push(String::from_str("我觉得，"));
                r.push(String::from_str("让我，"));
                r.push(String::from_str("根据，"));
            }
        }
        r
    }
}

/// Which category a lower-cased text falls in: greeting patterns first, then
/// question patterns, then request patterns, else thinking.
pub open spec fn spec_categorize(lower: Seq<char>) -> RequestCategory {
    if contains_sub_spec(lower, "你好"@) || contains_sub_spec(lower, "hello"@) || contains_sub_spec(
        lower,
        "hi"@,
    ) || contains_sub_spec(lower, "嗨"@) {
        RequestCategory::Greeting
    } else if contains_sub_spec(lower, "什么"@) || contains_sub_spec(lower, "如何"@)
        || contains_sub_spec(lower, "怎么"@) || contains_sub_spec(lower, "为什么"@)
        || contains_sub_spec(lower, "why"@) || contains_sub_spec(lower, "how"@)
        || contains_sub_spec(lower, "what"@) || contains_sub_spec(lower, "?"@)
        || contains_sub_spec(lower, "？"@) {
        RequestCategory::Question
    } else if contains_sub_spec(lower, "请"@) || contains_sub_spec(lower, "帮我"@)
        || contains_sub_spec(lower, "能不能"@) || contains_sub_spec(lower, "可以"@)
        || contains_sub_spec(lower, "help"@) || contains_sub_spec(lower, "please"@) {
        RequestCategory::Request
    } else {
        RequestCategory::Thinking
    }
}

impl Message {
    /// Categorizes the message by ordered substring matching over its
    /// lower-cased content.
    pub fn categorize(&self) -> (r: RequestCategory)
        ensures
            r == spec_categorize(lower_of(self.content@)),
    {
        let lc = lowercase(self.content.as_str());
        let hay = chars_vec(lc.as_str());
        if contains_str(&hay, "你好") || contains_str(&hay, "hello") || contains_str(&hay, "hi")
            || contains_str(&hay, "嗨") {
            RequestCategory::Greeting
        } else if contains_str(&hay, "什么") || contains_str(&hay, "如何") || contains_str(
            &hay,
            "怎么",
        ) || contains_str(&hay, "为什么") || contains_str(&hay, "why") || contains_str(&hay, "how")
            || contains_str(&hay, "what") || contains_str(&hay, "?") || contains_str(&hay, "？") {
            RequestCategory::Question
        } else if contains_str(&hay, "请") || contains_str(&hay, "帮我") || contains_str(
            &hay,
            "能不能",
        ) || contains_str(&hay, "可以") || contains_str(&hay, "help") || contains_str(
            &hay,
            "please",
        ) {
            RequestCategory::Request
        } else {
            RequestCategory::Thinking
        }
    }
}

/// Whether the pattern occurs in the haystack characters.
fn contains_str(hay: &Vec<char>, pat: &str) -> (r: bool)
    ensures
        r == contains_sub_spec(hay@, pat@),
{
    let needle = chars_vec(pat);
    chars_contain(hay, &needle)
}

} // verus!

//! Data structures for API requests and responses.

use vstd::prelude::*;

verus! {

/// Role of a chat message.
#[derive(Debug, Clone, Copy, PartialEq, Eq, Structural)]
pub enum Role {
    /// System instruction.
    System,
    /// End user.
    User,
    /// Model reply.
    Assistant,
}

impl Default for Role {
    fn default() -> (r: Self)
        ensures
            r == Role::User,
    {
        Role::User
    }
}

/// One chat message.
#[derive(Debug)]
pub struct Message {
    /// Who speaks.
    pub role: Role,
    /// What is said.
    pub content: String,
}

impl Clone for Message {
    fn clone(&self) -> (r: Self)
        ensures
            r == *self,
    {
        Message { role: self.role, content: self.content.clone() }
    }
}

impl Default for Message {
    fn default() -> (r: Self)
        ensures
            r.role == Role::User,
            r.content@ == Seq::<char>::empty(),
    {
        Message { role: Role::User, content: String::new() }
    }
}

/// Token accounting reported by the API.
#[derive(Debug, Clone, Copy)]
pub struct Usage {
    /// Tokens in the generated completion.
    pub completion_tokens: u32,
    /// Tokens in the prompt.
    pub prompt_tokens: u32,
    /// Sum of both.
    pub total_tokens: u32,
}

impl Default for Usage {
    fn default() -> (r: Self)
        ensures
            r.completion_tokens == 0,
            r.prompt_tokens == 0,
            r.total_tokens == 0,
    {
        Usage { completion_tokens: 0, prompt_tokens: 0, total_tokens: 0 }
    }
}

/// One choice of a batch completion response.
#[derive(Debug)]
pub struct Choice {
    /// Why generation stopped.
    pub finish_reason: String,
    /// Position of this choice.
    pub index: u32,
    /// The generated message.
    pub message: Message,
}

/// A complete (non-streaming) completion response.
#[derive(Debug)]
pub struct CompletionResponse {
    /// Response identifier.
    pub id: String,
    /// Generated choices.
    pub choices: Vec<Choice>,
    /// Creation timestamp, seconds since the epoch.
    pub created: u64,
    /// Model that produced the response.
    pub model: String,
    /// Backend fingerprint, when reported.
    pub system_fingerprint: Option<String>,
    /// Object kind reported by the API.
    pub object: String,
    /// Token accounting.
    pub usage: Usage,
}

/// The text of the first choice of a batch response.
pub open spec fn spec_first_content(r: CompletionResponse) -> Seq<char> {
    if r.choices@.len() > 0 {
        r.choices@[0].message.content@
    } else {
        Seq::<char>::empty()
    }
}

impl CompletionResponse {
    /// Extracts the generated text: the first choice's message content,
    /// or the empty string when the response holds no choice.
    pub fn first_content(&self) -> (s: String)
        ensures
            s@ == spec_first_content(*self),
    {
        if self.choices.len() > 0 {
            self.choices[0].message.content.clone()
        } else {
            String::new()
        }
    }
}

/// Incremental message fragment carried by one streaming response.
#[derive(Debug)]
pub struct Delta {
    /// Role, usually present only in the first fragment.
    pub role: Option<Role>,
    /// Text fragment, absent in boundary frames.
    pub content: Option<String>,
}

/// The mathematical value of a [`Delta`].
pub ghost struct DeltaView {
    /// Role, when present.
    pub role: Option<Role>,
    /// Text fragment, when present.
    pub content: Option<Seq<char>>,
}

impl View for Delta {
    type V = DeltaView;

    open spec fn view(&self) -> DeltaView {
        DeltaView {
            role: self.role,
            content: match self.content {
                Some(s) => Some(s@),
                None => None,
            },
        }
    }
}

/// One choice of a streaming response.
#[derive(Debug)]
pub struct StreamChoice {
    /// The incremental fragment.
    pub delta: Delta,
    /// Why generation stopped, present in the last fragment.
    pub finish_reason: Option<String>,
    /// Position of this choice.
    pub index: u32,
}

/// The mathematical value of a [`StreamChoice`].
pub ghost struct StreamChoiceView {
    /// The incremental fragment.
    pub delta: DeltaView,
    /// Why generation stopped, when present.
    pub finish_reason: Option<Seq<char>>,
    /// Position of this choice.
    pub index: u32,
}

impl View for StreamChoice {
    type V = StreamChoiceView;

    open spec fn view(&self) -> StreamChoiceView {
        StreamChoiceView {
            delta: self.delta@,
            finish_reason: match self.finish_reason {
                Some(s) => Some(s@),
                None => None,
            },
            index: self.index,
        }
    }
}

/// One parsed streaming completion event.
#[derive(Debug)]
pub struct StreamCompletionResponse {
    /// Response identifier.
    pub id: String,
    /// Generated choices.
    pub choices: Vec<StreamChoice>,
    /// Creation timestamp, seconds since the epoch.
    pub created: u64,
    /// Model that produced the response.
    pub model: String,
    /// Backend fingerprint, when reported.
    pub system_fingerprint: Option<String>,
    /// Object kind reported by the API.
    pub object: String,
}

/// The mathematical value of a [`StreamCompletionResponse`].
pub ghost struct StreamCompletionView {
    /// Response identifier.
    pub id: Seq<char>,
    /// Generated choices.
    pub choices: Seq<StreamChoiceView>,
    /// Creation timestamp, seconds since the epoch.
    pub created: u64,
    /// Model that produced the response.
    pub model: Seq<char>,
    /// Backend fingerprint, when reported.
    pub system_fingerprint: Option<Seq<char>>,
    /// Object kind reported by the API.
    pub object: Seq<char>,
}

impl View for StreamCompletionResponse {
    type V = StreamCompletionView;

    open spec fn view(&self) -> StreamCompletionView {
        StreamCompletionView {
            id: self.id@,
            choices: Seq::new(self.choices@.len(), |i: int| self.choices@[i]@),
            created: self.created,
            model: self.model@,
            system_fingerprint: match self.system_fingerprint {
                Some(s) => Some(s@),
                None => None,
            },
            object: self.object@,
        }
    }
}

/// The incremental text of a streaming event: the first choice's
/// `delta.content`, or empty when absent.
pub open spec fn spec_delta_content(r: StreamCompletionResponse) -> Seq<char> {
    if r.choices@.len() > 0 {
        match r.choices@[0].delta.content {
            Some(s) => s@,
            None => Seq::<char>::empty(),
        }
    } else {
        Seq::<char>::empty()
    }
}

impl StreamCompletionResponse {
    /// Extracts the incremental text of this event: the first choice's
    /// `delta.content`, or the empty string when no choice or no content
    /// is present.
    pub fn delta_content(&self) -> (s: String)
        ensures
            s@ == spec_delta_content(*self),
    {
        if self.choices.len() > 0 {
            match &self.choices[0].delta.content {
                Some(c) => c.clone(),
                None => String::new(),
            }
        } else {
            String::new()
        }
    }
}

/// Statistics of one request, for monitoring.
#[derive(Debug)]
pub struct RequestStats {
    /// Wall-clock duration of the request in milliseconds.
    pub duration_ms: u64,
    /// Tokens in the prompt, when reported.
    pub prompt_tokens: Option<u32>,
    /// Tokens in the completion, when reported.
    pub completion_tokens: Option<u32>,
    /// Total tokens, when reported.
    pub total_tokens: Option<u32>,
    /// Model the request was made with.
    pub model: String,
    /// When the request finished, milliseconds since the epoch.
    pub timestamp_ms: Option<u64>,
}

impl Clone for RequestStats {
    fn clone(&self) -> (r: Self)
        ensures
            r == *self,
    {
        RequestStats {
            duration_ms: self.duration_ms,
            prompt_tokens: self.prompt_tokens,
            completion_tokens: self.completion_tokens,
            total_tokens: self.total_tokens,
            model: self.model.clone(),
            timestamp_ms: self.timestamp_ms,
        }
    }
}

impl Default for RequestStats {
    fn default() -> (r: Self)
        ensures
            r.duration_ms == 0,
            r.prompt_tokens is None,
            r.completion_tokens is None,
            r.total_tokens is None,
            r.model@ == Seq::<char>::empty(),
            r.timestamp_ms is None,
    {
        RequestStats {
            duration_ms: 0,
            prompt_tokens: None,
            completion_tokens: None,
            total_tokens: None,
            model: String::new(),
            timestamp_ms: None,
        }
    }
}

impl RequestStats {
    /// Builds the statistics of one finished request from the usage the
    /// API reported and the measurements the caller made.
    pub fn from_usage(usage: &Usage, model: &String, duration_ms: u64, timestamp_ms: Option<u64>) -> (r: Self)
        ensures
            r.duration_ms == duration_ms,
            r.prompt_tokens == Some(usage.prompt_tokens),
            r.completion_tokens == Some(usage.completion_tokens),
            r.total_tokens == Some(usage.total_tokens),
            r.model@ == model@,
            r.timestamp_ms == timestamp_ms,
    {
        RequestStats {
            duration_ms,
            prompt_tokens: Some(usage.prompt_tokens),
            completion_tokens: Some(usage.completion_tokens),
            total_tokens: Some(usage.total_tokens),
            model: model.clone(),
            timestamp_ms,
        }
    }
}

/// Generated text together with the statistics of the request.
#[derive(Debug)]
pub struct ResponseWithStats {
    /// The generated text.
    pub content: String,
    /// The request's statistics.
    pub stats: RequestStats,
}

} // verus!

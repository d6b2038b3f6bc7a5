use vstd::prelude::*;
use crate::error::StoreError;
use crate::utils::base64_of;

verus! {

/// IEEE 754 bits of the default sampling temperature, an `f32` of 0.7.
pub const DEFAULT_TEMPERATURE_BITS: u32 = 0x3F333333;

/// One plain chat turn of a response.
#[derive(Debug, Clone)]
pub struct Message {
    pub role: String,
    pub content: String,
}

/// The body of one embedding request.
#[derive(Debug, Clone)]
pub struct EmbeddingRequest {
    pub model: String,
    pub prompt: String,
}

impl EmbeddingRequest {
    /// The body of one embedding request for the given model and text.
    pub fn new(model: &str, text: &str) -> (r: EmbeddingRequest)
        ensures
            r.model@ == model@,
            r.prompt@ == text@,
    {
        EmbeddingRequest { model: model.to_owned(), prompt: text.to_owned() }
    }
}

/// Token accounting details of one completion.
#[derive(Debug, Clone, Copy, PartialEq, Eq, Structural)]
pub struct CompletionTokensDetails {
    pub reasoning_tokens: i32,
    pub accepted_prediction_tokens: i32,
    pub rejected_prediction_tokens: i32,
}

/// Token accounting of one completion; the details are absent on providers
/// that do not report them.
#[derive(Debug, Clone, Copy, PartialEq, Eq, Structural)]
pub struct Usage {
    pub prompt_tokens: i32,
    pub completion_tokens: i32,
    pub total_tokens: i32,
    pub completion_tokens_details: Option<CompletionTokensDetails>,
}

/// The error envelope of a non-success response.
#[derive(Debug, Clone)]
pub struct ErrorResponse {
    pub error: MessageError,
}

/// The error a provider reports: a message, a type, and sometimes a numeric
/// status code rendered as a string.
#[derive(Debug, Clone)]
pub struct MessageError {
    pub message: String,
    pub error_type: String,
    pub code: Option<String>,
}

/// One block of a chat request's content: the prompt text, or an image given
/// by a data URL.
#[derive(Debug, Clone)]
pub enum ChatContentPart {
    Text(String),
    ImageUrl(String),
}

/// One turn of a chat request.
#[derive(Debug, Clone)]
pub struct ChatMessage {
    pub role: String,
    pub content: Vec<ChatContentPart>,
}

/// The body of one chat-completion request, ready to be serialized and sent.
/// `temperature_bits` holds the sampling temperature as IEEE 754 bits of an
/// `f32`.
#[derive(Debug, Clone)]
pub struct ChatPayload {
    pub model: String,
    pub messages: Vec<ChatMessage>,
    pub temperature_bits: u32,
    pub max_tokens: u32,
}

/// Assembles the body of one chat-completion request: a single user turn
/// holding the prompt text and, when an image is attached, its base64 data
/// URL; an absent temperature falls back to the default.
pub fn create_payload(
    model: &str,
    text: &str,
    image_buffer: Option<Vec<u8>>,
    temperature_bits: Option<u32>,
) -> (r: Result<ChatPayload, StoreError>)
    requires
        match image_buffer {
            Some(b) => 4 * ((b@.len() + 2) / 3) <= usize::MAX - 23,
            None => true,
        },
    ensures
        r is Ok,
        ({
            let p = r->Ok_0;
            &&& p.model@ == model@
            &&& p.max_tokens == 1024
            &&& p.temperature_bits == (match temperature_bits {
                Some(t) => t,
                None => DEFAULT_TEMPERATURE_BITS,
            })
            &&& p.messages@.len() == 1
            &&& p.messages@[0].role@ == "user"@
            &&& p.messages@[0].content@.len() == (if image_buffer is Some {
                2int
            } else {
                1int
            })
            &&& (p.messages@[0].content@[0] matches ChatContentPart::Text(t) && t@ == text@)
            &&& (image_buffer is Some ==> (p.messages@[0].content@[1] matches ChatContentPart::ImageUrl(u)
                && u@ == "data:image/jpeg;base64,"@ + base64_of(image_buffer->Some_0@)))
        }),
{
    let mut content: Vec<ChatContentPart> = Vec::new();
    content.push(ChatContentPart::Text(text.to_owned()));
    if let Some(buffer) = image_buffer {
        let image_base64 = crate::utils::base64_encode(buffer.as_slice());
        let prefix: String = "data:image/jpeg;base64,".to_owned();
        proof {
            reveal_strlit("data:image/jpeg;base64,");
        }
        let url = prefix.concat(image_base64.as_str());
        content.push(ChatContentPart::ImageUrl(url));
    }
    let mut messages: Vec<ChatMessage> = Vec::new();
    messages.push(ChatMessage { role: "user".to_owned(), content });
    let temperature = match temperature_bits {
        Some(t) => t,
        None => DEFAULT_TEMPERATURE_BITS,
    };
    Ok(
        ChatPayload {
            model: model.to_owned(),
            messages,
            temperature_bits: temperature,
            max_tokens: 1024,
        },
    )
}

/// The string is exactly three decimal digits naming a status in 100..=999.
pub open spec fn valid_status(s: Seq<char>) -> bool {
    &&& s.len() == 3
    &&& forall|i: int| 0 <= i < 3 ==> 48 <= (#[trigger] s[i]) as int <= 57
    &&& s[0] as int != 48
}

/// The number the three digits name.
pub open spec fn status_value(s: Seq<char>) -> int {
    (s[0] as int - 48) * 100 + (s[1] as int - 48) * 10 + (s[2] as int - 48)
}

/// The status a provider error names: its three-digit code when it carries
/// one, and 500 otherwise.
pub fn parse_status_code(code: &Option<String>) -> (r: u16)
    ensures
        match code {
            Some(s) => if valid_status(s@) {
                r as int == status_value(s@)
            } else {
                r == 500
            },
            None => r == 500,
        },
{
    let s = match code {
        Some(s) => s,
        None => {
            return 500;
        },
    };
    let st = s.as_str();
    if st.unicode_len() != 3 {
        return 500;
    }
    let c0 = st.get_char(0) as u32;
    let c1 = st.get_char(1) as u32;
    let c2 = st.get_char(2) as u32;
    if c0 < 49 || c0 > 57 || c1 < 48 || c1 > 57 || c2 < 48 || c2 > 57 {
        return 500;
    }
    ((c0 - 48) * 100 + (c1 - 48) * 10 + (c2 - 48)) as u16
}

/// Turns a provider's error envelope into the library's provider error,
/// keeping the reported status and message verbatim.
pub fn embed_error(err: &ErrorResponse) -> (r: StoreError)
    ensures
        r is Provider,
        r->Provider_message@ == err.error.message@,
        match err.error.code {
            Some(s) => if valid_status(s@) {
                r->Provider_status as int == status_value(s@)
            } else {
                r->Provider_status == 500
            },
            None => r->Provider_status == 500,
        },
{
    let status = parse_status_code(&err.error.code);
    StoreError::Provider { status, message: err.error.message.clone() }
}

} // verus!

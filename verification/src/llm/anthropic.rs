use vstd::prelude::*;
use crate::error::StoreError;
use crate::utils::base64_of;

verus! {

/// One block of a chat message: plain text, or a base64-encoded image.
#[derive(Debug, Clone)]
pub struct ContentItem {
    pub text: String,
    pub content_type: String,
    pub source: Option<ImageSource>,
}

/// An inline image attachment: base64 data with its declared media type.
#[derive(Debug, Clone)]
pub struct ImageSource {
    pub source_type: String,
    pub media_type: String,
    pub data: String,
}

/// Token accounting of one chat response.
#[derive(Debug, Clone, Copy, PartialEq, Eq, Structural)]
pub struct Usage {
    pub cache_creation_input_tokens: i32,
    pub cache_read_input_tokens: i32,
    pub input_tokens: i32,
    pub output_tokens: i32,
}

/// The unwrapped envelope of one chat response.
#[derive(Debug, Clone)]
pub struct AnthropicResponse {
    pub id: String,
    pub content: Vec<ContentItem>,
    pub model: String,
    pub role: String,
    pub stop_reason: String,
    pub stop_sequence: Option<String>,
    pub message_type: String,
    pub usage: Usage,
}

impl AnthropicResponse {
    /// The generated text of the response: all its text blocks joined in
    /// order, other blocks skipped.
    pub fn response_text(&self) -> (r: String)
        ensures
            r@ == joined_text(self.content@),
    {
        join_text_content(&self.content)
    }
}

/// One turn of a chat request.
#[derive(Debug, Clone)]
pub struct MessageTurn {
    pub role: String,
    pub content: Vec<ContentItem>,
}

/// The body of one chat request, ready to be serialized and sent.
/// `temperature_bits` holds the sampling temperature as IEEE 754 bits of an
/// `f32`, or nothing to accept the vendor default.
#[derive(Debug, Clone)]
pub struct MessagePayload {
    pub model: String,
    pub max_tokens: u32,
    pub messages: Vec<MessageTurn>,
    pub temperature_bits: Option<u32>,
}

/// The content blocks of one user turn: the prompt text first, then the
/// image, when one is attached, as base64 with media type "image/png".
pub open spec fn content_shape(c: Seq<ContentItem>, text: Seq<char>, image: Option<Seq<u8>>) -> bool {
    &&& c.len() == (if image is Some {
        2int
    } else {
        1int
    })
    &&& c[0].text@ == text
    &&& c[0].content_type@ == "text"@
    &&& c[0].source is None
    &&& (image is Some ==> {
        &&& c[1].text@.len() == 0
        &&& c[1].content_type@ == "image"@
        &&& c[1].source is Some
        &&& c[1].source->Some_0.source_type@ == "base64"@
        &&& c[1].source->Some_0.media_type@ == "image/png"@
        &&& c[1].source->Some_0.data@ == base64_of(image->Some_0)
    })
}

/// Builds the content blocks of one user turn from the prompt text and an
/// optional raw image.
pub fn create_content(text: &str, image_data: Option<Vec<u8>>) -> (r: Result<
    Vec<ContentItem>,
    StoreError,
>)
    requires
        match image_data {
            Some(b) => 4 * ((b@.len() + 2) / 3) <= usize::MAX,
            None => true,
        },
    ensures
        r is Ok,
        content_shape(
            r->Ok_0@,
            text@,
            match image_data {
                Some(b) => Some(b@),
                None => None,
            },
        ),
{
    let mut content: Vec<ContentItem> = Vec::new();
    content.push(
        ContentItem { text: text.to_owned(), content_type: "text".to_owned(), source: None },
    );
    if let Some(image_buffer) = image_data {
        let image_base64 = crate::utils::base64_encode(image_buffer.as_slice());
        content.push(
            ContentItem {
                text: String::new(),
                content_type: "image".to_owned(),
                source: Some(
                    ImageSource {
                        source_type: "base64".to_owned(),
                        media_type: "image/png".to_owned(),
                        data: image_base64,
                    },
                ),
            },
        );
    }
    Ok(content)
}

/// Assembles the body of one chat request: a single user turn holding the
/// prompt and the optional image, with the given model, token budget and
/// temperature.
pub fn build_message_request(
    model: &str,
    max_tokens: u32,
    text: &str,
    image_data: Option<Vec<u8>>,
    temperature_bits: Option<u32>,
) -> (r: Result<MessagePayload, StoreError>)
    requires
        match image_data {
            Some(b) => 4 * ((b@.len() + 2) / 3) <= usize::MAX,
            None => true,
        },
    ensures
        r is Ok,
        ({
            let p = r->Ok_0;
            &&& p.model@ == model@
            &&& p.max_tokens == max_tokens
            &&& p.temperature_bits == temperature_bits
            &&& p.messages@.len() == 1
            &&& p.messages@[0].role@ == "user"@
            &&& content_shape(
                p.messages@[0].content@,
                text@,
                match image_data {
                    Some(b) => Some(b@),
                    None => None,
                },
            )
        }),
{
    let content = match create_content(text, image_data) {
        Ok(c) => c,
        Err(e) => {
            return Err(e);
        },
    };
    let mut messages: Vec<MessageTurn> = Vec::new();
    messages.push(MessageTurn { role: "user".to_owned(), content });
    Ok(
        MessagePayload {
            model: model.to_owned(),
            max_tokens,
            messages,
            temperature_bits,
        },
    )
}

/// The text a chat response carries: its text blocks joined in order, other
/// blocks skipped.
pub open spec fn joined_text(s: Seq<ContentItem>) -> Seq<char>
    decreases s.len(),
{
    if s.len() == 0 {
        Seq::empty()
    } else {
        joined_text(s.drop_last()) + (if s.last().content_type@ == "text"@ {
            s.last().text@
        } else {
            Seq::<char>::empty()
        })
    }
}

/// Joins all text blocks of a response's content, in order.
pub fn join_text_content(content: &Vec<ContentItem>) -> (r: String)
    ensures
        r@ == joined_text(content@),
{
    let text_type: String = "text".to_owned();
    let mut out = String::new();
    let n = content.len();
    let mut i: usize = 0;
    while i < n
        invariant
            n == content@.len(),
            text_type@ == "text"@,
            i <= n,
            out@ == joined_text(content@.take(i as int)),
        decreases n - i,
    {
        proof {
            assert(content@.take(i + 1).drop_last() =~= content@.take(i as int));
            assert(content@.take(i + 1).last() == content@[i as int]);
        }
        if content[i].content_type == text_type {
            out.append(content[i].text.as_str());
        }
        i += 1;
    }
    proof {
        assert(content@.take(n as int) =~= content@);
    }
    out
}

} // verus!

use multivec_store::llm::anthropic::{
    build_message_request, create_content, join_text_content, ContentItem,
};
use multivec_store::llm::openai::{
    create_payload, embed_error, parse_status_code, ChatContentPart, ErrorResponse, MessageError,
    DEFAULT_TEMPERATURE_BITS,
};
use multivec_store::error::StoreError;
use multivec_store::utils::base64_encode;

#[test]
fn base64_encode_known_values() {
    assert_eq!(base64_encode(b"abc"), "YWJj");
    assert_eq!(base64_encode(b"ab"), "YWI=");
    assert_eq!(base64_encode(b""), "");
    assert_eq!(base64_encode(b"hello world~").len(), 16);
}

#[test]
fn content_blocks_text_only() {
    let content = create_content("What is in this image?", None).unwrap();
    assert_eq!(content.len(), 1);
    assert_eq!(content[0].text, "What is in this image?");
    assert_eq!(content[0].content_type, "text");
    assert!(content[0].source.is_none());
}

#[test]
fn content_blocks_with_image() {
    let content = create_content("describe", Some(vec![1u8, 2, 3])).unwrap();
    assert_eq!(content.len(), 2);
    assert_eq!(content[1].content_type, "image");
    let source = content[1].source.as_ref().unwrap();
    assert_eq!(source.source_type, "base64");
    assert_eq!(source.media_type, "image/png");
    assert_eq!(source.data, base64_encode(&[1u8, 2, 3]));
}

#[test]
fn message_request_shape() {
    let p = build_message_request("m1", 4096, "hi", None, Some(0x3F000000)).unwrap();
    assert_eq!(p.model, "m1");
    assert_eq!(p.max_tokens, 4096);
    assert_eq!(p.temperature_bits, Some(0x3F000000));
    assert_eq!(p.messages.len(), 1);
    assert_eq!(p.messages[0].role, "user");
    assert_eq!(p.messages[0].content[0].text, "hi");
}

#[test]
fn joined_response_text() {
    let content = vec![
        ContentItem {
            text: "Hello ".to_string(),
            content_type: "text".to_string(),
            source: None,
        },
        ContentItem {
            text: "ignored".to_string(),
            content_type: "image".to_string(),
            source: None,
        },
        ContentItem {
            text: "World".to_string(),
            content_type: "text".to_string(),
            source: None,
        },
    ];
    assert_eq!(join_text_content(&content), "Hello World");
}

#[test]
fn chat_payload_shape() {
    let p = create_payload("gpt", "what is this?", Some(vec![9u8, 8, 7]), None).unwrap();
    assert_eq!(p.model, "gpt");
    assert_eq!(p.max_tokens, 1024);
    assert_eq!(p.temperature_bits, DEFAULT_TEMPERATURE_BITS);
    assert_eq!(f32::from_bits(p.temperature_bits), 0.7f32);
    assert_eq!(p.messages.len(), 1);
    assert_eq!(p.messages[0].content.len(), 2);
    match &p.messages[0].content[0] {
        ChatContentPart::Text(t) => assert_eq!(t, "what is this?"),
        _ => panic!("expected a text block first"),
    }
    match &p.messages[0].content[1] {
        ChatContentPart::ImageUrl(u) => {
            let expected = format!("data:image/jpeg;base64,{}", base64_encode(&[9u8, 8, 7]));
            assert_eq!(*u, expected);
        },
        _ => panic!("expected an image block second"),
    }
}

#[test]
fn status_codes_parsed_or_defaulted() {
    assert_eq!(parse_status_code(&Some("404".to_string())), 404);
    assert_eq!(parse_status_code(&Some("503".to_string())), 503);
    assert_eq!(parse_status_code(&Some("099".to_string())), 500);
    assert_eq!(parse_status_code(&Some("abc".to_string())), 500);
    assert_eq!(parse_status_code(&Some("42".to_string())), 500);
    assert_eq!(parse_status_code(&None), 500);
}

#[test]
fn provider_error_verbatim() {
    let err = ErrorResponse {
        error: MessageError {
            message: "rate limited".to_string(),
            error_type: "rate_limit".to_string(),
            code: Some("429".to_string()),
        },
    };
    match embed_error(&err) {
        StoreError::Provider { status, message } => {
            assert_eq!(status, 429);
            assert_eq!(message, "rate limited");
        },
        _ => panic!("expected a provider error"),
    }
}

#[test]
fn error_details_kept_verbatim() {
    assert_eq!(StoreError::Connection("engine unreachable".to_string()).detail(), "engine unreachable");
    assert_eq!(StoreError::NotFound("no such collection".to_string()).detail(), "no such collection");
    assert_eq!(StoreError::SchemaMismatch("wrong length".to_string()).detail(), "wrong length");
    let p = StoreError::Provider { status: 429, message: "rate limited".to_string() };
    assert_eq!(p.detail(), "rate limited");
}

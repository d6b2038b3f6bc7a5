pub mod anthropic;
pub mod openai;

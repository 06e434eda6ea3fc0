//! Rule-based rewriting of article text, plus the request planning and reply
//! handling for rewriting through a chat-completions service.
pub mod text;
pub mod sentences;
pub mod chunking;
pub mod repair;
pub mod prompts;
pub mod errors;
pub mod request;
pub mod response;
pub mod pipeline;

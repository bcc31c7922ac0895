pub mod client;
pub mod error;
pub mod json;
pub mod models;
pub mod request;

pub use client::{ChatRequestBuilder, DeepSeekClient};
pub use error::DeepSeekError;
pub use models::{ChatCompletionResponse, Message, Model, Role};

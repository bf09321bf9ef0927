//! What the server offers to its client, feature by feature.

pub mod semantic_tokens;
pub mod workspace;

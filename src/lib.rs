//! Normalizes prompt material (free text, file paths, shell commands, URLs and
//! the "last reply" sentinel) into a validated request input.
pub mod reference;
pub mod error;
pub mod media;
pub mod text;
pub mod message;
pub mod input;

//! Emoji support for conventional commit messages.
//!
//! The crate resolves an ordered, project-specific emoji vocabulary (a
//! "pack") against a built-in canonical shortcode table, converts text
//! between four encodings of emoji (unicode glyphs, `:shortcode:` tokens,
//! pack alias tokens, and emoji-free text), and rewrites or lints the
//! header of a conventional commit message.

pub mod commits;
pub mod config;
pub mod devmoji;
pub mod gitmoji;
pub mod header;
pub mod text;

//! Feed compilation for a directory tree of audio shows.
//!
//! Each immediate subdirectory of a media root is a show; each recognized
//! audio file inside is an episode. The library turns a scanned tree into
//! one RSS feed document per show, with deterministic ordering, stable
//! per-episode identifiers, and separate markup/URL encodings. All names
//! are handled as raw bytes, since file names need not be valid under any
//! particular text encoding.

pub mod compile;
pub mod datefmt;
pub mod episode;
pub mod escape;
pub mod feed;
pub mod mime;
pub mod order;
pub mod template;
pub mod text;

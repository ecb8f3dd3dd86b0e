//! Extraction of partition images from Android firmware archives.
//!
//! The library tells the kind of firmware an archive holds from the names of its
//! members, and decides, step by step, what has to be done to extract a partition:
//! which members are staged, in which order numbered chunks are put together,
//! which staged files are decompressed, and how the sparse data becomes an image.
//! It reads and writes no files itself. A host performs the actions it is handed
//! and reports back what it found; see `plan` and `extractor::Extractable`.

pub mod decimal;
pub mod decompress;
pub mod detect;
pub mod error;
pub mod extractor;
pub mod member;
pub mod order;
pub mod path;
pub mod plan;
pub mod sequence;
pub mod text;
pub mod utils;

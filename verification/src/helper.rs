//! The template helpers' computational cores: URL resolution, sorting,
//! block repetition and concatenation, Markdown rendering and timestamp
//! formatting. The registration glue that hands them to the templating
//! engine lives outside the library.

pub mod basic;
pub mod markdown;
pub mod sort;
pub mod time;
pub mod url;

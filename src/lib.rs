//! Resolves a short repository reference (`[host/]owner/repo[:ref]`) into the
//! URL of the hosting provider's archive download.

pub mod cli;
pub mod fetch;
pub mod laws;
pub mod segments;
pub mod source;

pub use cli::Args;
pub use fetch::{destination_or_default, response_action, ResponseAction};
pub use segments::split_segments;
pub use source::{find_colon, gen_url, parse_source, Host, ParseError, Source, SourceView};

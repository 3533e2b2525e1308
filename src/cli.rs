//! The program's command-line arguments, as plain values.
use vstd::prelude::*;

verus! {

/// What the program is asked to do.
#[derive(Debug)]
pub struct Args {
    /// `[host/]owner/repo[:ref]`
    pub source: String,
    /// Where to unpack the archive; the current directory when absent.
    pub destination: Option<String>,
    /// Whether to report the URL, the arguments and the response headers.
    pub verbose: bool,
}

} // verus!

//! Parsing and reconstruction library for HWP 5.0 binary documents and
//! related document conversion helpers.
//!
//! The core of the crate decodes the OLE-compound-file-based HWP format:
//! tagged records, UTF-16LE paragraph text with style runs, table grids
//! with merged-cell spans, embedded images and file-header metadata.

pub mod bench;
pub mod byteops;
pub mod cache;
pub mod docx;
pub mod hwpdoc;
pub mod hwptext;
pub mod hwpx;
pub mod legal;
pub mod optimizer;
pub mod pdf;
pub mod record;
pub mod renderer;
pub mod shape;
pub mod strings;
pub mod table;

use vstd::prelude::*;

verus! {

/// How the conversion engine runs: the output format, the quality level and
/// whether rendered media is cached.
#[derive(Debug, Clone)]
pub struct Config {
    pub format: String,
    pub quality: u8,
    pub cache_enabled: bool,
}

impl Default for Config {
    /// SVG output at quality 85, with caching on.
    fn default() -> (r: Self)
        ensures
            r.format@ == "svg"@,
            r.quality == 85,
            r.cache_enabled,
    {
        Config { format: String::from_str("svg"), quality: 85, cache_enabled: true }
    }
}

} // verus!

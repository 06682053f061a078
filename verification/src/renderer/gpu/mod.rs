//! What the GPU side is handed: export targets and crossfade envelopes.
pub mod frames;
pub mod state;
pub mod timeline;
pub mod swap;
pub mod surface;

use vstd::prelude::*;
use crate::renderer::runtime::ExportFormat;

verus! {

/// Where a rendered still frame is written, and in which format.
#[derive(Debug, Clone)]
pub struct FileExportTarget {
    pub path: String,
    pub format: ExportFormat,
}

} // verus!

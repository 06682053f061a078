//! The export target as the GPU state holds it.
use vstd::prelude::*;
use crate::renderer::runtime::ExportFormat;

verus! {

/// Where a rendered still frame is written; the format is carried along.
#[derive(Debug, Clone)]
pub struct FileExportTarget {
    pub path: String,
    pub _format: ExportFormat,
}

} // verus!

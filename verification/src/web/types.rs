//! The request and response records exchanged with the browser.  The
//! serializable copies (with a `percent` for storage) live with the server.
use vstd::prelude::*;

verus! {

/// Disk space of the scanned filesystem.
#[derive(Debug, Clone, Copy, PartialEq, Eq, Structural)]
pub struct StorageDto {
    pub total: u64,
    pub used: u64,
    pub available: u64,
}

/// Live progress of a scan.
#[derive(Debug, Clone)]
pub struct ProgressDto {
    pub files: usize,
    pub dirs: usize,
    pub size: u64,
    pub current_path: String,
    pub complete: bool,
    /// Live size-by-group breakdown of what has been discovered so far,
    /// largest first.
    pub categories: Vec<ProgressCategoryDto>,
}

/// One group in the live scan breakdown (such as "Cache" or "Media").
#[derive(Debug, Clone)]
pub struct ProgressCategoryDto {
    pub name: String,
    pub size: u64,
}

/// One category of the results.
#[derive(Debug, Clone)]
pub struct CategoryDto {
    pub name: String,
    pub color: String,
    pub description: String,
    pub size: u64,
    pub count: usize,
    pub safe: bool,
}

/// One top-level directory of the results.
#[derive(Debug, Clone)]
pub struct DirDto {
    pub name: String,
    pub path: String,
    pub size: u64,
}

/// One file of the results.
#[derive(Debug, Clone)]
pub struct FileDto {
    pub path: String,
    pub name: String,
    pub size: u64,
    pub category: String,
    pub color: String,
    pub safe: bool,
    pub is_dir: bool,
    pub is_hidden: bool,
    pub is_system: bool,
    pub modified: String,
}

/// Everything the results page shows.
#[derive(Debug, Clone)]
pub struct ResultsDto {
    pub scan_path: String,
    pub total_size: u64,
    pub total_files: usize,
    pub total_dirs: usize,
    pub safe_savings: u64,
    pub storage: StorageDto,
    pub categories: Vec<CategoryDto>,
    pub directories: Vec<DirDto>,
    pub files: Vec<FileDto>,
    pub recommendations: Vec<String>,
}

/// A request to scan a path.
#[derive(Debug, Clone)]
pub struct ScanRequest {
    pub path: String,
    pub min_size_mb: u64,
    pub max_depth: usize,
}

/// A request to delete paths.
#[derive(Debug, Clone)]
pub struct DeleteRequest {
    pub paths: Vec<String>,
}

/// What became of one path of a delete request.
#[derive(Debug, Clone)]
pub struct DeleteResult {
    pub path: String,
    pub success: bool,
}

/// The answer to a delete request.
#[derive(Debug, Clone)]
pub struct DeleteResponse {
    pub results: Vec<DeleteResult>,
    pub freed: u64,
    pub deleted: usize,
}

/// The minimum file size, in MiB, of a scan request that names none.
pub fn default_min_size() -> (m: u64)
    ensures
        m == 1,
{
    1
}

} // verus!

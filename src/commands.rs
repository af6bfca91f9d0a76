//! Records that the file-manager commands hand back, and the computations behind
//! them.
use vstd::prelude::*;
use crate::paths::{extension_of, file_name_of, path_extension, path_file_name};
use crate::text::{contains_str, occurs_in};

verus! {

/// What the file manager shows of one file.
#[derive(Debug)]
pub struct FileMetadata {
    pub file_name: String,
    pub file_size: u64,
    pub last_modified: u64,
    pub file_type: String,
}

/// One result of the plain name search.
#[derive(Debug)]
pub struct FileItem {
    pub file_name: String,
    pub file_path: String,
}

/// The outcome of a paste.
#[derive(Debug)]
pub struct PasteResult {
    pub success: bool,
    pub message: String,
}

/// The outcome of moving items to the trash.
#[derive(Debug)]
pub struct TrashResult {
    pub success: bool,
    pub message: String,
}

/// The type shown for a file: its extension, or `unknown`.
pub open spec fn file_type_text(p: Seq<char>) -> Seq<char> {
    match extension_of(p) {
        Some(e) => e,
        None => "unknown"@,
    }
}

/// The record shown for a file, from its path, length and modification time.
pub fn file_metadata(file_path: String, file_size: u64, last_modified: u64) -> (r: FileMetadata)
    ensures
        r.file_name == file_path,
        r.file_size == file_size,
        r.last_modified == last_modified,
        r.file_type@ == file_type_text(file_path@),
{
    let file_type = match path_extension(file_path.as_str()) {
        Some(e) => e,
        None => String::from_str("unknown"),
    };
    FileMetadata { file_name: file_path, file_size, last_modified, file_type }
}

/// The plain name search reports an entry whose file name contains the keyword.
pub fn legacy_name_match(path: &str, keyword: &str) -> (r: Option<FileItem>)
    ensures
        r is Some <==> (file_name_of(path@) matches Some(n) && occurs_in(keyword@, n)),
        r matches Some(item) ==> Some(item.file_name@) == file_name_of(path@) && item.file_path@
            == path@,
{
    match path_file_name(path) {
        Some(name) => {
            if contains_str(name.as_str(), keyword) {
                Some(FileItem { file_name: name, file_path: String::from_str(path) })
            } else {
                None
            }
        },
        None => None,
    }
}

/// The path of a new item: a folder takes the name as it is, a file gets `.txt`.
pub fn new_item_file_name(name: &str, is_folder: bool) -> (r: String)
    ensures
        is_folder ==> r@ == name@,
        !is_folder ==> r@ == name@ + ".txt"@,
{
    if is_folder {
        String::from_str(name)
    } else {
        String::from_str(name).concat(".txt")
    }
}

} // verus!

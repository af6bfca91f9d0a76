//! The decisions of the directory walker: what to do with a listing failure,
//! with each entry and with a failed subtree.
use vstd::prelude::*;
use crate::filter::{excluded, should_filter_file_by_metadata, EntryMeta};
use crate::matching::{in_scope, match_entry, strategy_outcome, FileItem};
use crate::options::{MatchConfig, SearchOptions};
use crate::paths::display_stem;
use crate::text::{contains_str, occurs_in};

verus! {

/// A failure message behind a prefix.
fn prefixed(prefix: &str, message: &str) -> (r: String)
    ensures
        r@ == prefix@ + message@,
{
    String::from_str(prefix).concat(message)
}

/// A directory could not be listed: a denied permission reads as an empty
/// directory, anything else fails the subtree.
pub fn listing_failure(permission_denied: bool, message: &str) -> (r: Result<(), String>)
    ensures
        permission_denied <==> r is Ok,
        r matches Err(e) ==> e@ == "Failed to read directory: "@ + message@,
{
    if permission_denied {
        Ok(())
    } else {
        Err(prefixed("Failed to read directory: ", message))
    }
}

/// An entry's metadata could not be read: a denied permission skips the entry,
/// anything else fails the subtree.
pub fn metadata_failure(permission_denied: bool, message: &str) -> (r: Result<(), String>)
    ensures
        permission_denied <==> r is Ok,
        r matches Err(e) ==> e@ == "Error reading metadata: "@ + message@,
{
    if permission_denied {
        Ok(())
    } else {
        Err(prefixed("Error reading metadata: ", message))
    }
}

/// The failure of a subtree is about access rights.
pub open spec fn access_failure(e: Seq<char>) -> bool {
    occurs_in("Access is denied"@, e) || occurs_in("Permission denied"@, e)
}

/// A subtree failed: failures about access rights are swallowed, others are
/// passed on unchanged.
pub fn subtree_failure(error: String) -> (r: Result<(), String>)
    ensures
        access_failure(error@) <==> r is Ok,
        r matches Err(e) ==> e == error,
{
    if contains_str(error.as_str(), "Access is denied") || contains_str(
        error.as_str(),
        "Permission denied",
    ) {
        Ok(())
    } else {
        Err(error)
    }
}

/// Whether an entry passes the symbolic-link policy and the metadata filter.
pub open spec fn admitted(p: Seq<char>, m: EntryMeta, o: SearchOptions, owner_query_allowed: bool) -> bool {
    &&& !(m.is_symlink && !o.custom_symbolic_chk)
    &&& !(o.custom_property_use && excluded(p, m, o, owner_query_allowed))
}

/// Whether the walker looks at an entry at all: symbolic links are skipped unless
/// allowed, and, where property filtering is on, the metadata filter applies.
pub fn admit_entry(
    path: &str,
    meta: &EntryMeta,
    options: &SearchOptions,
    owner_query_allowed: bool,
) -> (r: bool)
    ensures
        r == admitted(path@, *meta, *options, owner_query_allowed),
{
    if meta.is_symlink && !options.custom_symbolic_chk {
        return false;
    }
    if options.custom_property_use && should_filter_file_by_metadata(
        path,
        meta,
        options,
        owner_query_allowed,
    ) {
        return false;
    }
    true
}

/// What the walker does with one entry.
#[derive(Debug)]
pub enum Visit {
    /// The search was cancelled: leave the directory at once.
    Stop,
    /// The entry is skipped, and not descended into.
    Skip,
    /// The entry was looked at: report `item` if any, and descend if it is a
    /// directory.
    Proceed { item: Option<FileItem>, descend: bool },
}

/// The walker's step on one entry, taken after polling the cancellation flag.
pub fn visit_entry(
    cancelled: bool,
    path: &str,
    meta: &EntryMeta,
    keyword: &str,
    options: &SearchOptions,
    content: &str,
    cfg: &MatchConfig,
    owner_query_allowed: bool,
) -> (r: Result<Visit, String>)
    requires
        cfg.wf(),
    ensures
        cancelled ==> r matches Ok(Visit::Stop),
        !cancelled && !admitted(path@, *meta, *options, owner_query_allowed) ==> r matches Ok(
            Visit::Skip,
        ),
        !cancelled && admitted(path@, *meta, *options, owner_query_allowed) ==> {
            let outcome = strategy_outcome(path@, *meta, keyword@, *options, content@, *cfg);
            &&& !in_scope(*options, *meta) ==> (r matches Ok(Visit::Proceed { item: None, descend })
                && descend == meta.is_dir)
            &&& in_scope(*options, *meta) ==> match outcome {
                Err(()) => r is Err,
                Ok(false) => (r matches Ok(Visit::Proceed { item: None, descend }) && descend
                    == meta.is_dir),
                Ok(true) => (r matches Ok(Visit::Proceed { item: Some(item), descend }) && descend
                    == meta.is_dir && item.file_name@ == display_stem(path@) && item.file_path@
                    == path@),
            }
        },
{
    if cancelled {
        return Ok(Visit::Stop);
    }
    if !admit_entry(path, meta, options, owner_query_allowed) {
        return Ok(Visit::Skip);
    }
    match match_entry(path, meta, keyword, options, content, cfg) {
        Err(e) => Err(e),
        Ok(item) => Ok(Visit::Proceed { item, descend: meta.is_dir }),
    }
}

} // verus!

//! The metadata filter: whether an entry is kept out of the results on account of
//! its size, dates, owner or extension.
use vstd::prelude::*;
use crate::options::SearchOptions;
use crate::paths::{extension_of, path_extension};
use crate::text::{
    contains_str, decimal, lower_of, lowercase, occurs_in, split_words, strip_leading_dots,
    trim_leading_dots, words_of,
};

verus! {

/// What the walker knows of one entry.
#[derive(Debug)]
pub struct EntryMeta {
    pub is_file: bool,
    pub is_dir: bool,
    pub is_symlink: bool,
    /// Length in bytes.
    pub size: u64,
    /// Creation time in seconds since the Unix epoch, where the platform reports it.
    pub created: Option<i64>,
    /// Modification time in seconds since the Unix epoch, where the platform reports it.
    pub modified: Option<i64>,
    /// Numeric owner, where it could be looked up.
    pub owner_uid: Option<u32>,
}

pub const SECS_PER_DAY: u64 = 86400;

/// The day (counted from the Unix epoch) that holds a timestamp.
pub open spec fn day_of(secs: int) -> int {
    secs / 86400
}

/// The day that holds a timestamp, rounding towards the past.
pub fn day_of_secs(secs: i64) -> (r: i64)
    ensures
        r == day_of(secs as int),
{
    if secs >= 0 {
        let q = (secs as u64) / SECS_PER_DAY;
        q as i64
    } else {
        let a: u64 = (-(secs + 1)) as u64;
        let q: u64 = a / SECS_PER_DAY;
        assert(day_of(secs as int) == -(q as int) - 1) by (nonlinear_arith)
            requires
                a == -(secs + 1),
                q == a / 86400,
                secs < 0,
        {
            let d: int = -(q as int) - 1;
            assert(a == q * 86400 + a % 86400);
            assert(secs == d * 86400 + (86399 - a % 86400));
        }
        -(q as i64) - 1
    }
}

/// What `DateTime::parse_from_rfc3339` gives for a text, as seconds since the epoch.
pub uninterp spec fn rfc3339_secs(text: Seq<char>) -> Option<i64>;

/// Relies on chrono's `DateTime::parse_from_rfc3339` and `DateTime::timestamp`: the
/// parsed instant, or `None` where the text is not an RFC 3339 date and time.
#[verifier::external_body]
fn parse_rfc3339_secs(text: &str) -> (r: Option<i64>)
    ensures
        r == rfc3339_secs(text@),
{
    chrono::DateTime::parse_from_rfc3339(text).ok().map(|dt| dt.timestamp())
}

/// The day a configured date bound names (`YYYY-MM-DD`, read as UTC midnight), or
/// `None` where the bound is malformed.
pub open spec fn bound_day(bound: Seq<char>) -> Option<int> {
    match rfc3339_secs(bound + "T00:00:00+00:00"@) {
        Some(t) => Some(day_of(t as int)),
        None => None,
    }
}

/// Reads a date bound; a malformed bound gives `None`.
pub fn parse_bound_day(bound: &str) -> (r: Option<i64>)
    ensures
        r matches Some(d) ==> bound_day(bound@) == Some(d as int),
        r is None ==> bound_day(bound@) is None,
{
    let text = String::from_str(bound).concat("T00:00:00+00:00");
    match parse_rfc3339_secs(text.as_str()) {
        Some(t) => Some(day_of_secs(t)),
        None => None,
    }
}

/// A timestamp falls outside the day range `[start, end]`; a missing timestamp or a
/// malformed bound excludes nothing.
pub open spec fn outside_days(stamp: Option<i64>, start: Seq<char>, end: Seq<char>) -> bool {
    match stamp {
        None => false,
        Some(t) => {
            (bound_day(start) matches Some(d) && day_of(t as int) < d) || (bound_day(end) matches Some(
                d,
            ) && day_of(t as int) > d)
        },
    }
}

fn is_outside_days(stamp: Option<i64>, start: &str, end: &str) -> (r: bool)
    ensures
        r == outside_days(stamp, start@, end@),
{
    match stamp {
        None => false,
        Some(t) => {
            let day = day_of_secs(t);
            let below = match parse_bound_day(start) {
                Some(d) => day < d,
                None => false,
            };
            let above = match parse_bound_day(end) {
                Some(d) => day > d,
                None => false,
            };
            below || above
        },
    }
}

/// Relies on nix's `Display` for `Uid`, which writes the raw number in decimal.
#[verifier::external_body]
fn uid_text(uid: u32) -> (r: String)
    ensures
        r@ == decimal(uid as nat),
{
    nix::unistd::Uid::from_raw(uid).to_string()
}

/// The owner test fails: no owner is known, or the owner's name does not contain
/// the configured name, ignoring case.
pub open spec fn owner_rejected(uid: Option<u32>, name: Seq<char>) -> bool {
    match uid {
        None => true,
        Some(u) => !occurs_in(lower_of(name), lower_of(decimal(u as nat))),
    }
}

fn is_owner_rejected(uid: Option<u32>, name: &str) -> (r: bool)
    ensures
        r == owner_rejected(uid, name@),
{
    match uid {
        None => true,
        Some(u) => {
            let wanted = lowercase(name);
            let actual = lowercase(uid_text(u).as_str());
            !contains_str(actual.as_str(), wanted.as_str())
        },
    }
}

/// The extension test fails: the entry has an extension and it is none of the
/// configured ones (leading dots of a configured one are ignored).
pub open spec fn extension_rejected(path: Seq<char>, list: Seq<char>) -> bool {
    match extension_of(path) {
        None => false,
        Some(e) => !(exists|i: int|
            0 <= i < words_of(list).len() && e == strip_leading_dots(#[trigger] words_of(list)[i])),
    }
}

fn is_extension_rejected(path: &str, list: &str) -> (r: bool)
    ensures
        r == extension_rejected(path@, list@),
{
    match path_extension(path) {
        None => false,
        Some(e) => {
            let words = split_words(list);
            let ghost ws = words_of(list@);
            assert(ws.len() == words@.len());
            let mut i: usize = 0;
            while i < words.len()
                invariant
                    i <= words@.len(),
                    ws == words@.map_values(|w: String| w@),
                    ws == words_of(list@),
                    extension_of(path@) == Some(e@),
                    forall|k: int| 0 <= k < i ==> e@ != strip_leading_dots(#[trigger] ws[k]),
                decreases words@.len() - i,
            {
                let w = trim_leading_dots(words[i].as_str());
                if w == e {
                    assert(ws[i as int] == words@[i as int]@);
                    assert(e@ == strip_leading_dots(ws[i as int]));
                    return false;
                }
                i = i + 1;
            }
            true
        },
    }
}

/// Whether the metadata filter keeps an entry out of the results.
pub open spec fn excluded(
    path: Seq<char>,
    m: EntryMeta,
    o: SearchOptions,
    owner_query_allowed: bool,
) -> bool {
    ||| o.custom_file_size_use && m.is_file && (m.size > o.size_max || m.size < o.size_min)
    ||| o.custom_file_crt_date_use && outside_days(m.created, o.crt_start@, o.crt_end@)
    ||| o.custom_file_modi_date_use && outside_days(m.modified, o.modi_start@, o.modi_end@)
    ||| o.custom_file_owner_use && (!owner_query_allowed || owner_rejected(
        m.owner_uid,
        o.owner_name@,
    ))
    ||| o.custom_file_type_use && m.is_file && extension_rejected(path, o.file_type_list@)
}

/// With only the size filter on, a file is left out exactly when its size lies
/// outside `[size_min, size_max]`; both bounds are inclusive.
pub proof fn lemma_size_filter_bounds(
    path: Seq<char>,
    m: EntryMeta,
    o: SearchOptions,
    owner_query_allowed: bool,
)
    requires
        m.is_file,
        o.custom_file_size_use,
        !o.custom_file_crt_date_use,
        !o.custom_file_modi_date_use,
        !o.custom_file_owner_use,
        !o.custom_file_type_use,
    ensures
        excluded(path, m, o, owner_query_allowed) <==> (m.size > o.size_max || m.size < o.size_min),
        m.size == o.size_max && o.size_min <= o.size_max ==> !excluded(path, m, o, owner_query_allowed),
        m.size == o.size_min && o.size_min <= o.size_max ==> !excluded(path, m, o, owner_query_allowed),
{
}

/// Whether an entry must be left out of the results on account of its metadata.
/// `owner_query_allowed` says whether this process may look up owners at all.
pub fn should_filter_file_by_metadata(
    path: &str,
    meta: &EntryMeta,
    options: &SearchOptions,
    owner_query_allowed: bool,
) -> (r: bool)
    ensures
        r == excluded(path@, *meta, *options, owner_query_allowed),
{
    if options.custom_file_size_use && meta.is_file {
        if meta.size > options.size_max || meta.size < options.size_min {
            return true;
        }
    }
    if options.custom_file_crt_date_use && is_outside_days(
        meta.created,
        options.crt_start.as_str(),
        options.crt_end.as_str(),
    ) {
        return true;
    }
    if options.custom_file_modi_date_use && is_outside_days(
        meta.modified,
        options.modi_start.as_str(),
        options.modi_end.as_str(),
    ) {
        return true;
    }
    if options.custom_file_owner_use {
        if !owner_query_allowed {
            return true;
        }
        if is_owner_rejected(meta.owner_uid, options.owner_name.as_str()) {
            return true;
        }
    }
    if options.custom_file_type_use && meta.is_file {
        if is_extension_rejected(path, options.file_type_list.as_str()) {
            return true;
        }
    }
    false
}

} // verus!

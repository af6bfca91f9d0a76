//! The four name and content matching strategies.
use vstd::prelude::*;
use crate::filter::EntryMeta;
use crate::options::{MatchConfig, Method, Scope, SearchOptions};
use crate::paths::{display_stem, stem_or_empty};
use crate::similarity::{
    dl_distance, edit_distance, is_similar_enough, is_within_distance, similar_enough,
    within_distance,
};
use crate::text::{contains_str, occurs_in};

verus! {

/// One search result: the reported name and the full path.
#[derive(Debug)]
pub struct FileItem {
    pub file_name: String,
    pub file_path: String,
}

impl Clone for FileItem {
    fn clone(&self) -> (r: Self)
        ensures
            r == *self,
    {
        FileItem { file_name: self.file_name.clone(), file_path: self.file_path.clone() }
    }
}

/// What `mime_guess::from_path(p).first()` gives as top-level media type.
pub uninterp spec fn guessed_top_type(p: Seq<char>) -> Option<Seq<char>>;

/// Relies on mime_guess's `from_path`, `MimeGuess::first` and `Mime::type_`: the
/// top-level type of the first media type registered for the path's extension.
#[verifier::external_body]
fn guess_top_type(p: &str) -> (r: Option<String>)
    ensures
        r matches Some(t) ==> guessed_top_type(p@) == Some(t@),
        r is None ==> guessed_top_type(p@) is None,
{
    mime_guess::from_path(p).first().map(|m| m.type_().as_str().to_string())
}

/// The path names a file whose guessed media type is textual.
pub open spec fn text_typed(p: Seq<char>) -> bool {
    guessed_top_type(p) == Some("text"@)
}

/// Whether the path's extension marks a text file.
pub fn is_text_file(p: &str) -> (r: bool)
    ensures
        r == text_typed(p@),
{
    match guess_top_type(p) {
        Some(t) => t == String::from_str("text"),
        None => false,
    }
}

/// What the regex crate answers for a pattern and a text: `None` where the pattern
/// does not compile, else whether it matches somewhere in the text.
pub uninterp spec fn regex_outcome(pattern: Seq<char>, hay: Seq<char>) -> Option<bool>;

/// Relies on `regex::Regex::new` and `Regex::is_match`.
#[verifier::external_body]
fn regex_is_match(pattern: &str, hay: &str) -> (r: Result<bool, regex::Error>)
    ensures
        r matches Ok(b) ==> regex_outcome(pattern@, hay@) == Some(b),
        r is Err ==> regex_outcome(pattern@, hay@) is None,
{
    regex::Regex::new(pattern).map(|re| re.is_match(hay))
}

#[verifier::external_type_specification]
#[verifier::external_body]
pub struct ExRegexError(regex::Error);

/// Whether the search scope lets this entry be reported.
pub open spec fn in_scope(o: SearchOptions, m: EntryMeta) -> bool {
    match o.scope() {
        Scope::FilesOnly => !m.is_dir,
        Scope::DirsOnly => m.is_dir,
        Scope::Both => true,
    }
}

/// Whether the strategy looks into the file's contents as well as its name.
pub open spec fn reads_content(p: Seq<char>, m: EntryMeta, o: SearchOptions) -> bool {
    &&& in_scope(o, m)
    &&& (o.method() is Substring || o.method() is Regex)
    &&& m.is_file
    &&& o.custom_file_cont_use
    &&& text_typed(p)
}

/// Whether the caller must read the file's contents before calling `match_entry`.
pub fn needs_content(path: &str, meta: &EntryMeta, options: &SearchOptions) -> (r: bool)
    ensures
        r == reads_content(path@, *meta, *options),
{
    let scoped = match options.get_scope() {
        Scope::FilesOnly => !meta.is_dir,
        Scope::DirsOnly => meta.is_dir,
        Scope::Both => true,
    };
    let method_reads = match options.get_method() {
        Method::Substring => true,
        Method::Regex => true,
        _ => false,
    };
    scoped && method_reads && meta.is_file && options.custom_file_cont_use && is_text_file(path)
}

/// The outcome of the selected strategy on one entry: `Err(())` where the keyword is
/// not a valid pattern, `Ok(true)` where the entry matches.
pub open spec fn strategy_outcome(
    p: Seq<char>,
    m: EntryMeta,
    kw: Seq<char>,
    o: SearchOptions,
    content: Seq<char>,
    cfg: MatchConfig,
) -> Result<bool, ()> {
    let name = display_stem(p);
    let look_inside = reads_content(p, m, o);
    match o.method() {
        Method::Substring => Ok(occurs_in(kw, name) || (look_inside && occurs_in(kw, content))),
        Method::Regex => match regex_outcome(kw, name) {
            None => Err(()),
            Some(by_name) => if by_name || !look_inside {
                Ok(by_name)
            } else {
                match regex_outcome(kw, content) {
                    None => Err(()),
                    Some(by_content) => Ok(by_content),
                }
            },
        },
        Method::EditDistance => Ok(within_distance(dl_distance(name, kw), cfg.edit_threshold)),
        Method::CharSetSimilarity => Ok(similar_enough(name, kw, cfg.jaccard_threshold)),
    }
}

/// Runs the selected strategy on one entry. `content` is the file's text where
/// `needs_content` asked for it (empty where it could not be read), and is ignored
/// otherwise. Out-of-scope entries never match and never fail; an invalid pattern
/// fails with a message.
pub fn match_entry(
    path: &str,
    meta: &EntryMeta,
    keyword: &str,
    options: &SearchOptions,
    content: &str,
    cfg: &MatchConfig,
) -> (r: Result<Option<FileItem>, String>)
    requires
        cfg.wf(),
    ensures
        options.scope() is FilesOnly && meta.is_dir ==> r == Ok::<Option<FileItem>, String>(None),
        options.scope() is DirsOnly && !meta.is_dir ==> r == Ok::<Option<FileItem>, String>(None),
        !in_scope(*options, *meta) ==> r == Ok::<Option<FileItem>, String>(None),
        in_scope(*options, *meta) ==> match strategy_outcome(
            path@,
            *meta,
            keyword@,
            *options,
            content@,
            *cfg,
        ) {
            Err(()) => r is Err,
            Ok(false) => r == Ok::<Option<FileItem>, String>(None),
            Ok(true) => r matches Ok(Some(item)) && item.file_name@ == display_stem(path@)
                && item.file_path@ == path@,
        },
{
    let scoped = match options.get_scope() {
        Scope::FilesOnly => !meta.is_dir,
        Scope::DirsOnly => meta.is_dir,
        Scope::Both => true,
    };
    if !scoped {
        return Ok(None);
    }
    let name = stem_or_empty(path);
    let look_inside = needs_content(path, meta, options);
    let matched = match options.get_method() {
        Method::Substring => {
            contains_str(name.as_str(), keyword) || (look_inside && contains_str(content, keyword))
        },
        Method::Regex => {
            match regex_is_match(keyword, name.as_str()) {
                Err(e) => {
                    return Err(String::from_str("Invalid regex pattern: ").concat(
                        e.to_string().as_str(),
                    ));
                },
                Ok(by_name) => {
                    if by_name || !look_inside {
                        by_name
                    } else {
                        match regex_is_match(keyword, content) {
                            Err(e) => {
                                return Err(String::from_str("Invalid regex pattern: ").concat(
                                    e.to_string().as_str(),
                                ));
                            },
                            Ok(by_content) => by_content,
                        }
                    }
                },
            }
        },
        Method::EditDistance => {
            let d = edit_distance(name.as_str(), keyword);
            is_within_distance(d, &cfg.edit_threshold)
        },
        Method::CharSetSimilarity => {
            is_similar_enough(name.as_str(), keyword, &cfg.jaccard_threshold)
        },
    };
    if matched {
        Ok(Some(FileItem { file_name: name, file_path: String::from_str(path) }))
    } else {
        Ok(None)
    }
}

} // verus!

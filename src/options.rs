//! The configuration of one search.
use vstd::prelude::*;

verus! {

/// The configuration of one search. Two searches share a cache entry only when
/// their keywords and their options are equal field by field.
#[derive(Debug)]
pub struct SearchOptions {
    pub custom_thread_pool_use: bool,
    pub thread_pool_num: String,
    /// `"1"`: files only; `"2"`: directories only; anything else: both.
    pub search_scope: String,
    pub custom_file_cont_use: bool,
    pub custom_property_use: bool,
    pub custom_file_size_use: bool,
    pub size_max: u64,
    pub size_min: u64,
    pub custom_file_crt_date_use: bool,
    pub crt_start: String,
    pub crt_end: String,
    pub custom_file_modi_date_use: bool,
    pub modi_start: String,
    pub modi_end: String,
    pub custom_file_owner_use: bool,
    pub owner_name: String,
    pub custom_file_type_use: bool,
    pub file_type_list: String,
    pub custom_symbolic_chk: bool,
    /// `"1"`: regular expression; `"2"`: edit distance; `"3"`: character-set
    /// similarity; anything else: substring.
    pub custom_sch_method: String,
    pub custom_log_use: bool,
}

/// Which kinds of entries a search may report.
#[derive(Debug)]
pub enum Scope {
    FilesOnly,
    DirsOnly,
    Both,
}

/// How an entry's name is compared with the keyword.
#[derive(Debug)]
pub enum Method {
    Substring,
    Regex,
    EditDistance,
    CharSetSimilarity,
}

pub open spec fn scope_of(code: Seq<char>) -> Scope {
    if code == seq!['1'] {
        Scope::FilesOnly
    } else if code == seq!['2'] {
        Scope::DirsOnly
    } else {
        Scope::Both
    }
}

pub open spec fn method_of(code: Seq<char>) -> Method {
    if code == seq!['1'] {
        Method::Regex
    } else if code == seq!['2'] {
        Method::EditDistance
    } else if code == seq!['3'] {
        Method::CharSetSimilarity
    } else {
        Method::Substring
    }
}

/// Whether `s` is the one-character string `c`.
fn is_code(s: &String, c: char) -> (r: bool)
    ensures
        r == (s@ == seq![c]),
{
    let cs = crate::text::chars_of(s.as_str());
    if cs.len() == 1 && cs[0] == c {
        assert(cs@ =~= seq![c]);
        true
    } else {
        false
    }
}

impl SearchOptions {
    /// Field-by-field equality of the views.
    pub open spec fn same_as(&self, o: &SearchOptions) -> bool {
        &&& self.custom_thread_pool_use == o.custom_thread_pool_use
        &&& self.thread_pool_num@ == o.thread_pool_num@
        &&& self.search_scope@ == o.search_scope@
        &&& self.custom_file_cont_use == o.custom_file_cont_use
        &&& self.custom_property_use == o.custom_property_use
        &&& self.custom_file_size_use == o.custom_file_size_use
        &&& self.size_max == o.size_max
        &&& self.size_min == o.size_min
        &&& self.custom_file_crt_date_use == o.custom_file_crt_date_use
        &&& self.crt_start@ == o.crt_start@
        &&& self.crt_end@ == o.crt_end@
        &&& self.custom_file_modi_date_use == o.custom_file_modi_date_use
        &&& self.modi_start@ == o.modi_start@
        &&& self.modi_end@ == o.modi_end@
        &&& self.custom_file_owner_use == o.custom_file_owner_use
        &&& self.owner_name@ == o.owner_name@
        &&& self.custom_file_type_use == o.custom_file_type_use
        &&& self.file_type_list@ == o.file_type_list@
        &&& self.custom_symbolic_chk == o.custom_symbolic_chk
        &&& self.custom_sch_method@ == o.custom_sch_method@
        &&& self.custom_log_use == o.custom_log_use
    }

    pub open spec fn scope(&self) -> Scope {
        scope_of(self.search_scope@)
    }

    pub open spec fn method(&self) -> Method {
        method_of(self.custom_sch_method@)
    }

    pub fn get_scope(&self) -> (r: Scope)
        ensures
            r == self.scope(),
    {
        if is_code(&self.search_scope, '1') {
            Scope::FilesOnly
        } else if is_code(&self.search_scope, '2') {
            Scope::DirsOnly
        } else {
            Scope::Both
        }
    }

    pub fn get_method(&self) -> (r: Method)
        ensures
            r == self.method(),
    {
        if is_code(&self.custom_sch_method, '1') {
            Method::Regex
        } else if is_code(&self.custom_sch_method, '2') {
            Method::EditDistance
        } else if is_code(&self.custom_sch_method, '3') {
            Method::CharSetSimilarity
        } else {
            Method::Substring
        }
    }
}

impl Clone for SearchOptions {
    fn clone(&self) -> (r: Self)
        ensures
            r == *self,
    {
        SearchOptions {
            custom_thread_pool_use: self.custom_thread_pool_use,
            thread_pool_num: self.thread_pool_num.clone(),
            search_scope: self.search_scope.clone(),
            custom_file_cont_use: self.custom_file_cont_use,
            custom_property_use: self.custom_property_use,
            custom_file_size_use: self.custom_file_size_use,
            size_max: self.size_max,
            size_min: self.size_min,
            custom_file_crt_date_use: self.custom_file_crt_date_use,
            crt_start: self.crt_start.clone(),
            crt_end: self.crt_end.clone(),
            custom_file_modi_date_use: self.custom_file_modi_date_use,
            modi_start: self.modi_start.clone(),
            modi_end: self.modi_end.clone(),
            custom_file_owner_use: self.custom_file_owner_use,
            owner_name: self.owner_name.clone(),
            custom_file_type_use: self.custom_file_type_use,
            file_type_list: self.file_type_list.clone(),
            custom_symbolic_chk: self.custom_symbolic_chk,
            custom_sch_method: self.custom_sch_method.clone(),
            custom_log_use: self.custom_log_use,
        }
    }
}

impl PartialEq for SearchOptions {
    fn eq(&self, o: &SearchOptions) -> (r: bool)
        ensures
            r == self.same_as(o),
    {
        self.custom_thread_pool_use == o.custom_thread_pool_use
            && self.thread_pool_num == o.thread_pool_num
            && self.search_scope == o.search_scope
            && self.custom_file_cont_use == o.custom_file_cont_use
            && self.custom_property_use == o.custom_property_use
            && self.custom_file_size_use == o.custom_file_size_use
            && self.size_max == o.size_max
            && self.size_min == o.size_min
            && self.custom_file_crt_date_use == o.custom_file_crt_date_use
            && self.crt_start == o.crt_start
            && self.crt_end == o.crt_end
            && self.custom_file_modi_date_use == o.custom_file_modi_date_use
            && self.modi_start == o.modi_start
            && self.modi_end == o.modi_end
            && self.custom_file_owner_use == o.custom_file_owner_use
            && self.owner_name == o.owner_name
            && self.custom_file_type_use == o.custom_file_type_use
            && self.file_type_list == o.file_type_list
            && self.custom_symbolic_chk == o.custom_symbolic_chk
            && self.custom_sch_method == o.custom_sch_method
            && self.custom_log_use == o.custom_log_use
    }
}

impl vstd::std_specs::cmp::PartialEqSpecImpl for SearchOptions {
    open spec fn obeys_eq_spec() -> bool {
        true
    }

    open spec fn eq_spec(&self, o: &SearchOptions) -> bool {
        self.same_as(o)
    }
}

/// A non-negative rational bound `num / den`, used for the fuzzy thresholds.
#[derive(Debug)]
pub struct Threshold {
    pub num: u64,
    pub den: u64,
}

impl Threshold {
    pub open spec fn wf(&self) -> bool {
        self.den > 0
    }
}

/// The bounds of the two fuzzy strategies.
#[derive(Debug)]
pub struct MatchConfig {
    /// Largest edit distance that still matches.
    pub edit_threshold: Threshold,
    /// Smallest character-set similarity that still matches.
    pub jaccard_threshold: Threshold,
}

impl MatchConfig {
    pub open spec fn wf(&self) -> bool {
        self.edit_threshold.wf() && self.jaccard_threshold.wf()
    }

    /// The bounds used when no configured value can be read: an edit distance
    /// of two, a similarity of one half.
    pub fn fallback() -> (r: MatchConfig)
        ensures
            r.wf(),
            r.edit_threshold.num == 2 && r.edit_threshold.den == 1,
            r.jaccard_threshold.num == 1 && r.jaccard_threshold.den == 2,
    {
        MatchConfig {
            edit_threshold: Threshold { num: 2, den: 1 },
            jaccard_threshold: Threshold { num: 1, den: 2 },
        }
    }
}

} // verus!

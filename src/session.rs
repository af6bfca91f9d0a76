//! The draining side of one search: cached paths served first, then the walker's
//! results, each path forwarded to the caller at most once.
use vstd::prelude::*;
use crate::cache::{clone_strings, texts};
use crate::matching::FileItem;
use crate::options::{Scope, SearchOptions};
use crate::naming::{digits_value, is_digit};
use crate::paths::{file_name_of, path_file_name};

verus! {

/// What became of one result that the walker sent.
#[derive(Debug)]
pub enum Delivery {
    /// Its path was already received: dropped.
    Duplicate,
    /// Kept for the cache, but not forwarded: the cached paths hold it.
    Recorded,
    /// Kept, and to be forwarded to the caller.
    Emit,
}

/// The state of the draining side of one search.
pub struct SearchSession {
    cached: Vec<String>,
    served: Vec<String>,
    sent: Vec<String>,
    results: Vec<FileItem>,
    forwarded: Ghost<Seq<Seq<char>>>,
}

/// The paths of a sequence of results.
pub open spec fn item_paths(items: Seq<FileItem>) -> Seq<Seq<char>> {
    items.map_values(|i: FileItem| i.file_path@)
}

/// Whether a cached path may be shown for this search: it still exists, lies under
/// the searched directory and is of a kind that the scope admits.
pub open spec fn cached_path_admitted(
    exists: bool,
    in_dir: bool,
    is_file: bool,
    is_dir: bool,
    o: SearchOptions,
) -> bool {
    exists && in_dir && match o.scope() {
        Scope::FilesOnly => is_file,
        Scope::DirsOnly => is_dir,
        Scope::Both => true,
    }
}

impl SearchSession {
    /// The paths cached for this search.
    pub closed spec fn cached_paths(&self) -> Seq<Seq<char>> {
        texts(self.cached@)
    }

    /// The paths received from the walker, in order, each once.
    pub closed spec fn received(&self) -> Seq<Seq<char>> {
        texts(self.sent@)
    }

    /// The results kept for the cache, in order.
    pub closed spec fn kept(&self) -> Seq<FileItem> {
        self.results@
    }

    /// Every path forwarded to the caller so far, in order.
    pub closed spec fn forwarded(&self) -> Seq<Seq<char>> {
        self.forwarded@
    }

    pub closed spec fn wf(&self) -> bool {
        &&& self.forwarded@.no_duplicates()
        &&& texts(self.sent@).no_duplicates()
        &&& item_paths(self.results@) == texts(self.sent@)
        &&& forall|p: Seq<char>| #[trigger]
            self.forwarded@.contains(p) ==> (texts(self.served@).contains(p) && texts(
                self.cached@,
            ).contains(p)) || (texts(self.sent@).contains(p) && !texts(self.cached@).contains(p))
        &&& forall|p: Seq<char>| #[trigger]
            texts(self.served@).contains(p) ==> self.forwarded@.contains(p)
    }

    /// Each path reaches the caller at most once, whether served from the cache or
    /// received from the walker, however the walker's subtrees overlap.
    pub proof fn lemma_forwarded_at_most_once(&self)
        requires
            self.wf(),
        ensures
            self.forwarded().no_duplicates(),
    {
    }

    /// A session for a search whose cached paths are `cached` (`None` where the
    /// cache holds none for it).
    pub fn new(cached: Option<Vec<String>>) -> (r: Self)
        ensures
            r.wf(),
            r.cached_paths() == (match cached {
                Some(v) => texts(v@),
                None => Seq::<Seq<char>>::empty(),
            }),
            r.received().len() == 0,
            r.kept().len() == 0,
            r.forwarded().len() == 0,
    {
        let cached = match cached {
            Some(v) => v,
            None => Vec::new(),
        };
        let r = SearchSession {
            cached,
            served: Vec::new(),
            sent: Vec::new(),
            results: Vec::new(),
            forwarded: Ghost(Seq::empty()),
        };
        assert(item_paths(r.results@) =~= texts(r.sent@));
        assert(texts(r.sent@) =~= Seq::<Seq<char>>::empty());
        r
    }

    pub fn cached_len(&self) -> (r: usize)
        ensures
            r == self.cached_paths().len(),
    {
        self.cached.len()
    }

    pub fn cached_path(&self, i: usize) -> (r: String)
        requires
            i < self.cached_paths().len(),
        ensures
            r@ == self.cached_paths()[i as int],
    {
        self.cached[i].clone()
    }

    /// Whether `p` is among `v`.
    fn holds(v: &Vec<String>, p: &String) -> (r: bool)
        ensures
            r == texts(v@).contains(p@),
    {
        let mut i: usize = 0;
        while i < v.len()
            invariant
                i <= v@.len(),
                forall|k: int| 0 <= k < i ==> v@[k]@ != p@,
            decreases v@.len() - i,
        {
            if v[i] == *p {
                assert(texts(v@)[i as int] == p@);
                return true;
            }
            i = i + 1;
        }
        assert forall|k: int| 0 <= k < texts(v@).len() implies texts(v@)[k] != p@ by {
            assert(texts(v@)[k] == v@[k]@);
        }
        false
    }

    /// Decides on the cached path at `index`, given what the file system says of it:
    /// it is shown (and the item to show returned) where it is admitted, has a file
    /// name, and was not shown yet.
    pub fn serve_cached(
        &mut self,
        index: usize,
        exists: bool,
        in_dir: bool,
        is_file: bool,
        is_dir: bool,
        options: &SearchOptions,
    ) -> (r: Option<FileItem>)
        requires
            old(self).wf(),
            index < old(self).cached_paths().len(),
        ensures
            final(self).wf(),
            final(self).cached_paths() == old(self).cached_paths(),
            final(self).received() == old(self).received(),
            final(self).kept() == old(self).kept(),
            ({
                let p = old(self).cached_paths()[index as int];
                let shown = cached_path_admitted(exists, in_dir, is_file, is_dir, *options)
                    && file_name_of(p) is Some && !old(self).forwarded().contains(p);
                &&& shown ==> (r matches Some(item) && item.file_path@ == p && item.file_name@
                    == file_name_of(p)->0 && final(self).forwarded() == old(
                    self,
                ).forwarded().push(p))
                &&& !shown ==> (r is None && final(self).forwarded() == old(self).forwarded())
            }),
    {
        let path = self.cached[index].clone();
        let ghost p = path@;
        assert(texts(self.cached@)[index as int] == p);
        let scoped = match options.get_scope() {
            Scope::FilesOnly => is_file,
            Scope::DirsOnly => is_dir,
            Scope::Both => true,
        };
        if !(exists && in_dir && scoped) {
            return None;
        }
        let name = match path_file_name(path.as_str()) {
            Some(n) => n,
            None => {
                return None;
            },
        };
        if Self::holds(&self.served, &path) {
            assert(self.forwarded@.contains(p));
            return None;
        }
        proof {
            if self.forwarded@.contains(p) {
                assert(texts(self.cached@).contains(p));
            }
        }
        let ghost old_served = self.served@;
        self.served.push(path.clone());
        proof {
            assert(texts(self.served@) =~= texts(old_served).push(p));
            self.forwarded@ = self.forwarded@.push(p);
            assert forall|q: Seq<char>| #[trigger]
                self.forwarded@.contains(q) implies (texts(self.served@).contains(q) && texts(
                self.cached@,
            ).contains(q)) || (texts(self.sent@).contains(q) && !texts(self.cached@).contains(q)) by {
                if q != p {
                    let k = choose|k: int| 0 <= k < self.forwarded@.len() && self.forwarded@[k] == q;
                    assert(old(self).forwarded@[k] == q);
                    assert(old(self).forwarded@.contains(q));
                    if texts(old_served).contains(q) {
                        let j = choose|j: int| 0 <= j < texts(old_served).len() && texts(old_served)[j] == q;
                        assert(texts(self.served@)[j] == q);
                    }
                } else {
                    assert(texts(self.served@)[texts(self.served@).len() - 1] == q);
                    assert(texts(self.cached@)[index as int] == q);
                }
            }
            assert forall|q: Seq<char>| #[trigger]
                texts(self.served@).contains(q) implies self.forwarded@.contains(q) by {
                let j = choose|j: int| 0 <= j < texts(self.served@).len() && texts(self.served@)[j] == q;
                if j < texts(old_served).len() {
                    assert(texts(old_served)[j] == q);
                    assert(texts(old_served).contains(q));
                    let k = choose|k: int| 0 <= k < old(self).forwarded@.len() && old(self).forwarded@[k] == q;
                    assert(self.forwarded@[k] == q);
                } else {
                    assert(self.forwarded@[self.forwarded@.len() - 1] == q);
                }
            }
        }
        Some(FileItem { file_name: name, file_path: path })
    }

    /// Takes one result from the walker: a path already received is dropped; a new
    /// one is kept for the cache, and forwarded unless the cached paths hold it.
    pub fn receive(&mut self, item: FileItem) -> (r: Delivery)
        requires
            old(self).wf(),
        ensures
            final(self).wf(),
            final(self).cached_paths() == old(self).cached_paths(),
            old(self).received().contains(item.file_path@) ==> (r is Duplicate && *final(self)
                == *old(self)),
            !old(self).received().contains(item.file_path@) ==> ({
                &&& final(self).received() == old(self).received().push(item.file_path@)
                &&& final(self).kept() == old(self).kept().push(item)
                &&& old(self).cached_paths().contains(item.file_path@) ==> (r is Recorded
                    && final(self).forwarded() == old(self).forwarded())
                &&& !old(self).cached_paths().contains(item.file_path@) ==> (r is Emit
                    && final(self).forwarded() == old(self).forwarded().push(item.file_path@))
            }),
    {
        let ghost p = item.file_path@;
        if Self::holds(&self.sent, &item.file_path) {
            return Delivery::Duplicate;
        }
        let in_cache = Self::holds(&self.cached, &item.file_path);
        let ghost old_sent = self.sent@;
        let ghost old_results = self.results@;
        self.sent.push(item.file_path.clone());
        self.results.push(item);
        proof {
            assert(texts(self.sent@) =~= texts(old_sent).push(p));
            assert(item_paths(self.results@) =~= item_paths(old_results).push(p));
            if !in_cache {
                assert(!self.forwarded@.contains(p));
                self.forwarded@ = self.forwarded@.push(p);
            }
            assert forall|q: Seq<char>| #[trigger]
                self.forwarded@.contains(q) implies (texts(self.served@).contains(q) && texts(
                self.cached@,
            ).contains(q)) || (texts(self.sent@).contains(q) && !texts(self.cached@).contains(q)) by {
                if q != p {
                    let k = choose|k: int| 0 <= k < self.forwarded@.len() && self.forwarded@[k] == q;
                    assert(old(self).forwarded@[k] == q);
                    assert(old(self).forwarded@.contains(q));
                    if texts(old_sent).contains(q) {
                        let j = choose|j: int| 0 <= j < texts(old_sent).len() && texts(old_sent)[j] == q;
                        assert(texts(self.sent@)[j] == q);
                    }
                } else if !in_cache {
                    assert(texts(self.sent@)[texts(self.sent@).len() - 1] == q);
                }
            }
            assert forall|q: Seq<char>| #[trigger]
                texts(self.served@).contains(q) implies self.forwarded@.contains(q) by {
                assert(old(self).forwarded@.contains(q));
                let k = choose|k: int| 0 <= k < old(self).forwarded@.len() && old(self).forwarded@[k] == q;
                assert(self.forwarded@[k] == q);
            }
        }
        if in_cache {
            Delivery::Recorded
        } else {
            Delivery::Emit
        }
    }

    /// The number of results kept so far.
    pub fn kept_len(&self) -> (r: usize)
        ensures
            r == self.kept().len(),
    {
        self.results.len()
    }

    /// The paths of the kept results, in order, for the cache update.
    pub fn final_paths(&self) -> (r: Vec<String>)
        requires
            self.wf(),
        ensures
            texts(r@) == self.received(),
            texts(r@).no_duplicates(),
    {
        clone_strings(&self.sent)
    }
}

/// Whether a (canonical) path lies at or under a (canonical) directory, comparing
/// whole components.
pub fn is_path_in_directory(file_path: &str, dir_path: &str) -> (r: bool)
    ensures
        r == crate::paths::has_path_prefix(file_path@, dir_path@),
{
    crate::paths::path_starts_with(file_path, dir_path)
}

/// The number a text writes in decimal: an optional `+`, then at least one ASCII
/// digit, the value fitting in `usize`.
pub open spec fn parsed_count(s: Seq<char>) -> Option<usize> {
    let body = if s.len() > 0 && s[0] == '+' {
        s.drop_first()
    } else {
        s
    };
    if body.len() > 0 && (forall|i: int| 0 <= i < body.len() ==> is_digit(#[trigger] body[i]))
        && digits_value(body) <= usize::MAX {
        Some(digits_value(body) as usize)
    } else {
        None
    }
}

/// Relies on `usize`'s `FromStr`, which reads an optional `+` and decimal digits and
/// fails on anything else or on overflow.
#[verifier::external_body]
fn parse_count(s: &str) -> (r: Option<usize>)
    ensures
        r == parsed_count(s@),
{
    s.parse::<usize>().ok()
}

/// The size of the worker pool to configure: `None` where the search does not ask
/// for one; the configured number where it reads as one; else `cpus`.
pub fn thread_pool_size(options: &SearchOptions, cpus: usize) -> (r: Option<usize>)
    ensures
        !options.custom_thread_pool_use ==> r is None,
        options.custom_thread_pool_use ==> r == Some(
            match parsed_count(options.thread_pool_num@) {
                Some(n) => n,
                None => cpus,
            },
        ),
{
    if !options.custom_thread_pool_use {
        return None;
    }
    match parse_count(options.thread_pool_num.as_str()) {
        Some(n) => Some(n),
        None => Some(cpus),
    }
}

} // verus!

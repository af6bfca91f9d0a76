//! The state of one search and the registry of searches in flight.
use vstd::prelude::*;

verus! {

/// Relies on uuid's `Uuid::new_v4` and its `Display`, which writes the 36-character
/// hyphenated form. The value is random: nothing else is promised.
#[verifier::external_body]
fn fresh_token() -> (r: String)
    ensures
        r@.len() == 36,
{
    uuid::Uuid::new_v4().to_string()
}

/// One search in flight. It starts running; it may be cancelled while it is not
/// completed, and it is marked completed once its results are drained.
#[derive(Debug)]
pub struct SearchProcess {
    is_cancelled: bool,
    is_completed: bool,
    id: String,
}

/// What the caller is told of a search: its token and whether it was cancelled.
#[derive(Debug)]
pub struct SearchProcessInfo {
    pub id: String,
    pub is_cancelled: bool,
}

impl SearchProcessInfo {
    pub fn new(id: String) -> (r: Self)
        ensures
            r.id == id,
            !r.is_cancelled,
    {
        Self { id, is_cancelled: false }
    }
}

impl Clone for SearchProcessInfo {
    fn clone(&self) -> (r: Self)
        ensures
            r == *self,
    {
        SearchProcessInfo { id: self.id.clone(), is_cancelled: self.is_cancelled }
    }
}

impl SearchProcess {
    pub closed spec fn cancelled(&self) -> bool {
        self.is_cancelled
    }

    pub closed spec fn completed(&self) -> bool {
        self.is_completed
    }

    pub closed spec fn token(&self) -> Seq<char> {
        self.id@
    }

    /// The state after a request to stop.
    pub closed spec fn after_cancel(self) -> SearchProcess {
        if self.is_completed {
            self
        } else {
            SearchProcess { is_cancelled: true, ..self }
        }
    }

    /// The state after the results are drained.
    pub closed spec fn after_completion(self) -> SearchProcess {
        SearchProcess { is_completed: true, ..self }
    }

    /// What the two transitions do to the flags and the token.
    pub proof fn lemma_transitions(self)
        ensures
            self.after_cancel().cancelled() == (self.cancelled() || !self.completed()),
            self.after_cancel().completed() == self.completed(),
            self.after_cancel().token() == self.token(),
            self.completed() ==> self.after_cancel() == self,
            self.after_completion().completed(),
            self.after_completion().cancelled() == self.cancelled(),
            self.after_completion().token() == self.token(),
    {
    }

    /// A running search under a fresh random token.
    pub fn new() -> (r: Self)
        ensures
            !r.cancelled(),
            !r.completed(),
            r.token().len() == 36,
    {
        SearchProcess { is_cancelled: false, is_completed: false, id: fresh_token() }
    }

    /// A running search under the given token.
    pub fn with_id(id: String) -> (r: Self)
        ensures
            !r.cancelled(),
            !r.completed(),
            r.token() == id@,
    {
        SearchProcess { is_cancelled: false, is_completed: false, id }
    }

    /// Asks the search to stop; a completed search is left as it is.
    pub fn cancel(&mut self)
        ensures
            *final(self) == old(self).after_cancel(),
            old(self).completed() ==> *final(self) == *old(self),
            !old(self).completed() ==> final(self).cancelled() && !final(self).completed()
                && final(self).token() == old(self).token(),
    {
        if self.is_completed {
            return;
        }
        self.is_cancelled = true;
    }

    pub fn is_completed(&self) -> (r: bool)
        ensures
            r == self.completed(),
    {
        self.is_completed
    }

    /// Records that the search's results have all been drained.
    pub fn mark_as_completed(&mut self)
        ensures
            *final(self) == old(self).after_completion(),
            final(self).completed(),
            final(self).cancelled() == old(self).cancelled(),
            final(self).token() == old(self).token(),
    {
        self.is_completed = true;
    }

    pub fn is_cancelled(&self) -> (r: bool)
        ensures
            r == self.cancelled(),
    {
        self.is_cancelled
    }

    pub fn get_info(&self) -> (r: SearchProcessInfo)
        ensures
            r.id@ == self.token(),
            r.is_cancelled == self.cancelled(),
    {
        SearchProcessInfo { id: self.id.clone(), is_cancelled: self.is_cancelled }
    }
}

impl Clone for SearchProcess {
    fn clone(&self) -> (r: Self)
        ensures
            r == *self,
    {
        SearchProcess {
            is_cancelled: self.is_cancelled,
            is_completed: self.is_completed,
            id: self.id.clone(),
        }
    }
}

/// Cancelling a completed search changes nothing; a search once cancelled stays
/// cancelled through completion; completion never sets the cancelled flag.
pub proof fn lemma_cancel_after_completion_is_no_op(p: SearchProcess)
    ensures
        p.after_completion().after_cancel() == p.after_completion(),
        p.after_cancel().cancelled() ==> p.after_cancel().after_completion().cancelled(),
        p.after_completion().cancelled() == p.cancelled(),
{
}

/// One registered search under its token.
#[derive(Debug)]
pub struct RegistryEntry {
    pub token: String,
    pub process: SearchProcess,
}

/// The searches in flight, by token. Tokens are unique.
#[derive(Debug)]
pub struct AppState {
    search_processes: Vec<RegistryEntry>,
}

/// The first index at or after `i` registered under `id`.
pub open spec fn index_from(es: Seq<RegistryEntry>, id: Seq<char>, i: int) -> Option<int>
    decreases es.len() - i,
{
    if i < 0 || i >= es.len() {
        None
    } else if es[i].token@ == id {
        Some(i)
    } else {
        index_from(es, id, i + 1)
    }
}

proof fn lemma_index_from(es: Seq<RegistryEntry>, id: Seq<char>, i: int)
    requires
        0 <= i,
    ensures
        index_from(es, id, i) matches Some(k) ==> i <= k < es.len() && es[k].token@ == id,
        index_from(es, id, i) is None ==> forall|j: int|
            i <= j < es.len() ==> (#[trigger] es[j]).token@ != id,
    decreases es.len() - i,
{
    if i < es.len() && es[i].token@ != id {
        lemma_index_from(es, id, i + 1);
    }
}

/// Two entry sequences with the same tokens place every token alike.
proof fn lemma_index_from_same_tokens(
    e1: Seq<RegistryEntry>,
    e2: Seq<RegistryEntry>,
    id: Seq<char>,
    i: int,
)
    requires
        e1.len() == e2.len(),
        0 <= i,
        forall|j: int| 0 <= j < e1.len() ==> (#[trigger] e1[j]).token@ == e2[j].token@,
    ensures
        index_from(e1, id, i) == index_from(e2, id, i),
    decreases e1.len() - i,
{
    if i < e1.len() {
        lemma_index_from_same_tokens(e1, e2, id, i + 1);
    }
}

/// Appending an entry under another token places `id` as before.
proof fn lemma_index_from_push(es: Seq<RegistryEntry>, e: RegistryEntry, id: Seq<char>, i: int)
    requires
        0 <= i,
        e.token@ != id,
    ensures
        index_from(es.push(e), id, i) == index_from(es, id, i),
    decreases es.len() - i,
{
    let p = es.push(e);
    if i < es.len() {
        assert(p[i] == es[i]);
        lemma_index_from_push(es, e, id, i + 1);
    } else if i == es.len() {
        assert(p[i] == e);
        assert(index_from(p, id, i + 1) is None);
    }
}

/// Tokens are pairwise distinct.
pub open spec fn unique_tokens(es: Seq<RegistryEntry>) -> bool {
    forall|i: int, j: int|
        0 <= i < j < es.len() ==> (#[trigger] es[i]).token@ != (#[trigger] es[j]).token@
}

/// Where tokens are unique, the entry under `id` is found where it stands.
proof fn lemma_index_unique(es: Seq<RegistryEntry>, id: Seq<char>, n: int)
    requires
        unique_tokens(es),
        0 <= n < es.len(),
        es[n].token@ == id,
    ensures
        index_from(es, id, 0) == Some(n),
{
    assert forall|j: int| 0 <= j < n implies (#[trigger] es[j]).token@ != id by {
        assert(es[j].token@ != es[n].token@);
    }
    lemma_index_from_first(es, id, 0, n);
}

impl AppState {
    pub closed spec fn wf(&self) -> bool {
        unique_tokens(self.search_processes@)
    }

    /// The search registered under `id`, if any.
    pub closed spec fn process_of(&self, id: Seq<char>) -> Option<SearchProcess> {
        match index_from(self.search_processes@, id, 0) {
            Some(i) => Some(self.search_processes@[i].process),
            None => None,
        }
    }

    pub fn new() -> (r: Self)
        ensures
            r.wf(),
            forall|id: Seq<char>| #[trigger] r.process_of(id) is None,
    {
        AppState { search_processes: Vec::new() }
    }

    fn position(&self, id: &str) -> (r: Option<usize>)
        ensures
            r matches Some(i) ==> i < self.search_processes@.len() && index_from(
                self.search_processes@,
                id@,
                0,
            ) == Some(i as int),
            r is None ==> index_from(self.search_processes@, id@, 0) is None,
    {
        let key = String::from_str(id);
        let mut i: usize = 0;
        while i < self.search_processes.len()
            invariant
                i <= self.search_processes@.len(),
                key@ == id@,
                index_from(self.search_processes@, id@, 0) == index_from(
                    self.search_processes@,
                    id@,
                    i as int,
                ),
            decreases self.search_processes@.len() - i,
        {
            if self.search_processes[i].token == key {
                return Some(i);
            }
            i = i + 1;
        }
        None
    }

    /// Registers a search under a token, replacing any search registered under it.
    pub fn add_process(&mut self, process_id: String, process: SearchProcess)
        requires
            old(self).wf(),
        ensures
            final(self).wf(),
            final(self).process_of(process_id@) == Some(process),
            forall|id: Seq<char>|
                id != process_id@ ==> #[trigger] final(self).process_of(id) == old(self).process_of(
                    id,
                ),
    {
        let ghost old_es = self.search_processes@;
        let ghost key = process_id@;
        match self.position(process_id.as_str()) {
            Some(i) => {
                proof {
                    lemma_index_from(old_es, key, 0);
                }
                let token = self.search_processes[i].token.clone();
                self.search_processes.set(i, RegistryEntry { token, process });
                proof {
                    lemma_index_from_same_tokens(self.search_processes@, old_es, key, 0);
                    assert forall|id: Seq<char>| id != key implies #[trigger] self.process_of(id)
                        == old(self).process_of(id) by {
                        lemma_index_from_same_tokens(self.search_processes@, old_es, id, 0);
                        lemma_index_from(old_es, id, 0);
                    }
                }
            },
            None => {
                proof {
                    lemma_index_from(old_es, key, 0);
                }
                let entry = RegistryEntry { token: process_id, process };
                self.search_processes.push(entry);
                proof {
                    let es = self.search_processes@;
                    assert(es == old_es.push(entry));
                    assert forall|j: int| 0 <= j < old_es.len() implies (#[trigger] es[j]).token@
                        != key by {
                        assert(es[j] == old_es[j]);
                    }
                    lemma_index_from_first(es, key, 0, old_es.len() as int);
                    assert forall|id: Seq<char>| id != key implies #[trigger] self.process_of(id)
                        == old(self).process_of(id) by {
                        lemma_index_from_push(old_es, entry, id, 0);
                        lemma_index_from(old_es, id, 0);
                    }
                }
            },
        }
    }

    /// A copy of the search registered under `process_id`, if any.
    pub fn get_process(&self, process_id: &str) -> (r: Option<SearchProcess>)
        ensures
            r == self.process_of(process_id@),
    {
        match self.position(process_id) {
            Some(i) => Some(self.search_processes[i].process.clone()),
            None => None,
        }
    }

    /// Forgets the search registered under `process_id`, if any.
    pub fn remove_process(&mut self, process_id: &str)
        requires
            old(self).wf(),
        ensures
            final(self).wf(),
            final(self).process_of(process_id@) is None,
            forall|id: Seq<char>|
                id != process_id@ ==> #[trigger] final(self).process_of(id) == old(self).process_of(
                    id,
                ),
    {
        let ghost old_es = self.search_processes@;
        let ghost key = process_id@;
        match self.position(process_id) {
            Some(i) => {
                proof {
                    lemma_index_from(old_es, key, 0);
                }
                self.search_processes.remove(i);
                proof {
                    let es = self.search_processes@;
                    assert(es == old_es.remove(i as int));
                    assert forall|j: int| 0 <= j < es.len() implies (#[trigger] es[j]).token@
                        != key by {
                        if j < i {
                            assert(es[j] == old_es[j]);
                        } else {
                            assert(es[j] == old_es[j + 1]);
                        }
                    }
                    assert(unique_tokens(es)) by {
                        assert forall|a: int, b: int| 0 <= a < b < es.len() implies (
                        #[trigger] es[a]).token@ != (#[trigger] es[b]).token@ by {
                            let a0 = if a < i { a } else { a + 1 };
                            let b0 = if b < i { b } else { b + 1 };
                            assert(es[a] == old_es[a0]);
                            assert(es[b] == old_es[b0]);
                            assert(old_es[a0].token@ != old_es[b0].token@);
                        }
                    }
                    lemma_index_from_none(es, key);
                    assert forall|id: Seq<char>| id != key implies #[trigger] self.process_of(id)
                        == old(self).process_of(id) by {
                        lemma_index_from(old_es, id, 0);
                        match index_from(old_es, id, 0) {
                            Some(j) => {
                                let j2 = if j < i { j } else { j - 1 };
                                assert(j != i);
                                assert(es[j2] == old_es[j]);
                                lemma_index_unique(es, id, j2);
                            },
                            None => {
                                assert forall|j: int| 0 <= j < es.len() implies (
                                #[trigger] es[j]).token@ != id by {
                                    if j < i {
                                        assert(es[j] == old_es[j]);
                                    } else {
                                        assert(es[j] == old_es[j + 1]);
                                    }
                                }
                                lemma_index_from_none(es, id);
                            },
                        }
                    }
                }
            },
            None => {},
        }
    }

    /// Whether the search registered under `process_id` was asked to stop; an
    /// unknown token reads as not cancelled.
    pub fn is_cancelled(&self, process_id: &str) -> (r: bool)
        ensures
            r == (self.process_of(process_id@) matches Some(p) && p.cancelled()),
    {
        match self.position(process_id) {
            Some(i) => self.search_processes[i].process.is_cancelled(),
            None => false,
        }
    }

    /// Marks the search registered under `process_id` completed and returns what
    /// the caller is told of it; `None` for an unknown token.
    pub fn complete_process(&mut self, process_id: &str) -> (r: Option<SearchProcessInfo>)
        requires
            old(self).wf(),
        ensures
            final(self).wf(),
            old(self).process_of(process_id@) is None ==> r is None && *final(self) == *old(self),
            old(self).process_of(process_id@) matches Some(p) ==> ({
                &&& final(self).process_of(process_id@) matches Some(q)
                &&& q.completed() && q.cancelled() == p.cancelled() && q.token() == p.token()
                &&& r matches Some(info) && info.id@ == p.token() && info.is_cancelled
                    == p.cancelled()
            }),
            forall|id: Seq<char>|
                id != process_id@ ==> #[trigger] final(self).process_of(id) == old(self).process_of(
                    id,
                ),
    {
        match self.get_process(process_id) {
            Some(p) => {
                let mut q = p;
                q.mark_as_completed();
                let info = q.get_info();
                self.add_process(String::from_str(process_id), q);
                Some(info)
            },
            None => None,
        }
    }
}

/// The first entry under `id` at or after `i` is the one at `n`.
proof fn lemma_index_from_first(es: Seq<RegistryEntry>, id: Seq<char>, i: int, n: int)
    requires
        0 <= i <= n < es.len(),
        es[n].token@ == id,
        forall|j: int| i <= j < n ==> (#[trigger] es[j]).token@ != id,
    ensures
        index_from(es, id, i) == Some(n),
    decreases n - i,
{
    if i < n {
        lemma_index_from_first(es, id, i + 1, n);
    }
}

/// With no entry under `id`, `id` is not placed.
proof fn lemma_index_from_none(es: Seq<RegistryEntry>, id: Seq<char>)
    requires
        forall|j: int| 0 <= j < es.len() ==> (#[trigger] es[j]).token@ != id,
    ensures
        index_from(es, id, 0) is None,
{
    lemma_index_from_none_from(es, id, 0);
}

proof fn lemma_index_from_none_from(es: Seq<RegistryEntry>, id: Seq<char>, i: int)
    requires
        0 <= i,
        forall|j: int| 0 <= j < es.len() ==> (#[trigger] es[j]).token@ != id,
    ensures
        index_from(es, id, i) is None,
    decreases es.len() - i,
{
    if i < es.len() {
        lemma_index_from_none_from(es, id, i + 1);
    }
}

/// Asks the search registered under `process_id` to stop. An unknown token (a
/// search never started or already finished) is an error.
pub fn cancel_search(process_id: String, state: &mut AppState) -> (r: Result<(), String>)
    requires
        old(state).wf(),
    ensures
        final(state).wf(),
        old(state).process_of(process_id@) is None ==> r is Err && *final(state) == *old(state),
        old(state).process_of(process_id@) matches Some(p) ==> ({
            &&& r is Ok
            &&& final(state).process_of(process_id@) matches Some(q)
            &&& p.completed() ==> q == p
            &&& !p.completed() ==> q.cancelled() && !q.completed() && q.token() == p.token()
        }),
        forall|id: Seq<char>|
            id != process_id@ ==> #[trigger] final(state).process_of(id) == old(state).process_of(
                id,
            ),
{
    match state.get_process(process_id.as_str()) {
        Some(p) => {
            let mut q = p;
            q.cancel();
            state.add_process(process_id, q);
            Ok(())
        },
        None => Err(String::from_str("Process not found")),
    }
}

} // verus!

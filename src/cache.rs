//! The bounded cache of earlier search results, keyed by keyword and options.
use vstd::prelude::*;
use crate::options::SearchOptions;

verus! {

/// The number of entries the cache keeps.
pub const CACHE_SIZE_LIMIT: usize = 50;

/// One cached search: its keyword, its options, the paths it found and how many
/// times it was run.
#[derive(Debug)]
pub struct CacheEntry {
    pub name: String,
    pub result: Vec<String>,
    pub hit: u32,
    pub search_options: SearchOptions,
}

/// The mathematical content of a cache entry.
pub struct CacheRecord {
    pub name: Seq<char>,
    pub result: Seq<Seq<char>>,
    pub hit: u32,
    pub options: SearchOptions,
}

/// The views of a sequence of strings.
pub open spec fn texts(v: Seq<String>) -> Seq<Seq<char>> {
    v.map_values(|s: String| s@)
}

impl View for CacheEntry {
    type V = CacheRecord;

    open spec fn view(&self) -> CacheRecord {
        CacheRecord {
            name: self.name@,
            result: texts(self.result@),
            hit: self.hit,
            options: self.search_options,
        }
    }
}

/// The records of a cache, in order.
pub open spec fn records(c: Seq<CacheEntry>) -> Seq<CacheRecord> {
    c.map_values(|e: CacheEntry| e@)
}

/// A record is the one for this keyword and these options.
pub open spec fn record_matches(r: CacheRecord, kw: Seq<char>, o: SearchOptions) -> bool {
    r.name == kw && r.options.same_as(&o)
}

/// The first index at or after `i` whose record matches.
pub open spec fn find_from(rs: Seq<CacheRecord>, kw: Seq<char>, o: SearchOptions, i: int) -> Option<
    int,
>
    decreases rs.len() - i,
{
    if i < 0 || i >= rs.len() {
        None
    } else if record_matches(rs[i], kw, o) {
        Some(i)
    } else {
        find_from(rs, kw, o, i + 1)
    }
}

/// The index of the first record for this keyword and these options.
pub open spec fn lookup(rs: Seq<CacheRecord>, kw: Seq<char>, o: SearchOptions) -> Option<int> {
    find_from(rs, kw, o, 0)
}

/// The index of the first record of least hit count among the first `n`.
pub open spec fn first_min(rs: Seq<CacheRecord>, n: int) -> int
    decreases n,
{
    if n <= 1 {
        0
    } else {
        let k = first_min(rs, n - 1);
        if rs[n - 1].hit < rs[k].hit {
            n - 1
        } else {
            k
        }
    }
}

/// What `find_from` answers: the first matching index from `i` on.
pub proof fn lemma_find_from(rs: Seq<CacheRecord>, kw: Seq<char>, o: SearchOptions, i: int)
    requires
        0 <= i,
    ensures
        find_from(rs, kw, o, i) matches Some(k) ==> i <= k < rs.len() && record_matches(
            rs[k],
            kw,
            o,
        ) && forall|j: int| i <= j < k ==> !record_matches(#[trigger] rs[j], kw, o),
        find_from(rs, kw, o, i) is None ==> forall|j: int|
            i <= j < rs.len() ==> !record_matches(#[trigger] rs[j], kw, o),
    decreases rs.len() - i,
{
    if i < rs.len() && !record_matches(rs[i], kw, o) {
        lemma_find_from(rs, kw, o, i + 1);
    }
}

/// `first_min` picks a record of least hit count among the first `n`, and the
/// first such record.
pub proof fn lemma_first_min(rs: Seq<CacheRecord>, n: int)
    requires
        1 <= n <= rs.len(),
    ensures
        0 <= first_min(rs, n) < n,
        forall|j: int| 0 <= j < n ==> rs[first_min(rs, n)].hit <= #[trigger] rs[j].hit,
        forall|j: int| 0 <= j < first_min(rs, n) ==> #[trigger] rs[j].hit > rs[first_min(
            rs,
            n,
        )].hit,
    decreases n,
{
    if n > 1 {
        lemma_first_min(rs, n - 1);
    }
}

/// A hit count after one more search; it stops at the largest `u32`.
pub open spec fn bumped(hit: u32) -> u32 {
    if hit < u32::MAX {
        (hit + 1) as u32
    } else {
        hit
    }
}

/// The records after storing a search, before the size limit is applied.
pub open spec fn staged(
    rs: Seq<CacheRecord>,
    kw: Seq<char>,
    o: SearchOptions,
    res: Seq<Seq<char>>,
) -> Seq<CacheRecord> {
    match lookup(rs, kw, o) {
        Some(i) => rs.update(i, CacheRecord { result: res, hit: bumped(rs[i].hit), ..rs[i] }),
        None => rs.push(CacheRecord { name: kw, result: res, hit: 1, options: o }),
    }
}

/// The records after storing a search: where the cache then holds more than its
/// limit, the first record of least hit count leaves.
pub open spec fn updated(
    rs: Seq<CacheRecord>,
    kw: Seq<char>,
    o: SearchOptions,
    res: Seq<Seq<char>>,
) -> Seq<CacheRecord> {
    let s = staged(rs, kw, o, res);
    if s.len() > CACHE_SIZE_LIMIT {
        s.remove(first_min(s, s.len() as int))
    } else {
        s
    }
}

/// Two record sequences whose records match their keys at the same places give
/// the same answer to `find_from`.
proof fn lemma_find_from_same(
    rs1: Seq<CacheRecord>,
    rs2: Seq<CacheRecord>,
    kw: Seq<char>,
    o1: SearchOptions,
    o2: SearchOptions,
    i: int,
)
    requires
        rs1.len() == rs2.len(),
        0 <= i,
        forall|j: int|
            0 <= j < rs1.len() ==> (record_matches(#[trigger] rs1[j], kw, o1) <==> record_matches(
                rs2[j],
                kw,
                o2,
            )),
    ensures
        find_from(rs1, kw, o1, i) == find_from(rs2, kw, o2, i),
    decreases rs1.len() - i,
{
    if i < rs1.len() {
        lemma_find_from_same(rs1, rs2, kw, o1, o2, i + 1);
    }
}

/// Running again a search whose entry is cached, with equal options, gives that
/// entry one more hit and adds no entry: the same records match the key before
/// and after.
pub proof fn lemma_repeat_search_counts_hit(
    rs: Seq<CacheRecord>,
    kw: Seq<char>,
    o1: SearchOptions,
    o2: SearchOptions,
    res: Seq<Seq<char>>,
)
    requires
        lookup(rs, kw, o1) is Some,
        o1.same_as(&o2),
        rs.len() <= CACHE_SIZE_LIMIT,
        rs[lookup(rs, kw, o1)->0].hit < u32::MAX,
    ensures
        ({
            let i = lookup(rs, kw, o1)->0;
            let u = updated(rs, kw, o2, res);
            &&& u.len() == rs.len()
            &&& lookup(u, kw, o2) == Some(i)
            &&& u[i].hit == rs[i].hit + 1
            &&& u[i].result == res
            &&& forall|j: int|
                0 <= j < u.len() ==> (record_matches(#[trigger] u[j], kw, o1) <==> record_matches(
                    rs[j],
                    kw,
                    o1,
                ))
        }),
{
    let i = lookup(rs, kw, o1)->0;
    lemma_find_from(rs, kw, o1, 0);
    lemma_find_from_same(rs, rs, kw, o1, o2, 0);
    let u = updated(rs, kw, o2, res);
    assert(u == rs.update(i, CacheRecord { result: res, hit: bumped(rs[i].hit), ..rs[i] }));
    lemma_find_from_same(u, rs, kw, o2, o2, 0);
}

/// The first matching index of a sequence whose earlier records do not match.
proof fn lemma_find_from_first(rs: Seq<CacheRecord>, kw: Seq<char>, o: SearchOptions, i: int, n: int)
    requires
        0 <= i <= n < rs.len(),
        record_matches(rs[n], kw, o),
        forall|j: int| i <= j < n ==> !record_matches(#[trigger] rs[j], kw, o),
    ensures
        find_from(rs, kw, o, i) == Some(n),
    decreases n - i,
{
    if i < n {
        lemma_find_from_first(rs, kw, o, i + 1, n);
    }
}

/// A search stored in a cache that is not full, or that already holds its key,
/// leaves an entry for its key, and the cache within its limit.
pub proof fn lemma_stored_search_stays(
    rs: Seq<CacheRecord>,
    kw: Seq<char>,
    o: SearchOptions,
    res: Seq<Seq<char>>,
)
    requires
        rs.len() <= CACHE_SIZE_LIMIT,
        rs.len() < CACHE_SIZE_LIMIT || lookup(rs, kw, o) is Some,
    ensures
        lookup(updated(rs, kw, o, res), kw, o) is Some,
        updated(rs, kw, o, res).len() <= CACHE_SIZE_LIMIT,
{
    lemma_find_from(rs, kw, o, 0);
    let u = updated(rs, kw, o, res);
    match lookup(rs, kw, o) {
        Some(i) => {
            assert(u == rs.update(i, CacheRecord { result: res, hit: bumped(rs[i].hit), ..rs[i] }));
            lemma_find_from_same(u, rs, kw, o, o, 0);
        },
        None => {
            let rec = CacheRecord { name: kw, result: res, hit: 1, options: o };
            assert(u == rs.push(rec));
            assert forall|j: int| 0 <= j < rs.len() implies !record_matches(#[trigger] u[j], kw, o) by {
                assert(u[j] == rs[j]);
            }
            lemma_find_from_first(u, kw, o, 0, rs.len() as int);
        },
    }
}

/// Two searches with the same keyword and equal options, the first stored in a
/// cache that is not full or already holds the key: the second finds the entry the
/// first left, gives it one more hit and adds no entry.
pub proof fn lemma_second_search_counts_hit(
    rs: Seq<CacheRecord>,
    kw: Seq<char>,
    o1: SearchOptions,
    o2: SearchOptions,
    res1: Seq<Seq<char>>,
    res2: Seq<Seq<char>>,
)
    requires
        o1.same_as(&o2),
        rs.len() <= CACHE_SIZE_LIMIT,
        rs.len() < CACHE_SIZE_LIMIT || lookup(rs, kw, o1) is Some,
        ({
            let u1 = updated(rs, kw, o1, res1);
            lookup(u1, kw, o1) is Some ==> u1[lookup(u1, kw, o1)->0].hit < u32::MAX
        }),
    ensures
        ({
            let u1 = updated(rs, kw, o1, res1);
            let u2 = updated(u1, kw, o2, res2);
            let i = lookup(u1, kw, o1)->0;
            &&& lookup(u1, kw, o1) is Some
            &&& u2.len() == u1.len()
            &&& lookup(u2, kw, o2) == Some(i)
            &&& u2[i].hit == u1[i].hit + 1
            &&& forall|j: int|
                0 <= j < u2.len() ==> (record_matches(#[trigger] u2[j], kw, o1) <==> record_matches(
                    u1[j],
                    kw,
                    o1,
                ))
        }),
{
    lemma_stored_search_stays(rs, kw, o1, res1);
    let u1 = updated(rs, kw, o1, res1);
    lemma_repeat_search_counts_hit(u1, kw, o1, o2, res2);
}

/// Storing a search for a key not yet cached in a full cache leaves it full: of
/// the records present after the insertion exactly one leaves, one of globally
/// least hit count.
pub proof fn lemma_full_cache_evicts_least_hit(
    rs: Seq<CacheRecord>,
    kw: Seq<char>,
    o: SearchOptions,
    res: Seq<Seq<char>>,
)
    requires
        rs.len() == CACHE_SIZE_LIMIT,
        lookup(rs, kw, o) is None,
    ensures
        ({
            let s = rs.push(CacheRecord { name: kw, result: res, hit: 1, options: o });
            let u = updated(rs, kw, o, res);
            &&& u.len() == CACHE_SIZE_LIMIT
            &&& exists|k: int|
                0 <= k < s.len() && u == s.remove(k) && forall|j: int|
                    0 <= j < s.len() ==> s[k].hit <= #[trigger] s[j].hit
        }),
{
    let s = rs.push(CacheRecord { name: kw, result: res, hit: 1, options: o });
    lemma_first_min(s, s.len() as int);
    let k = first_min(s, s.len() as int);
    assert(updated(rs, kw, o, res) == s.remove(k));
}

/// A copy of a list of strings.
pub fn clone_strings(v: &Vec<String>) -> (r: Vec<String>)
    ensures
        r@ == v@,
{
    let mut r: Vec<String> = Vec::new();
    let mut i: usize = 0;
    while i < v.len()
        invariant
            i <= v@.len(),
            r@ == v@.subrange(0, i as int),
        decreases v@.len() - i,
    {
        r.push(v[i].clone());
        assert(r@ =~= v@.subrange(0, i + 1));
        i = i + 1;
    }
    assert(v@.subrange(0, v@.len() as int) =~= v@);
    r
}

/// The index of the first entry for this keyword and these options.
fn position(cache: &Vec<CacheEntry>, keyword: &str, options: &SearchOptions) -> (r: Option<usize>)
    ensures
        r matches Some(i) ==> i < cache@.len() && lookup(records(cache@), keyword@, *options)
            == Some(i as int),
        r is None ==> lookup(records(cache@), keyword@, *options) is None,
{
    let ghost rs = records(cache@);
    let key = String::from_str(keyword);
    let mut i: usize = 0;
    while i < cache.len()
        invariant
            i <= cache@.len(),
            rs == records(cache@),
            key@ == keyword@,
            lookup(rs, keyword@, *options) == find_from(rs, keyword@, *options, i as int),
        decreases cache@.len() - i,
    {
        if cache[i].name == key && cache[i].search_options == *options {
            return Some(i);
        }
        i = i + 1;
    }
    None
}

/// The paths cached for this keyword and these options, if any.
pub fn find_in_cache(cache: &Vec<CacheEntry>, keyword: &str, options: &SearchOptions) -> (r: Option<
    Vec<String>,
>)
    ensures
        r is None <==> lookup(records(cache@), keyword@, *options) is None,
        r matches Some(v) ==> exists|i: int|
            lookup(records(cache@), keyword@, *options) == Some(i) && #[trigger] texts(v@)
                == texts(cache@[i].result@),
{
    match position(cache, keyword, options) {
        Some(i) => {
            let v = clone_strings(&cache[i].result);
            Some(v)
        },
        None => None,
    }
}

/// The index of the first entry of least hit count.
fn first_min_position(cache: &Vec<CacheEntry>) -> (r: usize)
    requires
        cache@.len() > 0,
    ensures
        r == first_min(records(cache@), cache@.len() as int),
        r < cache@.len(),
{
    let ghost rs = records(cache@);
    let mut k: usize = 0;
    let mut i: usize = 1;
    while i < cache.len()
        invariant
            1 <= i <= cache@.len(),
            rs == records(cache@),
            k == first_min(rs, i as int),
            k < i,
            rs.len() == cache@.len(),
        decreases cache@.len() - i,
    {
        if cache[i].hit < cache[k].hit {
            k = i;
        }
        i = i + 1;
    }
    k
}

/// Stores the paths a search found: an entry for the same keyword and options gets
/// the new paths and one more hit; otherwise a new entry with one hit is added.
/// Where the cache then holds more than its limit, the first entry of least hit
/// count leaves.
pub fn update_cache(
    cache: &mut Vec<CacheEntry>,
    keyword: &str,
    new_results: Vec<String>,
    options: &SearchOptions,
)
    ensures
        records(final(cache)@) == updated(
            records(old(cache)@),
            keyword@,
            *options,
            texts(new_results@),
        ),
{
    let ghost rs = records(cache@);
    let ghost res = texts(new_results@);
    match position(cache, keyword, options) {
        Some(i) => {
            let old_hit = cache[i].hit;
            let hit = if old_hit < u32::MAX {
                old_hit + 1
            } else {
                old_hit
            };
            let entry = CacheEntry {
                name: cache[i].name.clone(),
                result: new_results,
                hit,
                search_options: cache[i].search_options.clone(),
            };
            cache.set(i, entry);
            assert(records(cache@) =~= staged(rs, keyword@, *options, res));
        },
        None => {
            let entry = CacheEntry {
                name: String::from_str(keyword),
                result: new_results,
                hit: 1,
                search_options: options.clone(),
            };
            cache.push(entry);
            assert(records(cache@) =~= staged(rs, keyword@, *options, res));
        },
    }
    if cache.len() > CACHE_SIZE_LIMIT {
        let k = first_min_position(cache);
        let ghost before = cache@;
        cache.remove(k);
        assert(records(cache@) =~= records(before).remove(k as int));
        assert(records(before).len() == before.len());
    }
}

} // verus!

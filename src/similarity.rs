//! Character-set similarity (Jaccard over the sets of characters) and edit distance.
use vstd::prelude::*;
use crate::options::Threshold;
use crate::text::chars_of;

verus! {

/// The number of characters that occur in both strings.
pub open spec fn shared_count(a: Seq<char>, b: Seq<char>) -> nat {
    a.to_set().intersect(b.to_set()).len()
}

/// The number of characters that occur in either string.
pub open spec fn union_count(a: Seq<char>, b: Seq<char>) -> nat {
    (a.to_set() + b.to_set()).len()
}

/// The similarity `shared / union` of the character sets reaches the threshold;
/// two empty strings have similarity zero.
pub open spec fn similar_enough(a: Seq<char>, b: Seq<char>, t: Threshold) -> bool {
    if union_count(a, b) == 0 {
        t.num == 0
    } else {
        shared_count(a, b) * t.den >= t.num * union_count(a, b)
    }
}

/// The similarity of two character sets, as the fraction `shared / union`.
#[derive(Debug)]
pub struct Similarity {
    pub shared: usize,
    pub combined: usize,
}

/// Appends to `r` the characters of `s` that it does not hold yet.
fn extend_distinct(r: &mut Vec<char>, s: &Vec<char>)
    requires
        old(r)@.no_duplicates(),
    ensures
        final(r)@.no_duplicates(),
        final(r)@.to_set() == old(r)@.to_set() + s@.to_set(),
{
    let ghost start = r@;
    let mut i: usize = 0;
    assert(s@.subrange(0, 0).to_set() =~= Set::<char>::empty());
    assert(start.to_set() + Set::<char>::empty() =~= start.to_set());
    while i < s.len()
        invariant
            i <= s@.len(),
            r@.no_duplicates(),
            r@.to_set() == start.to_set() + s@.subrange(0, i as int).to_set(),
        decreases s@.len() - i,
    {
        let c = s[i];
        let mut found = false;
        let mut j: usize = 0;
        while j < r.len()
            invariant
                j <= r@.len(),
                found == (exists|k: int| 0 <= k < j && r@[k] == c),
            decreases r@.len() - j,
        {
            if r[j] == c {
                found = true;
            }
            j = j + 1;
        }
        assert(s@.subrange(0, i + 1) =~= s@.subrange(0, i as int).push(c));
        proof { s@.subrange(0, i as int).lemma_push_to_set_commute(c); }
        if !found {
            assert(!r@.contains(c));
            let ghost old_r = r@;
            r.push(c);
            proof { old_r.lemma_push_to_set_commute(c); }
            assert(r@.to_set() =~= start.to_set() + s@.subrange(0, i + 1).to_set());
        } else {
            assert(r@.contains(c));
            assert(r@.to_set() =~= start.to_set() + s@.subrange(0, i + 1).to_set());
        }
        i = i + 1;
    }
    assert(s@.subrange(0, s@.len() as int) =~= s@);
}

/// The characters of `s`, each once, in order of first occurrence.
fn distinct_chars(s: &Vec<char>) -> (r: Vec<char>)
    ensures
        r@.no_duplicates(),
        r@.to_set() == s@.to_set(),
{
    let mut r: Vec<char> = Vec::new();
    assert(r@.to_set() =~= Set::<char>::empty());
    extend_distinct(&mut r, s);
    assert(r@.to_set() =~= s@.to_set());
    r
}

/// The characters of `a` that occur in `b` (both without repeats).
fn shared_chars(a: &Vec<char>, b: &Vec<char>) -> (r: Vec<char>)
    requires
        a@.no_duplicates(),
    ensures
        r@.no_duplicates(),
        r@.to_set() == a@.to_set().intersect(b@.to_set()),
{
    let mut r: Vec<char> = Vec::new();
    let mut i: usize = 0;
    while i < a.len()
        invariant
            i <= a@.len(),
            a@.no_duplicates(),
            r@.no_duplicates(),
            forall|x: char| r@.contains(x) ==> a@.subrange(0, i as int).contains(x),
            r@.to_set() == a@.subrange(0, i as int).to_set().intersect(b@.to_set()),
        decreases a@.len() - i,
    {
        let c = a[i];
        let mut found = false;
        let mut j: usize = 0;
        while j < b.len()
            invariant
                j <= b@.len(),
                found == (exists|k: int| 0 <= k < j && b@[k] == c),
            decreases b@.len() - j,
        {
            if b[j] == c {
                found = true;
            }
            j = j + 1;
        }
        assert(a@.subrange(0, i + 1) =~= a@.subrange(0, i as int).push(c));
        proof { a@.subrange(0, i as int).lemma_push_to_set_commute(c); }
        assert(!a@.subrange(0, i as int).contains(c)) by {
            if a@.subrange(0, i as int).contains(c) {
                let k = choose|k: int| 0 <= k < i && a@.subrange(0, i as int)[k] == c;
                assert(a@[k] == a@[i as int]);
            }
        }
        let ghost old_r = r@;
        if found {
            assert(b@.contains(c));
            assert(!old_r.contains(c));
            r.push(c);
            proof { old_r.lemma_push_to_set_commute(c); }
            assert(r@.to_set() =~= a@.subrange(0, i + 1).to_set().intersect(b@.to_set()));
        } else {
            assert(!b@.to_set().contains(c));
            assert(r@.to_set() =~= a@.subrange(0, i + 1).to_set().intersect(b@.to_set()));
        }
        assert forall|x: char| r@.contains(x) implies a@.subrange(0, i + 1).contains(x) by {
            if x != c {
                assert(old_r.contains(x)) by {
                    let k = choose|k: int| 0 <= k < r@.len() && r@[k] == x;
                    if found {
                        assert(r@ == old_r.push(c));
                        assert(k < old_r.len());
                        assert(old_r[k] == x);
                    } else {
                        assert(old_r[k] == x);
                    }
                }
                assert(a@.subrange(0, i as int).contains(x));
                let k = choose|k: int| 0 <= k < i && a@.subrange(0, i as int)[k] == x;
                assert(a@.subrange(0, i + 1)[k] == x);
            } else {
                assert(a@.subrange(0, i + 1)[i as int] == x);
            }
        }
        i = i + 1;
    }
    assert(a@.subrange(0, a@.len() as int) =~= a@);
    r
}

/// The Jaccard similarity of the sets of characters of two strings.
pub fn jaccard_similarity(a: &str, b: &str) -> (r: Similarity)
    ensures
        r.shared == shared_count(a@, b@),
        r.combined == union_count(a@, b@),
{
    let ca = chars_of(a);
    let cb = chars_of(b);
    let da = distinct_chars(&ca);
    let db = distinct_chars(&cb);
    let both = shared_chars(&da, &db);
    let mut all = distinct_chars(&ca);
    extend_distinct(&mut all, &db);
    proof {
        broadcast use vstd::seq_lib::seq_to_set_is_finite;
        da@.unique_seq_to_set();
        db@.unique_seq_to_set();
        both@.unique_seq_to_set();
        all@.unique_seq_to_set();
    }
    let combined = all.len();
    Similarity { shared: both.len(), combined }
}

/// Whether the character-set similarity of two strings reaches the threshold.
pub fn is_similar_enough(a: &str, b: &str, t: &Threshold) -> (r: bool)
    ensures
        r == similar_enough(a@, b@, *t),
{
    let s = jaccard_similarity(a, b);
    if s.combined == 0 {
        t.num == 0
    } else {
        let x: u128 = s.shared as u128;
        let y: u128 = s.combined as u128;
        proof {
            lemma_wide_product(x, t.den as u128);
            lemma_wide_product(t.num as u128, y);
        }
        x * (t.den as u128) >= (t.num as u128) * y
    }
}

/// What strsim's `damerau_levenshtein` gives for two strings.
pub uninterp spec fn dl_distance(a: Seq<char>, b: Seq<char>) -> usize;

/// Relies on strsim's `damerau_levenshtein`: the unrestricted Damerau-Levenshtein
/// distance, which depends on the two strings alone.
#[verifier::external_body]
pub fn edit_distance(a: &str, b: &str) -> (r: usize)
    ensures
        r == dl_distance(a@, b@),
{
    strsim::damerau_levenshtein(a, b)
}

/// An edit distance is within the threshold: `d <= num / den`.
pub open spec fn within_distance(d: usize, t: Threshold) -> bool {
    d * t.den <= t.num
}

/// Whether a distance is within the threshold.
pub fn is_within_distance(d: usize, t: &Threshold) -> (r: bool)
    ensures
        r == within_distance(d, *t),
{
    proof {
        lemma_wide_product(d as u128, t.den as u128);
    }
    (d as u128) * (t.den as u128) <= t.num as u128
}

/// A product of two 64-bit quantities fits in 128 bits.
proof fn lemma_wide_product(x: u128, y: u128)
    requires
        x <= u64::MAX,
        y <= u64::MAX,
    ensures
        x * y <= u128::MAX,
{
    assert(x * y <= (u64::MAX as int) * (u64::MAX as int)) by (nonlinear_arith)
        requires
            x <= u64::MAX,
            y <= u64::MAX,
    ;
}

} // verus!

//! Names for pasted copies (`a_copy.txt`, `a_copy(2).txt`, ...) and the check that
//! a folder is not pasted into itself.
use vstd::prelude::*;
use vstd::set_lib::{lemma_int_range, lemma_len_subset, lemma_map_size, set_int_range};
use crate::naming::{decimal_chars, ItemInfo};
use crate::paths::{
    extension_of, file_name_of, has_path_prefix, joined, parent_of, path_eq, path_extension,
    path_file_name, path_join, path_parent, path_starts_with, path_stem, path_with_file_name,
    same_path, stem_of, with_file_name_of,
};
use crate::text::{chars_of, decimal, digit_char, string_of};

verus! {

/// Whether `destination` lies inside `source` without being `source` itself
/// (rebuilt from its parent and file name); `None` where `source` has no parent or
/// no file name.
pub open spec fn nested(source: Seq<char>, destination: Seq<char>) -> Option<bool> {
    match (parent_of(source), file_name_of(source)) {
        (Some(p), Some(n)) => Some(has_path_prefix(destination, source) && !same_path(
            destination,
            joined(p, n),
        )),
        _ => None,
    }
}

/// Whether pasting `source` at `destination` would put it inside itself.
pub fn is_nested_path(source: &str, destination: &str) -> (r: Option<bool>)
    ensures
        r == nested(source@, destination@),
{
    let parent = match path_parent(source) {
        Some(p) => p,
        None => {
            return None;
        },
    };
    let name = match path_file_name(source) {
        Some(n) => n,
        None => {
            return None;
        },
    };
    let own = path_join(parent.as_str(), name.as_str());
    Some(path_starts_with(destination, source) && !path_eq(destination, own.as_str()))
}

pub open spec fn copy_word() -> Seq<char> {
    seq!['_', 'c', 'o', 'p', 'y']
}

/// The part added to the stem by the `k`-th attempt: `_copy`, then `_copy(2)`,
/// `_copy(3)`, ...
pub open spec fn copy_suffix(k: nat) -> Seq<char> {
    if k <= 1 {
        copy_word()
    } else {
        copy_word() + seq!['('] + decimal(k) + seq![')']
    }
}

/// The `k`-th candidate name for a copy of a file with this stem and extension.
pub open spec fn copy_candidate(stem: Seq<char>, ext: Seq<char>, k: nat) -> Seq<char> {
    stem + copy_suffix(k) + if ext.len() > 0 {
        seq!['.'] + ext
    } else {
        Seq::empty()
    }
}

/// An item of the same kind already has this name.
pub open spec fn name_taken(items: Seq<ItemInfo>, name: Seq<char>, is_folder: bool) -> bool {
    exists|i: int|
        0 <= i < items.len() && (#[trigger] items[i]).name@ == name && items[i].is_folder
            == is_folder
}

/// The extension text used in copy names: none where the path has none.
pub open spec fn ext_text(p: Seq<char>) -> Seq<char> {
    match extension_of(p) {
        Some(e) => e,
        None => Seq::empty(),
    }
}

proof fn lemma_digit_char_code(d: nat)
    requires
        d < 10,
    ensures
        digit_char(d) as u32 == 48 + d,
{
    if d == 0 {
    } else if d == 1 {
    } else if d == 2 {
    } else if d == 3 {
    } else if d == 4 {
    } else if d == 5 {
    } else if d == 6 {
    } else if d == 7 {
    } else if d == 8 {
    } else {
    }
}

proof fn lemma_decimal_len(n: nat)
    ensures
        decimal(n).len() >= 1,
        n >= 10 ==> decimal(n).len() >= 2,
    decreases n,
{
    if n >= 10 {
        lemma_decimal_len(n / 10);
    }
}

/// Distinct numbers have distinct decimal notations.
proof fn lemma_decimal_injective(a: nat, b: nat)
    requires
        decimal(a) == decimal(b),
    ensures
        a == b,
    decreases a,
{
    lemma_decimal_len(a);
    lemma_decimal_len(b);
    if a < 10 && b < 10 {
        assert(decimal(a)[0] == digit_char(a));
        assert(decimal(b)[0] == digit_char(b));
        lemma_digit_char_code(a);
        lemma_digit_char_code(b);
    } else if a >= 10 && b >= 10 {
        assert(decimal(a).drop_last() == decimal(a / 10));
        assert(decimal(b).drop_last() == decimal(b / 10));
        lemma_decimal_injective(a / 10, b / 10);
        lemma_digit_char_code(a % 10);
        lemma_digit_char_code(b % 10);
        assert(decimal(a).last() == digit_char(a % 10));
        assert(decimal(b).last() == digit_char(b % 10));
    }
}

/// Distinct attempts give distinct candidate names.
proof fn lemma_candidates_distinct(stem: Seq<char>, ext: Seq<char>, a: nat, b: nat)
    requires
        1 <= a,
        1 <= b,
        copy_candidate(stem, ext, a) == copy_candidate(stem, ext, b),
    ensures
        a == b,
{
    let ca = copy_candidate(stem, ext, a);
    let cb = copy_candidate(stem, ext, b);
    let sa = copy_suffix(a);
    let sb = copy_suffix(b);
    lemma_decimal_len(a);
    lemma_decimal_len(b);
    let tail = if ext.len() > 0 {
        seq!['.'] + ext
    } else {
        Seq::empty()
    };
    assert(ca == stem + sa + tail);
    assert(cb == stem + sb + tail);
    assert(ca.len() == stem.len() + sa.len() + tail.len());
    assert(cb.len() == stem.len() + sb.len() + tail.len());
    assert(sa.len() == sb.len());
    assert(ca.subrange(stem.len() as int, (stem.len() + sa.len()) as int) =~= sa);
    assert(cb.subrange(stem.len() as int, (stem.len() + sb.len()) as int) =~= sb);
    if a >= 2 && b >= 2 {
        assert(sa.subrange(6, sa.len() - 1) =~= decimal(a));
        assert(sb.subrange(6, sb.len() - 1) =~= decimal(b));
        lemma_decimal_injective(a, b);
    }
}

/// Where the first `k` candidates are all taken, there are at least `k` items.
proof fn lemma_taken_candidates_bound(
    items: Seq<ItemInfo>,
    stem: Seq<char>,
    ext: Seq<char>,
    is_folder: bool,
    k: nat,
)
    requires
        forall|j: nat| 1 <= j <= k ==> name_taken(items, #[trigger] copy_candidate(stem, ext, j), is_folder),
    ensures
        k <= items.len(),
{
    let x = set_int_range(1, (k + 1) as int);
    let f = |j: int|
        choose|i: int|
            0 <= i < items.len() && (#[trigger] items[i]).name@ == copy_candidate(stem, ext, j as nat)
                && items[i].is_folder == is_folder;
    assert forall|j: int| x.contains(j) implies 0 <= #[trigger] f(j) < items.len()
        && items[f(j)].name@ == copy_candidate(stem, ext, j as nat) by {
        assert(name_taken(items, copy_candidate(stem, ext, j as nat), is_folder));
    }
    assert(vstd::relations::injective_on(f, x)) by {
        assert forall|a: int, b: int| x.contains(a) && x.contains(b) && #[trigger] f(a) == #[trigger] f(b)
            implies a == b by {
            lemma_candidates_distinct(stem, ext, a as nat, b as nat);
        }
    }
    lemma_int_range(1, (k + 1) as int);
    lemma_int_range(0, items.len() as int);
    let y = x.map(f);
    lemma_map_size(x, y, f);
    assert(y.subset_of(set_int_range(0, items.len() as int)));
    lemma_len_subset(y, set_int_range(0, items.len() as int));
}

/// Whether an item of the same kind is named `name`.
fn is_taken(items: &Vec<ItemInfo>, name: &String, is_folder: bool) -> (r: bool)
    ensures
        r == name_taken(items@, name@, is_folder),
{
    let mut i: usize = 0;
    while i < items.len()
        invariant
            i <= items@.len(),
            forall|k: int|
                0 <= k < i ==> !((#[trigger] items@[k]).name@ == name@ && items@[k].is_folder
                    == is_folder),
        decreases items@.len() - i,
    {
        if items[i].is_folder == is_folder && items[i].name == *name {
            return true;
        }
        i = i + 1;
    }
    false
}

/// The `k`-th candidate name, built.
fn candidate(stem: &Vec<char>, ext: &Vec<char>, k: u128) -> (r: String)
    requires
        k >= 1,
    ensures
        r@ == copy_candidate(stem@, ext@, k as nat),
{
    let mut cs: Vec<char> = Vec::new();
    append(&mut cs, stem);
    let word = vec!['_', 'c', 'o', 'p', 'y'];
    append(&mut cs, &word);
    assert(word@ =~= copy_word());
    if k >= 2 {
        cs.push('(');
        let digits = decimal_chars(k);
        append(&mut cs, &digits);
        cs.push(')');
    }
    if ext.len() > 0 {
        cs.push('.');
        append(&mut cs, ext);
    }
    assert(cs@ =~= copy_candidate(stem@, ext@, k as nat));
    string_of(&cs)
}

fn append(cs: &mut Vec<char>, more: &Vec<char>)
    ensures
        final(cs)@ == old(cs)@ + more@,
{
    let ghost start = cs@;
    let mut i: usize = 0;
    while i < more.len()
        invariant
            i <= more@.len(),
            cs@ == start + more@.subrange(0, i as int),
        decreases more@.len() - i,
    {
        cs.push(more[i]);
        assert(cs@ =~= start + more@.subrange(0, i + 1));
        i = i + 1;
    }
    assert(more@.subrange(0, more@.len() as int) =~= more@);
}

/// The path for a copy of `path` among `existing_items`: the file name becomes the
/// first of `<stem>_copy.<ext>`, `<stem>_copy(2).<ext>`, ... that no item of the same
/// kind bears. `None` where the path has no stem.
pub fn generate_unique_copy_name(path: &str, existing_items: &Vec<ItemInfo>, is_folder: bool) -> (r:
    Option<String>)
    ensures
        stem_of(path@) is None ==> r is None,
        stem_of(path@) matches Some(stem) ==> exists|k: nat|
            #![trigger copy_candidate(stem, ext_text(path@), k)]
            1 <= k && !name_taken(existing_items@, copy_candidate(stem, ext_text(path@), k), is_folder)
                && (forall|j: nat|
                1 <= j < k ==> name_taken(
                    existing_items@,
                    #[trigger] copy_candidate(stem, ext_text(path@), j),
                    is_folder,
                )) && (r matches Some(p) && p@ == with_file_name_of(path@, copy_candidate(stem, ext_text(path@), k))),
{
    let stem = match path_stem(path) {
        Some(s) => chars_of(s.as_str()),
        None => {
            return None;
        },
    };
    assert(stem_of(path@) == Some(stem@));
    let ext = match path_extension(path) {
        Some(e) => chars_of(e.as_str()),
        None => Vec::new(),
    };
    assert(ext@ == ext_text(path@));
    let n: usize = existing_items.len();
    let mut k: u128 = 1;
    let mut name = candidate(&stem, &ext, k);
    while is_taken(existing_items, &name, is_folder)
        invariant
            n == existing_items@.len(),
            stem_of(path@) == Some(stem@),
            ext@ == ext_text(path@),
            1 <= k <= existing_items@.len() + 1,
            name@ == copy_candidate(stem@, ext@, k as nat),
            forall|j: nat|
                1 <= j < k ==> name_taken(existing_items@, #[trigger] copy_candidate(stem@, ext@, j), is_folder),
        decreases existing_items@.len() + 1 - k,
    {
        proof {
            assert forall|j: nat| 1 <= j <= k implies name_taken(
                existing_items@,
                #[trigger] copy_candidate(stem@, ext@, j),
                is_folder,
            ) by {}
            lemma_taken_candidates_bound(existing_items@, stem@, ext@, is_folder, k as nat);
        }
        k = k + 1;
        name = candidate(&stem, &ext, k);
    }
    let r = path_with_file_name(path, name.as_str());
    proof {
        let st = stem_of(path@)->0;
        assert(st == stem@);
        assert(copy_candidate(st, ext_text(path@), k as nat) == name@);
        assert(!name_taken(existing_items@, copy_candidate(st, ext_text(path@), k as nat), is_folder));
        assert(forall|j: nat|
            1 <= j < k ==> name_taken(
                existing_items@,
                #[trigger] copy_candidate(st, ext_text(path@), j),
                is_folder,
            ));
        assert(r@ == with_file_name_of(path@, copy_candidate(st, ext_text(path@), k as nat)));
    }
    Some(r)
}

} // verus!

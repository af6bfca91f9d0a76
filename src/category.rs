//! User-defined categories: numbered, named lists of bookmarked paths.
use vstd::prelude::*;

verus! {

#[derive(Debug)]
pub struct Category {
    pub num: u32,
    pub name: String,
    pub description: String,
    pub color: String,
    pub list: Vec<String>,
}

/// The largest category number, or zero where there is none.
pub open spec fn max_num(cs: Seq<Category>) -> nat
    decreases cs.len(),
{
    if cs.len() == 0 {
        0
    } else {
        let m = max_num(cs.drop_last());
        if cs.last().num > m {
            cs.last().num as nat
        } else {
            m
        }
    }
}

/// The first index at or after `i` of the category numbered `num`.
pub open spec fn category_from(cs: Seq<Category>, num: u32, i: int) -> Option<int>
    decreases cs.len() - i,
{
    if i < 0 || i >= cs.len() {
        None
    } else if cs[i].num == num {
        Some(i)
    } else {
        category_from(cs, num, i + 1)
    }
}

/// The index of the first category numbered `num`.
fn position(cs: &Vec<Category>, num: u32) -> (r: Option<usize>)
    ensures
        r matches Some(i) ==> i < cs@.len() && category_from(cs@, num, 0) == Some(i as int),
        r is None ==> category_from(cs@, num, 0) is None,
{
    let mut i: usize = 0;
    while i < cs.len()
        invariant
            i <= cs@.len(),
            category_from(cs@, num, 0) == category_from(cs@, num, i as int),
        decreases cs@.len() - i,
    {
        if cs[i].num == num {
            return Some(i);
        }
        i = i + 1;
    }
    None
}

/// Adds a category numbered one above the largest number in use, with an empty
/// list. Where the largest number is already `u32::MAX` nothing is added.
pub fn create_category(
    categories: Vec<Category>,
    name: String,
    description: String,
    color: String,
) -> (r: Vec<Category>)
    ensures
        max_num(categories@) < u32::MAX ==> ({
            &&& r@.len() == categories@.len() + 1
            &&& r@.subrange(0, categories@.len() as int) == categories@
            &&& r@.last().num == max_num(categories@) + 1
            &&& r@.last().name == name && r@.last().description == description
            &&& r@.last().color == color && r@.last().list@.len() == 0
        }),
        max_num(categories@) >= u32::MAX ==> r@ == categories@,
{
    let mut cs = categories;
    let mut m: u32 = 0;
    let mut i: usize = 0;
    while i < cs.len()
        invariant
            i <= cs@.len(),
            m == max_num(cs@.subrange(0, i as int)),
        decreases cs@.len() - i,
    {
        assert(cs@.subrange(0, i + 1).drop_last() =~= cs@.subrange(0, i as int));
        if cs[i].num > m {
            m = cs[i].num;
        }
        i = i + 1;
    }
    assert(cs@.subrange(0, cs@.len() as int) =~= cs@);
    if m == u32::MAX {
        return cs;
    }
    let ghost before = cs@;
    cs.push(Category { num: m + 1, name, description, color, list: Vec::new() });
    assert(cs@.subrange(0, before.len() as int) =~= before);
    cs
}

/// Removes every category numbered `num`.
pub fn delete_category(categories: Vec<Category>, num: u32) -> (r: Vec<Category>)
    ensures
        r@ == categories@.filter(|c: Category| c.num != num),
{
    let mut cs = categories;
    let ghost all = cs@;
    let mut taken: Vec<Category> = Vec::new();
    // Pop from the back so that each category can be moved, not copied.
    while cs.len() > 0
        invariant
            all == cs@ + taken@.reverse(),
        decreases cs@.len(),
    {
        let c = cs.pop().unwrap();
        taken.push(c);
        assert(all =~= cs@ + taken@.reverse());
    }
    let ghost rev = taken@;
    let mut r: Vec<Category> = Vec::new();
    let mut i: usize = 0;
    let n = taken.len();
    while taken.len() > 0
        invariant
            taken@.len() + i == n,
            n == rev.len(),
            taken@ == rev.subrange(0, taken@.len() as int),
            all == rev.reverse(),
            r@ == all.subrange(0, i as int).filter(|c: Category| c.num != num),
        decreases taken@.len(),
    {
        let c = taken.pop().unwrap();
        proof {
            assert(all[i as int] == c);
            assert(all.subrange(0, i + 1).drop_last() =~= all.subrange(0, i as int));
            assert(all.subrange(0, i + 1).last() == c);
            reveal(Seq::filter);
        }
        if c.num != num {
            r.push(c);
        }
        i = i + 1;
    }
    assert(all.subrange(0, n as int) =~= all);
    r
}

/// Adds `path` to the list of the first category numbered `num`, unless it is
/// already there.
pub fn add_to_category(categories: Vec<Category>, num: u32, path: String) -> (r: Vec<Category>)
    ensures
        category_from(categories@, num, 0) is None ==> r@ == categories@,
        category_from(categories@, num, 0) matches Some(i) ==> ({
            let c = categories@[i];
            let present = exists|k: int| 0 <= k < c.list@.len() && (#[trigger] c.list@[k])@ == path@;
            &&& r@.len() == categories@.len()
            &&& forall|j: int| 0 <= j < r@.len() && j != i ==> #[trigger] r@[j] == categories@[j]
            &&& r@[i].num == c.num && r@[i].name == c.name && r@[i].description == c.description
                && r@[i].color == c.color
            &&& present ==> r@[i].list@ == c.list@
            &&& !present ==> r@[i].list@ == c.list@.push(path)
        }),
{
    let mut cs = categories;
    match position(&cs, num) {
        None => cs,
        Some(i) => {
            let ghost before = cs@;
            let mut found = false;
            let mut k: usize = 0;
            while k < cs[i].list.len()
                invariant
                    i < cs@.len(),
                    cs@ == before,
                    k <= cs@[i as int].list@.len(),
                    found == (exists|j: int| 0 <= j < k && (#[trigger] cs@[i as int].list@[j])@ == path@),
                decreases cs@[i as int].list@.len() - k,
            {
                if cs[i].list[k] == path {
                    found = true;
                }
                k = k + 1;
            }
            if found {
                return cs;
            }
            let mut list = clone_list(&cs[i].list);
            list.push(path);
            let c = Category {
                num: cs[i].num,
                name: cs[i].name.clone(),
                description: cs[i].description.clone(),
                color: cs[i].color.clone(),
                list,
            };
            cs.set(i, c);
            cs
        },
    }
}

fn clone_list(v: &Vec<String>) -> (r: Vec<String>)
    ensures
        r@ == v@,
{
    let mut r: Vec<String> = Vec::new();
    let mut i: usize = 0;
    while i < v.len()
        invariant
            i <= v@.len(),
            r@ == v@.subrange(0, i as int),
        decreases v@.len() - i,
    {
        r.push(v[i].clone());
        assert(r@ =~= v@.subrange(0, i + 1));
        i = i + 1;
    }
    assert(v@.subrange(0, v@.len() as int) =~= v@);
    r
}

/// Removes every occurrence of `path` from the list of the first category
/// numbered `num`.
pub fn remove_from_category(categories: Vec<Category>, num: u32, path: String) -> (r: Vec<Category>)
    ensures
        category_from(categories@, num, 0) is None ==> r@ == categories@,
        category_from(categories@, num, 0) matches Some(i) ==> ({
            let c = categories@[i];
            &&& r@.len() == categories@.len()
            &&& forall|j: int| 0 <= j < r@.len() && j != i ==> #[trigger] r@[j] == categories@[j]
            &&& r@[i].num == c.num && r@[i].name == c.name && r@[i].description == c.description
                && r@[i].color == c.color
            &&& r@[i].list@ == c.list@.filter(|p: String| p@ != path@)
        }),
{
    let mut cs = categories;
    match position(&cs, num) {
        None => cs,
        Some(i) => {
            let ghost src = cs@[i as int].list@;
            let mut list: Vec<String> = Vec::new();
            let mut k: usize = 0;
            while k < cs[i].list.len()
                invariant
                    i < cs@.len(),
                    src == cs@[i as int].list@,
                    k <= src.len(),
                    list@ == src.subrange(0, k as int).filter(|p: String| p@ != path@),
                decreases src.len() - k,
            {
                proof {
                    assert(src.subrange(0, k + 1).drop_last() =~= src.subrange(0, k as int));
                    reveal(Seq::filter);
                }
                if cs[i].list[k] != path {
                    list.push(cs[i].list[k].clone());
                }
                k = k + 1;
            }
            assert(src.subrange(0, src.len() as int) =~= src);
            let c = Category {
                num: cs[i].num,
                name: cs[i].name.clone(),
                description: cs[i].description.clone(),
                color: cs[i].color.clone(),
                list,
            };
            cs.set(i, c);
            cs
        },
    }
}

} // verus!

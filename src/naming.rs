//! Names for new items: `new`, `new(2)`, ... for created items.
use vstd::prelude::*;
use crate::text::{chars_of, decimal, digit_char, string_of};

verus! {

/// An entry of a directory: its name and whether it is a folder.
#[derive(Debug)]
pub struct ItemInfo {
    pub name: String,
    pub is_folder: bool,
}

pub open spec fn ends_with_txt(n: Seq<char>) -> bool {
    n.len() >= 4 && n.subrange(n.len() - 4, n.len() as int) == seq!['.', 't', 'x', 't']
}

/// `n` without any number of trailing `.txt`.
pub open spec fn strip_txt(n: Seq<char>) -> Seq<char>
    decreases n.len(),
{
    if ends_with_txt(n) {
        strip_txt(n.subrange(0, n.len() - 4))
    } else {
        n
    }
}

/// `n` without one trailing `.txt`.
pub open spec fn drop_one_txt(n: Seq<char>) -> Seq<char> {
    if ends_with_txt(n) {
        n.subrange(0, n.len() - 4)
    } else {
        n
    }
}

pub open spec fn is_digit(c: char) -> bool {
    '0' <= c <= '9'
}

pub open spec fn digit_value(c: char) -> nat {
    (c as nat - '0' as nat) as nat
}

/// The number that a run of decimal digits writes.
pub open spec fn digits_value(s: Seq<char>) -> nat
    decreases s.len(),
{
    if s.len() == 0 {
        0
    } else {
        digits_value(s.drop_last()) * 10 + digit_value(s.last())
    }
}

/// The number a name of the form `new` or `new(<digits>)` claims: one for `new`,
/// the digits' value for the other (zero where it exceeds `u32`); `None` for any
/// other name.
pub open spec fn copy_number(b: Seq<char>) -> Option<nat> {
    if b == seq!['n', 'e', 'w'] {
        Some(1)
    } else if b.len() >= 6 && b.subrange(0, 4) == seq!['n', 'e', 'w', '('] && b.last() == ')'
        && forall|i: int| 4 <= i < b.len() - 1 ==> is_digit(#[trigger] b[i]) {
        let v = digits_value(b.subrange(4, b.len() - 1));
        Some(if v <= u32::MAX { v } else { 0 })
    } else {
        None
    }
}

/// What an existing item's name claims: the name (for a file, without its trailing
/// `.txt`s) optionally followed by one `.txt` must be `new` or `new(<digits>)`.
pub open spec fn claimed(name: Seq<char>, is_folder: bool) -> nat {
    let n = if is_folder {
        name
    } else {
        strip_txt(name)
    };
    match copy_number(drop_one_txt(n)) {
        Some(v) => v,
        None => 0,
    }
}

/// The largest number claimed by the items of the same kind.
pub open spec fn max_claimed(items: Seq<ItemInfo>, is_folder: bool) -> nat
    decreases items.len(),
{
    if items.len() == 0 {
        0
    } else {
        let m = max_claimed(items.drop_last(), is_folder);
        let last = items.last();
        if last.is_folder == is_folder && claimed(last.name@, is_folder) > m {
            claimed(last.name@, is_folder)
        } else {
            m
        }
    }
}

/// The decimal notation of a number.
pub fn decimal_chars(n: u128) -> (r: Vec<char>)
    ensures
        r@ == decimal(n as nat),
    decreases n,
{
    let d = digit(n % 10);
    if n < 10 {
        let mut v: Vec<char> = Vec::new();
        v.push(d);
        assert(v@ =~= seq![digit_char(n as nat)]);
        v
    } else {
        let mut v = decimal_chars(n / 10);
        v.push(d);
        v
    }
}

fn digit(d: u128) -> (c: char)
    requires
        d < 10,
    ensures
        c == digit_char(d as nat),
{
    if d == 0 {
        '0'
    } else if d == 1 {
        '1'
    } else if d == 2 {
        '2'
    } else if d == 3 {
        '3'
    } else if d == 4 {
        '4'
    } else if d == 5 {
        '5'
    } else if d == 6 {
        '6'
    } else if d == 7 {
        '7'
    } else if d == 8 {
        '8'
    } else {
        '9'
    }
}

fn has_txt_end(cs: &Vec<char>, len: usize) -> (r: bool)
    requires
        len <= cs@.len(),
    ensures
        r == ends_with_txt(cs@.subrange(0, len as int)),
{
    if len < 4 {
        return false;
    }
    let r = cs[len - 4] == '.' && cs[len - 3] == 't' && cs[len - 2] == 'x' && cs[len - 1] == 't';
    let ghost n = cs@.subrange(0, len as int);
    assert(r == (n.subrange(n.len() - 4, n.len() as int) =~= seq!['.', 't', 'x', 't']));
    r
}

/// What an existing item's name claims, computed.
fn claim_of(name: &String, is_folder: bool) -> (r: u64)
    ensures
        r == claimed(name@, is_folder),
{
    let cs = chars_of(name.as_str());
    let mut len: usize = cs.len();
    assert(cs@.subrange(0, len as int) =~= cs@);
    if !is_folder {
        while has_txt_end(&cs, len)
            invariant
                len <= cs@.len(),
                strip_txt(cs@.subrange(0, len as int)) == strip_txt(cs@),
            decreases len,
        {
            assert(cs@.subrange(0, len as int).subrange(0, len - 4) =~= cs@.subrange(0, len - 4));
            len = len - 4;
        }
    }
    let ghost n = cs@.subrange(0, len as int);
    assert(n == if is_folder { name@ } else { strip_txt(name@) });
    if has_txt_end(&cs, len) {
        len = len - 4;
        assert(n.subrange(0, n.len() - 4) =~= cs@.subrange(0, len as int));
    }
    let ghost b = cs@.subrange(0, len as int);
    assert(b == drop_one_txt(n));
    if len == 3 && cs[0] == 'n' && cs[1] == 'e' && cs[2] == 'w' {
        assert(b =~= seq!['n', 'e', 'w']);
        return 1;
    }
    assert(b != seq!['n', 'e', 'w']) by {
        if b == seq!['n', 'e', 'w'] {
            assert(b[0] == 'n' && b[1] == 'e' && b[2] == 'w');
        }
    }
    if len < 6 || cs[0] != 'n' || cs[1] != 'e' || cs[2] != 'w' || cs[3] != '(' || cs[len - 1] != ')' {
        assert(!(b.len() >= 6 && b.subrange(0, 4) == seq!['n', 'e', 'w', '('] && b.last() == ')'))
            by {
            if b.len() >= 6 && b.subrange(0, 4) == seq!['n', 'e', 'w', '('] {
                assert(b.subrange(0, 4)[0] == 'n' && b.subrange(0, 4)[1] == 'e');
                assert(b.subrange(0, 4)[2] == 'w' && b.subrange(0, 4)[3] == '(');
            }
        }
        return 0;
    }
    assert(b.subrange(0, 4) =~= seq!['n', 'e', 'w', '(']);
    let ghost ds = b.subrange(4, b.len() - 1);
    let mut v: u64 = 0;
    let mut i: usize = 4;
    while i < len - 1
        invariant
            4 <= i <= len - 1,
            len <= cs@.len(),
            b == cs@.subrange(0, len as int),
            ds == b.subrange(4, b.len() - 1),
            b == drop_one_txt(n),
            n == (if is_folder { name@ } else { strip_txt(name@) }),
            b.subrange(0, 4) == seq!['n', 'e', 'w', '('],
            b.last() == ')',
            b != seq!['n', 'e', 'w'],
            forall|k: int| 4 <= k < i ==> is_digit(#[trigger] b[k]),
            v <= u32::MAX + 1,
            v <= u32::MAX ==> v == digits_value(ds.subrange(0, i - 4)),
            v > u32::MAX ==> digits_value(ds.subrange(0, i - 4)) > u32::MAX,
        decreases len - 1 - i,
    {
        let c = cs[i];
        if !('0' <= c && c <= '9') {
            assert(b[i as int] == c);
            assert(!is_digit(b[i as int]));
            assert(4 <= i < b.len() - 1);
            assert(!(forall|k: int| 4 <= k < b.len() - 1 ==> is_digit(#[trigger] b[k])));
            assert(copy_number(b) is None);
            return 0;
        }
        assert(ds.subrange(0, i + 1 - 4).drop_last() =~= ds.subrange(0, i - 4));
        assert(ds.subrange(0, i + 1 - 4).last() == c);
        if v <= u32::MAX as u64 {
            let d: u64 = (c as u32 - '0' as u32) as u64;
            let next = v * 10 + d;
            if next > u32::MAX as u64 {
                v = u32::MAX as u64 + 1;
            } else {
                v = next;
            }
        }
        i = i + 1;
    }
    assert(ds.subrange(0, ds.len() as int) =~= ds);
    if v > u32::MAX as u64 {
        0
    } else {
        v
    }
}

/// The name for a new item in a directory holding `existing_items`: `base_name`
/// where no item of the same kind claims a number, else `base_name(<n>)` with `n`
/// one above the largest claimed number.
pub fn generate_unique_name(existing_items: &Vec<ItemInfo>, base_name: &str, is_folder: bool) -> (r:
    String)
    ensures
        max_claimed(existing_items@, is_folder) == 0 ==> r@ == base_name@,
        max_claimed(existing_items@, is_folder) > 0 ==> r@ == base_name@ + seq!['('] + decimal(
            max_claimed(existing_items@, is_folder) + 1,
        ) + seq![')'],
{
    let mut max_number: u64 = 0;
    let mut i: usize = 0;
    while i < existing_items.len()
        invariant
            i <= existing_items@.len(),
            max_number == max_claimed(existing_items@.subrange(0, i as int), is_folder),
            max_number <= u32::MAX,
        decreases existing_items@.len() - i,
    {
        assert(existing_items@.subrange(0, i + 1).drop_last() =~= existing_items@.subrange(0, i as int));
        let item = &existing_items[i];
        if item.is_folder == is_folder {
            let n = claim_of(&item.name, is_folder);
            proof {
                let nm = if is_folder { item.name@ } else { strip_txt(item.name@) };
                match copy_number(drop_one_txt(nm)) {
                    Some(x) => {},
                    None => {},
                }
            }
            if n > max_number {
                max_number = n;
            }
        }
        i = i + 1;
    }
    assert(existing_items@.subrange(0, existing_items@.len() as int) =~= existing_items@);
    if max_number == 0 {
        return String::from_str(base_name);
    }
    let mut cs = chars_of(base_name);
    cs.push('(');
    let digits = decimal_chars((max_number + 1) as u128);
    let mut k: usize = 0;
    let ghost start = cs@;
    while k < digits.len()
        invariant
            k <= digits@.len(),
            cs@ == start + digits@.subrange(0, k as int),
        decreases digits@.len() - k,
    {
        cs.push(digits[k]);
        assert(cs@ =~= start + digits@.subrange(0, k + 1));
        k = k + 1;
    }
    cs.push(')');
    assert(cs@ =~= base_name@ + seq!['('] + decimal((max_number + 1) as nat) + seq![')']);
    string_of(&cs)
}

} // verus!

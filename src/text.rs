//! Character-level helpers over `str` and `String`.

use vstd::prelude::*;

verus! {

/// Unicode `White_Space`, the property that `char::is_whitespace` tests.
pub open spec fn is_ws(c: char) -> bool {
    let u = c as u32;
    ||| 0x09 <= u <= 0x0d
    ||| u == 0x20
    ||| u == 0x85
    ||| u == 0xa0
    ||| u == 0x1680
    ||| 0x2000 <= u <= 0x200a
    ||| u == 0x2028
    ||| u == 0x2029
    ||| u == 0x202f
    ||| u == 0x205f
    ||| u == 0x3000
}

/// Whether `c` is Unicode whitespace.
pub fn is_whitespace(c: char) -> (r: bool)
    ensures
        r == is_ws(c),
{
    let u = c as u32;
    (0x09 <= u && u <= 0x0d) || u == 0x20 || u == 0x85 || u == 0xa0 || u == 0x1680 || (0x2000
        <= u && u <= 0x200a) || u == 0x2028 || u == 0x2029 || u == 0x202f || u == 0x205f || u
        == 0x3000
}

/// The characters of `s`, in order.
pub fn chars_of(s: &str) -> (r: Vec<char>)
    ensures
        r@ == s@,
{
    let mut v: Vec<char> = Vec::new();
    for c in it: s.chars()
        invariant
            v@ == it.seq().take(it.index() as int),
    {
        v.push(c);
    }
    v
}

} // verus!

verus! {

/// Whether two strings hold the same characters.
pub fn same_text(a: &str, b: &str) -> (r: bool)
    ensures
        r == (a@ == b@),
{
    a.to_owned() == b.to_owned()
}

} // verus!

verus! {

/// `s` ends with `suffix`.
pub open spec fn has_suffix(s: Seq<char>, suffix: Seq<char>) -> bool {
    s.len() >= suffix.len() && s.skip(s.len() - suffix.len()) == suffix
}

/// Whether `s` ends with `suffix`.
pub fn ends_with(s: &str, suffix: &str) -> (r: bool)
    ensures
        r == has_suffix(s@, suffix@),
{
    let a = chars_of(s);
    let b = chars_of(suffix);
    if a.len() < b.len() {
        return false;
    }
    let off = a.len() - b.len();
    let mut i: usize = 0;
    while i < b.len()
        invariant
            a@ == s@,
            b@ == suffix@,
            a@.len() >= b@.len(),
            a@.len() <= usize::MAX,
            off == a@.len() - b@.len(),
            i <= b@.len(),
            forall|j: int| 0 <= j < i ==> a@[off + j] == b@[j],
        decreases b@.len() - i,
    {
        if a[off + i] != b[i] {
            assert(s@.skip(off as int)[i as int] != suffix@[i as int]);
            return false;
        }
        i = i + 1;
    }
    assert(s@.skip(off as int) =~= suffix@);
    true
}

} // verus!

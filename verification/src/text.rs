//! Small helpers on strings and lists of strings.

use vstd::prelude::*;

verus! {

/// The views of a list of strings, in order.
pub open spec fn texts(list: Seq<String>) -> Seq<Seq<char>> {
    Seq::new(list.len(), |i: int| list[i]@)
}

/// Whether two strings hold the same characters.
pub fn same(a: &str, b: &str) -> (r: bool)
    ensures
        r == (a@ == b@),
{
    let x = a.to_owned();
    let y = b.to_owned();
    x == y
}

/// Whether `list` holds `item`.
pub fn holds(list: &Vec<String>, item: &str) -> (r: bool)
    ensures
        r == texts(list@).contains(item@),
{
    let mut i: usize = 0;
    while i < list.len()
        invariant
            i <= list.len(),
            forall|k: int| 0 <= k < i ==> texts(list@)[k] != item@,
        decreases list.len() - i,
    {
        if same(list[i].as_str(), item) {
            assert(texts(list@)[i as int] == item@);
            return true;
        }
        i = i + 1;
    }
    false
}

/// A copy of `list`.
pub fn copy_all(list: &Vec<String>) -> (r: Vec<String>)
    ensures
        texts(r@) == texts(list@),
{
    let mut out: Vec<String> = Vec::new();
    let mut i: usize = 0;
    while i < list.len()
        invariant
            i <= list.len(),
            out.len() == i,
            forall|k: int| 0 <= k < i ==> out@[k]@ == list@[k]@,
        decreases list.len() - i,
    {
        out.push(list[i].clone());
        i = i + 1;
    }
    assert(texts(out@) =~= texts(list@));
    out
}

/// A copy of `bytes`.
pub fn copy_bytes(bytes: &Vec<u8>) -> (r: Vec<u8>)
    ensures
        r@ == bytes@,
{
    let mut out: Vec<u8> = Vec::new();
    let mut i: usize = 0;
    while i < bytes.len()
        invariant
            i <= bytes.len(),
            out@ == bytes@.subrange(0, i as int),
        decreases bytes.len() - i,
    {
        out.push(bytes[i]);
        assert(out@ =~= bytes@.subrange(0, i as int + 1));
        i = i + 1;
    }
    assert(out@ =~= bytes@);
    out
}

} // verus!

use vstd::prelude::*;

verus! {

/// `s` holds `q` as a contiguous run of characters.
pub open spec fn has_substring(s: Seq<char>, q: Seq<char>) -> bool {
    exists|k: int| 0 <= k <= s.len() - q.len() && #[trigger] s.subrange(k, k + q.len()) == q
}

/// The characters of `s`, in order.
pub fn chars_of(s: &str) -> (r: Vec<char>)
    ensures
        r@ == s@,
{
    let mut r: Vec<char> = Vec::new();
    for c in it: s.chars()
        invariant
            r@ == it.seq().take(it.index() as int),
    {
        r.push(c);
    }
    r
}

/// Whether `q` occurs in `s` starting at position `k`.
pub fn contains_at(s: &[char], q: &[char], k: usize) -> (r: bool)
    requires
        k + q.len() <= s.len(),
    ensures
        r == (s@.subrange(k as int, k + q.len()) == q@),
{
    let mut j: usize = 0;
    while j < q.len()
        invariant
            k + q.len() <= s.len(),
            j <= q.len(),
            forall|i: int| 0 <= i < j ==> s@[k + i] == q@[i],
        decreases q.len() - j,
    {
        if s[k + j] != q[j] {
            assert(s@.subrange(k as int, k + q.len())[j as int] != q@[j as int]);
            return false;
        }
        j = j + 1;
    }
    assert(s@.subrange(k as int, k + q.len()) =~= q@);
    true
}

/// Whether `q` occurs anywhere in `s`; the empty query occurs in every text.
pub fn occurs_in(s: &[char], q: &[char]) -> (r: bool)
    ensures
        r == has_substring(s@, q@),
{
    if q.len() > s.len() {
        return false;
    }
    let last: usize = s.len() - q.len();
    let mut k: usize = 0;
    loop
        invariant
            last == s.len() - q.len(),
            k <= last,
            forall|i: int| 0 <= i < k ==> #[trigger] s@.subrange(i, i + q.len()) != q@,
        decreases last - k,
    {
        if contains_at(s, q, k) {
            return true;
        }
        if k == last {
            return false;
        }
        k = k + 1;
    }
}

} // verus!

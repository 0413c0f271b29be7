//! Substring search over sequences of characters.
//!
//! A string is read as the sequence of its characters. The search is the
//! plain one: case-sensitive, not anchored, no normalisation.

use vstd::prelude::*;

verus! {

/// `pat` stands in `text` at offset `i`.
pub open spec fn occurs_at(text: Seq<char>, pat: Seq<char>, i: int) -> bool {
    &&& 0 <= i
    &&& i + pat.len() <= text.len()
    &&& text.subrange(i, i + pat.len()) == pat
}

/// `pat` stands somewhere in `text`.
pub open spec fn contains(text: Seq<char>, pat: Seq<char>) -> bool {
    exists|i: int| occurs_at(text, pat, i)
}

/// `i` is the least offset at which `pat` stands in `text`.
pub open spec fn first_occurrence(text: Seq<char>, pat: Seq<char>, i: int) -> bool {
    &&& occurs_at(text, pat, i)
    &&& forall|j: int| 0 <= j < i ==> !occurs_at(text, pat, j)
}

/// What stands in `text` strictly before the first occurrence of `pat`;
/// `None` where `pat` does not occur.
pub open spec fn prefix_before(text: Seq<char>, pat: Seq<char>) -> Option<Seq<char>> {
    if contains(text, pat) {
        Some(text.take(choose|i: int| first_occurrence(text, pat, i)))
    } else {
        None
    }
}

/// Two least offsets are one.
pub proof fn lemma_first_occurrence_unique(text: Seq<char>, pat: Seq<char>, i: int, j: int)
    requires
        first_occurrence(text, pat, i),
        first_occurrence(text, pat, j),
    ensures
        i == j,
{
    if i < j {
        assert(!occurs_at(text, pat, i));
    } else if j < i {
        assert(!occurs_at(text, pat, j));
    }
}

/// Below any offset at which `pat` stands there is a least one.
proof fn lemma_least_below(text: Seq<char>, pat: Seq<char>, i: int)
    requires
        occurs_at(text, pat, i),
    ensures
        exists|k: int| 0 <= k <= i && first_occurrence(text, pat, k),
    decreases i,
{
    if exists|j: int| 0 <= j < i && occurs_at(text, pat, j) {
        let j = choose|j: int| 0 <= j < i && occurs_at(text, pat, j);
        lemma_least_below(text, pat, j);
    } else {
        assert(first_occurrence(text, pat, i));
    }
}

/// The prefix before `pat` ends at the least offset of `pat`, and only there.
pub proof fn lemma_prefix_before(text: Seq<char>, pat: Seq<char>, i: int)
    requires
        first_occurrence(text, pat, i),
    ensures
        prefix_before(text, pat) == Some(text.take(i)),
{
    let k = choose|k: int| first_occurrence(text, pat, k);
    lemma_first_occurrence_unique(text, pat, i, k);
}

/// Where `pat` occurs there is a prefix before it. It ends at the least
/// offset of `pat`, and `text` is that prefix, `pat` and a rest.
pub proof fn lemma_prefix_before_some(text: Seq<char>, pat: Seq<char>)
    requires
        contains(text, pat),
    ensures
        prefix_before(text, pat) is Some,
        first_occurrence(text, pat, prefix_before(text, pat)->0.len() as int),
        ({
            let pre = prefix_before(text, pat)->0;
            text == pre + pat + text.skip((pre.len() + pat.len()) as int)
        }),
{
    let w = choose|i: int| occurs_at(text, pat, i);
    lemma_least_below(text, pat, w);
    let k = choose|k: int| first_occurrence(text, pat, k);
    let pre = text.take(k);
    assert(pre.len() == k);
    assert(text =~= pre + text.subrange(k, k + pat.len()) + text.skip(k + pat.len()));
}

/// The characters of `s`, in order.
pub fn chars_of(s: &str) -> (v: Vec<char>)
    ensures
        v@ == s@,
{
    let mut v: Vec<char> = Vec::new();
    for c in it: s.chars()
        invariant
            v@ == it.seq().take(it.index()),
            it.seq() == s@,
    {
        v.push(c);
    }
    v
}

/// Tells whether `pat` stands in `text` at offset `i`.
pub fn matches_at(text: &[char], pat: &[char], i: usize) -> (b: bool)
    ensures
        b == occurs_at(text@, pat@, i as int),
{
    let n = text.len();
    let m = pat.len();
    if m > n || i > n - m {
        return false;
    }
    let mut k: usize = 0;
    while k < m
        invariant
            m == pat@.len(),
            n == text@.len(),
            m <= n,
            i <= n - m,
            k <= m,
            forall|j: int| 0 <= j < k ==> text@[i + j] == pat@[j],
        decreases m - k,
    {
        if text[i + k] != pat[k] {
            proof {
                let window = text@.subrange(i as int, i + m);
                assert(window[k as int] == text@[i + k]);
            }
            return false;
        }
        k += 1;
    }
    assert(text@.subrange(i as int, i + m) =~= pat@);
    true
}

/// The least offset at which `pat` stands in `text`, if there is one.
pub fn find(text: &[char], pat: &[char]) -> (r: Option<usize>)
    ensures
        match r {
            Some(i) => first_occurrence(text@, pat@, i as int),
            None => !contains(text@, pat@),
        },
{
    let n = text.len();
    let m = pat.len();
    if m > n {
        return None;
    }
    let last = n - m;
    let mut i: usize = 0;
    loop
        invariant
            m == pat@.len(),
            n == text@.len(),
            m <= n,
            last == n - m,
            i <= last,
            forall|j: int| 0 <= j < i ==> !occurs_at(text@, pat@, j),
        decreases last - i,
    {
        if matches_at(text, pat, i) {
            return Some(i);
        }
        if i == last {
            return None;
        }
        i += 1;
    }
}

/// Tells whether two strings hold the same characters.
pub fn same_text(a: &str, b: &str) -> (eq: bool)
    ensures
        eq == (a@ == b@),
{
    let x = chars_of(a);
    let y = chars_of(b);
    if x.len() != y.len() {
        return false;
    }
    let eq = matches_at(x.as_slice(), y.as_slice(), 0);
    proof {
        if eq {
            assert(a@.subrange(0, a@.len() as int) =~= a@);
        } else if a@ == b@ {
            assert(a@.subrange(0, b@.len() as int) =~= b@);
        }
    }
    eq
}

} // verus!

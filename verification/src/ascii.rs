//! Byte strings read as ASCII text: white space, letter case, searching.
//!
//! Bytes from 0x80 up are neither white space nor letters here.

use vstd::prelude::*;
use vstd::slice::slice_subrange;

verus! {

/// The white space of ASCII: tab, line feed, vertical tab, form feed,
/// carriage return and space.
pub open spec fn is_space(b: u8) -> bool {
    (9 <= b && b <= 13) || b == 32
}

/// `b` with an upper-case letter made lower case.
pub open spec fn lower(b: u8) -> u8 {
    if 65 <= b && b <= 90 {
        (b + 32) as u8
    } else {
        b
    }
}

/// `s` without the white space at its front.
pub open spec fn trim_start(s: Seq<u8>) -> Seq<u8>
    decreases s.len(),
{
    if s.len() > 0 && is_space(s[0]) {
        trim_start(s.drop_first())
    } else {
        s
    }
}

/// `s` without the white space at its end.
pub open spec fn trim_end(s: Seq<u8>) -> Seq<u8>
    decreases s.len(),
{
    if s.len() > 0 && is_space(s.last()) {
        trim_end(s.drop_last())
    } else {
        s
    }
}

/// `s` without the white space at either end.
pub open spec fn trim(s: Seq<u8>) -> Seq<u8> {
    trim_end(trim_start(s))
}

/// Whether `a` and `b` are the same text but for the case of letters.
pub open spec fn eq_ignore_case(a: Seq<u8>, b: Seq<u8>) -> bool {
    a.len() == b.len() && forall|i: int| 0 <= i < a.len() ==> lower(a[i]) == lower(b[i])
}

/// Whether `s` begins with `prefix`.
pub open spec fn starts_with(s: Seq<u8>, prefix: Seq<u8>) -> bool {
    prefix.len() <= s.len() && s.subrange(0, prefix.len() as int) == prefix
}

/// Whether `needle` occurs in `hay` at index `i`, but for the case of
/// letters.
pub open spec fn occurs_at(hay: Seq<u8>, needle: Seq<u8>, i: int) -> bool {
    0 <= i && i + needle.len() <= hay.len() && eq_ignore_case(
        hay.subrange(i, i + needle.len()),
        needle,
    )
}

/// Whether `needle` occurs somewhere in `hay`, but for the case of letters.
pub open spec fn contains_ignore_case(hay: Seq<u8>, needle: Seq<u8>) -> bool {
    exists|i: int| occurs_at(hay, needle, i)
}

/// The index of the first `b` in `s` at or after `from`.
pub open spec fn first_index(s: Seq<u8>, from: int, b: u8) -> Option<int>
    decreases s.len() - from,
{
    if from < 0 || from >= s.len() {
        None
    } else if s[from] == b {
        Some(from)
    } else {
        first_index(s, from + 1, b)
    }
}

/// What `first_index` finds is the first occurrence, and `None` means there
/// is none.
pub proof fn lemma_first_index(s: Seq<u8>, from: int, b: u8)
    requires
        0 <= from,
    ensures
        match first_index(s, from, b) {
            Some(p) => from <= p < s.len() && s[p] == b && forall|j: int|
                from <= j < p ==> s[j] != b,
            None => forall|j: int| from <= j < s.len() ==> s[j] != b,
        },
    decreases s.len() - from,
{
    if from < s.len() && s[from] != b {
        lemma_first_index(s, from + 1, b);
    }
}

/// An index that holds `b` with none before it, from `from` on, is what
/// `first_index` finds.
pub proof fn lemma_first_index_is(s: Seq<u8>, from: int, b: u8, p: int)
    requires
        0 <= from <= p < s.len(),
        s[p] == b,
        forall|j: int| from <= j < p ==> s[j] != b,
    ensures
        first_index(s, from, b) == Some(p),
    decreases p - from,
{
    if from < p {
        lemma_first_index_is(s, from + 1, b, p);
    }
}

pub fn byte_is_space(b: u8) -> (r: bool)
    ensures
        r == is_space(b),
{
    (9 <= b && b <= 13) || b == 32
}

pub fn to_lower(b: u8) -> (r: u8)
    ensures
        r == lower(b),
{
    if 65 <= b && b <= 90 {
        b + 32
    } else {
        b
    }
}

/// Finds the first `b` in `s` at or after `from`.
pub fn find_byte(s: &[u8], from: usize, b: u8) -> (res: Option<usize>)
    ensures
        match res {
            Some(p) => first_index(s@, from as int, b) == Some(p as int) && from <= p < s@.len()
                && s@[p as int] == b,
            None => first_index(s@, from as int, b) is None,
        },
{
    let n: usize = s.len();
    let mut i: usize = from;
    while i < n
        invariant
            n == s@.len(),
            from <= i,
            first_index(s@, from as int, b) == first_index(s@, i as int, b),
        decreases n - i,
    {
        if s[i] == b {
            return Some(i);
        }
        i = i + 1;
    }
    None
}

/// White space at the front does not count: trimming after skipping it
/// gives the same.
pub proof fn lemma_trim_start_skips(s: Seq<u8>, k: int)
    requires
        0 <= k <= s.len(),
        forall|j: int| 0 <= j < k ==> is_space(s[j]),
    ensures
        trim_start(s) == trim_start(s.skip(k)),
    decreases k,
{
    if k > 0 {
        lemma_trim_start_skips(s.drop_first(), k - 1);
        assert(s.drop_first().skip(k - 1) =~= s.skip(k));
    } else {
        assert(s.skip(0) =~= s);
    }
}

/// White space at the end does not count: trimming after dropping it
/// gives the same.
pub proof fn lemma_trim_end_drops(s: Seq<u8>, k: int)
    requires
        0 <= k <= s.len(),
        forall|j: int| k <= j < s.len() ==> is_space(s[j]),
    ensures
        trim_end(s) == trim_end(s.take(k)),
    decreases s.len() - k,
{
    if k < s.len() {
        lemma_trim_end_drops(s.drop_last(), k);
        assert(s.drop_last().take(k) =~= s.take(k));
    } else {
        assert(s.take(k) =~= s);
    }
}

/// `s` without the white space at its front.
pub fn trimmed_start(s: &[u8]) -> (r: &[u8])
    ensures
        r@ == trim_start(s@),
{
    let n: usize = s.len();
    let mut i: usize = 0;
    while i < n && byte_is_space(s[i])
        invariant
            n == s@.len(),
            i <= n,
            forall|j: int| 0 <= j < i ==> is_space(s@[j]),
        decreases n - i,
    {
        i = i + 1;
    }
    proof {
        lemma_trim_start_skips(s@, i as int);
        assert(s@.subrange(i as int, n as int) =~= s@.skip(i as int));
    }
    slice_subrange(s, i, n)
}

/// `s` without the white space at its end.
pub fn trimmed_end(s: &[u8]) -> (r: &[u8])
    ensures
        r@ == trim_end(s@),
{
    let n: usize = s.len();
    let mut k: usize = n;
    while k > 0 && byte_is_space(s[k - 1])
        invariant
            n == s@.len(),
            k <= n,
            forall|j: int| k <= j < n ==> is_space(s@[j]),
        decreases k,
    {
        k = k - 1;
    }
    proof {
        lemma_trim_end_drops(s@, k as int);
        assert(s@.subrange(0, k as int) =~= s@.take(k as int));
    }
    slice_subrange(s, 0, k)
}

/// `s` without the white space at either end.
pub fn trimmed(s: &[u8]) -> (r: &[u8])
    ensures
        r@ == trim(s@),
{
    trimmed_end(trimmed_start(s))
}

/// Whether `a` and `b` are the same text but for the case of letters.
pub fn equals_ignore_case(a: &[u8], b: &[u8]) -> (r: bool)
    ensures
        r == eq_ignore_case(a@, b@),
{
    if a.len() != b.len() {
        return false;
    }
    let n: usize = a.len();
    let mut i: usize = 0;
    while i < n
        invariant
            n == a@.len(),
            n == b@.len(),
            i <= n,
            forall|j: int| 0 <= j < i ==> lower(a@[j]) == lower(b@[j]),
        decreases n - i,
    {
        if to_lower(a[i]) != to_lower(b[i]) {
            return false;
        }
        i = i + 1;
    }
    true
}

/// Whether `s` begins with `prefix`.
pub fn has_prefix(s: &[u8], prefix: &[u8]) -> (r: bool)
    ensures
        r == starts_with(s@, prefix@),
{
    if prefix.len() > s.len() {
        return false;
    }
    let n: usize = prefix.len();
    let mut i: usize = 0;
    while i < n
        invariant
            n == prefix@.len(),
            n <= s@.len(),
            i <= n,
            forall|j: int| 0 <= j < i ==> s@[j] == prefix@[j],
        decreases n - i,
    {
        if s[i] != prefix[i] {
            assert(s@.subrange(0, n as int)[i as int] != prefix@[i as int]);
            return false;
        }
        i = i + 1;
    }
    assert(s@.subrange(0, n as int) =~= prefix@);
    true
}

/// Whether `needle` occurs somewhere in `hay`, but for the case of letters.
pub fn contains_text(hay: &[u8], needle: &[u8]) -> (r: bool)
    ensures
        r == contains_ignore_case(hay@, needle@),
{
    let n: usize = hay.len();
    let m: usize = needle.len();
    if m > n {
        return false;
    }
    let mut i: usize = 0;
    while i <= n - m
        invariant
            n == hay@.len(),
            m == needle@.len(),
            m <= n,
            i <= n - m + 1,
            forall|j: int| 0 <= j < i ==> !occurs_at(hay@, needle@, j),
        decreases n - m + 1 - i,
    {
        if equals_ignore_case(slice_subrange(hay, i, i + m), needle) {
            assert(occurs_at(hay@, needle@, i as int));
            return true;
        }
        i = i + 1;
    }
    false
}

/// A text is tidy where it is empty or neither begins nor ends with white
/// space.
pub open spec fn tidy(s: Seq<u8>) -> bool {
    s.len() > 0 ==> !is_space(s[0]) && !is_space(s.last())
}

/// Trimming leaves a tidy text as it is.
pub proof fn lemma_trim_tidy(s: Seq<u8>)
    requires
        tidy(s),
    ensures
        trim(s) == s,
{
}

/// Trimming takes white space off both ends of a tidy text and nothing
/// else.
pub proof fn lemma_trim_padded(front: Seq<u8>, s: Seq<u8>, back: Seq<u8>)
    requires
        tidy(s),
        forall|i: int| 0 <= i < front.len() ==> is_space(front[i]),
        forall|i: int| 0 <= i < back.len() ==> is_space(back[i]),
    ensures
        trim(front + s + back) == s,
{
    let whole = front + s + back;
    lemma_trim_start_skips(whole, front.len() as int);
    assert(whole.skip(front.len() as int) =~= s + back);
    if s.len() > 0 {
        assert((s + back)[0] == s[0]);
        assert(trim_start(s + back) == s + back);
        lemma_trim_end_drops(s + back, s.len() as int);
        assert((s + back).take(s.len() as int) =~= s);
    } else {
        assert(s + back =~= back);
        lemma_trim_start_skips(back, back.len() as int);
        assert(back.skip(back.len() as int) =~= Seq::<u8>::empty());
    }
}

/// A text that begins with something other than white space does not trim
/// to nothing.
pub proof fn lemma_trim_end_keeps(s: Seq<u8>)
    requires
        s.len() > 0,
        !is_space(s[0]),
    ensures
        trim_end(s).len() > 0,
    decreases s.len(),
{
    if s.len() > 1 && is_space(s.last()) {
        lemma_trim_end_keeps(s.drop_last());
    }
}

/// Trimming the end of a text that ends with something other than white
/// space leaves it as it is after the white space behind it is gone.
pub proof fn lemma_trim_end_padded(s: Seq<u8>, back: Seq<u8>)
    requires
        s.len() > 0,
        !is_space(s.last()),
        forall|i: int| 0 <= i < back.len() ==> is_space(back[i]),
    ensures
        trim_end(s + back) == s,
{
    lemma_trim_end_drops(s + back, s.len() as int);
    assert((s + back).take(s.len() as int) =~= s);
}

} // verus!

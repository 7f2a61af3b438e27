//! Small verified helpers over byte slices: equality (plain and
//! constant-time) and searching for a separator byte.
use vstd::prelude::*;

verus! {

/// Plain byte-slice equality.
pub fn bytes_eq(a: &[u8], b: &[u8]) -> (r: bool)
    ensures
        r == (a@ == b@),
{
    if a.len() != b.len() {
        assert(a@ != b@) by {
            assert(a@.len() != b@.len());
        }
        return false;
    }
    let n: usize = a.len();
    let mut i: usize = 0;
    while i < n
        invariant
            n == a@.len() && n == b@.len(),
            i <= n,
            forall|j: int| 0 <= j < i ==> a@[j] == b@[j],
        decreases n - i,
    {
        if a[i] != b[i] {
            return false;
        }
        i = i + 1;
    }
    assert(a@ =~= b@);
    true
}

/// Byte-slice equality that compares every position of same-length inputs,
/// accumulating differences instead of exiting at the first one, so that the
/// running time does not depend on where two equal-length inputs differ.
pub fn constant_time_eq(a: &[u8], b: &[u8]) -> (r: bool)
    ensures
        r == (a@ == b@),
{
    if a.len() != b.len() {
        assert(a@ != b@) by {
            assert(a@.len() != b@.len());
        }
        return false;
    }
    let n: usize = a.len();
    let mut acc: u8 = 0;
    let mut i: usize = 0;
    while i < n
        invariant
            n == a@.len() && n == b@.len(),
            i <= n,
            acc == 0 <==> (forall|j: int| 0 <= j < i ==> a@[j] == b@[j]),
        decreases n - i,
    {
        let x: u8 = a[i];
        let y: u8 = b[i];
        let d: u8 = x ^ y;
        assert(d == 0 <==> x == y) by (bit_vector)
            requires
                d == x ^ y,
        ;
        let old_acc: u8 = acc;
        acc = acc | d;
        assert(acc == 0 <==> old_acc == 0 && d == 0) by (bit_vector)
            requires
                acc == old_acc | d,
        ;
        i = i + 1;
    }
    if acc == 0 {
        assert(a@ =~= b@);
        true
    } else {
        assert(a@ != b@) by {
            let j = choose|j: int| 0 <= j < n && a@[j] != b@[j];
            assert(a@[j] != b@[j]);
        }
        false
    }
}

/// Index of the first occurrence of `sep` in `a` at or after `from`.
pub open spec fn first_index_from(a: Seq<u8>, sep: u8, from: int) -> Option<int>
    decreases a.len() - from when 0 <= from <= a.len()
{
    if from >= a.len() {
        None
    } else if a[from] == sep {
        Some(from)
    } else {
        first_index_from(a, sep, from + 1)
    }
}

pub proof fn lemma_first_index_from_props(a: Seq<u8>, sep: u8, from: int)
    requires
        0 <= from <= a.len(),
    ensures
        match first_index_from(a, sep, from) {
            Some(i) => from <= i < a.len() && a[i] == sep && (forall|j: int|
                from <= j < i ==> a[j] != sep),
            None => forall|j: int| from <= j < a.len() ==> a[j] != sep,
        },
    decreases a.len() - from,
{
    if from < a.len() && a[from] != sep {
        lemma_first_index_from_props(a, sep, from + 1);
    }
}

/// A separator at `at` with none before it is the first one found.
pub proof fn lemma_first_index_exact(a: Seq<u8>, sep: u8, from: int, at: int)
    requires
        0 <= from <= at < a.len(),
        a[at] == sep,
        forall|m: int| from <= m < at ==> a[m] != sep,
    ensures
        first_index_from(a, sep, from) == Some(at),
    decreases at - from,
{
    if from < at {
        lemma_first_index_exact(a, sep, from + 1, at);
    }
}

/// With no separator from `from` on, nothing is found.
pub proof fn lemma_first_index_none(a: Seq<u8>, sep: u8, from: int)
    requires
        0 <= from <= a.len(),
        forall|m: int| from <= m < a.len() ==> a[m] != sep,
    ensures
        first_index_from(a, sep, from) is None,
    decreases a.len() - from,
{
    if from < a.len() {
        lemma_first_index_none(a, sep, from + 1);
    }
}

/// Find the first occurrence of `sep` in `a`, scanning from `from`.
pub fn find_byte_from(a: &[u8], sep: u8, from: usize) -> (r: Option<usize>)
    requires
        from <= a@.len(),
    ensures
        match r {
            Some(i) => first_index_from(a@, sep, from as int) == Some(i as int),
            None => first_index_from(a@, sep, from as int) is None,
        },
{
    let n: usize = a.len();
    let mut i: usize = from;
    while i < n
        invariant
            n == a@.len(),
            from <= i <= n,
            first_index_from(a@, sep, from as int) == first_index_from(a@, sep, i as int),
        decreases n - i,
    {
        if a[i] == sep {
            return Some(i);
        }
        i = i + 1;
    }
    None
}

} // verus!

use vstd::prelude::*;

verus! {

/// Lexicographic order on byte strings, the order of `<` on `[u8]`:
/// the first differing byte decides, and a proper prefix is smaller.
pub open spec fn bytes_lt(a: Seq<u8>, b: Seq<u8>) -> bool
    decreases a.len(),
{
    if a.len() == 0 {
        b.len() > 0
    } else if b.len() == 0 {
        false
    } else if a[0] < b[0] {
        true
    } else if a[0] > b[0] {
        false
    } else {
        bytes_lt(a.drop_first(), b.drop_first())
    }
}

/// Two different byte strings are ordered one way and not the other.
pub proof fn lemma_bytes_lt_trichotomy(a: Seq<u8>, b: Seq<u8>)
    ensures
        a != b ==> (bytes_lt(a, b) != bytes_lt(b, a)),
        !(bytes_lt(a, b) && bytes_lt(b, a)),
        bytes_lt(a, a) == false,
    decreases a.len(),
{
    if a.len() > 0 {
        lemma_bytes_lt_trichotomy(a.drop_first(), a.drop_first());
    }
    if a.len() == 0 || b.len() == 0 {
        if a.len() == 0 && b.len() == 0 {
            assert(a =~= b);
        }
    } else if a[0] == b[0] {
        lemma_bytes_lt_trichotomy(a.drop_first(), b.drop_first());
        if a != b {
            assert(a.drop_first() != b.drop_first()) by {
                if a.drop_first() == b.drop_first() {
                    assert(a =~= seq![a[0]] + a.drop_first());
                    assert(b =~= seq![b[0]] + b.drop_first());
                }
            }
        }
    }
}

proof fn lemma_first_difference_decides(a: Seq<u8>, b: Seq<u8>, i: int)
    requires
        0 <= i < a.len(),
        i < b.len(),
        a.take(i) == b.take(i),
        a[i] != b[i],
    ensures
        bytes_lt(a, b) == (a[i] < b[i]),
    decreases i,
{
    if i > 0 {
        assert(a.take(i)[0] == a[0]);
        assert(b.take(i)[0] == b[0]);
        assert(a.drop_first().take(i - 1) =~= a.take(i).drop_first());
        assert(b.drop_first().take(i - 1) =~= b.take(i).drop_first());
        lemma_first_difference_decides(a.drop_first(), b.drop_first(), i - 1);
    }
}

proof fn lemma_proper_prefix_is_smaller(a: Seq<u8>, b: Seq<u8>)
    requires
        a.len() < b.len(),
        b.take(a.len() as int) == a,
    ensures
        bytes_lt(a, b),
    decreases a.len(),
{
    if a.len() > 0 {
        assert(b.take(a.len() as int)[0] == b[0]);
        assert(b.drop_first().take(a.drop_first().len() as int) =~= b.take(a.len() as int).drop_first());
        lemma_proper_prefix_is_smaller(a.drop_first(), b.drop_first());
    }
}

proof fn lemma_extension_is_not_smaller(a: Seq<u8>, b: Seq<u8>)
    requires
        b.len() <= a.len(),
        a.take(b.len() as int) == b,
    ensures
        !bytes_lt(a, b),
    decreases a.len(),
{
    if a.len() > 0 && b.len() > 0 {
        assert(a.take(b.len() as int)[0] == a[0]);
        assert(a.drop_first().take(b.drop_first().len() as int) =~= a.take(b.len() as int).drop_first());
        lemma_extension_is_not_smaller(a.drop_first(), b.drop_first());
    }
}

/// `bytes_lt` is the lexicographic order on unsigned bytes: at the first
/// position where the strings differ, the one with the smaller byte value is
/// the smaller; a proper prefix is smaller than the string it begins; and a
/// string is never smaller than one of its prefixes (itself included).
pub proof fn lemma_bytes_lt_is_lexicographic(a: Seq<u8>, b: Seq<u8>)
    ensures
        forall|i: int|
            #![trigger a.take(i), b.take(i)]
            0 <= i < a.len() && i < b.len() && a.take(i) == b.take(i) && a[i] != b[i] ==> bytes_lt(a, b) == (a[i]
                < b[i]),
        a.len() < b.len() && b.take(a.len() as int) == a ==> bytes_lt(a, b),
        b.len() <= a.len() && a.take(b.len() as int) == b ==> !bytes_lt(a, b),
{
    assert forall|i: int|
        #![trigger a.take(i), b.take(i)]
        0 <= i < a.len() && i < b.len() && a.take(i) == b.take(i) && a[i] != b[i] implies bytes_lt(a, b) == (a[i]
            < b[i]) by {
        lemma_first_difference_decides(a, b, i);
    }
    if a.len() < b.len() && b.take(a.len() as int) == a {
        lemma_proper_prefix_is_smaller(a, b);
    }
    if b.len() <= a.len() && a.take(b.len() as int) == b {
        lemma_extension_is_not_smaller(a, b);
    }
}

proof fn lemma_bytes_lt_skip(a: Seq<u8>, b: Seq<u8>, i: int)
    requires
        0 <= i < a.len(),
        i < b.len(),
        a[i] == b[i],
    ensures
        bytes_lt(a.skip(i), b.skip(i)) == bytes_lt(a.skip(i + 1), b.skip(i + 1)),
{
    assert(a.skip(i).drop_first() =~= a.skip(i + 1));
    assert(b.skip(i).drop_first() =~= b.skip(i + 1));
}

/// Compares two byte strings the way `a < b` does on byte slices.
pub fn bytes_less_than(a: &[u8], b: &[u8]) -> (r: bool)
    ensures
        r == bytes_lt(a@, b@),
{
    let mut i: usize = 0;
    assert(a@.skip(0) =~= a@);
    assert(b@.skip(0) =~= b@);
    while i < a.len() && i < b.len()
        invariant
            i <= a.len(),
            i <= b.len(),
            bytes_lt(a@, b@) == bytes_lt(a@.skip(i as int), b@.skip(i as int)),
        decreases a.len() - i,
    {
        if a[i] < b[i] {
            return true;
        }
        if a[i] > b[i] {
            return false;
        }
        proof {
            lemma_bytes_lt_skip(a@, b@, i as int);
        }
        i = i + 1;
    }
    i < b.len()
}

/// Compares two byte strings for equality.
pub fn bytes_equal(a: &[u8], b: &[u8]) -> (r: bool)
    ensures
        r == (a@ == b@),
{
    if a.len() != b.len() {
        return false;
    }
    let mut i: usize = 0;
    while i < a.len()
        invariant
            i <= a.len(),
            a.len() == b.len(),
            forall|j: int| 0 <= j < i ==> a@[j] == b@[j],
        decreases a.len() - i,
    {
        if a[i] != b[i] {
            return false;
        }
        i = i + 1;
    }
    assert(a@ =~= b@);
    true
}

/// A copy of a byte string.
pub fn copy_bytes(a: &[u8]) -> (r: Vec<u8>)
    ensures
        r@ == a@,
{
    let mut r: Vec<u8> = Vec::new();
    let mut i: usize = 0;
    while i < a.len()
        invariant
            i <= a.len(),
            r@ == a@.take(i as int),
        decreases a.len() - i,
    {
        r.push(a[i]);
        i = i + 1;
        assert(r@ =~= a@.take(i as int));
    }
    assert(a@.take(i as int) =~= a@);
    r
}

} // verus!

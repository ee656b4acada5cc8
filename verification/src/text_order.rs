//! The order of texts.
use vstd::prelude::*;
use vstd::utf8::encode_utf8;

verus! {

/// Whether one sequence of bytes comes before another in lexicographic order.
pub open spec fn bytes_less(a: Seq<u8>, b: Seq<u8>) -> bool
    decreases a.len(),
{
    if b.len() == 0 {
        false
    } else if a.len() == 0 {
        true
    } else if a[0] != b[0] {
        a[0] < b[0]
    } else {
        bytes_less(a.drop_first(), b.drop_first())
    }
}

/// Whether one text comes before another: lexicographically by its bytes.
pub open spec fn text_less(a: Seq<char>, b: Seq<char>) -> bool {
    bytes_less(encode_utf8(a), encode_utf8(b))
}

/// The order of bytes is irreflexive.
proof fn lemma_bytes_irreflexive(a: Seq<u8>)
    ensures
        !bytes_less(a, a),
    decreases a.len(),
{
    if a.len() > 0 {
        lemma_bytes_irreflexive(a.drop_first());
    }
}

/// Where `a` comes before `b`, and `c` does not, `a` comes before `c`.
proof fn lemma_bytes_less_not_less(a: Seq<u8>, b: Seq<u8>, c: Seq<u8>)
    requires
        bytes_less(a, b),
        !bytes_less(c, b),
    ensures
        bytes_less(a, c),
    decreases a.len(),
{
    if c.len() > 0 && a.len() > 0 && a[0] == b[0] && c[0] == b[0] {
        lemma_bytes_less_not_less(a.drop_first(), b.drop_first(), c.drop_first());
    }
}

/// Of two sequences of bytes at most one comes before the other.
proof fn lemma_bytes_asymmetric(a: Seq<u8>, b: Seq<u8>)
    requires
        bytes_less(a, b),
    ensures
        !bytes_less(b, a),
    decreases a.len(),
{
    if a.len() > 0 && a[0] == b[0] {
        lemma_bytes_asymmetric(a.drop_first(), b.drop_first());
    }
}

/// No text comes before itself.
pub proof fn lemma_irreflexive(a: Seq<char>)
    ensures
        !text_less(a, a),
{
    lemma_bytes_irreflexive(encode_utf8(a));
}

/// Where `a` comes before `b`, and `c` does not, `a` comes before `c`.
pub proof fn lemma_less_not_less(a: Seq<char>, b: Seq<char>, c: Seq<char>)
    requires
        text_less(a, b),
        !text_less(c, b),
    ensures
        text_less(a, c),
{
    lemma_bytes_less_not_less(encode_utf8(a), encode_utf8(b), encode_utf8(c));
}

/// Of two texts at most one comes before the other.
pub proof fn lemma_asymmetric(a: Seq<char>, b: Seq<char>)
    requires
        text_less(a, b),
    ensures
        !text_less(b, a),
{
    lemma_bytes_asymmetric(encode_utf8(a), encode_utf8(b));
}

/// Whether one text comes before another.
pub fn precedes(a: &str, b: &str) -> (r: bool)
    ensures
        r == text_less(a@, b@),
{
    let x = a.as_bytes();
    let y = b.as_bytes();
    let mut i: usize = 0;
    assert(x@.skip(0) =~= x@);
    assert(y@.skip(0) =~= y@);
    while i < x.len() && i < y.len() && x[i] == y[i]
        invariant
            i <= x@.len(),
            i <= y@.len(),
            bytes_less(x@, y@) == bytes_less(x@.skip(i as int), y@.skip(i as int)),
        decreases x@.len() - i,
    {
        assert(x@.skip(i as int).drop_first() =~= x@.skip(i + 1));
        assert(y@.skip(i as int).drop_first() =~= y@.skip(i + 1));
        i += 1;
    }
    if i >= y.len() {
        false
    } else if i >= x.len() {
        true
    } else {
        x[i] < y[i]
    }
}

} // verus!

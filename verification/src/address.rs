//! The order in which addresses are listed: by their UTF-8 bytes, shorter
//! before longer where one is a prefix of the other.

use vstd::prelude::*;
use vstd::utf8::{decode_utf8, encode_utf8, encode_utf8_decode_utf8};

verus! {

/// Whether `a` comes before `b`, given that the two agree below position `i`.
pub open spec fn bytes_lt_from(a: Seq<u8>, b: Seq<u8>, i: int) -> bool
    decreases a.len() - i,
{
    if i < 0 || i >= b.len() {
        false
    } else if i >= a.len() {
        true
    } else if a[i] != b[i] {
        a[i] < b[i]
    } else {
        bytes_lt_from(a, b, i + 1)
    }
}

/// Whether `a` comes strictly before `b` in lexicographic order.
pub open spec fn bytes_lt(a: Seq<u8>, b: Seq<u8>) -> bool {
    bytes_lt_from(a, b, 0)
}

/// Whether address `a` is listed strictly before address `b`.
pub open spec fn addr_lt(a: Seq<char>, b: Seq<char>) -> bool {
    bytes_lt(encode_utf8(a), encode_utf8(b))
}

/// Whether two byte strings agree below position `i`.
pub open spec fn agree_below(a: Seq<u8>, b: Seq<u8>, i: int) -> bool {
    &&& 0 <= i <= a.len()
    &&& i <= b.len()
    &&& forall|k: int| 0 <= k < i ==> a[k] == b[k]
}

proof fn lemma_bytes_irreflexive_from(a: Seq<u8>, i: int)
    requires
        0 <= i <= a.len(),
    ensures
        !bytes_lt_from(a, a, i),
    decreases a.len() - i,
{
    if i < a.len() {
        lemma_bytes_irreflexive_from(a, i + 1);
    }
}

proof fn lemma_bytes_transitive_from(a: Seq<u8>, b: Seq<u8>, c: Seq<u8>, i: int)
    requires
        0 <= i,
        bytes_lt_from(a, b, i),
        bytes_lt_from(b, c, i),
    ensures
        bytes_lt_from(a, c, i),
    decreases c.len() - i,
{
    if i < a.len() && a[i] == b[i] && b[i] == c[i] {
        lemma_bytes_transitive_from(a, b, c, i + 1);
    }
}

proof fn lemma_bytes_total_from(a: Seq<u8>, b: Seq<u8>, i: int)
    requires
        agree_below(a, b, i),
        !bytes_lt_from(a, b, i),
        !bytes_lt_from(b, a, i),
    ensures
        a == b,
    decreases a.len() - i,
{
    if i < a.len() && i < b.len() {
        lemma_bytes_total_from(a, b, i + 1);
    } else {
        assert(a =~= b);
    }
}

/// No address comes before itself.
pub proof fn lemma_addr_irreflexive(a: Seq<char>)
    ensures
        !addr_lt(a, a),
{
    lemma_bytes_irreflexive_from(encode_utf8(a), 0);
}

/// The order of addresses is transitive.
pub proof fn lemma_addr_transitive(a: Seq<char>, b: Seq<char>, c: Seq<char>)
    requires
        addr_lt(a, b),
        addr_lt(b, c),
    ensures
        addr_lt(a, c),
{
    lemma_bytes_transitive_from(encode_utf8(a), encode_utf8(b), encode_utf8(c), 0);
}

/// Of two different addresses one comes before the other.
pub proof fn lemma_addr_total(a: Seq<char>, b: Seq<char>)
    requires
        !addr_lt(a, b),
        !addr_lt(b, a),
    ensures
        a == b,
{
    lemma_bytes_total_from(encode_utf8(a), encode_utf8(b), 0);
    encode_utf8_decode_utf8(a);
    encode_utf8_decode_utf8(b);
    assert(decode_utf8(encode_utf8(a)) == a);
    assert(decode_utf8(encode_utf8(b)) == b);
}

/// Whether `a` is listed strictly before `b`.
pub fn address_lt(a: &String, b: &String) -> (r: bool)
    ensures
        r == addr_lt(a@, b@),
{
    let x: &[u8] = a.as_str().as_bytes();
    let y: &[u8] = b.as_str().as_bytes();
    let mut i: usize = 0;
    while i < x.len() && i < y.len()
        invariant
            i <= x.len(),
            i <= y.len(),
            x@ == encode_utf8(a@),
            y@ == encode_utf8(b@),
            bytes_lt(x@, y@) == bytes_lt_from(x@, y@, i as int),
        decreases x.len() - i,
    {
        assert(bytes_lt_from(x@, y@, i as int) == if x@[i as int] != y@[i as int] {
            x@[i as int] < y@[i as int]
        } else {
            bytes_lt_from(x@, y@, i + 1)
        });
        if x[i] != y[i] {
            return x[i] < y[i];
        }
        i = i + 1;
    }
    assert(bytes_lt_from(x@, y@, i as int) == (i < y@.len()));
    i < y.len()
}

} // verus!

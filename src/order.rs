//! The order of secret names: byte-wise over their UTF-8 encoding, which is
//! how `String` compares.
use vstd::prelude::*;
use vstd::utf8::{decode_utf8, encode_utf8, encode_utf8_decode_utf8};

verus! {

/// `a` comes strictly before `b` in lexicographic byte order.
pub open spec fn bytes_lt(a: Seq<u8>, b: Seq<u8>) -> bool
    decreases a.len(),
{
    if b.len() == 0 {
        false
    } else if a.len() == 0 {
        true
    } else if a[0] != b[0] {
        a[0] < b[0]
    } else {
        bytes_lt(a.drop_first(), b.drop_first())
    }
}

/// Name `a` sorts strictly before name `b`.
pub open spec fn name_lt(a: Seq<char>, b: Seq<char>) -> bool {
    bytes_lt(encode_utf8(a), encode_utf8(b))
}

/// No name sorts before itself.
pub proof fn lemma_name_lt_irreflexive(a: Seq<char>)
    ensures
        !name_lt(a, a),
{
    lemma_bytes_lt_irreflexive(encode_utf8(a));
}

/// The order on names is transitive.
pub proof fn lemma_name_lt_transitive(a: Seq<char>, b: Seq<char>, c: Seq<char>)
    requires
        name_lt(a, b),
        name_lt(b, c),
    ensures
        name_lt(a, c),
{
    lemma_bytes_lt_transitive(encode_utf8(a), encode_utf8(b), encode_utf8(c));
}

proof fn lemma_encode_injective(a: Seq<char>, b: Seq<char>)
    requires
        a != b,
    ensures
        encode_utf8(a) != encode_utf8(b),
{
    encode_utf8_decode_utf8(a);
    encode_utf8_decode_utf8(b);
}

proof fn lemma_bytes_lt_irreflexive(a: Seq<u8>)
    ensures
        !bytes_lt(a, a),
    decreases a.len(),
{
    if a.len() > 0 {
        lemma_bytes_lt_irreflexive(a.drop_first());
    }
}

proof fn lemma_bytes_lt_transitive(a: Seq<u8>, b: Seq<u8>, c: Seq<u8>)
    requires
        bytes_lt(a, b),
        bytes_lt(b, c),
    ensures
        bytes_lt(a, c),
    decreases a.len(),
{
    if a.len() > 0 && a[0] == b[0] && b[0] == c[0] {
        lemma_bytes_lt_transitive(a.drop_first(), b.drop_first(), c.drop_first());
    }
}

proof fn lemma_bytes_lt_total(a: Seq<u8>, b: Seq<u8>)
    requires
        a != b,
    ensures
        bytes_lt(a, b) || bytes_lt(b, a),
    decreases a.len(),
{
    if a.len() == 0 && b.len() == 0 {
        assert(a =~= b);
    } else if a.len() > 0 && b.len() > 0 && a[0] == b[0] {
        if a.drop_first() =~= b.drop_first() {
            assert forall|i: int| 0 <= i < a.len() implies a[i] == b[i] by {
                if i > 0 {
                    assert(a[i] == a.drop_first()[i - 1]);
                    assert(b[i] == b.drop_first()[i - 1]);
                }
            }
            assert(a =~= b);
        } else {
            lemma_bytes_lt_total(a.drop_first(), b.drop_first());
        }
    }
}

/// Compares two names: negative, zero or positive as `a` sorts before,
/// equals, or sorts after `b`.
pub fn compare_names(a: &str, b: &str) -> (r: i8)
    ensures
        r < 0 <==> name_lt(a@, b@),
        r == 0 <==> a@ == b@,
        r > 0 <==> name_lt(b@, a@),
{
    let x = a.as_bytes();
    let y = b.as_bytes();
    let ghost xs = x@;
    let ghost ys = y@;
    proof {
        assert(xs.subrange(0, xs.len() as int) =~= xs);
        assert(ys.subrange(0, ys.len() as int) =~= ys);
        lemma_bytes_lt_irreflexive(xs);
        if a@ != b@ {
            lemma_encode_injective(a@, b@);
            lemma_bytes_lt_total(xs, ys);
        }
    }
    let mut i: usize = 0;
    while i < x.len() && i < y.len() && x[i] == y[i]
        invariant
            i <= xs.len(),
            i <= ys.len(),
            x@ == xs,
            y@ == ys,
            xs == encode_utf8(a@),
            ys == encode_utf8(b@),
            xs.subrange(0, i as int) == ys.subrange(0, i as int),
            bytes_lt(xs, ys) == bytes_lt(
                xs.subrange(i as int, xs.len() as int),
                ys.subrange(i as int, ys.len() as int),
            ),
            bytes_lt(ys, xs) == bytes_lt(
                ys.subrange(i as int, ys.len() as int),
                xs.subrange(i as int, xs.len() as int),
            ),
        decreases xs.len() - i,
    {
        proof {
            let sx = xs.subrange(i as int, xs.len() as int);
            let sy = ys.subrange(i as int, ys.len() as int);
            assert(sx.drop_first() =~= xs.subrange(i + 1, xs.len() as int));
            assert(sy.drop_first() =~= ys.subrange(i + 1, ys.len() as int));
            assert(xs.subrange(0, i + 1) =~= xs.subrange(0, i as int).push(xs[i as int]));
            assert(ys.subrange(0, i + 1) =~= ys.subrange(0, i as int).push(ys[i as int]));
        }
        i = i + 1;
    }
    proof {
        let sx = xs.subrange(i as int, xs.len() as int);
        let sy = ys.subrange(i as int, ys.len() as int);
        if i == xs.len() && i == ys.len() {
            assert(xs =~= xs.subrange(0, i as int));
            assert(ys =~= ys.subrange(0, i as int));
            assert(xs == ys);
            assert(decode_utf8(xs) == a@) by { encode_utf8_decode_utf8(a@); }
            assert(decode_utf8(ys) == b@) by { encode_utf8_decode_utf8(b@); }
        } else if i < xs.len() && i < ys.len() {
            assert(sx[0] == xs[i as int]);
            assert(sy[0] == ys[i as int]);
        }
    }
    if i < y.len() {
        if i < x.len() {
            if x[i] < y[i] {
                -1
            } else {
                1
            }
        } else {
            -1
        }
    } else if i < x.len() {
        1
    } else {
        0
    }
}

} // verus!

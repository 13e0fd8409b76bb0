//! Three-way comparison, and the order of texts by their bytes.

use vstd::prelude::*;
use vstd::utf8::encode_utf8;

verus! {

/// How a first value stands to a second one.
#[derive(Clone, Copy, Debug, PartialEq, Eq, Structural)]
pub enum Order {
    Less,
    Equal,
    Greater,
}

/// The lexicographic order of two byte sequences: the first position at which
/// they differ decides, and a proper prefix comes first.
pub open spec fn byte_order(a: Seq<u8>, b: Seq<u8>) -> Order
    decreases a.len(),
{
    if a.len() == 0 {
        if b.len() == 0 {
            Order::Equal
        } else {
            Order::Less
        }
    } else if b.len() == 0 {
        Order::Greater
    } else if a[0] < b[0] {
        Order::Less
    } else if a[0] > b[0] {
        Order::Greater
    } else {
        byte_order(a.drop_first(), b.drop_first())
    }
}

/// The order of two texts: that of their UTF-8 encodings, byte by byte.
pub open spec fn text_order(a: Seq<char>, b: Seq<char>) -> Order {
    byte_order(encode_utf8(a), encode_utf8(b))
}

/// Byte sequences compare equal exactly when they are the same sequence.
pub proof fn lemma_byte_order_equal(a: Seq<u8>, b: Seq<u8>)
    ensures
        byte_order(a, b) == Order::Equal <==> a == b,
    decreases a.len(),
{
    if a.len() > 0 && b.len() > 0 {
        lemma_byte_order_equal(a.drop_first(), b.drop_first());
        if a[0] == b[0] && a.drop_first() == b.drop_first() {
            assert(a =~= seq![a[0]] + a.drop_first());
            assert(b =~= seq![b[0]] + b.drop_first());
        }
    } else if a.len() == 0 && b.len() == 0 {
        assert(a =~= b);
    }
}

/// Swapping the two sides turns less into greater and greater into less.
pub proof fn lemma_byte_order_flip(a: Seq<u8>, b: Seq<u8>)
    ensures
        byte_order(a, b) == Order::Less <==> byte_order(b, a) == Order::Greater,
        byte_order(a, b) == Order::Equal <==> byte_order(b, a) == Order::Equal,
    decreases a.len(),
{
    if a.len() > 0 && b.len() > 0 {
        lemma_byte_order_flip(a.drop_first(), b.drop_first());
    }
}

/// What is not greater than a second sequence, which is not greater than a
/// third, is not greater than the third.
pub proof fn lemma_byte_order_transitive(a: Seq<u8>, b: Seq<u8>, c: Seq<u8>)
    requires
        byte_order(a, b) != Order::Greater,
        byte_order(b, c) != Order::Greater,
    ensures
        byte_order(a, c) != Order::Greater,
    decreases a.len(),
{
    if a.len() > 0 && b.len() > 0 && c.len() > 0 {
        if a[0] == b[0] && b[0] == c[0] {
            lemma_byte_order_transitive(a.drop_first(), b.drop_first(), c.drop_first());
        }
    }
}

/// Compares what `a` holds from `from_a` on with what `b` holds from `from_b`
/// on.
pub fn order_bytes(a: &[u8], from_a: usize, b: &[u8], from_b: usize) -> (order: Order)
    requires
        from_a <= a@.len(),
        from_b <= b@.len(),
    ensures
        order == byte_order(a@.skip(from_a as int), b@.skip(from_b as int)),
{
    let mut i: usize = from_a;
    let mut j: usize = from_b;
    while i < a.len() && j < b.len()
        invariant
            from_a <= i <= a@.len(),
            from_b <= j <= b@.len(),
            byte_order(a@.skip(from_a as int), b@.skip(from_b as int)) == byte_order(
                a@.skip(i as int),
                b@.skip(j as int),
            ),
        decreases a@.len() - i,
    {
        proof {
            assert(a@.skip(i as int)[0] == a@[i as int]);
            assert(b@.skip(j as int)[0] == b@[j as int]);
            assert(a@.skip(i as int).drop_first() =~= a@.skip(i + 1));
            assert(b@.skip(j as int).drop_first() =~= b@.skip(j + 1));
        }
        if a[i] < b[j] {
            return Order::Less;
        } else if a[i] > b[j] {
            return Order::Greater;
        }
        i = i + 1;
        j = j + 1;
    }
    if i == a.len() {
        if j == b.len() {
            Order::Equal
        } else {
            Order::Less
        }
    } else {
        Order::Greater
    }
}

/// Compares two texts by their bytes.
pub fn order_texts(a: &str, b: &str) -> (order: Order)
    ensures
        order == text_order(a@, b@),
{
    let x = a.as_bytes();
    let y = b.as_bytes();
    proof {
        assert(x@.skip(0) =~= x@);
        assert(y@.skip(0) =~= y@);
    }
    order_bytes(x, 0, y, 0)
}

} // verus!

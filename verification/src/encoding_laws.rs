//! Different contents have different canonical bytes, and different hashes
//! different texts.

use crate::encoding::{
    base58_digits, base58_letter, base58_text, be2, be4, be8, be_value, blake3_hash, cbor_head,
    cbor_pair, cbor_tagged_pair, cbor_text, content_uri, leading_zeros,
};
use vstd::prelude::*;
use vstd::utf8::{encode_utf8, encode_utf8_decode_utf8};

verus! {

/// The number of bytes that a CBOR head takes.
spec fn head_len(n: nat) -> nat {
    if n < 24 {
        1
    } else if n < 0x100 {
        2
    } else if n < 0x1_0000 {
        3
    } else if n < 0x1_0000_0000 {
        5
    } else {
        9
    }
}

proof fn lemma_be2(n: nat, m: nat)
    requires
        n < 0x1_0000,
        m < 0x1_0000,
        be2(n) == be2(m),
    ensures
        n == m,
{
    assert(be2(n)[0] == (n / 256) as u8 && be2(n)[1] == (n % 256) as u8);
    assert(be2(m)[0] == (m / 256) as u8 && be2(m)[1] == (m % 256) as u8);
    assert(n / 256 < 256 && m / 256 < 256);
}

proof fn lemma_be4(n: nat, m: nat)
    requires
        n < 0x1_0000_0000,
        m < 0x1_0000_0000,
        be4(n) == be4(m),
    ensures
        n == m,
{
    assert(be4(n).take(2) =~= be2(n / 0x1_0000));
    assert(be4(m).take(2) =~= be2(m / 0x1_0000));
    assert(be4(n).skip(2) =~= be2(n % 0x1_0000));
    assert(be4(m).skip(2) =~= be2(m % 0x1_0000));
    lemma_be2(n / 0x1_0000, m / 0x1_0000);
    lemma_be2(n % 0x1_0000, m % 0x1_0000);
}

proof fn lemma_be8(n: nat, m: nat)
    requires
        n <= u64::MAX,
        m <= u64::MAX,
        be8(n) == be8(m),
    ensures
        n == m,
{
    assert(be8(n).take(4) =~= be4(n / 0x1_0000_0000));
    assert(be8(m).take(4) =~= be4(m / 0x1_0000_0000));
    assert(be8(n).skip(4) =~= be4(n % 0x1_0000_0000));
    assert(be8(m).skip(4) =~= be4(m % 0x1_0000_0000));
    lemma_be4(n / 0x1_0000_0000, m / 0x1_0000_0000);
    lemma_be4(n % 0x1_0000_0000, m % 0x1_0000_0000);
}

/// Heads of one major type are read off the front of the bytes in one way.
proof fn lemma_head(major: nat, n: nat, m: nat, x: Seq<u8>, y: Seq<u8>)
    requires
        major < 8,
        n <= u64::MAX,
        m <= u64::MAX,
        cbor_head(major, n) + x == cbor_head(major, m) + y,
    ensures
        n == m,
        x == y,
{
    let a = cbor_head(major, n);
    let b = cbor_head(major, m);
    assert((a + x)[0] == a[0] && (b + y)[0] == b[0]);
    assert(a.len() == head_len(n) && b.len() == head_len(m));
    assert(head_len(n) == head_len(m));
    assert((a + x).take(a.len() as int) =~= a);
    assert((b + y).take(b.len() as int) =~= b);
    assert((a + x).skip(a.len() as int) =~= x);
    assert((b + y).skip(b.len() as int) =~= y);
    assert(a == b);
    if n < 24 {
    } else if n < 0x100 {
        assert(a[1] == n as u8 && b[1] == m as u8);
    } else if n < 0x1_0000 {
        assert(a.skip(1) =~= be2(n) && b.skip(1) =~= be2(m));
        lemma_be2(n, m);
    } else if n < 0x1_0000_0000 {
        assert(a.skip(1) =~= be4(n) && b.skip(1) =~= be4(m));
        lemma_be4(n, m);
    } else {
        assert(a.skip(1) =~= be8(n) && b.skip(1) =~= be8(m));
        lemma_be8(n, m);
    }
}

/// Whether a text is short enough for a machine to hold.
pub open spec fn fits(text: Seq<char>) -> bool {
    encode_utf8(text).len() <= u64::MAX
}

/// A text is read off the front of the bytes in one way.
proof fn lemma_text(a: Seq<char>, b: Seq<char>, x: Seq<u8>, y: Seq<u8>)
    requires
        fits(a),
        fits(b),
        cbor_text(a) + x == cbor_text(b) + y,
    ensures
        a == b,
        x == y,
{
    let ea = encode_utf8(a);
    let eb = encode_utf8(b);
    assert(cbor_text(a) + x =~= cbor_head(3, ea.len()) + (ea + x));
    assert(cbor_text(b) + y =~= cbor_head(3, eb.len()) + (eb + y));
    lemma_head(3, ea.len(), eb.len(), ea + x, eb + y);
    assert((ea + x).take(ea.len() as int) =~= ea);
    assert((eb + y).take(eb.len() as int) =~= eb);
    assert((ea + x).skip(ea.len() as int) =~= x);
    assert((eb + y).skip(eb.len() as int) =~= y);
    encode_utf8_decode_utf8(a);
    encode_utf8_decode_utf8(b);
}

/// Different texts have different canonical bytes.
pub proof fn law_texts_encode_apart(a: Seq<char>, b: Seq<char>)
    requires
        fits(a),
        fits(b),
        cbor_text(a) == cbor_text(b),
    ensures
        a == b,
{
    assert(cbor_text(a) + Seq::<u8>::empty() =~= cbor_text(a));
    assert(cbor_text(b) + Seq::<u8>::empty() =~= cbor_text(b));
    lemma_text(a, b, Seq::empty(), Seq::empty());
}

/// What a tagged pair of fields holds: the tag, and the key and the text of
/// each field.
pub struct TaggedView {
    pub tag: Seq<char>,
    pub key: Seq<char>,
    pub value: Seq<char>,
    pub other_key: Seq<char>,
    pub other_value: Seq<char>,
}

impl TaggedView {
    /// Whether all texts are short enough for a machine to hold.
    pub open spec fn fits(self) -> bool {
        &&& fits(self.tag)
        &&& fits(self.key)
        &&& fits(self.value)
        &&& fits(self.other_key)
        &&& fits(self.other_value)
    }

    /// The canonical bytes.
    pub open spec fn encoding(self) -> Seq<u8> {
        cbor_tagged_pair(self.tag, self.key, self.value, self.other_key, self.other_value)
    }
}

/// Different tagged pairs have different canonical bytes.
pub proof fn law_tagged_pairs_encode_apart(a: TaggedView, b: TaggedView)
    requires
        a.fits(),
        b.fits(),
        a.encoding() == b.encoding(),
    ensures
        a == b,
{
    let none = Seq::<u8>::empty();
    let pa = cbor_pair(a.key, a.value, a.other_key, a.other_value);
    let pb = cbor_pair(b.key, b.value, b.other_key, b.other_value);
    assert(a.encoding() =~= cbor_head(5, 1) + (cbor_text(a.tag) + pa));
    assert(b.encoding() =~= cbor_head(5, 1) + (cbor_text(b.tag) + pb));
    lemma_head(5, 1, 1, cbor_text(a.tag) + pa, cbor_text(b.tag) + pb);
    lemma_text(a.tag, b.tag, pa, pb);
    let a3 = cbor_text(a.other_value) + none;
    let b3 = cbor_text(b.other_value) + none;
    let a2 = cbor_text(a.other_key) + a3;
    let b2 = cbor_text(b.other_key) + b3;
    let a1 = cbor_text(a.value) + a2;
    let b1 = cbor_text(b.value) + b2;
    let a0 = cbor_text(a.key) + a1;
    let b0 = cbor_text(b.key) + b1;
    assert(pa =~= cbor_head(5, 2) + a0);
    assert(pb =~= cbor_head(5, 2) + b0);
    lemma_head(5, 2, 2, a0, b0);
    lemma_text(a.key, b.key, a1, b1);
    lemma_text(a.value, b.value, a2, b2);
    lemma_text(a.other_key, b.other_key, a3, b3);
    lemma_text(a.other_value, b.other_value, none, none);
}

/// Different digits have different letters, and none but zero has `1`.
proof fn lemma_letter(a: nat, b: nat)
    requires
        a < 58,
        b < 58,
    ensures
        base58_letter(a) == base58_letter(b) ==> a == b,
        base58_letter(a) == '1' ==> a == 0,
{
}

/// The first digit of a number is not zero.
proof fn lemma_first_digit(n: nat)
    requires
        n > 0,
    ensures
        base58_digits(n).len() > 0,
        base58_digits(n)[0] != '1',
    decreases n,
{
    if n < 58 {
        assert(n / 58 == 0 && n % 58 == n);
        assert(base58_digits(0).len() == 0);
        lemma_letter(n, n);
    } else {
        lemma_first_digit(n / 58);
    }
}

/// Different numbers have different digits.
proof fn lemma_digits(n: nat, m: nat)
    requires
        base58_digits(n) == base58_digits(m),
    ensures
        n == m,
    decreases n,
{
    let a = base58_digits(n);
    let b = base58_digits(m);
    if n == 0 {
        if m > 0 {
            lemma_first_digit(m);
        }
    } else {
        lemma_first_digit(n);
        assert(m != 0);
        assert(a.last() == base58_letter(n % 58) && b.last() == base58_letter(m % 58));
        lemma_letter(n % 58, m % 58);
        assert(a.drop_last() =~= base58_digits(n / 58));
        assert(b.drop_last() =~= base58_digits(m / 58));
        lemma_digits(n / 58, m / 58);
    }
}

/// Zero bytes that come first do not change the number.
proof fn lemma_skip_zeros(bytes: Seq<u8>)
    ensures
        leading_zeros(bytes) <= bytes.len(),
        forall|i: int| 0 <= i < leading_zeros(bytes) ==> bytes[i] == 0,
        leading_zeros(bytes) < bytes.len() ==> bytes[leading_zeros(bytes) as int] != 0,
        be_value(bytes) == be_value(bytes.skip(leading_zeros(bytes) as int)),
    decreases bytes.len(),
{
    if bytes.len() == 0 || bytes[0] != 0 {
        assert(bytes.skip(0) =~= bytes);
    } else {
        let rest = bytes.drop_first();
        lemma_skip_zeros(rest);
        let z = leading_zeros(rest) as int;
        assert(bytes.skip(z + 1) =~= rest.skip(z));
        assert(bytes[z + 1] == rest[z] || z >= rest.len());
        assert forall|i: int| 0 <= i < z + 1 implies bytes[i] == 0 by {
            if i > 0 {
                assert(rest[i - 1] == bytes[i]);
            }
        }
        lemma_drop_zero(bytes);
    }
}

/// A zero byte in front adds nothing to the number.
proof fn lemma_drop_zero(bytes: Seq<u8>)
    requires
        bytes.len() > 0,
        bytes[0] == 0,
    ensures
        be_value(bytes) == be_value(bytes.drop_first()),
    decreases bytes.len(),
{
    if bytes.len() == 1 {
        assert(bytes.drop_last() =~= Seq::<u8>::empty());
        assert(bytes.drop_first() =~= Seq::<u8>::empty());
        assert(be_value(bytes.drop_last()) == 0);
    } else {
        lemma_drop_zero(bytes.drop_last());
        assert(bytes.drop_last().drop_first() =~= bytes.drop_first().drop_last());
        assert(bytes.drop_first().last() == bytes.last());
    }
}

/// Bytes that do not start with zero are determined by their number.
proof fn lemma_value(a: Seq<u8>, b: Seq<u8>)
    requires
        a.len() > 0 ==> a[0] != 0,
        b.len() > 0 ==> b[0] != 0,
        be_value(a) == be_value(b),
    ensures
        a == b,
    decreases a.len(),
{
    lemma_positive(a);
    lemma_positive(b);
    if a.len() == 0 {
        assert(a =~= b);
    } else {
        let p = be_value(a.drop_last());
        let q = be_value(b.drop_last());
        assert(p * 256 + a.last() as nat == q * 256 + b.last() as nat);
        assert(p == q && a.last() == b.last());
        lemma_value(a.drop_last(), b.drop_last());
        assert(a =~= a.drop_last().push(a.last()));
        assert(b =~= b.drop_last().push(b.last()));
    }
}

proof fn lemma_positive(a: Seq<u8>)
    requires
        a.len() > 0 ==> a[0] != 0,
    ensures
        a.len() > 0 <==> be_value(a) > 0,
    decreases a.len(),
{
    if a.len() > 0 {
        lemma_positive(a.drop_last());
    }
}

/// How often `1` comes first in a text form.
proof fn lemma_ones(bytes: Seq<u8>)
    ensures
        base58_text(bytes).len() >= leading_zeros(bytes),
        forall|i: int| 0 <= i < leading_zeros(bytes) ==> base58_text(bytes)[i] == '1',
        base58_text(bytes).len() > leading_zeros(bytes) ==> base58_text(
            bytes,
        )[leading_zeros(bytes) as int] != '1',
{
    if be_value(bytes) > 0 {
        lemma_first_digit(be_value(bytes));
    }
}

/// Different bytes have different text forms in base 58.
pub proof fn law_base58_writes_apart(a: Seq<u8>, b: Seq<u8>)
    requires
        base58_text(a) == base58_text(b),
    ensures
        a == b,
{
    let x = leading_zeros(a) as int;
    let y = leading_zeros(b) as int;
    let text = base58_text(a);
    lemma_ones(a);
    lemma_ones(b);
    assert(x == y) by {
        if x < y {
            assert(text[x] == '1');
        } else if y < x {
            assert(text[y] == '1');
        }
    }
    assert(text.skip(x) =~= base58_digits(be_value(a)));
    assert(base58_text(b).skip(x) =~= base58_digits(be_value(b)));
    lemma_digits(be_value(a), be_value(b));
    lemma_skip_zeros(a);
    lemma_skip_zeros(b);
    assert(a.skip(x).len() > 0 ==> a.skip(x)[0] == a[x]);
    assert(b.skip(x).len() > 0 ==> b.skip(x)[0] == b[x]);
    lemma_value(a.skip(x), b.skip(x));
    assert(a =~= a.take(x) + a.skip(x));
    assert(b =~= b.take(x) + b.skip(x));
    assert(a.take(x) =~= b.take(x));
}

/// Contents with the same URI have the same hash.
pub proof fn law_uri_names_the_hash(a: Seq<u8>, b: Seq<u8>)
    requires
        content_uri(a) == content_uri(b),
    ensures
        blake3_hash(a) == blake3_hash(b),
{
    let prefix = "did:key:z6Mk"@;
    let n = prefix.len() as int;
    assert(content_uri(a).skip(n) =~= base58_text(blake3_hash(a)));
    assert(content_uri(b).skip(n) =~= base58_text(blake3_hash(b)));
    law_base58_writes_apart(blake3_hash(a), blake3_hash(b));
}

} // verus!

//! Canonical bytes, hashes, and the text form of hashes.

use crate::identity::Entity;
use base58::ToBase58;
use std::collections::BTreeMap;
use vstd::prelude::*;
use vstd::utf8::{encode_utf8, is_ascii_chars};

verus! {

/// A number below 2^16 as two bytes, the high one first.
pub open spec fn be2(n: nat) -> Seq<u8> {
    seq![(n / 256) as u8, (n % 256) as u8]
}

/// A number below 2^32 as four bytes, the high one first.
pub open spec fn be4(n: nat) -> Seq<u8> {
    be2(n / 0x1_0000) + be2(n % 0x1_0000)
}

/// A number below 2^64 as eight bytes, the high one first.
pub open spec fn be8(n: nat) -> Seq<u8> {
    be4(n / 0x1_0000_0000) + be4(n % 0x1_0000_0000)
}

/// How CBOR starts an item of the major type `major` with the argument `n`:
/// in the fewest bytes that hold `n`.
pub open spec fn cbor_head(major: nat, n: nat) -> Seq<u8> {
    let high = major * 32;
    if n < 24 {
        seq![(high + n) as u8]
    } else if n < 0x100 {
        seq![(high + 24) as u8, n as u8]
    } else if n < 0x1_0000 {
        seq![(high + 25) as u8] + be2(n)
    } else if n < 0x1_0000_0000 {
        seq![(high + 26) as u8] + be4(n)
    } else {
        seq![(high + 27) as u8] + be8(n)
    }
}

/// A text in CBOR: the number of its bytes, and its bytes in UTF-8.
pub open spec fn cbor_text(text: Seq<char>) -> Seq<u8> {
    cbor_head(3, encode_utf8(text).len()) + encode_utf8(text)
}

/// A map of two texts under two keys in CBOR.
pub open spec fn cbor_pair(
    key: Seq<char>,
    value: Seq<char>,
    other_key: Seq<char>,
    other_value: Seq<char>,
) -> Seq<u8> {
    cbor_head(5, 2) + cbor_text(key) + cbor_text(value) + cbor_text(other_key) + cbor_text(
        other_value,
    )
}

/// A map of two texts under a tag in CBOR: a map whose one key is the tag.
pub open spec fn cbor_tagged_pair(
    tag: Seq<char>,
    key: Seq<char>,
    value: Seq<char>,
    other_key: Seq<char>,
    other_value: Seq<char>,
) -> Seq<u8> {
    cbor_head(5, 1) + cbor_text(tag) + cbor_pair(key, value, other_key, other_value)
}

/// Whether DAG-CBOR puts the ASCII key `a` before `b`, by its length or else
/// by its first letter.
pub open spec fn key_before(a: Seq<char>, b: Seq<char>) -> bool {
    &&& is_ascii_chars(a)
    &&& is_ascii_chars(b)
    &&& a.len() < b.len() || (a.len() == b.len() && a.len() > 0 && (a[0] as u32) < (b[0] as u32))
}

/// Encodes a text as DAG-CBOR.
///
/// Calls `serde_ipld_dagcbor::to_vec` on a string. Taken on trust: the result
/// is the CBOR head for a text of that many bytes, followed by the bytes.
#[verifier::external_body]
fn dag_cbor_text(text: &str) -> (result: Vec<u8>)
    ensures
        result@ == cbor_text(text@),
{
    serde_ipld_dagcbor::to_vec(text).expect("a text always encodes")
}

/// Encodes two texts under a tag as DAG-CBOR.
///
/// Calls `serde_ipld_dagcbor::to_vec` on a map from the tag to a map of the
/// two fields. Taken on trust: maps are written with the number of their
/// entries and then, key before value, the entries in the order of their
/// encoded keys; the arguments name the fields in that order.
#[verifier::external_body]
pub(crate) fn dag_cbor_tagged(tag: &str, first: (&str, &str), second: (&str, &str)) -> (result: Vec<u8>)
    requires
        key_before(first.0@, second.0@),
    ensures
        result@ == cbor_tagged_pair(tag@, first.0@, first.1@, second.0@, second.1@),
{
    let fields = BTreeMap::from([first, second]);
    let tagged = BTreeMap::from([(tag, fields)]);
    serde_ipld_dagcbor::to_vec(&tagged).expect("a map of texts always encodes")
}

/// The BLAKE3 hash of the bytes.
pub uninterp spec fn blake3_hash(bytes: Seq<u8>) -> Seq<u8>;

/// Hashes the bytes.
///
/// Calls `blake3::hash`. Taken on trust: the hash depends on nothing but the
/// bytes.
#[verifier::external_body]
fn hash(bytes: &[u8]) -> (result: [u8; 32])
    ensures
        result@ == blake3_hash(bytes@),
{
    *blake3::hash(bytes).as_bytes()
}

/// The number that the bytes write in base 256, the high byte first.
pub open spec fn be_value(bytes: Seq<u8>) -> nat
    decreases bytes.len(),
{
    if bytes.len() == 0 {
        0
    } else {
        be_value(bytes.drop_last()) * 256 + bytes.last() as nat
    }
}

/// How many zero bytes come first.
pub open spec fn leading_zeros(bytes: Seq<u8>) -> nat
    decreases bytes.len(),
{
    if bytes.len() == 0 || bytes[0] != 0 {
        0
    } else {
        1 + leading_zeros(bytes.drop_first())
    }
}

/// The letter for a digit in base 58: digits, capitals and small letters in
/// the order of their codes, without `0`, `I`, `O` and `l`.
pub open spec fn base58_letter(digit: nat) -> char {
    if digit < 9 {
        ('1' as nat + digit) as char
    } else if digit < 17 {
        ('A' as nat + (digit - 9)) as char
    } else if digit < 22 {
        ('J' as nat + (digit - 17)) as char
    } else if digit < 33 {
        ('P' as nat + (digit - 22)) as char
    } else if digit < 44 {
        ('a' as nat + (digit - 33)) as char
    } else {
        ('m' as nat + (digit - 44)) as char
    }
}

/// The number in base 58, the high digit first; nothing for zero.
pub open spec fn base58_digits(n: nat) -> Seq<char>
    decreases n,
{
    if n == 0 {
        Seq::empty()
    } else {
        base58_digits(n / 58).push(base58_letter(n % 58))
    }
}

/// The text form of bytes in base 58: a `1` for each zero byte that comes
/// first, then the digits of the number that the bytes write.
pub open spec fn base58_text(bytes: Seq<u8>) -> Seq<char> {
    Seq::new(leading_zeros(bytes), |i: int| '1') + base58_digits(be_value(bytes))
}

/// Writes bytes in base 58.
///
/// Calls `base58::ToBase58::to_base58`, which is documented for up to 128
/// bytes. Taken on trust: the result is the text form above.
#[verifier::external_body]
pub(crate) fn base58(bytes: &[u8]) -> (result: String)
    requires
        bytes@.len() <= 128,
    ensures
        result@ == base58_text(bytes@),
{
    bytes.to_base58()
}

/// Something that has canonical bytes.
pub trait Content {
    /// The canonical bytes.
    spec fn encoding(&self) -> Seq<u8>;

    /// Writes the canonical bytes.
    fn encode(&self) -> (result: Vec<u8>)
        ensures
            result@ == self.encoding(),
    ;
}

impl Content for String {
    open spec fn encoding(&self) -> Seq<u8> {
        cbor_text(self@)
    }

    fn encode(&self) -> (result: Vec<u8>) {
        dag_cbor_text(self.as_str())
    }
}

/// The URI of what has the given canonical bytes.
pub open spec fn content_uri(encoding: Seq<u8>) -> Seq<char> {
    "did:key:z6Mk"@ + base58_text(blake3_hash(encoding))
}

/// Names entities by their content.
pub trait EntityExt: Sized {
    /// The entity that is defined by `value`. Whoever describes the same
    /// content names the same entity.
    fn of<T: Content>(value: &T) -> (result: Entity)
        ensures
            result@ == content_uri(value.encoding()),
    ;
}

impl EntityExt for Entity {
    fn of<T: Content>(value: &T) -> (result: Entity) {
        let bytes = value.encode();
        let digest = hash(bytes.as_slice());
        let encoded = base58(digest.as_slice());
        let mut uri = "did:key:z6Mk".to_owned();
        uri.append(encoded.as_str());
        Entity(uri)
    }
}

} // verus!

//! The byte format of a slot: one unsigned 64-bit number, eight bytes,
//! most significant byte first.

use vstd::prelude::*;

verus! {

/// How many bytes a slot holds for a value.
pub const SLOT_LEN: usize = 8;

/// The number of byte strings of length `len`, that is 256 to the power `len`.
pub open spec fn span(len: nat) -> nat
    decreases len,
{
    if len == 0 {
        1
    } else {
        256 * span((len - 1) as nat)
    }
}

/// The number that `bytes` denotes as base-256 digits, most significant first.
pub open spec fn be_value(bytes: Seq<u8>) -> nat
    decreases bytes.len(),
{
    if bytes.len() == 0 {
        0
    } else {
        be_value(bytes.drop_last()) * 256 + bytes.last() as nat
    }
}

/// The `len` least significant base-256 digits of `value`, most significant first.
pub open spec fn be_digits(value: nat, len: nat) -> Seq<u8>
    decreases len,
{
    if len == 0 {
        Seq::empty()
    } else {
        be_digits(value / 256, (len - 1) as nat).push((value % 256) as u8)
    }
}

/// The content of a slot that holds `value`.
pub open spec fn encoded(value: u64) -> Seq<u8> {
    be_digits(value as nat, SLOT_LEN as nat)
}

/// The value that a slot with this content holds: the number denoted by its
/// first eight bytes, and none where it has fewer.
pub open spec fn decoded(content: Seq<u8>) -> Option<u64> {
    if content.len() >= SLOT_LEN {
        Some(be_value(content.take(SLOT_LEN as int)) as u64)
    } else {
        None
    }
}

/// Eight bytes span exactly the 64-bit numbers, and shorter strings no more.
pub proof fn lemma_span_of_slot(len: nat)
    requires
        len <= SLOT_LEN,
    ensures
        span(len) <= span(SLOT_LEN as nat),
        span(SLOT_LEN as nat) == 0x1_0000_0000_0000_0000,
{
    reveal_with_fuel(span, 9);
}

/// A byte string denotes a number below the span of its length.
pub proof fn lemma_value_below_span(bytes: Seq<u8>)
    ensures
        be_value(bytes) < span(bytes.len()),
    decreases bytes.len(),
{
    if bytes.len() > 0 {
        lemma_value_below_span(bytes.drop_last());
    }
}

/// The digits of a number that fits in `len` digits denote that number.
pub proof fn lemma_value_of_digits(value: nat, len: nat)
    requires
        value < span(len),
    ensures
        be_digits(value, len).len() == len,
        be_value(be_digits(value, len)) == value,
    decreases len,
{
    if len > 0 {
        let shorter = be_digits(value / 256, (len - 1) as nat);
        lemma_value_of_digits(value / 256, (len - 1) as nat);
        assert(be_digits(value, len).drop_last() =~= shorter);
    }
}

/// A byte string is the digits of the number it denotes.
pub proof fn lemma_digits_of_value(bytes: Seq<u8>)
    ensures
        be_digits(be_value(bytes), bytes.len()) == bytes,
    decreases bytes.len(),
{
    if bytes.len() > 0 {
        lemma_digits_of_value(bytes.drop_last());
        assert(bytes.drop_last().push(bytes.last()) =~= bytes);
    }
}

/// Decoding what was encoded gives the value back.
pub proof fn law_decode_inverts_encode(value: u64)
    ensures
        encoded(value).len() == SLOT_LEN,
        decoded(encoded(value)) == Some(value),
{
    lemma_span_of_slot(SLOT_LEN as nat);
    lemma_value_of_digits(value as nat, SLOT_LEN as nat);
    assert(encoded(value).take(SLOT_LEN as int) =~= encoded(value));
}

/// Every content of eight bytes is the encoding of the value it decodes to,
/// so no two such contents hold the same value.
pub proof fn law_encode_inverts_decode(content: Seq<u8>)
    requires
        content.len() == SLOT_LEN,
    ensures
        decoded(content) matches Some(value) && encoded(value) == content,
{
    lemma_span_of_slot(SLOT_LEN as nat);
    lemma_value_below_span(content);
    lemma_digits_of_value(content);
    assert(content.take(SLOT_LEN as int) =~= content);
}

/// What a content decodes to depends on its first eight bytes alone.
pub proof fn law_decode_ignores_the_tail(content: Seq<u8>, tail: Seq<u8>)
    requires
        content.len() >= SLOT_LEN,
    ensures
        decoded(content + tail) == decoded(content),
{
    assert((content + tail).take(SLOT_LEN as int) =~= content.take(SLOT_LEN as int));
}

/// Writes `value` as the eight bytes of a slot.
pub fn encode(value: u64) -> (bytes: [u8; 8])
    ensures
        bytes@ == encoded(value),
{
    let mut bytes = [0u8; 8];
    let mut rest = value;
    let mut at: usize = SLOT_LEN;
    while at > 0
        invariant
            at <= SLOT_LEN,
            encoded(value) == be_digits(rest as nat, at as nat) + bytes@.subrange(at as int, 8),
        decreases at,
    {
        let ghost placed = bytes@.subrange(at as int, 8);
        at -= 1;
        bytes[at] = (rest % 256) as u8;
        proof {
            let digit = (rest % 256) as u8;
            assert(bytes@.subrange(at as int, 8) =~= seq![digit] + placed);
            assert(be_digits(rest as nat, (at + 1) as nat) + placed =~= be_digits(
                (rest / 256) as nat,
                at as nat,
            ) + (seq![digit] + placed));
        }
        rest = rest / 256;
    }
    assert(bytes@.subrange(0, 8) =~= bytes@);
    bytes
}

/// Reads the value of a slot from its content; none where the content has
/// fewer than eight bytes. Bytes after the eighth are not looked at.
pub fn decode(content: &[u8]) -> (value: Option<u64>)
    ensures
        value == decoded(content@),
{
    if content.len() < SLOT_LEN {
        return None;
    }
    let mut value: u64 = 0;
    let mut at: usize = 0;
    while at < SLOT_LEN
        invariant
            at <= SLOT_LEN <= content@.len(),
            value as nat == be_value(content@.take(at as int)),
        decreases SLOT_LEN - at,
    {
        proof {
            let read = content@.take(at as int);
            let next = content@.take(at + 1);
            lemma_value_below_span(read);
            lemma_span_of_slot((at + 1) as nat);
            assert(next.drop_last() =~= read);
            assert(next.last() == content@[at as int]);
        }
        value = value * 256 + content[at] as u64;
        at += 1;
    }
    Some(value)
}

} // verus!

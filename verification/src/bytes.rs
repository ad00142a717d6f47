//! Byte strings put together from parts.
use vstd::prelude::*;

verus! {

/// `number` in four bytes, the lowest first.
pub open spec fn le_bytes(number: u32) -> Seq<u8> {
    seq![
        (number % 256) as u8,
        (number / 256 % 256) as u8,
        (number / 65536 % 256) as u8,
        (number / 16777216) as u8,
    ]
}

/// Appends `number` in four bytes, the lowest first.
pub(crate) fn push_le_bytes(into: &mut Vec<u8>, number: u32)
    ensures
        final(into)@ == old(into)@ + le_bytes(number),
{
    into.push((number % 256) as u8);
    into.push((number / 256 % 256) as u8);
    into.push((number / 65536 % 256) as u8);
    into.push((number / 16777216) as u8);
    assert(into@ =~= old(into)@ + le_bytes(number));
}

/// Appends `bytes`.
pub(crate) fn push_bytes(into: &mut Vec<u8>, bytes: &[u8])
    ensures
        final(into)@ == old(into)@ + bytes@,
{
    into.extend_from_slice(bytes);
    assert(into@ =~= old(into)@ + bytes@);
}

/// Different numbers have different bytes.
pub proof fn lemma_le_bytes_injective(a: u32, b: u32)
    requires
        le_bytes(a) == le_bytes(b),
    ensures
        a == b,
{
    assert(le_bytes(a)[0] == le_bytes(b)[0]);
    assert(le_bytes(a)[1] == le_bytes(b)[1]);
    assert(le_bytes(a)[2] == le_bytes(b)[2]);
    assert(le_bytes(a)[3] == le_bytes(b)[3]);
}

} // verus!

//! Unsigned LEB128: the variable-length integer used for every count,
//! length and index of the binary format.
use vstd::prelude::*;

verus! {

/// Base-128 little-endian groups, the continuation bit set on all but the
/// last byte.
pub open spec fn uleb(n: nat) -> Seq<u8>
    decreases n,
{
    if n < 128 {
        seq![n as u8]
    } else {
        seq![(n % 128 + 128) as u8] + uleb(n / 128)
    }
}

/// Relies on leb128::write::unsigned, which appends the unsigned LEB128
/// groups of `n` to the writer; writing into a `Vec` cannot fail.
#[verifier::external_body]
pub(crate) fn write_uleb(out: &mut Vec<u8>, n: u64)
    ensures
        final(out)@ == old(out)@ + uleb(n as nat),
{
    let _ = leb128::write::unsigned(out, n);
}

/// A value below 128 takes one byte, equal to the value.
pub proof fn lemma_uleb_small(n: nat)
    requires
        n < 128,
    ensures
        uleb(n) == seq![n as u8],
{
    reveal_with_fuel(uleb, 1);
}

} // verus!

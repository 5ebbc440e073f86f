use vstd::prelude::*;
use zeroize::Zeroize;

verus! {

/// Relies on `<String as zeroize::Zeroize>::zeroize`: the bytes are overwritten
/// with zeros and the string is left empty.
#[verifier::external_body]
pub(crate) fn wipe_string(s: &mut String)
    ensures
        final(s)@ == Seq::<char>::empty(),
    opens_invariants none
    no_unwind
{
    s.zeroize();
}

/// Relies on `<Vec<u8> as zeroize::Zeroize>::zeroize`: the elements are
/// overwritten with zeros and the vector is left empty.
#[verifier::external_body]
pub(crate) fn wipe_bytes(v: &mut Vec<u8>)
    ensures
        final(v)@ == Seq::<u8>::empty(),
{
    v.zeroize();
}

/// Relies on `<[u8; 32] as zeroize::Zeroize>::zeroize`: every byte is set to zero.
#[verifier::external_body]
pub(crate) fn wipe_key(k: &mut [u8; 32])
    ensures
        final(k)@ == Seq::new(32, |_i: int| 0u8),
    opens_invariants none
    no_unwind
{
    k.zeroize();
}

} // verus!

verus! {

/// Overwrites a password with zeros and leaves it empty.
pub fn erase_password(p: &mut String)
    ensures
        final(p)@.len() == 0,
{
    wipe_string(p);
}

/// Overwrites a key with zeros.
pub fn erase_key(k: &mut [u8; 32])
    ensures
        forall|i: int| 0 <= i < 32 ==> #[trigger] final(k)@[i] == 0,
{
    wipe_key(k);
}

} // verus!

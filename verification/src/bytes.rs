use vstd::prelude::*;

verus! {

/// The big-endian encoding of a 16-bit value.
pub open spec fn u16_be_bytes(v: u16) -> Seq<u8> {
    seq![(v >> 8u16) as u8, v as u8]
}

/// Appends the bytes of `s` to `v`.
pub fn push_all(v: &mut Vec<u8>, s: &[u8])
    ensures
        final(v)@ == old(v)@ + s@,
{
    let mut i: usize = 0;
    while i < s.len()
        invariant
            i <= s@.len(),
            v@ == old(v)@ + s@.subrange(0, i as int),
        decreases s@.len() - i,
    {
        v.push(s[i]);
        i = i + 1;
        assert(v@ =~= old(v)@ + s@.subrange(0, i as int));
    }
    assert(s@.subrange(0, s@.len() as int) =~= s@);
}

/// Appends the big-endian encoding of `x` to `v`.
pub fn push_u16_be(v: &mut Vec<u8>, x: u16)
    ensures
        final(v)@ == old(v)@ + u16_be_bytes(x),
{
    v.push((x >> 8u16) as u8);
    v.push(#[verifier::truncate] (x as u8));
    assert(v@ =~= old(v)@ + u16_be_bytes(x));
}

/// Reading back the big-endian encoding of a 16-bit value gives the value.
pub proof fn lemma_u16_be_round_trip(x: u16)
    ensures
        ((x >> 8u16) as u8) as int * 256 + (x as u8) as int == x,
{
    assert(((x >> 8u16) as u8) as int * 256 + (x as u8) as int == x) by (bit_vector);
}

} // verus!

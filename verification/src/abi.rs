use vstd::prelude::*;

verus! {

/// A sequence of `n` zero bytes.
pub open spec fn zeros(n: nat) -> Seq<u8> {
    Seq::new(n, |i: int| 0u8)
}

/// True when every byte of `bz` in `[lo, hi)` is zero.
pub open spec fn spec_zeros_at(bz: Seq<u8>, lo: int, hi: int) -> bool {
    forall|j: int| lo <= j < hi ==> bz[j] == 0
}

/// A 16-bit value as two bytes, most significant first.
pub open spec fn spec_u16_to_be_bytes(x: u16) -> Seq<u8> {
    seq![((x >> 8) & 0xff) as u8, (x & 0xff) as u8]
}

pub open spec fn spec_u16_from_be_bytes(s: Seq<u8>) -> u16
    recommends
        s.len() == 2,
{
    ((s[0] as u16) << 8) | (s[1] as u16)
}

/// A 128-bit value as sixteen bytes, most significant first.
pub open spec fn spec_u128_to_be_bytes(x: u128) -> Seq<u8> {
    seq![
        ((x >> 120) & 0xff) as u8,
        ((x >> 112) & 0xff) as u8,
        ((x >> 104) & 0xff) as u8,
        ((x >> 96) & 0xff) as u8,
        ((x >> 88) & 0xff) as u8,
        ((x >> 80) & 0xff) as u8,
        ((x >> 72) & 0xff) as u8,
        ((x >> 64) & 0xff) as u8,
        ((x >> 56) & 0xff) as u8,
        ((x >> 48) & 0xff) as u8,
        ((x >> 40) & 0xff) as u8,
        ((x >> 32) & 0xff) as u8,
        ((x >> 24) & 0xff) as u8,
        ((x >> 16) & 0xff) as u8,
        ((x >> 8) & 0xff) as u8,
        (x & 0xff) as u8,
    ]
}

pub open spec fn spec_u128_from_be_bytes(s: Seq<u8>) -> u128
    recommends
        s.len() == 16,
{
    ((s[0] as u128) << 120) | ((s[1] as u128) << 112) | ((s[2] as u128) << 104) | ((s[3] as u128)
        << 96) | ((s[4] as u128) << 88) | ((s[5] as u128) << 80) | ((s[6] as u128) << 72) | ((
    s[7] as u128) << 64) | ((s[8] as u128) << 56) | ((s[9] as u128) << 48) | ((s[10] as u128)
        << 40) | ((s[11] as u128) << 32) | ((s[12] as u128) << 24) | ((s[13] as u128) << 16) | ((
    s[14] as u128) << 8) | (s[15] as u128)
}

/// A 32-byte word holding a 128-bit value in its low half, as the fixed-word
/// wire convention writes offsets, lengths and packed integers.
pub open spec fn abi_word(x: u128) -> Seq<u8> {
    zeros(16) + spec_u128_to_be_bytes(x)
}

/// Bytes needed to pad a field of `n` bytes to a multiple of the 32-byte word.
pub open spec fn pad32_len(n: nat) -> nat {
    if n % 32 == 0 {
        0
    } else {
        (32 - n % 32) as nat
    }
}

pub proof fn lemma_u16_be_round_trip(x: u16)
    ensures
        spec_u16_to_be_bytes(x).len() == 2,
        spec_u16_from_be_bytes(spec_u16_to_be_bytes(x)) == x,
{
    assert((x >> 8) & 0xff < 256 && x & 0xff < 256) by (bit_vector);
    assert(x == ((((x >> 8) & 0xff) << 8) | (x & 0xff))) by (bit_vector);
}

#[verifier::spinoff_prover]
pub proof fn lemma_u128_be_round_trip(x: u128)
    ensures
        spec_u128_to_be_bytes(x).len() == 16,
        spec_u128_from_be_bytes(spec_u128_to_be_bytes(x)) == x,
{
    assert({
        &&& (x >> 120) & 0xff < 256
        &&& (x >> 112) & 0xff < 256
        &&& (x >> 104) & 0xff < 256
        &&& (x >> 96) & 0xff < 256
        &&& (x >> 88) & 0xff < 256
        &&& (x >> 80) & 0xff < 256
        &&& (x >> 72) & 0xff < 256
        &&& (x >> 64) & 0xff < 256
        &&& (x >> 56) & 0xff < 256
        &&& (x >> 48) & 0xff < 256
        &&& (x >> 40) & 0xff < 256
        &&& (x >> 32) & 0xff < 256
        &&& (x >> 24) & 0xff < 256
        &&& (x >> 16) & 0xff < 256
        &&& (x >> 8) & 0xff < 256
        &&& x & 0xff < 256
    }) by (bit_vector);
    assert(x == ((((x >> 120) & 0xff) << 120) | (((x >> 112) & 0xff) << 112) | (((x >> 104) & 0xff)
        << 104) | (((x >> 96) & 0xff) << 96) | (((x >> 88) & 0xff) << 88) | (((x >> 80) & 0xff)
        << 80) | (((x >> 72) & 0xff) << 72) | (((x >> 64) & 0xff) << 64) | (((x >> 56) & 0xff)
        << 56) | (((x >> 48) & 0xff) << 48) | (((x >> 40) & 0xff) << 40) | (((x >> 32) & 0xff)
        << 32) | (((x >> 24) & 0xff) << 24) | (((x >> 16) & 0xff) << 16) | (((x >> 8) & 0xff) << 8)
        | (x & 0xff))) by (bit_vector);
}

/// Appends `n` zero bytes.
pub fn push_zeros(out: &mut Vec<u8>, n: usize)
    ensures
        final(out)@ == old(out)@ + zeros(n as nat),
{
    let mut i: usize = 0;
    while i < n
        invariant
            i <= n,
            out@ == old(out)@ + zeros(i as nat),
        decreases n - i,
    {
        out.push(0u8);
        i = i + 1;
        proof {
            assert(out@ =~= old(out)@ + zeros(i as nat));
        }
    }
}

/// Appends a 16-bit value, most significant byte first.
pub fn push_u16_be(out: &mut Vec<u8>, x: u16)
    ensures
        final(out)@ == old(out)@ + spec_u16_to_be_bytes(x),
{
    out.push(((x >> 8) & 0xff) as u8);
    out.push((x & 0xff) as u8);
    proof {
        assert(out@ =~= old(out)@ + spec_u16_to_be_bytes(x));
    }
}

/// Appends a 128-bit value, most significant byte first.
pub fn push_u128_be(out: &mut Vec<u8>, x: u128)
    ensures
        final(out)@ == old(out)@ + spec_u128_to_be_bytes(x),
{
    out.push(((x >> 120) & 0xff) as u8);
    out.push(((x >> 112) & 0xff) as u8);
    out.push(((x >> 104) & 0xff) as u8);
    out.push(((x >> 96) & 0xff) as u8);
    out.push(((x >> 88) & 0xff) as u8);
    out.push(((x >> 80) & 0xff) as u8);
    out.push(((x >> 72) & 0xff) as u8);
    out.push(((x >> 64) & 0xff) as u8);
    out.push(((x >> 56) & 0xff) as u8);
    out.push(((x >> 48) & 0xff) as u8);
    out.push(((x >> 40) & 0xff) as u8);
    out.push(((x >> 32) & 0xff) as u8);
    out.push(((x >> 24) & 0xff) as u8);
    out.push(((x >> 16) & 0xff) as u8);
    out.push(((x >> 8) & 0xff) as u8);
    out.push((x & 0xff) as u8);
    proof {
        assert(out@ =~= old(out)@ + spec_u128_to_be_bytes(x));
    }
}

/// Appends a 32-byte word holding `x` in its low half.
pub fn push_abi_word(out: &mut Vec<u8>, x: u128)
    ensures
        final(out)@ == old(out)@ + abi_word(x),
{
    push_zeros(out, 16);
    push_u128_be(out, x);
    proof {
        assert(out@ =~= old(out)@ + abi_word(x));
    }
}

/// Reads the 16-bit value stored most significant byte first at `off`.
pub fn read_u16_be(bz: &[u8], off: usize) -> (r: u16)
    requires
        off + 2 <= bz@.len(),
    ensures
        r == spec_u16_from_be_bytes(bz@.subrange(off as int, off as int + 2)),
{
    let r = ((bz[off] as u16) << 8) | (bz[off + 1] as u16);
    proof {
        let s = bz@.subrange(off as int, off as int + 2);
        assert(s[0] == bz@[off as int] && s[1] == bz@[off as int + 1]);
    }
    r
}

/// Reads the 128-bit value stored most significant byte first at `off`.
pub fn read_u128_be(bz: &[u8], off: usize) -> (r: u128)
    requires
        off + 16 <= bz@.len(),
    ensures
        r == spec_u128_from_be_bytes(bz@.subrange(off as int, off as int + 16)),
{
    let r = ((bz[off] as u128) << 120) | ((bz[off + 1] as u128) << 112) | ((bz[off + 2] as u128)
        << 104) | ((bz[off + 3] as u128) << 96) | ((bz[off + 4] as u128) << 88) | ((bz[off
        + 5] as u128) << 80) | ((bz[off + 6] as u128) << 72) | ((bz[off + 7] as u128) << 64) | ((
    bz[off + 8] as u128) << 56) | ((bz[off + 9] as u128) << 48) | ((bz[off + 10] as u128) << 40)
        | ((bz[off + 11] as u128) << 32) | ((bz[off + 12] as u128) << 24) | ((bz[off
        + 13] as u128) << 16) | ((bz[off + 14] as u128) << 8) | (bz[off + 15] as u128);
    proof {
        let s = bz@.subrange(off as int, off as int + 16);
        assert(forall|j: int| 0 <= j < 16 ==> s[j] == bz@[off as int + j]);
    }
    r
}

/// True when every byte of `bz` in `[start, end)` is zero.
pub fn is_all_zero(bz: &[u8], start: usize, end: usize) -> (r: bool)
    requires
        start <= end <= bz@.len(),
    ensures
        r == spec_zeros_at(bz@, start as int, end as int),
{
    let mut i: usize = start;
    while i < end
        invariant
            start <= i <= end <= bz@.len(),
            forall|j: int| start <= j < i ==> bz@[j] == 0,
        decreases end - i,
    {
        if bz[i] != 0 {
            return false;
        }
        i = i + 1;
    }
    true
}

/// Copies the bytes of `bz` in `[start, end)` into a fresh vector.
pub fn copy_range(bz: &[u8], start: usize, end: usize) -> (r: Vec<u8>)
    requires
        start <= end <= bz@.len(),
    ensures
        r@ == bz@.subrange(start as int, end as int),
{
    let mut out: Vec<u8> = Vec::new();
    let mut i: usize = start;
    while i < end
        invariant
            start <= i <= end <= bz@.len(),
            out@ == bz@.subrange(start as int, i as int),
        decreases end - i,
    {
        out.push(bz[i]);
        i = i + 1;
        proof {
            assert(out@ =~= bz@.subrange(start as int, i as int));
        }
    }
    out
}

} // verus!

//! ASCII rendering helpers: decimal and lowercase-hex digits on byte
//! strings, and byte-string comparison.

use vstd::prelude::*;

verus! {

/// The decimal rendering of `n`, most significant digit first.
pub open spec fn dec_seq(n: nat) -> Seq<u8>
    decreases n,
{
    if n < 10 {
        seq![(0x30 + n) as u8]
    } else {
        dec_seq(n / 10).push((0x30 + n % 10) as u8)
    }
}

/// The decimal rendering of a signed value: a leading `-` for negatives.
pub open spec fn dec_seq_signed(n: int) -> Seq<u8> {
    if n < 0 {
        seq![0x2du8] + dec_seq((-n) as nat)
    } else {
        dec_seq(n as nat)
    }
}

/// Appends the decimal rendering of `n` to `out`.
pub fn push_dec_u64(out: &mut Vec<u8>, n: u64)
    ensures
        final(out)@ == old(out)@ + dec_seq(n as nat),
    decreases n,
{
    if n >= 10 {
        push_dec_u64(out, n / 10);
    }
    out.push(0x30 + (n % 10) as u8);
    proof {
        assert(out@ =~= old(out)@ + dec_seq(n as nat));
    }
}

/// Appends the decimal rendering of `n` to `out`, with a sign if negative.
pub fn push_dec_i32(out: &mut Vec<u8>, n: i32)
    ensures
        final(out)@ == old(out)@ + dec_seq_signed(n as int),
{
    if n < 0 {
        out.push(0x2d);
        let magnitude: u64 = (-(n as i64)) as u64;
        push_dec_u64(out, magnitude);
        assert(out@ =~= old(out)@ + dec_seq_signed(n as int));
    } else {
        push_dec_u64(out, n as u64);
    }
}

/// Whether two byte strings hold the same bytes.
pub fn bytes_eq(a: &[u8], b: &[u8]) -> (r: bool)
    ensures
        r == (a@ == b@),
{
    if a.len() != b.len() {
        return false;
    }
    let mut i: usize = 0;
    while i < a.len()
        invariant
            i <= a@.len(),
            a@.len() == b@.len(),
            forall|j: int| 0 <= j < i ==> a@[j] == b@[j],
        decreases a@.len() - i,
    {
        if a[i] != b[i] {
            return false;
        }
        i = i + 1;
    }
    proof {
        assert(a@ =~= b@);
    }
    true
}

/// Appends every byte of `src` to `out`, in order.
pub fn push_all(out: &mut Vec<u8>, src: &[u8])
    ensures
        final(out)@ == old(out)@ + src@,
{
    let mut i: usize = 0;
    while i < src.len()
        invariant
            i <= src@.len(),
            out@ == old(out)@ + src@.subrange(0, i as int),
        decreases src@.len() - i,
    {
        out.push(src[i]);
        proof {
            assert(src@.subrange(0, i + 1) =~= src@.subrange(0, i as int).push(src@[i as int]));
        }
        i = i + 1;
    }
    proof {
        assert(src@.subrange(0, src@.len() as int) =~= src@);
        assert(out@ =~= old(out)@ + src@);
    }
}

/// The lowercase-hex digit for a value below 16.
pub open spec fn hex_digit(n: nat) -> u8 {
    if n < 10 {
        (0x30 + n) as u8
    } else {
        (0x61 + (n - 10)) as u8
    }
}

/// The two lowercase-hex digits of one byte.
pub open spec fn hex_pair(b: u8) -> Seq<u8> {
    seq![hex_digit((b / 16) as nat), hex_digit((b % 16) as nat)]
}

/// The lowercase-hex rendering of a byte string: two digits per byte.
pub open spec fn hex_lower(s: Seq<u8>) -> Seq<u8>
    decreases s.len(),
{
    if s.len() == 0 {
        Seq::empty()
    } else {
        hex_pair(s[0]) + hex_lower(s.drop_first())
    }
}

pub proof fn lemma_hex_lower_len(s: Seq<u8>)
    ensures
        hex_lower(s).len() == 2 * s.len(),
    decreases s.len(),
{
    if s.len() > 0 {
        lemma_hex_lower_len(s.drop_first());
    }
}

/// The lowercase-hex rendering of a byte string, two ASCII digits per byte.
pub fn hex_lower_bytes(input: &[u8]) -> (r: Vec<u8>)
    ensures
        r@ == hex_lower(input@),
{
    let mut out: Vec<u8> = Vec::new();
    let mut i: usize = 0;
    proof {
        assert(input@.skip(0) =~= input@);
    }
    while i < input.len()
        invariant
            i <= input@.len(),
            hex_lower(input@) == out@ + hex_lower(input@.skip(i as int)),
        decreases input@.len() - i,
    {
        let b = input[i];
        let hi: u8 = b / 16;
        let lo: u8 = b % 16;
        out.push(if hi < 10 { 0x30 + hi } else { 0x61 + (hi - 10) });
        out.push(if lo < 10 { 0x30 + lo } else { 0x61 + (lo - 10) });
        proof {
            let rest = input@.skip(i as int);
            assert(rest[0] == input@[i as int]);
            assert(rest.drop_first() =~= input@.skip(i + 1));
            assert(hex_lower(rest) == hex_pair(b) + hex_lower(input@.skip(i + 1)));
        }
        i = i + 1;
    }
    proof {
        assert(input@.skip(input@.len() as int) =~= Seq::<u8>::empty());
        assert(hex_lower(input@) =~= out@);
    }
    out
}

/// Appends the two lowercase-hex digits of `b` to `out`.
pub fn push_hex_byte(out: &mut Vec<u8>, b: u8)
    ensures
        final(out)@ == old(out)@ + hex_pair(b),
{
    let hi: u8 = b / 16;
    let lo: u8 = b % 16;
    out.push(if hi < 10 { 0x30 + hi } else { 0x61 + (hi - 10) });
    out.push(if lo < 10 { 0x30 + lo } else { 0x61 + (lo - 10) });
    proof {
        assert(out@ =~= old(out)@ + hex_pair(b));
    }
}

} // verus!

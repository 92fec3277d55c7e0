//! Little-endian 16-bit PCM samples and their byte form.
use vstd::prelude::*;

verus! {

/// The sample whose little-endian bytes are `lo`, `hi`.
pub open spec fn sample_of(lo: u8, hi: u8) -> i16 {
    let v = lo as int + 256 * hi as int;
    (if v >= 32768 { v - 65536 } else { v }) as i16
}

/// The sample read as an unsigned 16-bit quantity (two's complement).
pub open spec fn unsigned_of(s: i16) -> int {
    if s < 0 { s as int + 65536 } else { s as int }
}

pub open spec fn low_byte(s: i16) -> u8 {
    (unsigned_of(s) % 256) as u8
}

pub open spec fn high_byte(s: i16) -> u8 {
    (unsigned_of(s) / 256) as u8
}

/// Each sample as two bytes, low byte first.
pub open spec fn le_bytes_of(pcm: Seq<i16>) -> Seq<u8> {
    Seq::new(
        2 * pcm.len(),
        |j: int| if j % 2 == 0 { low_byte(pcm[j / 2]) } else { high_byte(pcm[j / 2]) },
    )
}

/// The byte at `j`, or zero past the end.
pub open spec fn byte_or_zero(b: Seq<u8>, j: int) -> u8 {
    if 0 <= j < b.len() { b[j] } else { 0 }
}

/// Samples read two bytes at a time; a trailing odd byte is completed with a zero.
pub open spec fn samples_of(bytes: Seq<u8>) -> Seq<i16> {
    Seq::new(
        (bytes.len() + 1) / 2,
        |i: int| sample_of(bytes[2 * i], byte_or_zero(bytes, 2 * i + 1)),
    )
}

fn sample_from_le(lo: u8, hi: u8) -> (r: i16)
    ensures
        r == sample_of(lo, hi),
{
    let v: i32 = lo as i32 + 256 * hi as i32;
    if v >= 32768 {
        (v - 65536) as i16
    } else {
        v as i16
    }
}

/// Reads a buffer of little-endian samples.
pub fn pcm_from_le_bytes(bytes: &Vec<u8>) -> (r: Vec<i16>)
    ensures
        r@ == samples_of(bytes@),
{
    let n = bytes.len();
    let count: usize = n / 2 + n % 2;
    let mut out: Vec<i16> = Vec::with_capacity(count);
    let mut i: usize = 0;
    while i < count
        invariant
            count as int == (n as int + 1) / 2,
            n == bytes@.len(),
            i <= count,
            out@.len() == i,
            forall|k: int| 0 <= k < i ==> out@[k] == samples_of(bytes@)[k],
        decreases count - i,
    {
        let lo = bytes[2 * i];
        let hi: u8 = if 2 * i + 1 < n { bytes[2 * i + 1] } else { 0 };
        let s = sample_from_le(lo, hi);
        out.push(s);
        i = i + 1;
    }
    assert(out@ =~= samples_of(bytes@));
    out
}

/// Writes samples as little-endian bytes.
pub fn pcm_to_le_bytes(pcm: &Vec<i16>) -> (r: Vec<u8>)
    requires
        2 * pcm@.len() <= usize::MAX,
    ensures
        r@ == le_bytes_of(pcm@),
{
    let mut out: Vec<u8> = Vec::with_capacity(2 * pcm.len());
    let mut i: usize = 0;
    while i < pcm.len()
        invariant
            2 * pcm@.len() <= usize::MAX,
            i <= pcm@.len(),
            out@.len() == 2 * i,
            forall|j: int| 0 <= j < 2 * i ==> out@[j] == le_bytes_of(pcm@)[j],
        decreases pcm@.len() - i,
    {
        let s = pcm[i];
        let u: i32 = if s < 0 { s as i32 + 65536 } else { s as i32 };
        out.push((u % 256) as u8);
        out.push((u / 256) as u8);
        i = i + 1;
    }
    assert(out@ =~= le_bytes_of(pcm@));
    out
}

/// Writing samples as bytes and reading them back gives the same samples.
pub proof fn lemma_samples_round_trip(pcm: Seq<i16>)
    ensures
        samples_of(le_bytes_of(pcm)) == pcm,
{
    let b = le_bytes_of(pcm);
    assert forall|i: int| 0 <= i < pcm.len() implies samples_of(b)[i] == pcm[i] by {
        assert((2 * i) % 2 == 0);
        assert((2 * i + 1) % 2 == 1);
        assert((2 * i) / 2 == i);
        assert((2 * i + 1) / 2 == i);
        let u = unsigned_of(pcm[i]);
        assert(u == (u % 256) + 256 * (u / 256));
    }
    assert(samples_of(b) =~= pcm);
}

/// Reading an even-length buffer as samples and writing them back gives the same bytes.
pub proof fn lemma_bytes_round_trip(bytes: Seq<u8>)
    requires
        bytes.len() % 2 == 0,
    ensures
        le_bytes_of(samples_of(bytes)) == bytes,
{
    let p = samples_of(bytes);
    assert forall|j: int| 0 <= j < bytes.len() implies le_bytes_of(p)[j] == bytes[j] by {
        let i = j / 2;
        assert(2 * i == j || 2 * i + 1 == j);
        assert(2 * i + 1 < bytes.len());
    }
    assert(le_bytes_of(p) =~= bytes);
}

} // verus!

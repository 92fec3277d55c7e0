//! Cutting buffers into fixed-size codec frames and putting frames back together.
use vstd::prelude::*;

verus! {

/// Number of frames of `size` items needed to hold `len` items.
pub open spec fn frames_needed(len: nat, size: nat) -> nat
    recommends
        size > 0,
{
    ((len + size - 1) / size as int) as nat
}

/// The item at `j`, or `fill` past the end.
pub open spec fn item_or<T>(s: Seq<T>, j: int, fill: T) -> T {
    if 0 <= j < s.len() { s[j] } else { fill }
}

/// Frame `k` of `s` cut into frames of `size` items, the last one padded with `fill`.
pub open spec fn padded_frame<T>(s: Seq<T>, k: int, size: nat, fill: T) -> Seq<T> {
    Seq::new(size, |j: int| item_or(s, k * size + j, fill))
}

/// The item at `j` of a frame that a codec may have failed to produce:
/// a missing frame, and anything past the frame's end, reads as `fill`.
pub open spec fn frame_item<T>(f: Option<Vec<T>>, j: int, fill: T) -> T {
    match f {
        Some(v) => item_or(v@, j, fill),
        None => fill,
    }
}

/// Frames laid end to end, each taking exactly `size` items.
pub open spec fn joined<T>(frames: Seq<Option<Vec<T>>>, size: nat, fill: T) -> Seq<T>
    recommends
        size > 0,
{
    Seq::new(frames.len() * size, |i: int| frame_item(frames[i / size as int], i % size as int, fill))
}

fn frame_count(len: usize, size: usize) -> (r: usize)
    requires
        size > 0,
        len + size <= usize::MAX,
    ensures
        r == frames_needed(len as nat, size as nat),
        r * size <= len + size - 1,
        r * size >= len,
{
    assert(len / size <= len) by (nonlinear_arith)
        requires
            size > 0,
    ;
    let r = len / size + if len % size == 0 { 0 } else { 1 };
    assert(r == frames_needed(len as nat, size as nat) && r * size <= len + size - 1
        && r * size >= len) by (nonlinear_arith)
        requires
            size > 0,
            r == len / size + if len % size == 0 { 0int } else { 1int },
    {
        assert(len == size * (len / size) + len % size);
    }
    r
}

/// Cuts `v` into frames of `size` items; the last frame is padded with `fill`.
pub fn split_padded<T: Copy>(v: &Vec<T>, size: usize, fill: T) -> (r: Vec<Vec<T>>)
    requires
        size > 0,
        v@.len() + size <= usize::MAX,
    ensures
        r@.len() == frames_needed(v@.len(), size as nat),
        forall|k: int| 0 <= k < r@.len() ==> r@[k]@ == padded_frame(v@, k, size as nat, fill),
{
    let n = v.len();
    let count = frame_count(n, size);
    let mut out: Vec<Vec<T>> = Vec::with_capacity(count);
    let mut k: usize = 0;
    while k < count
        invariant
            size > 0,
            n == v@.len(),
            n + size <= usize::MAX,
            count * size <= n + size - 1,
            k <= count,
            out@.len() == k,
            forall|q: int| 0 <= q < k ==> out@[q]@ == padded_frame(v@, q, size as nat, fill),
        decreases count - k,
    {
        assert(k * size + size <= count * size) by (nonlinear_arith)
            requires
                k < count,
        ;
        let base = k * size;
        let mut frame: Vec<T> = Vec::with_capacity(size);
        let mut j: usize = 0;
        while j < size
            invariant
                base == k * size,
                base + size <= n + size - 1,
                n + size <= usize::MAX,
                n == v@.len(),
                j <= size,
                frame@.len() == j,
                forall|t: int| 0 <= t < j ==> frame@[t] == item_or(v@, base + t, fill),
            decreases size - j,
        {
            let x: T = if base + j < n { v[base + j] } else { fill };
            frame.push(x);
            j = j + 1;
        }
        assert(frame@ =~= padded_frame(v@, k as int, size as nat, fill));
        out.push(frame);
        k = k + 1;
    }
    out
}

/// Lays frames end to end, `size` items each: a missing frame becomes `size` copies of
/// `fill`, a short one is padded with `fill` and a long one cut.
pub fn join_frames<T: Copy>(frames: &Vec<Option<Vec<T>>>, size: usize, fill: T) -> (r: Vec<T>)
    requires
        size > 0,
        frames@.len() * size <= usize::MAX,
    ensures
        r@ == joined(frames@, size as nat, fill),
{
    let n = frames.len();
    let mut out: Vec<T> = Vec::new();
    let mut k: usize = 0;
    while k < n
        invariant
            size > 0,
            n == frames@.len(),
            n * size <= usize::MAX,
            k <= n,
            out@.len() == k * size,
            forall|i: int| 0 <= i < k * size ==> out@[i] == joined(frames@, size as nat, fill)[i],
        decreases n - k,
    {
        assert(k * size + size <= n * size) by (nonlinear_arith)
            requires
                k < n,
        ;
        let mut j: usize = 0;
        while j < size
            invariant
                size > 0,
                k < n,
                n == frames@.len(),
                n * size <= usize::MAX,
                k * size + size <= n * size,
                j <= size,
                out@.len() == k * size + j,
                forall|i: int|
                    0 <= i < k * size + j ==> out@[i] == joined(frames@, size as nat, fill)[i],
            decreases size - j,
        {
            let x: T = match &frames[k] {
                Some(f) => if j < f.len() { f[j] } else { fill },
                None => fill,
            };
            proof {
                let i = k * size + j;
                assert(i / size as int == k && i % size as int == j) by (nonlinear_arith)
                    requires
                        i == k * size + j,
                        0 <= j < size,
                ;
            }
            out.push(x);
            j = j + 1;
        }
        assert((k + 1) * size == k * size + size) by (nonlinear_arith);
        k = k + 1;
    }
    assert(out@ =~= joined(frames@, size as nat, fill));
    out
}

} // verus!

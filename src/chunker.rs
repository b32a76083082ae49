//! Splitting a frame buffer into bounded chunks, each a view of the buffer.
use vstd::prelude::*;
use vstd::arithmetic::div_mod::lemma_fundamental_div_mod;
use vstd::slice::slice_subrange;

verus! {

/// Number of chunks of at most `c` bytes that cover `l` bytes: the ceiling of `l / c`.
pub open spec fn ceil_div(l: nat, c: nat) -> nat
    recommends
        c > 0,
{
    l / c + if l % c == 0 { 0nat } else { 1nat }
}

pub open spec fn min(a: int, b: int) -> int {
    if a <= b { a } else { b }
}

/// The `i`-th chunk of `f` for a budget of `c` bytes per chunk.
pub open spec fn chunk_of(f: Seq<u8>, c: nat, i: int) -> Seq<u8> {
    f.subrange(i * c, min((i + 1) * c, f.len() as int))
}

/// All chunks of `f`, in index order.
pub open spec fn chunks_of(f: Seq<u8>, c: nat) -> Seq<Seq<u8>> {
    Seq::new(ceil_div(f.len(), c), |i: int| chunk_of(f, c, i))
}

/// The chunks laid end to end.
pub open spec fn concat(s: Seq<Seq<u8>>) -> Seq<u8>
    decreases s.len(),
{
    if s.len() == 0 {
        Seq::empty()
    } else {
        concat(s.drop_last()) + s.last()
    }
}

/// Chunk `i` starts inside the frame, and every chunk before the last one
/// ends inside it too; the last one reaches (at least) its end.
proof fn lemma_chunk_bounds(l: nat, c: nat, i: int)
    requires
        c > 0,
        0 <= i < ceil_div(l, c),
    ensures
        i * c < l,
        i < ceil_div(l, c) - 1 ==> (i + 1) * c < l,
        ceil_div(l, c) * c >= l,
{
    let n = ceil_div(l, c) as int;
    let q = (l / c) as int;
    let r = (l % c) as int;
    lemma_fundamental_div_mod(l as int, c as int);
    assert(l == q * c + r);
    assert(0 <= r < c);
    if r == 0 {
        assert(n == q);
        assert(i * c <= (n - 1) * c) by (nonlinear_arith)
            requires
                i <= n - 1,
                c > 0,
        ;
        assert((n - 1) * c == q * c - c) by (nonlinear_arith)
            requires
                n == q,
        ;
    } else {
        assert(n == q + 1);
        assert(i * c <= q * c) by (nonlinear_arith)
            requires
                i <= q,
                c > 0,
        ;
        assert((q + 1) * c == q * c + c) by (nonlinear_arith);
    }
    if i < n - 1 {
        assert((i + 1) * c <= (n - 1) * c) by (nonlinear_arith)
            requires
                i + 1 <= n - 1,
                c > 0,
        ;
        assert((n - 1) * c == n * c - c) by (nonlinear_arith);
    }
    assert(n * c == (n - 1) * c + c) by (nonlinear_arith);
}

/// The first `k` chunks laid end to end are the first `k * c` bytes of the frame.
proof fn lemma_concat_prefix(f: Seq<u8>, c: nat, k: int)
    requires
        f.len() >= 1,
        c >= 1,
        0 <= k <= ceil_div(f.len(), c),
    ensures
        concat(chunks_of(f, c).take(k)) == f.subrange(0, min(k * c, f.len() as int)),
    decreases k,
{
    let s = chunks_of(f, c);
    let l = f.len() as int;
    if k == 0 {
        assert(concat(s.take(0)) =~= f.subrange(0, 0));
    } else {
        lemma_concat_prefix(f, c, k - 1);
        lemma_chunk_bounds(f.len(), c, k - 1);
        assert(s.take(k).drop_last() =~= s.take(k - 1));
        assert(s.take(k).last() == chunk_of(f, c, k - 1));
        assert(min((k - 1) * c, l) == (k - 1) * c);
        assert((k - 1 + 1) * c == k * c);
        assert(k * c == (k - 1) * c + c) by (nonlinear_arith);
        assert(f.subrange(0, (k - 1) * c) + chunk_of(f, c, k - 1) =~= f.subrange(0, min(k * c, l)));
    }
}

/// Splitting a non-empty frame and laying the chunks end to end gives the
/// frame back; there are `ceil(L / C)` chunks, each one but the last holds
/// exactly `C` bytes, and none is empty.
pub proof fn lemma_chunks_cover(f: Seq<u8>, c: nat)
    requires
        f.len() >= 1,
        c >= 1,
    ensures
        concat(chunks_of(f, c)) == f,
        chunks_of(f, c).len() == ceil_div(f.len(), c),
        forall|i: int| 0 <= i < chunks_of(f, c).len() - 1 ==> #[trigger] chunks_of(f, c)[i].len() == c,
        forall|i: int| 0 <= i < chunks_of(f, c).len() ==> #[trigger] chunks_of(f, c)[i].len() > 0,
{
    let s = chunks_of(f, c);
    let n = s.len() as int;
    let l = f.len() as int;
    assert forall|i: int| 0 <= i < n implies #[trigger] s[i].len() > 0 && (i < n - 1 ==> s[i].len() == c) by {
        lemma_chunk_bounds(f.len(), c, i);
        assert((i + 1) * c == i * c + c) by (nonlinear_arith);
    }
    lemma_concat_prefix(f, c, n);
    lemma_fundamental_div_mod(l, c as int);
    if f.len() / c == 0 {
        assert(f.len() % c == f.len());
    }
    assert(n > 0);
    lemma_chunk_bounds(f.len(), c, 0);
    assert(s.take(n) =~= s);
    assert(f.subrange(0, l) =~= f);
}

/// Number of chunks a frame of `frame_len` bytes is split into.
pub fn total_chunks(frame_len: usize, budget: usize) -> (r: usize)
    requires
        budget >= 1,
    ensures
        r == ceil_div(frame_len as nat, budget as nat),
{
    let q = frame_len / budget;
    if frame_len % budget == 0 {
        q
    } else {
        proof {
            lemma_fundamental_div_mod(frame_len as int, budget as int);
            assert(q * 2 <= budget * q) by (nonlinear_arith)
                requires
                    budget >= 2,
                    q >= 0,
            ;
        }
        q + 1
    }
}

/// Chunk `idx` of `frame`: a view of the buffer, not a copy.
pub fn chunk(frame: &[u8], budget: usize, idx: usize) -> (r: &[u8])
    requires
        budget >= 1,
        idx < ceil_div(frame@.len(), budget as nat),
    ensures
        r@ == chunk_of(frame@, budget as nat, idx as int),
{
    let len = frame.len();
    proof {
        lemma_chunk_bounds(frame@.len(), budget as nat, idx as int);
        assert((idx + 1) * budget == idx * budget + budget) by (nonlinear_arith);
        assert((idx as int) * (budget as int) < frame@.len());
    }
    let start = idx * budget;
    let end = if len - start > budget { start + budget } else { len };
    slice_subrange(frame, start, end)
}

/// All chunks of `frame`, in index order.
pub fn split_frame(frame: &[u8], budget: usize) -> (r: Vec<&[u8]>)
    requires
        budget >= 1,
    ensures
        r@.len() == chunks_of(frame@, budget as nat).len(),
        forall|i: int| 0 <= i < r@.len() ==> #[trigger] r@[i]@ == chunks_of(frame@, budget as nat)[i],
{
    let n = total_chunks(frame.len(), budget);
    let mut r: Vec<&[u8]> = Vec::new();
    let mut i: usize = 0;
    while i < n
        invariant
            budget >= 1,
            n == ceil_div(frame@.len(), budget as nat),
            i <= n,
            r@.len() == i,
            forall|j: int| 0 <= j < i ==> #[trigger] r@[j]@ == chunks_of(frame@, budget as nat)[j],
        decreases n - i,
    {
        r.push(chunk(frame, budget, i));
        i = i + 1;
    }
    r
}

} // verus!

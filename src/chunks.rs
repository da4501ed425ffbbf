//! Splitting the occupied range of a buffer into contiguous chunks, one per
//! search task of a chunked search.
use vstd::prelude::*;
use vstd::arithmetic::div_mod::{lemma_fundamental_div_mod, lemma_fundamental_div_mod_converse};
use crate::order::{precedes_or_eq, sorted};

verus! {

/// Number of values per chunk when `len` values go into `nb_chunk` chunks:
/// `len / nb_chunk` rounded up.
pub open spec fn spec_chunk_size(len: nat, nb_chunk: nat) -> nat
    recommends
        nb_chunk > 0,
{
    ((len + nb_chunk - 1) / nb_chunk as int) as nat
}

/// Number of chunks of `size` values (the last possibly shorter) that cover
/// `len` values.
pub open spec fn spec_chunk_count(len: nat, size: nat) -> nat
    recommends
        size > 0,
{
    ((len + size - 1) / size as int) as nat
}

/// The half-open range `begin..end` of chunk `k` of `size` values out of `len`.
pub open spec fn chunk_range(len: nat, size: nat, k: nat) -> (int, int) {
    let begin = k * size;
    let end = if (k + 1) * size <= len { ((k + 1) * size) as int } else { len as int };
    (begin as int, end)
}

/// Number of values per chunk when `len` values are split into `nb_chunk`
/// chunks: the division rounded up, so that at most `nb_chunk` chunks are
/// needed.
pub fn chunk_size(len: usize, nb_chunk: usize) -> (r: usize)
    requires
        nb_chunk > 0,
    ensures
        r == spec_chunk_size(len as nat, nb_chunk as nat),
{
    let extra: usize = if len % nb_chunk > 0 { 1 } else { 0 };
    proof {
        let q = len as int / nb_chunk as int;
        let m = len as int % nb_chunk as int;
        lemma_fundamental_div_mod(len as int, nb_chunk as int);
        assert(q >= 0 && 0 <= m < nb_chunk) by {
            vstd::arithmetic::div_mod::lemma_div_pos_is_pos(len as int, nb_chunk as int);
            vstd::arithmetic::div_mod::lemma_mod_bound(len as int, nb_chunk as int);
        }
        assert(q <= q * nb_chunk) by (nonlinear_arith)
            requires
                q >= 0,
                nb_chunk >= 1,
        {}
        assert((q + 1) * nb_chunk == q * nb_chunk + nb_chunk) by (nonlinear_arith);
        if m > 0 {
            lemma_fundamental_div_mod_converse(len + nb_chunk - 1, nb_chunk as int, q + 1, m - 1);
        } else {
            lemma_fundamental_div_mod_converse(len + nb_chunk - 1, nb_chunk as int, q, nb_chunk - 1);
        }
    }
    len / nb_chunk + extra
}

/// Splits `0..len` into contiguous half-open ranges of `chunk_size(len,
/// nb_chunk)` values each, in order, the last one possibly shorter; at most
/// `nb_chunk` of them.
pub fn chunk_bounds(len: usize, nb_chunk: usize) -> (r: Vec<(usize, usize)>)
    requires
        nb_chunk > 0,
    ensures
        ({
            let size = spec_chunk_size(len as nat, nb_chunk as nat);
            &&& forall|k: int| 0 <= k < r@.len() ==>
                (#[trigger] r@[k]).0 == chunk_range(len as nat, size, k as nat).0
                && r@[k].1 == chunk_range(len as nat, size, k as nat).1
            &&& r@.len() * size >= len
            &&& r@.len() > 0 ==> (r@.len() - 1) * size < len
        }),
        r@.len() <= nb_chunk,
{
    let size: usize = chunk_size(len, nb_chunk);
    let ghost sz = size as nat;
    let mut r: Vec<(usize, usize)> = Vec::new();
    let mut begin: usize = 0;
    proof {
        assert(r@.len() == 0);
        assert(0 * sz == 0) by (nonlinear_arith);
        if len > 0 {
            assert(size > 0) by {
                vstd::arithmetic::div_mod::lemma_div_pos_is_pos((len + nb_chunk - 1) as int, nb_chunk as int);
                if size == 0 {
                    vstd::arithmetic::div_mod::lemma_fundamental_div_mod((len + nb_chunk - 1) as int, nb_chunk as int);
                }
            }
        }
    }
    while begin < len
        invariant
            nb_chunk > 0,
            len > 0 ==> size > 0,
            sz == size,
            sz == spec_chunk_size(len as nat, nb_chunk as nat),
            begin <= len,
            begin < len ==> begin == r@.len() * sz,
            r@.len() > 0 ==> (r@.len() - 1) * sz < len,
            begin == len ==> r@.len() * sz >= len,
            forall|k: int| 0 <= k < r@.len() ==>
                (#[trigger] r@[k]).0 == chunk_range(len as nat, sz, k as nat).0
                && r@[k].1 == chunk_range(len as nat, sz, k as nat).1,
        decreases len - begin,
    {
        let end: usize = if len - begin > size { begin + size } else { len };
        proof {
            let k = r@.len();
            assert((k + 1) * sz == k * sz + sz) by (nonlinear_arith);
        }
        r.push((begin, end));
        begin = end;
    }
    proof {
        if len > 0 {
            vstd::arithmetic::div_mod::lemma_fundamental_div_mod((len + nb_chunk - 1) as int, nb_chunk as int);
            vstd::arithmetic::div_mod::lemma_mod_bound((len + nb_chunk - 1) as int, nb_chunk as int);
            let n = r@.len() as int;
            assert(n - 1 < nb_chunk) by (nonlinear_arith)
                requires
                    n > 0,
                    (n - 1) * sz < len,
                    nb_chunk * sz >= len,
            {}
        }
    }
    r
}

/// The chunks tile `0..len`: index `i` lies in chunk `i / size` and in no
/// other one.
pub proof fn lemma_chunks_tile(len: nat, nb_chunk: nat, i: nat, k: nat)
    requires
        nb_chunk > 0,
        i < len,
    ensures
        ({
            let size = spec_chunk_size(len, nb_chunk);
            let (begin, end) = chunk_range(len, size, k);
            begin <= i < end <==> k == i / size
        }),
{
    let size = spec_chunk_size(len, nb_chunk);
    vstd::arithmetic::div_mod::lemma_div_pos_is_pos((len + nb_chunk - 1) as int, nb_chunk as int);
    if size == 0 {
        vstd::arithmetic::div_mod::lemma_fundamental_div_mod((len + nb_chunk - 1) as int, nb_chunk as int);
        vstd::arithmetic::div_mod::lemma_mod_bound((len + nb_chunk - 1) as int, nb_chunk as int);
    }
    assert(size > 0);
    let q = i / size;
    vstd::arithmetic::div_mod::lemma_fundamental_div_mod(i as int, size as int);
    vstd::arithmetic::div_mod::lemma_mod_bound(i as int, size as int);
    assert((k + 1) * size == k * size + size) by (nonlinear_arith);
    if k < q {
        assert(k * size + size <= q * size) by (nonlinear_arith)
            requires
                k < q,
                size > 0,
        {}
    } else if k > q {
        assert(q * size + size <= k * size) by (nonlinear_arith)
            requires
                k > q,
                size > 0,
        {}
    }
}

/// Every chunk of a sorted run is sorted.
pub proof fn lemma_sorted_chunk<T: PartialOrd>(s: Seq<T>, begin: int, end: int)
    requires
        sorted(s),
        0 <= begin <= end <= s.len(),
    ensures
        sorted(s.subrange(begin, end)),
{
    let c = s.subrange(begin, end);
    assert forall|i: int, j: int| 0 <= i < j <= c.len() - 1 implies #[trigger] precedes_or_eq(c[i], c[j]) by {
        assert(precedes_or_eq(s[begin + i], s[begin + j]));
    }
}

} // verus!

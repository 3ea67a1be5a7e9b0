//! Random cyclic permutations and pointer chasing.
//!
//! A working buffer is laid out as `blocks` blocks of `stride` elements. The
//! first element of each block holds the index of the next block's first
//! element, in a random order that forms one single cycle through every
//! block. Following the links is a chain of dependent loads: each load must
//! complete before the next address is known.

use rand::seq::SliceRandom;
use vstd::arithmetic::div_mod::*;
use vstd::prelude::*;

verus! {

/// The index reached after following `k` links of `list` from `start`.
pub open spec fn chase_from(list: Seq<usize>, start: int, k: nat) -> int
    decreases k,
{
    if k == 0 {
        start
    } else {
        list[chase_from(list, start, (k - 1) as nat)] as int
    }
}

/// Every link of `list` points inside `list`.
pub open spec fn links_in_bounds(list: Seq<usize>) -> bool {
    forall|i: int| 0 <= i < list.len() ==> #[trigger] list[i] < list.len()
}

/// The index of the first element of block `b`.
pub open spec fn block_start(b: int, stride: nat) -> int {
    b * stride
}

/// `list` holds `blocks` blocks of `stride` elements, and chasing from index 0
/// visits the start of every block exactly once before it returns to 0.
pub open spec fn is_full_cycle(list: Seq<usize>, blocks: nat, stride: nat) -> bool {
    &&& list.len() == blocks * stride
    &&& links_in_bounds(list)
    &&& forall|k: nat| k < blocks ==> #[trigger] chase_from(list, 0, k) % (stride as int) == 0
    &&& forall|j: nat, k: nat|
        j < k < blocks ==> #[trigger] chase_from(list, 0, j) != #[trigger] chase_from(list, 0, k)
    &&& forall|b: int|
        0 <= b < blocks ==> exists|k: nat|
            k < blocks && #[trigger] chase_from(list, 0, k) == #[trigger] block_start(b, stride)
    &&& chase_from(list, 0, blocks) == 0
}

/// Relies on `rand`'s `SliceRandom::shuffle` with the thread-local generator:
/// it reorders the elements in place (a sequence of swaps), keeping each one.
/// (`thread_rng` panics only if the operating system's random source fails.)
#[verifier::external_body]
fn shuffle(v: &mut Vec<usize>)
    ensures
        final(v)@.len() == old(v)@.len(),
        final(v)@.to_multiset() == old(v)@.to_multiset(),
{
    v.shuffle(&mut rand::thread_rng());
}

/// Relies on `std::hint::black_box`: the identity function, opaque to the
/// optimiser, so that a memory access cannot be elided or reordered.
#[verifier::external_body]
pub(crate) fn opaque<T>(x: T) -> (r: T)
    ensures
        r == x,
{
    std::hint::black_box(x)
}

/// The k-th block of the cycle, in visiting order: block 0 first and last,
/// the shuffled blocks in between.
spec fn order_at(rest: Seq<usize>, blocks: nat, k: int) -> int {
    if k == 0 || k == blocks {
        0
    } else {
        rest[k - 1] as int
    }
}

/// The sequence `1, 2, ..., n - 1`.
spec fn is_tail_range(s: Seq<usize>, n: nat) -> bool {
    &&& s.len() + 1 == n
    &&& forall|i: int| 0 <= i < s.len() ==> #[trigger] s[i] == i + 1
}

fn tail_range(n: usize) -> (s: Vec<usize>)
    requires
        n >= 1,
    ensures
        is_tail_range(s@, n as nat),
{
    let mut s: Vec<usize> = Vec::new();
    let mut i: usize = 1;
    while i < n
        invariant
            1 <= i <= n,
            s@.len() + 1 == i,
            forall|j: int| 0 <= j < s.len() ==> #[trigger] s@[j] == j + 1,
        decreases n - i,
    {
        s.push(i);
        i = i + 1;
    }
    s
}

/// A shuffled `1, ..., n - 1` keeps each of those values exactly once.
proof fn lemma_shuffled_range(before: Seq<usize>, after: Seq<usize>, n: nat)
    requires
        is_tail_range(before, n),
        after.len() == before.len(),
        after.to_multiset() == before.to_multiset(),
    ensures
        after.no_duplicates(),
        forall|i: int| 0 <= i < after.len() ==> 1 <= #[trigger] after[i] < n,
        forall|v: usize| 1 <= v < n ==> #[trigger] after.contains(v),
{
    broadcast use vstd::seq_lib::group_to_multiset_ensures;

    assert(before.no_duplicates());
    before.lemma_multiset_has_no_duplicates();
    after.lemma_multiset_has_no_duplicates_conv();
    assert forall|i: int| 0 <= i < after.len() implies 1 <= #[trigger] after[i] < n by {
        assert(after.contains(after[i]));
        assert(before.to_multiset().count(after[i]) > 0);
        assert(before.contains(after[i]));
    }
    assert forall|v: usize| 1 <= v < n implies #[trigger] after.contains(v) by {
        assert(before[v - 1] == v);
        assert(before.contains(before[v - 1]));
        assert(after.to_multiset().count(before[v - 1]) > 0);
        assert(after.contains(before[v - 1]));
    }
}

/// Each visited block links to the next one in visiting order, for the
/// first `upto` blocks of the order.
spec fn links_follow_order(
    list: Seq<usize>,
    rest: Seq<usize>,
    blocks: nat,
    stride: nat,
    upto: int,
) -> bool {
    forall|j: int|
        0 <= j < upto ==> list[block_start(#[trigger] order_at(rest, blocks, j), stride)]
            == block_start(order_at(rest, blocks, j + 1), stride)
}

proof fn lemma_block_in_buffer(b: int, blocks: int, stride: int)
    requires
        0 <= b < blocks,
        stride >= 1,
    ensures
        0 <= b * stride,
        b * stride + stride <= blocks * stride,
{
    assert(0 <= b * stride) by (nonlinear_arith)
        requires
            0 <= b,
            stride >= 1,
    ;
    assert(b * stride + stride <= blocks * stride) by (nonlinear_arith)
        requires
            b + 1 <= blocks,
            stride >= 1,
    ;
}

proof fn lemma_distinct_blocks(a: int, b: int, stride: int)
    requires
        a != b,
        stride >= 1,
    ensures
        a * stride != b * stride,
{
    if a < b {
        assert(a * stride < b * stride) by (nonlinear_arith)
            requires
                a < b,
                stride >= 1,
        ;
    } else {
        assert(b * stride < a * stride) by (nonlinear_arith)
            requires
                b < a,
                stride >= 1,
        ;
    }
}

/// Chasing from 0 walks the blocks in visiting order.
proof fn lemma_chase_follows_order(
    list: Seq<usize>,
    rest: Seq<usize>,
    blocks: nat,
    stride: nat,
    k: nat,
)
    requires
        k <= blocks,
        links_follow_order(list, rest, blocks, stride, blocks as int),
    ensures
        chase_from(list, 0, k) == block_start(order_at(rest, blocks, k as int), stride),
    decreases k,
{
    if k == 0 {
        assert(block_start(0, stride) == 0);
    } else {
        lemma_chase_follows_order(list, rest, blocks, stride, (k - 1) as nat);
        assert(order_at(rest, blocks, (k - 1) as int) == order_at(rest, blocks, k - 1));
    }
}

/// Builds a buffer of `blocks * stride` elements whose block starts form one
/// random cycle through all blocks, entered and left at index 0. Elements
/// other than block starts hold 0.
pub fn build_cycle(blocks: usize, stride: usize) -> (list: Vec<usize>)
    requires
        blocks >= 1,
        stride >= 1,
        blocks * stride <= usize::MAX,
    ensures
        is_full_cycle(list@, blocks as nat, stride as nat),
{
    let len: usize = blocks * stride;
    let mut rest = tail_range(blocks);
    let ghost before = rest@;
    shuffle(&mut rest);
    proof {
        lemma_shuffled_range(before, rest@, blocks as nat);
    }
    let mut list: Vec<usize> = vec![0; len];
    let mut k: usize = 0;
    while k < blocks
        invariant
            k <= blocks,
            stride >= 1,
            len == blocks * stride,
            list@.len() == len,
            rest@.len() + 1 == blocks,
            rest@.no_duplicates(),
            forall|i: int| 0 <= i < rest@.len() ==> 1 <= #[trigger] rest@[i] < blocks,
            links_in_bounds(list@),
            links_follow_order(list@, rest@, blocks as nat, stride as nat, k as int),
        decreases blocks - k,
    {
        let from: usize = if k == 0 {
            0
        } else {
            rest[k - 1]
        };
        let to: usize = if k + 1 == blocks {
            0
        } else {
            rest[k]
        };
        proof {
            lemma_block_in_buffer(from as int, blocks as int, stride as int);
            lemma_block_in_buffer(to as int, blocks as int, stride as int);
            assert(from == order_at(rest@, blocks as nat, k as int));
            assert(to == order_at(rest@, blocks as nat, k + 1));
        }
        let ghost old_list = list@;
        list.set(from * stride, to * stride);
        proof {
            assert forall|j: int| 0 <= j < k + 1 implies list@[block_start(
                #[trigger] order_at(rest@, blocks as nat, j),
                stride as nat,
            )] == block_start(order_at(rest@, blocks as nat, j + 1), stride as nat) by {
                if j < k {
                    let oj = order_at(rest@, blocks as nat, j);
                    assert(oj != from);
                    lemma_block_in_buffer(oj, blocks as int, stride as int);
                    lemma_distinct_blocks(oj, from as int, stride as int);
                    assert(old_list[block_start(oj, stride as nat)] == block_start(
                        order_at(rest@, blocks as nat, j + 1),
                        stride as nat,
                    ));
                    assert(list@[block_start(oj, stride as nat)] == old_list[block_start(
                        oj,
                        stride as nat,
                    )]);
                } else {
                    assert(j == k);
                    assert(block_start(from as int, stride as nat) == from * stride);
                    assert(list@[from * stride] == to * stride);
                }
            }
            assert forall|i: int| 0 <= i < list@.len() implies #[trigger] list@[i] < list@.len() by {
                if i != from * stride {
                    assert(list@[i] == old_list[i]);
                }
            }
        }
        k = k + 1;
    }
    proof {
        let ghost l = list@;
        let ghost r = rest@;
        let ghost n = blocks as nat;
        let ghost st = stride as nat;
        assert forall|k: nat| k <= n implies #[trigger] chase_from(l, 0, k) == block_start(
            order_at(r, n, k as int),
            st,
        ) by {
            lemma_chase_follows_order(l, r, n, st, k);
        }
        assert forall|k: nat| k < n implies #[trigger] chase_from(l, 0, k) % (st as int) == 0 by {
            lemma_mod_multiples_basic(order_at(r, n, k as int), st as int);
        }
        assert forall|j: nat, k: nat| j < k < n implies #[trigger] chase_from(l, 0, j)
            != #[trigger] chase_from(l, 0, k) by {
            assert(order_at(r, n, j as int) != order_at(r, n, k as int));
            lemma_distinct_blocks(order_at(r, n, j as int), order_at(r, n, k as int), st as int);
        }
        assert forall|b: int| 0 <= b < n implies exists|k: nat|
            k < n && #[trigger] chase_from(l, 0, k) == #[trigger] block_start(b, st) by {
            if b == 0 {
                assert(chase_from(l, 0, 0) == block_start(0, st));
            } else {
                assert(r.contains(b as usize));
                let i = choose|i: int| 0 <= i < r.len() && r[i] == b as usize;
                assert(order_at(r, n, i + 1) == b);
                assert(chase_from(l, 0, (i + 1) as nat) == block_start(b, st));
            }
        }
        assert(chase_from(l, 0, n) == block_start(0, st));
    }
    list
}

/// Follows `steps` links of `list` from index 0, one dependent load at a
/// time, and returns the index reached.
pub fn chase(list: &Vec<usize>, steps: u64) -> (p: usize)
    requires
        list.len() >= 1,
        links_in_bounds(list@),
    ensures
        p == chase_from(list@, 0, steps as nat),
        p < list.len(),
{
    let mut p: usize = 0;
    let mut i: u64 = 0;
    while i < steps
        invariant
            i <= steps,
            list.len() >= 1,
            links_in_bounds(list@),
            p < list.len(),
            p == chase_from(list@, 0, i as nat),
        decreases steps - i,
    {
        p = opaque(list[p]);
        i = i + 1;
    }
    p
}

} // verus!

//! The order in which the chunks of a frame are calculated: a shuffle of
//! their coordinates, drawn from a seeded source.
//!
//! Points that never escape take the most steps, and they lie together. In a
//! random order no worker gets all of them.

use vstd::prelude::*;
use vstd::seq_lib::to_multiset_update;
use crate::chunk::{chunk_index, lemma_chunk_cell, lemma_chunk_position};

verus! {

/// The state that follows `seed` in the source of calculation orders: a
/// multiplication and an addition, both modulo two to the power of 64.
pub open spec fn next_seed(seed: u64) -> u64 {
    vstd::wrapping::u64_specs::wrapping_add(
        vstd::wrapping::u64_specs::wrapping_mul(seed, 6364136223846793005),
        1442695040888963407,
    )
}

/// The position that `seed` picks among the first `count`.
pub open spec fn picked(seed: u64, count: int) -> int {
    (seed / 0x2_0000_0000) as int % count
}

/// `s` with the items at `i` and `j` exchanged.
pub open spec fn swapped(s: Seq<[u32; 2]>, i: int, j: int) -> Seq<[u32; 2]> {
    s.update(i, s[j]).update(j, s[i])
}

/// The coordinates of all chunks, column after column.
pub open spec fn ordered_coordinates(chunks: int) -> Seq<[u32; 2]> {
    Seq::new((chunks * chunks) as nat, |k: int| [(k / chunks) as u32, (k % chunks) as u32])
}

/// `s` after the first `done` exchanges of a shuffle that starts from `seed`,
/// and the state of the source after them. The shuffle settles the positions
/// from the last one down; for each it draws from the source which of the
/// items not yet settled goes there.
pub open spec fn shuffle_steps(s: Seq<[u32; 2]>, seed: u64, done: nat) -> (Seq<[u32; 2]>, u64)
    decreases done,
{
    if done == 0 {
        (s, seed)
    } else {
        let before = shuffle_steps(s, seed, (done - 1) as nat);
        let position = s.len() - done;
        let drawn = next_seed(before.1);
        (swapped(before.0, position, picked(drawn, position + 1)), drawn)
    }
}

/// `coordinates` is a permutation of the coordinates of all chunks: it holds
/// nothing else, nothing twice, and every one of them.
pub open spec fn holds_every_chunk_once(coordinates: Seq<[u32; 2]>, chunks: int) -> bool {
    &&& coordinates.len() == chunks * chunks
    &&& forall|k: int|
        0 <= k < coordinates.len() ==> (#[trigger] coordinates[k])[0] < chunks && coordinates[k][1]
            < chunks
    &&& coordinates.no_duplicates()
    &&& forall|xy: [u32; 2]|
        xy[0] < chunks && xy[1] < chunks ==> #[trigger] coordinates.contains(xy)
}

/// The coordinates in order are a permutation of themselves.
pub proof fn lemma_ordered_coordinates(chunks: int)
    requires
        0 < chunks <= u32::MAX,
    ensures
        holds_every_chunk_once(ordered_coordinates(chunks), chunks),
{
    let s = ordered_coordinates(chunks);
    assert(chunks * chunks >= 0) by (nonlinear_arith)
        requires
            chunks > 0,
    ;
    assert forall|k: int| 0 <= k < s.len() implies (#[trigger] s[k])[0] < chunks && s[k][1]
        < chunks by {
        lemma_chunk_position(k, chunks, chunks);
    }
    assert forall|k: int, l: int| 0 <= k < s.len() && 0 <= l < s.len() && k != l implies s[k]
        != s[l] by {
        lemma_chunk_position(k, chunks, chunks);
        lemma_chunk_position(l, chunks, chunks);
        if s[k] == s[l] {
            assert(s[k][0] == s[l][0]);
            assert(s[k][1] == s[l][1]);
        }
    }
    assert forall|xy: [u32; 2]| xy[0] < chunks && xy[1] < chunks implies #[trigger] s.contains(
        xy,
    ) by {
        let k = chunk_index(xy[0] as int, xy[1] as int, chunks);
        lemma_chunk_cell(xy[0] as int, xy[1] as int, chunks);
        assert(k < chunks * chunks) by (nonlinear_arith)
            requires
                k == xy[0] * chunks + xy[1],
                0 <= xy[0] < chunks,
                0 <= xy[1] < chunks,
        ;
        assert(s[k] =~= xy);
    }
}

/// An exchange of two items keeps a permutation a permutation.
pub proof fn lemma_swapped_holds_every_chunk_once(s: Seq<[u32; 2]>, i: int, j: int, chunks: int)
    requires
        holds_every_chunk_once(s, chunks),
        0 <= i < s.len(),
        0 <= j < s.len(),
    ensures
        holds_every_chunk_once(swapped(s, i, j), chunks),
{
    let t = swapped(s, i, j);
    assert forall|xy: [u32; 2]| xy[0] < chunks && xy[1] < chunks implies #[trigger] t.contains(
        xy,
    ) by {
        assert(s.contains(xy));
        let k = choose|k: int| 0 <= k < s.len() && s[k] == xy;
        let l = if k == i {
            j
        } else if k == j {
            i
        } else {
            k
        };
        assert(t[l] == xy);
    }
    assert forall|k: int, l: int| 0 <= k < t.len() && 0 <= l < t.len() && k != l implies t[k]
        != t[l] by {
        let k0 = if k == i {
            j
        } else if k == j {
            i
        } else {
            k
        };
        let l0 = if l == i {
            j
        } else if l == j {
            i
        } else {
            l
        };
        assert(t[k] == s[k0]);
        assert(t[l] == s[l0]);
    }
}

/// An exchange of two items changes neither what a sequence holds nor how
/// often.
pub proof fn lemma_swapped_to_multiset(s: Seq<[u32; 2]>, i: int, j: int)
    requires
        0 <= i < s.len(),
        0 <= j < s.len(),
    ensures
        swapped(s, i, j).len() == s.len(),
        swapped(s, i, j).to_multiset() == s.to_multiset(),
{
    s.to_multiset_ensures();
    assert(s.to_multiset().count(s[i]) > 0);
    assert(s.to_multiset().count(s[j]) > 0);
    to_multiset_update(s, i, s[j]);
    to_multiset_update(s.update(i, s[j]), j, s[i]);
    assert(swapped(s, i, j).to_multiset() =~= s.to_multiset());
}

/// However far a shuffle has come, it holds what it started from, each item
/// as often as at the start.
pub proof fn lemma_shuffle_to_multiset(s: Seq<[u32; 2]>, seed: u64, done: nat)
    requires
        done < s.len(),
    ensures
        shuffle_steps(s, seed, done).0.len() == s.len(),
        shuffle_steps(s, seed, done).0.to_multiset() == s.to_multiset(),
    decreases done,
{
    if done > 0 {
        lemma_shuffle_to_multiset(s, seed, (done - 1) as nat);
        let before = shuffle_steps(s, seed, (done - 1) as nat);
        let position = s.len() - done;
        let drawn = next_seed(before.1);
        lemma_swapped_to_multiset(before.0, position, picked(drawn, position + 1));
    }
}

/// However far a shuffle has come, what it holds is a permutation of what it
/// started from.
pub proof fn lemma_shuffle_holds_every_chunk_once(
    s: Seq<[u32; 2]>,
    seed: u64,
    done: nat,
    chunks: int,
)
    requires
        holds_every_chunk_once(s, chunks),
        done < s.len(),
    ensures
        holds_every_chunk_once(shuffle_steps(s, seed, done).0, chunks),
    decreases done,
{
    if done > 0 {
        lemma_shuffle_holds_every_chunk_once(s, seed, (done - 1) as nat, chunks);
        let before = shuffle_steps(s, seed, (done - 1) as nat);
        let position = s.len() - done;
        let drawn = next_seed(before.1);
        lemma_swapped_holds_every_chunk_once(
            before.0,
            position,
            picked(drawn, position + 1),
            chunks,
        );
    }
}

/// Moves the source of calculation orders one state on.
pub(crate) fn draw(seed: u64) -> (drawn: u64)
    ensures
        drawn == next_seed(seed),
{
    seed.wrapping_mul(6364136223846793005).wrapping_add(1442695040888963407)
}

/// The position that `seed` picks among the first `count`.
pub(crate) fn pick(seed: u64, count: usize) -> (position: usize)
    requires
        count > 0,
    ensures
        position == picked(seed, count as int),
        position < count,
{
    ((seed / 0x2_0000_0000) % (count as u64)) as usize
}

} // verus!

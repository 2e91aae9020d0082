//! Facts about joining blocks of text: sequences of sequences and their
//! concatenation.

use vstd::prelude::*;

verus! {

/// Joining one block more appends that block to what was joined before.
pub proof fn lemma_flatten_next<A>(blocks: Seq<Seq<A>>, i: int)
    requires
        0 <= i < blocks.len(),
    ensures
        blocks.take(i + 1).flatten() == blocks.take(i).flatten() + blocks[i],
{
    assert(blocks.take(i + 1) =~= blocks.take(i).push(blocks[i]));
    blocks.take(i).lemma_flatten_push(blocks[i]);
}

/// Joining all the blocks is joining the first `blocks.len()` of them.
pub proof fn lemma_flatten_all<A>(blocks: Seq<Seq<A>>)
    ensures
        blocks.take(blocks.len() as int).flatten() == blocks.flatten(),
{
    assert(blocks.take(blocks.len() as int) =~= blocks);
}

/// Joining nothing gives nothing.
pub proof fn lemma_flatten_none<A>(blocks: Seq<Seq<A>>)
    ensures
        blocks.take(0).flatten() == Seq::<A>::empty(),
{
    assert(blocks.take(0) =~= Seq::<Seq<A>>::empty());
}

/// Where each block of `mapped` is the block of `blocks` at the same place
/// with `f` applied to every item, joining `mapped` gives what joining
/// `blocks` and applying `f` to every item afterwards gives.
pub proof fn lemma_flatten_map<A, B>(
    blocks: Seq<Seq<A>>,
    f: spec_fn(A) -> B,
    mapped: Seq<Seq<B>>,
)
    requires
        mapped.len() == blocks.len(),
        forall|i: int| 0 <= i < blocks.len() ==> #[trigger] mapped[i] == blocks[i].map_values(f),
    ensures
        mapped.flatten() == blocks.flatten().map_values(f),
    decreases blocks.len(),
{
    if blocks.len() == 0 {
        assert(mapped.flatten() =~= blocks.flatten().map_values(f));
    } else {
        let front = blocks.drop_last();
        let last = blocks.last();
        lemma_flatten_map(front, f, mapped.drop_last());
        assert(blocks =~= front.push(last));
        assert(mapped =~= mapped.drop_last().push(last.map_values(f)));
        front.lemma_flatten_push(last);
        mapped.drop_last().lemma_flatten_push(last.map_values(f));
        assert((front.flatten() + last).map_values(f) =~= front.flatten().map_values(f)
            + last.map_values(f));
    }
}

} // verus!

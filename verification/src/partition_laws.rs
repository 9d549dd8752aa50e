//! What holds of a partitioning whatever is done to it.
//!
//! The statements are about [`PartitioningView`], over which the contracts
//! of [`crate::partition::Partitioning`] are written.

use vstd::prelude::*;
use crate::partition::{
    ascending, blocks_with, blocks_without, borders, chosen_blocks, frontier, gains, has_id, keeps,
    position_of, recolored, BlockID,
    Color, NeighborhoodID, NeighborhoodView, PartitionError, PartitioningView, NUM_COLORS,
};
use crate::roads::{Block, PerimeterView};

verus! {

/// A colouring is proper when it gives each neighborhood one index of the
/// palette, and two neighborhoods that run along a common road different
/// ones.
pub open spec fn proper_coloring(hoods: Seq<NeighborhoodView>, colors: Seq<usize>) -> bool {
    &&& colors.len() == hoods.len()
    &&& forall|i: int| 0 <= i < colors.len() ==> (#[trigger] colors[i]) < NUM_COLORS
    &&& forall|i: int, j: int|
        0 <= i < hoods.len() && 0 <= j < hoods.len() && i != j && (#[trigger] hoods[i]).block.adjacent(
            (#[trigger] hoods[j]).block,
        ) ==> colors[i] != colors[j]
}

/// Applying a proper colouring shows neighborhoods that run along a common
/// road in different colours, none of them red.
pub proof fn lemma_proper_coloring_shows(hoods: Seq<NeighborhoodView>, colors: Seq<usize>)
    requires
        proper_coloring(hoods, colors),
    ensures
        ({
            let shown = recolored(hoods, colors);
            &&& shown.len() == hoods.len()
            &&& forall|i: int| 0 <= i < shown.len() ==> (#[trigger] shown[i]).color != Color::Red
            &&& forall|i: int, j: int|
                0 <= i < shown.len() && 0 <= j < shown.len() && i != j && (
                #[trigger] shown[i]).block.adjacent((#[trigger] shown[j]).block) ==> shown[i].color
                    != shown[j].color
        }),
{
    let shown = recolored(hoods, colors);
    assert forall|i: int, j: int|
        0 <= i < shown.len() && 0 <= j < shown.len() && i != j && (
        #[trigger] shown[i]).block.adjacent((#[trigger] shown[j]).block) implies shown[i].color
        != shown[j].color by {
        assert(hoods[i].block.adjacent(hoods[j].block));
        assert(colors[i] < NUM_COLORS && colors[j] < NUM_COLORS);
        assert(colors[i] != colors[j]);
    }
}

/// A transfer keeps the partitioning in order, so that every block still
/// belongs to one neighborhood, which exists; and it leaves the single
/// blocks alone. One that fails changes nothing. One that succeeds gives
/// block `id` to `new_owner` and leaves every other block with its owner.
pub proof fn lemma_transfer_moves_one_block(
    v: PartitioningView,
    id: BlockID,
    old_owner: NeighborhoodID,
    new_owner: NeighborhoodID,
    merged_new: Result<Block, PartitionError>,
    merged_old: Result<Block, PartitionError>,
)
    requires
        v.wf(),
        old_owner != new_owner,
        v.has(old_owner),
        v.has(new_owner),
        id.0 < v.blocks.len(),
    ensures
        ({
            let w = v.transfer_state(id, old_owner, new_owner, merged_new, merged_old);
            let r = v.transfer_result(id, old_owner, new_owner, merged_new, merged_old);
            &&& w.wf()
            &&& w.blocks == v.blocks
            &&& w.next_id == v.next_id
            &&& r is Err ==> w == v
            &&& r is Ok ==> w.owners == v.owners.update(id.0 as int, new_owner)
        }),
{
    let w = v.transfer_state(id, old_owner, new_owner, merged_new, merged_old);
    match merged_new {
        Err(_) => {},
        Ok(gained) => {
            let i = v.index_of(new_owner);
            let entry = NeighborhoodView {
                id: new_owner,
                block: gained@,
                color: v.neighborhoods[i].color,
            };
            if v.emptied(id, old_owner) {
                lemma_update_keeps_ids(v, i, entry);
                let a = v.with_block(new_owner, gained@);
                let b = a.with_owner(id, new_owner);
                assert(b.wf());
                lemma_keeping_empty(v.owners, old_owner, id);
                let j = b.index_of(old_owner);
                lemma_remove_keeps_order(b, j);
            } else {
                match merged_old {
                    Err(_) => {},
                    Ok(kept) => {
                        let j = v.index_of(old_owner);
                        let first = NeighborhoodView {
                            id: old_owner,
                            block: kept@,
                            color: v.neighborhoods[j].color,
                        };
                        lemma_update_keeps_ids(v, j, first);
                        let a = v.with_block(old_owner, kept@);
                        let i2 = a.index_of(new_owner);
                        let second = NeighborhoodView {
                            id: new_owner,
                            block: gained@,
                            color: a.neighborhoods[i2].color,
                        };
                        lemma_update_keeps_ids(a, i2, second);
                        let b = a.with_block(new_owner, gained@);
                        assert(b.with_owner(id, new_owner).wf());
                    },
                }
            }
        },
    }
}

/// After a transfer that succeeds, `new_owner` holds the block that merging
/// gave for it. The old owner is gone if it kept no block, and else holds
/// the block that merging gave for what it kept. No other neighborhood is
/// touched, and no colour changes.
pub proof fn lemma_transfer_replaces_blocks(
    v: PartitioningView,
    id: BlockID,
    old_owner: NeighborhoodID,
    new_owner: NeighborhoodID,
    gained: Block,
    merged_old: Result<Block, PartitionError>,
)
    requires
        v.wf(),
        old_owner != new_owner,
        v.has(old_owner),
        v.has(new_owner),
        id.0 < v.blocks.len(),
        v.emptied(id, old_owner) || merged_old is Ok,
    ensures
        ({
            let w = v.transfer_state(id, old_owner, new_owner, Ok(gained), merged_old);
            &&& w.has(new_owner)
            &&& w.get(new_owner).block == gained@
            &&& w.get(new_owner).color == v.get(new_owner).color
            &&& v.emptied(id, old_owner) ==> !w.has(old_owner)
            &&& !v.emptied(id, old_owner) ==> w.has(old_owner) && w.get(old_owner).block
                == merged_old->Ok_0@ && w.get(old_owner).color == v.get(old_owner).color
            &&& forall|other: NeighborhoodID|
                other != old_owner && other != new_owner ==> (v.has(other) <==> #[trigger] w.has(
                    other,
                ))
            &&& forall|other: NeighborhoodID|
                other != old_owner && other != new_owner && v.has(other) ==> #[trigger] w.get(other)
                    == v.get(other)
        }),
{
    let w = v.transfer_state(id, old_owner, new_owner, Ok(gained), merged_old);
    let i = v.index_of(new_owner);
    if v.emptied(id, old_owner) {
        let entry = NeighborhoodView { id: new_owner, block: gained@, color: v.neighborhoods[i].color };
        lemma_update_keeps_ids(v, i, entry);
        let b = v.with_block(new_owner, gained@).with_owner(id, new_owner);
        lemma_keeping_empty(v.owners, old_owner, id);
        let j = b.index_of(old_owner);
        lemma_remove_keeps_order(b, j);
        lemma_removed(b, j);
        assert forall|other: NeighborhoodID| other != old_owner implies (v.has(other) <==> w.has(
            other,
        )) && (v.has(other) ==> w.get(other) == b.get(other)) by {
            if v.has(other) {
                assert(b.has(other));
                lemma_remove_keeps_others(b, j, other);
                lemma_remove_keeps_entry(b, j, other);
            }
            if w.has(other) {
                let k = w.index_of(other);
                let k2 = if k < j { k } else { k + 1 };
                assert(b.neighborhoods[k2].id == other);
            }
        }
        assert forall|other: NeighborhoodID|
            other != old_owner && other != new_owner && v.has(other) implies #[trigger] w.get(other)
            == v.get(other) by {
            assert(b.index_of(other) == v.index_of(other));
        }
    } else {
        let kept = merged_old->Ok_0;
        let j = v.index_of(old_owner);
        let first = NeighborhoodView { id: old_owner, block: kept@, color: v.neighborhoods[j].color };
        lemma_update_keeps_ids(v, j, first);
        let a = v.with_block(old_owner, kept@);
        let i2 = a.index_of(new_owner);
        let second = NeighborhoodView {
            id: new_owner,
            block: gained@,
            color: a.neighborhoods[i2].color,
        };
        lemma_update_keeps_ids(a, i2, second);
        assert(i2 == i);
        assert(i != j) by {
            assert(v.neighborhoods[i].id == new_owner);
            assert(v.neighborhoods[j].id == old_owner);
        }
        assert forall|other: NeighborhoodID|
            other != old_owner && other != new_owner && v.has(other) implies #[trigger] w.get(other)
            == v.get(other) by {
            let k = v.index_of(other);
            assert(v.neighborhoods[k].id == other);
            assert(a.index_of(other) == k);
            assert(w.index_of(other) == k);
        }
    }
}

/// The blocks chosen among the first `n` are just those that `pick`
/// accepts, each once, in ascending order.
pub proof fn lemma_chosen_blocks(pick: spec_fn(int) -> bool, n: nat)
    requires
        n <= usize::MAX,
    ensures
        forall|b: int|
            0 <= b < n && pick(b) <==> 0 <= b <= usize::MAX && #[trigger] chosen_blocks(
                pick,
                n,
            ).contains(BlockID(b as usize)),
        forall|k: int|
            0 <= k < chosen_blocks(pick, n).len() ==> (#[trigger] chosen_blocks(pick, n)[k]).0 < n,
        forall|k: int, m: int|
            0 <= k < m < chosen_blocks(pick, n).len() ==> (#[trigger] chosen_blocks(pick, n)[k]).0
                < (#[trigger] chosen_blocks(pick, n)[m]).0,
    decreases n,
{
    if n > 0 {
        lemma_chosen_blocks(pick, (n - 1) as nat);
        let rest = chosen_blocks(pick, (n - 1) as nat);
        let all = chosen_blocks(pick, n);
        let last = (n - 1) as int;
        assert forall|b: int| 0 <= b < n && pick(b) implies 0 <= b <= usize::MAX
            && #[trigger] all.contains(BlockID(b as usize)) by {
            if b < last {
                assert(rest.contains(BlockID(b as usize)));
                let k = choose|k: int| 0 <= k < rest.len() && rest[k] == BlockID(b as usize);
                assert(all[k] == BlockID(b as usize));
            } else {
                assert(all[all.len() - 1] == BlockID(b as usize));
            }
        }
        assert forall|b: int|
            0 <= b <= usize::MAX && #[trigger] all.contains(BlockID(b as usize)) implies 0 <= b < n
            && pick(b) by {
            let k = choose|k: int| 0 <= k < all.len() && all[k] == BlockID(b as usize);
            if k < rest.len() {
                assert(rest[k] == BlockID(b as usize));
                assert(rest.contains(BlockID(b as usize)));
            }
        }
        assert forall|k: int, m: int| 0 <= k < m < all.len() implies (#[trigger] all[k]).0 < (
        #[trigger] all[m]).0 by {
            if m < rest.len() {
                assert(rest[k].0 < rest[m].0);
            } else {
                assert(rest[k].0 < n - 1);
            }
        }
    }
}

/// What a neighborhood holds after taking `id` are its own blocks and `id`,
/// each once.
pub proof fn lemma_gaining(owners: Seq<NeighborhoodID>, hood: NeighborhoodID, id: BlockID)
    requires
        owners.len() <= usize::MAX,
    ensures
        forall|b: int|
            0 <= b < owners.len() && (owners[b] == hood || b == id.0) <==> 0 <= b <= usize::MAX
                && #[trigger] blocks_with(owners, hood, id, owners.len()).contains(
                BlockID(b as usize),
            ),
{
    lemma_chosen_blocks(gains(owners, hood, id), owners.len());
}

/// What a neighborhood keeps after giving `id` away are its own blocks but
/// for `id`, each once.
pub proof fn lemma_keeping(owners: Seq<NeighborhoodID>, hood: NeighborhoodID, id: BlockID)
    requires
        owners.len() <= usize::MAX,
    ensures
        forall|b: int|
            0 <= b < owners.len() && owners[b] == hood && b != id.0 <==> 0 <= b <= usize::MAX
                && #[trigger] blocks_without(owners, hood, id, owners.len()).contains(
                BlockID(b as usize),
            ),
{
    lemma_chosen_blocks(keeps(owners, hood, id), owners.len());
}

/// Where no block is chosen among the first `n`, `pick` accepts none of
/// them.
pub proof fn lemma_none_chosen(pick: spec_fn(int) -> bool, n: nat)
    requires
        chosen_blocks(pick, n).len() == 0,
    ensures
        forall|b: int| 0 <= b < n ==> !#[trigger] pick(b),
    decreases n,
{
    if n > 0 {
        lemma_none_chosen(pick, (n - 1) as nat);
    }
}

/// Where a neighborhood keeps no block after giving `id` away, no block
/// other than `id` is its own.
pub proof fn lemma_keeping_empty(owners: Seq<NeighborhoodID>, hood: NeighborhoodID, id: BlockID)
    requires
        blocks_without(owners, hood, id, owners.len()).len() == 0,
    ensures
        forall|b: int| 0 <= b < owners.len() && b != id.0 ==> (#[trigger] owners[b]) != hood,
{
    let pick = keeps(owners, hood, id);
    lemma_none_chosen(pick, owners.len());
    assert forall|b: int| 0 <= b < owners.len() && b != id.0 implies (#[trigger] owners[b])
        != hood by {
        assert(!pick(b));
    }
}

/// The frontier holds just the blocks that run along a road of the
/// perimeter, each once.
pub proof fn lemma_frontier(blocks: Seq<PerimeterView>, perim: PerimeterView)
    requires
        blocks.len() <= usize::MAX,
    ensures
        forall|b: int|
            0 <= b < blocks.len() && blocks[b].adjacent(perim) <==> 0 <= b <= usize::MAX
                && #[trigger] frontier(blocks, perim, blocks.len()).contains(BlockID(b as usize)),
{
    lemma_chosen_blocks(borders(blocks, perim), blocks.len());
}

/// In a well-formed partitioning, the neighborhood at position `i` is found
/// at `i` by its ID.
pub proof fn lemma_index_of(v: PartitioningView, i: int)
    requires
        v.wf(),
        0 <= i < v.neighborhoods.len(),
    ensures
        v.has(v.neighborhoods[i].id),
        v.index_of(v.neighborhoods[i].id) == i,
{
    let id = v.neighborhoods[i].id;
    let j = v.index_of(id);
    assert(0 <= j < v.neighborhoods.len() && v.neighborhoods[j].id == id);
    if j < i {
        assert(v.neighborhoods[j].id.0 < v.neighborhoods[i].id.0);
    }
    if i < j {
        assert(v.neighborhoods[i].id.0 < v.neighborhoods[j].id.0);
    }
}

/// Replacing a neighborhood by one of the same ID keeps the partitioning
/// well-formed, and keeps every ID where it was.
pub proof fn lemma_update_keeps_ids(v: PartitioningView, i: int, entry: NeighborhoodView)
    requires
        v.wf(),
        0 <= i < v.neighborhoods.len(),
        entry.id == v.neighborhoods[i].id,
    ensures
        (PartitioningView { neighborhoods: v.neighborhoods.update(i, entry), ..v }).wf(),
        forall|id: NeighborhoodID|
            has_id(v.neighborhoods, id) <==> #[trigger] has_id(
                v.neighborhoods.update(i, entry),
                id,
            ),
        forall|id: NeighborhoodID|
            has_id(v.neighborhoods, id) ==> position_of(v.neighborhoods, id)
                == #[trigger] position_of(v.neighborhoods.update(i, entry), id),
{
    let w = PartitioningView { neighborhoods: v.neighborhoods.update(i, entry), ..v };
    assert forall|k: int| 0 <= k < w.neighborhoods.len() implies (#[trigger] w.neighborhoods[k]).id
        == v.neighborhoods[k].id by {}
    assert forall|id: NeighborhoodID| v.has(id) <==> #[trigger] has_id(w.neighborhoods, id) by {
        if v.has(id) {
            let k = v.index_of(id);
            assert(w.neighborhoods[k].id == id);
        }
        if w.has(id) {
            let k = w.index_of(id);
            assert(v.neighborhoods[k].id == id);
        }
    }
    assert(w.wf()) by {
        assert forall|a: int, b: int| 0 <= a < b < w.neighborhoods.len() implies (
        #[trigger] w.neighborhoods[a]).id.0 < (#[trigger] w.neighborhoods[b]).id.0 by {
            assert(v.neighborhoods[a].id.0 < v.neighborhoods[b].id.0);
        }
        assert forall|a: int| 0 <= a < w.neighborhoods.len() implies (
        #[trigger] w.neighborhoods[a]).id.0 < w.next_id by {
            assert(v.neighborhoods[a].id.0 < v.next_id);
        }
        assert forall|b: int|
            0 <= b < w.owners.len() implies w.has(
            #[trigger] w.owners[b],
        ) by {
            assert(v.has(v.owners[b]));
        }
    }
    assert forall|id: NeighborhoodID| has_id(v.neighborhoods, id) implies position_of(
        v.neighborhoods,
        id,
    ) == #[trigger] position_of(w.neighborhoods, id) by {
        let k = v.index_of(id);
        lemma_index_of(v, k);
        assert(w.neighborhoods[k].id == id);
        lemma_index_of(w, k);
    }
}

/// Taking out a neighborhood that owns no block keeps the partitioning
/// well-formed.
pub proof fn lemma_remove_keeps_order(v: PartitioningView, j: int)
    requires
        v.wf(),
        0 <= j < v.neighborhoods.len(),
        forall|b: int| 0 <= b < v.owners.len() ==> (#[trigger] v.owners[b]) != v.neighborhoods[j].id,
    ensures
        (PartitioningView { neighborhoods: v.neighborhoods.remove(j), ..v }).wf(),
{
    let w = PartitioningView { neighborhoods: v.neighborhoods.remove(j), ..v };
    assert forall|a: int| 0 <= a < w.neighborhoods.len() implies #[trigger] w.neighborhoods[a] == (
    if a < j {
        v.neighborhoods[a]
    } else {
        v.neighborhoods[a + 1]
    }) by {}
    assert forall|a: int, b: int| 0 <= a < b < w.neighborhoods.len() implies (
    #[trigger] w.neighborhoods[a]).id.0 < (#[trigger] w.neighborhoods[b]).id.0 by {
        let a2 = if a < j { a } else { a + 1 };
        let b2 = if b < j { b } else { b + 1 };
        assert(v.neighborhoods[a2].id.0 < v.neighborhoods[b2].id.0);
    }
    assert forall|a: int| 0 <= a < w.neighborhoods.len() implies (#[trigger] w.neighborhoods[a]).id.0
        < w.next_id by {
        let a2 = if a < j { a } else { a + 1 };
        assert(v.neighborhoods[a2].id.0 < v.next_id);
    }
    assert forall|b: int| 0 <= b < w.owners.len() implies w.has(
        #[trigger] w.owners[b],
    ) by {
        let o = v.owners[b];
        assert(v.has(o));
        let k = v.index_of(o);
        assert(k != j);
        let k2 = if k < j { k } else { k - 1 };
        assert(w.neighborhoods[k2].id == o);
    }
}

/// Taking out the neighborhood at `j` leaves every other one in place.
pub proof fn lemma_remove_keeps_others(v: PartitioningView, j: int, other: NeighborhoodID)
    requires
        v.wf(),
        0 <= j < v.neighborhoods.len(),
        v.has(other),
        other != v.neighborhoods[j].id,
    ensures
        has_id(v.neighborhoods.remove(j), other),
{
    let k = v.index_of(other);
    let k2 = if k < j { k } else { k - 1 };
    assert(v.neighborhoods.remove(j)[k2].id == other);
}

/// The neighborhood taken out at `j` is gone.
pub proof fn lemma_removed(v: PartitioningView, j: int)
    requires
        v.wf(),
        0 <= j < v.neighborhoods.len(),
    ensures
        !has_id(v.neighborhoods.remove(j), v.neighborhoods[j].id),
{
    let gone = v.neighborhoods[j].id;
    let after = v.neighborhoods.remove(j);
    if has_id(after, gone) {
        let k = position_of(after, gone);
        let k2 = if k < j { k } else { k + 1 };
        assert(after[k] == v.neighborhoods[k2]);
        if k2 < j {
            assert(v.neighborhoods[k2].id.0 < v.neighborhoods[j].id.0);
        } else {
            assert(v.neighborhoods[j].id.0 < v.neighborhoods[k2].id.0);
        }
    }
}

/// Taking out the neighborhood at `j` leaves every other one as it is.
pub proof fn lemma_remove_keeps_entry(v: PartitioningView, j: int, other: NeighborhoodID)
    requires
        v.wf(),
        0 <= j < v.neighborhoods.len(),
        v.has(other),
        other != v.neighborhoods[j].id,
        ascending(v.neighborhoods.remove(j)),
    ensures
        has_id(v.neighborhoods.remove(j), other),
        v.neighborhoods.remove(j)[position_of(v.neighborhoods.remove(j), other)] == v.get(other),
{
    let after = v.neighborhoods.remove(j);
    let k = v.index_of(other);
    let k2 = if k < j { k } else { k - 1 };
    assert(after[k2] == v.neighborhoods[k]);
    assert(after[k2].id == other);
    let m = position_of(after, other);
    assert(after[m].id == other);
    if m < k2 {
        assert(after[m].id.0 < after[k2].id.0);
    }
    if k2 < m {
        assert(after[k2].id.0 < after[m].id.0);
    }
}

} // verus!

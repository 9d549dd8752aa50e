//! Neighborhoods: the blocks of a map grouped into regions.
//!
//! A [`Partitioning`] owns the single blocks of a map, the neighborhoods they
//! were merged into, and the assignment of each block to its neighborhood.
//! Merging perimeters and colouring a map are geometric work done elsewhere;
//! the functions here say which blocks are to be merged, and take the merged
//! block back.

use vstd::prelude::*;
use vstd::string::StringExecFns;
use crate::text::{decimal, digits};
use crate::partition_laws::{
    lemma_index_of, lemma_keeping_empty, lemma_remove_keeps_order, lemma_remove_keeps_others, lemma_update_keeps_ids,
};
use crate::roads::{opposite, Block, Perimeter, PerimeterView, RoadSideID};

verus! {
/// An opaque ID; the numbers in use are not contiguous once boundaries have
/// been adjusted.
#[derive(Clone, Copy, Debug, PartialEq, Eq, PartialOrd, Ord, Hash, Structural)]
pub struct NeighborhoodID(pub usize);

/// Identifies a single, unmerged block, which never changes. The number is the
/// block's position among the single blocks.
#[derive(Clone, Copy, Debug, PartialEq, Eq, PartialOrd, Ord, Hash, Structural)]
pub struct BlockID(pub usize);

/// The colours a neighborhood is shown in. `Red` marks one that has not been
/// coloured yet.
#[derive(Clone, Copy, Debug, PartialEq, Eq, Hash, Structural)]
pub enum Color {
    Blue,
    Yellow,
    Green,
    Purple,
    Pink,
    Orange,
    Red,
}

/// How many colours the palette holds.
pub const NUM_COLORS: usize = 6;

/// The palette, by index. Indices wrap around.
pub open spec fn palette(idx: int) -> Color {
    let k = idx % 6;
    if k == 0 {
        Color::Blue
    } else if k == 1 {
        Color::Yellow
    } else if k == 2 {
        Color::Green
    } else if k == 3 {
        Color::Purple
    } else if k == 4 {
        Color::Pink
    } else {
        Color::Orange
    }
}

/// The colour of the palette at `idx`, wrapping around.
pub fn palette_color(idx: usize) -> (c: Color)
    ensures
        c == palette(idx as int),
        c != Color::Red,
{
    let k: usize = idx % NUM_COLORS;
    if k == 0 {
        Color::Blue
    } else if k == 1 {
        Color::Yellow
    } else if k == 2 {
        Color::Green
    } else if k == 3 {
        Color::Purple
    } else if k == 4 {
        Color::Pink
    } else {
        Color::Orange
    }
}

/// Names a map: country, city, and the map within the city.
#[derive(Debug, PartialEq, Eq)]
pub struct MapName {
    pub country: String,
    pub city: String,
    pub map: String,
}

/// What a map's name is: three texts.
pub struct MapNameView {
    pub country: Seq<char>,
    pub city: Seq<char>,
    pub map: Seq<char>,
}

impl View for MapName {
    type V = MapNameView;

    open spec fn view(&self) -> MapNameView {
        MapNameView { country: self.country@, city: self.city@, map: self.map@ }
    }
}

/// Why a block could not change hands.
#[derive(Debug, PartialEq, Eq)]
pub enum PartitionError {
    /// Merging the blocks gave this many perimeters in place of one.
    Split(usize),
    /// The merged perimeter could not be made into a block.
    NoBlock(String),
}

impl PartitionError {
    /// What the user is told.
    pub open spec fn text(self) -> Seq<char> {
        match self {
            PartitionError::Split(pieces) => "Splitting this neighborhood into "@ + digits(
                pieces as nat,
            ) + " pieces is currently unsupported"@,
            PartitionError::NoBlock(why) => why@,
        }
    }

    /// Writes what the user is told.
    pub fn message(&self) -> (s: String)
        ensures
            s@ == self.text(),
    {
        match self {
            PartitionError::Split(pieces) => {
                let mut s = "Splitting this neighborhood into ".to_owned();
                let count = decimal(*pieces);
                s.append(count.as_str());
                s.append(" pieces is currently unsupported");
                s
            },
            PartitionError::NoBlock(why) => why.clone(),
        }
    }
}

/// A neighborhood: its merged block and the colour it is shown in.
#[derive(Debug, PartialEq, Eq)]
pub struct Neighborhood {
    pub id: NeighborhoodID,
    pub block: Block,
    pub color: Color,
}

/// What a neighborhood is: its ID, the perimeter of its merged block, and
/// its colour.
pub struct NeighborhoodView {
    pub id: NeighborhoodID,
    pub block: PerimeterView,
    pub color: Color,
}

impl View for Neighborhood {
    type V = NeighborhoodView;

    open spec fn view(&self) -> NeighborhoodView {
        NeighborhoodView { id: self.id, block: self.block@, color: self.color }
    }
}

/// The views of a sequence of neighborhoods.
pub open spec fn neighborhood_views(s: Seq<Neighborhood>) -> Seq<NeighborhoodView> {
    Seq::new(s.len(), |i: int| s[i]@)
}

/// The views of a sequence of blocks.
pub open spec fn block_views(s: Seq<Block>) -> Seq<PerimeterView> {
    Seq::new(s.len(), |i: int| s[i]@)
}

/// The blocks below `n` that `pick` accepts, by position. Ascending.
pub open spec fn chosen_blocks(pick: spec_fn(int) -> bool, n: nat) -> Seq<BlockID>
    decreases n,
{
    if n == 0 {
        Seq::empty()
    } else {
        let rest = chosen_blocks(pick, (n - 1) as nat);
        if pick(n - 1) {
            rest.push(BlockID((n - 1) as usize))
        } else {
            rest
        }
    }
}

/// Whether the block at a position is one that `hood` holds once it has
/// taken `id`: one that it owns, or `id` itself.
pub open spec fn gains(owners: Seq<NeighborhoodID>, hood: NeighborhoodID, id: BlockID) -> spec_fn(
    int,
) -> bool {
    |b: int| 0 <= b < owners.len() && (owners[b] == hood || b == id.0)
}

/// Whether the block at a position is one that `hood` still holds once it
/// has given `id` away.
pub open spec fn keeps(owners: Seq<NeighborhoodID>, hood: NeighborhoodID, id: BlockID) -> spec_fn(
    int,
) -> bool {
    |b: int| 0 <= b < owners.len() && owners[b] == hood && b != id.0
}

/// Whether the block at a position has a road side on a road that `perim`
/// runs along.
pub open spec fn borders(blocks: Seq<PerimeterView>, perim: PerimeterView) -> spec_fn(int) -> bool {
    |b: int| 0 <= b < blocks.len() && blocks[b].adjacent(perim)
}

/// The blocks below `n` that `hood` holds once it has taken `id`: those that
/// it owns, and `id` itself. Ascending.
pub open spec fn blocks_with(owners: Seq<NeighborhoodID>, hood: NeighborhoodID, id: BlockID, n: nat)
    -> Seq<BlockID> {
    chosen_blocks(gains(owners, hood, id), n)
}

/// The blocks below `n` that `hood` still holds once it has given `id` away.
/// Ascending.
pub open spec fn blocks_without(
    owners: Seq<NeighborhoodID>,
    hood: NeighborhoodID,
    id: BlockID,
    n: nat,
) -> Seq<BlockID> {
    chosen_blocks(keeps(owners, hood, id), n)
}

/// The first neighborhood at or after `from` whose perimeter walks `side`.
pub open spec fn first_walking(hoods: Seq<NeighborhoodView>, side: RoadSideID, from: int) -> Option<
    NeighborhoodID,
>
    decreases hoods.len() - from,
{
    if from < 0 || from >= hoods.len() {
        None
    } else if hoods[from].block.roads.contains(side) {
        Some(hoods[from].id)
    } else {
        first_walking(hoods, side, from + 1)
    }
}

/// The first neighborhood at or after `from` whose perimeter encloses `block`.
pub open spec fn first_enclosing(
    hoods: Seq<NeighborhoodView>,
    block: PerimeterView,
    from: int,
) -> Option<NeighborhoodID>
    decreases hoods.len() - from,
{
    if from < 0 || from >= hoods.len() {
        None
    } else if hoods[from].block.encloses(block) {
        Some(hoods[from].id)
    } else {
        first_enclosing(hoods, block, from + 1)
    }
}

/// The neighborhoods with the first colours of `colors` applied, one colour
/// each, in order. Where `colors` is shorter, the rest keep their colour.
pub open spec fn recolored(hoods: Seq<NeighborhoodView>, colors: Seq<usize>) -> Seq<
    NeighborhoodView,
> {
    Seq::new(
        hoods.len(),
        |i: int|
            if i < colors.len() {
                NeighborhoodView {
                    id: hoods[i].id,
                    block: hoods[i].block,
                    color: palette(colors[i] as int),
                }
            } else {
                hoods[i]
            },
    )
}

/// Some neighborhood has another colour in `b` than in `a`.
pub open spec fn colors_differ(a: Seq<NeighborhoodView>, b: Seq<NeighborhoodView>) -> bool {
    exists|i: int| 0 <= i < a.len() && i < b.len() && (#[trigger] a[i]).color != b[i].color
}

/// One red neighborhood for each merged block, numbered from 0 in the order
/// given.
pub open spec fn seeded(merged: Seq<PerimeterView>) -> Seq<NeighborhoodView> {
    Seq::new(
        merged.len(),
        |i: int| NeighborhoodView { id: NeighborhoodID(i as usize), block: merged[i], color: Color::Red },
    )
}

/// What seeding makes: the neighborhoods, and the owner of each block.
pub struct Seeding {
    pub neighborhoods: Seq<NeighborhoodView>,
    pub owners: Seq<NeighborhoodID>,
}

/// What seeding makes of the first `n` single blocks. There is a
/// neighborhood for each merged block to begin with. A block goes to the
/// first of those whose perimeter encloses it. One that none of them
/// encloses gets a red neighborhood of its own, numbered after all that are
/// there.
pub open spec fn seeding(merged: Seq<PerimeterView>, blocks: Seq<PerimeterView>, n: nat) -> Seeding
    decreases n,
{
    if n == 0 {
        Seeding { neighborhoods: seeded(merged), owners: Seq::empty() }
    } else {
        let so_far = seeding(merged, blocks, (n - 1) as nat);
        let block = blocks[n - 1];
        match first_enclosing(seeded(merged), block, 0) {
            Some(hood) => Seeding {
                neighborhoods: so_far.neighborhoods,
                owners: so_far.owners.push(hood),
            },
            None => {
                let hood = NeighborhoodID(so_far.neighborhoods.len() as usize);
                Seeding {
                    neighborhoods: so_far.neighborhoods.push(
                        NeighborhoodView { id: hood, block, color: Color::Red },
                    ),
                    owners: so_far.owners.push(hood),
                }
            },
        }
    }
}

/// The blocks below `n` that have a road side on a road that `perim` runs
/// along. Ascending.
pub open spec fn frontier(blocks: Seq<PerimeterView>, perim: PerimeterView, n: nat) -> Seq<BlockID> {
    chosen_blocks(borders(blocks, perim), n)
}

/// The colour indices to apply: those given, or else each neighborhood's own
/// position.
pub open spec fn chosen_colors(colors: Option<Vec<usize>>, n: nat) -> Seq<usize> {
    match colors {
        Some(c) => c@,
        None => Seq::new(n, |i: int| i as usize),
    }
}

/// Some neighborhood of `hoods` has this ID.
pub open spec fn has_id(hoods: Seq<NeighborhoodView>, id: NeighborhoodID) -> bool {
    exists|i: int| 0 <= i < hoods.len() && (#[trigger] hoods[i]).id == id
}

/// Where in `hoods` the neighborhood with this ID stands.
pub open spec fn position_of(hoods: Seq<NeighborhoodView>, id: NeighborhoodID) -> int {
    choose|i: int| 0 <= i < hoods.len() && (#[trigger] hoods[i]).id == id
}

/// The IDs ascend strictly.
pub open spec fn ascending(hoods: Seq<NeighborhoodView>) -> bool {
    forall|i: int, j: int|
        0 <= i < j < hoods.len() ==> (#[trigger] hoods[i]).id.0 < (#[trigger] hoods[j]).id.0
}

/// What a partitioning is.
pub struct PartitioningView {
    /// The map that the blocks were taken from.
    pub map: MapNameView,
    /// The neighborhoods, by ascending ID.
    pub neighborhoods: Seq<NeighborhoodView>,
    /// The single blocks; a `BlockID` is a position here.
    pub blocks: Seq<PerimeterView>,
    /// For each single block, the neighborhood it belongs to.
    pub owners: Seq<NeighborhoodID>,
    /// The ID that the next new neighborhood gets.
    pub next_id: usize,
}

impl PartitioningView {
    /// There is a neighborhood with this ID.
    pub open spec fn has(self, id: NeighborhoodID) -> bool {
        has_id(self.neighborhoods, id)
    }

    /// Where the neighborhood with this ID stands.
    pub open spec fn index_of(self, id: NeighborhoodID) -> int {
        position_of(self.neighborhoods, id)
    }

    /// The neighborhood with this ID.
    pub open spec fn get(self, id: NeighborhoodID) -> NeighborhoodView {
        self.neighborhoods[self.index_of(id)]
    }

    /// The neighborhoods stand by ascending ID, below `next_id`; and every
    /// block belongs to one neighborhood, which exists.
    pub open spec fn wf(self) -> bool {
        &&& self.owners.len() == self.blocks.len()
        &&& ascending(self.neighborhoods)
        &&& forall|i: int|
            0 <= i < self.neighborhoods.len() ==> (#[trigger] self.neighborhoods[i]).id.0
                < self.next_id
        &&& forall|b: int| 0 <= b < self.owners.len() ==> self.has(#[trigger] self.owners[b])
    }

    /// The blocks that `new_owner` holds once it has taken `id`.
    pub open spec fn gaining(self, id: BlockID, new_owner: NeighborhoodID) -> Seq<BlockID> {
        blocks_with(self.owners, new_owner, id, self.owners.len())
    }

    /// The blocks that `old_owner` still holds once it has given `id` away.
    pub open spec fn keeping(self, id: BlockID, old_owner: NeighborhoodID) -> Seq<BlockID> {
        blocks_without(self.owners, old_owner, id, self.owners.len())
    }

    /// The same, with the block of neighborhood `hood` replaced.
    pub open spec fn with_block(self, hood: NeighborhoodID, block: PerimeterView) -> Self {
        let i = self.index_of(hood);
        PartitioningView {
            neighborhoods: self.neighborhoods.update(
                i,
                NeighborhoodView { id: hood, block, color: self.neighborhoods[i].color },
            ),
            ..self
        }
    }

    /// The same, without neighborhood `hood`.
    pub open spec fn without(self, hood: NeighborhoodID) -> Self {
        PartitioningView { neighborhoods: self.neighborhoods.remove(self.index_of(hood)), ..self }
    }

    /// The same, with block `id` given to `hood`.
    pub open spec fn with_owner(self, id: BlockID, hood: NeighborhoodID) -> Self {
        PartitioningView { owners: self.owners.update(id.0 as int, hood), ..self }
    }

    /// The same, with one more neighborhood: it gets the next ID, holds a copy
    /// of block `id`, and is red.
    pub open spec fn with_fresh(self, id: BlockID) -> Self {
        PartitioningView {
            neighborhoods: self.neighborhoods.push(
                NeighborhoodView {
                    id: NeighborhoodID(self.next_id),
                    block: self.blocks[id.0 as int],
                    color: Color::Red,
                },
            ),
            next_id: (self.next_id + 1) as usize,
            ..self
        }
    }

    /// After block `id` went from `old_owner`, which held nothing else, to
    /// `new_owner`: the old neighborhood is gone.
    pub open spec fn after_absorbing(
        self,
        id: BlockID,
        old_owner: NeighborhoodID,
        new_owner: NeighborhoodID,
        gained: PerimeterView,
    ) -> Self {
        self.with_block(new_owner, gained).with_owner(id, new_owner).without(old_owner)
    }

    /// After block `id` went from `old_owner`, which holds others still, to
    /// `new_owner`.
    pub open spec fn after_moving(
        self,
        id: BlockID,
        old_owner: NeighborhoodID,
        new_owner: NeighborhoodID,
        gained: PerimeterView,
        kept: PerimeterView,
    ) -> Self {
        self.with_block(old_owner, kept).with_block(new_owner, gained).with_owner(id, new_owner)
    }

    /// Whether `old_owner` keeps no block once it has given `id` away.
    pub open spec fn emptied(self, id: BlockID, old_owner: NeighborhoodID) -> bool {
        self.keeping(id, old_owner).len() == 0
    }

    /// What a transfer of block `id` from `old_owner` to `new_owner` answers,
    /// given what merging gave for the two neighborhoods.
    pub open spec fn transfer_result(
        self,
        id: BlockID,
        old_owner: NeighborhoodID,
        new_owner: NeighborhoodID,
        merged_new: Result<Block, PartitionError>,
        merged_old: Result<Block, PartitionError>,
    ) -> Result<Option<NeighborhoodID>, PartitionError> {
        match merged_new {
            Err(e) => Err(e),
            Ok(_) => if self.emptied(id, old_owner) {
                Ok(Some(new_owner))
            } else {
                match merged_old {
                    Err(e) => Err(e),
                    Ok(_) => Ok(None),
                }
            },
        }
    }

    /// What a transfer of block `id` from `old_owner` to `new_owner` leaves,
    /// given what merging gave for the two neighborhoods. A transfer that
    /// fails leaves everything as it was.
    pub open spec fn transfer_state(
        self,
        id: BlockID,
        old_owner: NeighborhoodID,
        new_owner: NeighborhoodID,
        merged_new: Result<Block, PartitionError>,
        merged_old: Result<Block, PartitionError>,
    ) -> Self {
        match merged_new {
            Err(_) => self,
            Ok(gained) => if self.emptied(id, old_owner) {
                self.after_absorbing(id, old_owner, new_owner, gained@)
            } else {
                match merged_old {
                    Err(_) => self,
                    Ok(kept) => self.after_moving(id, old_owner, new_owner, gained@, kept@),
                }
            },
        }
    }

    /// The same, with the next ID used up.
    pub open spec fn with_id_spent(self) -> Self {
        PartitioningView { next_id: (self.next_id + 1) as usize, ..self }
    }

    /// The neighborhood that takes block `id` when `old_owner` lets it go,
    /// looking at the block's road sides from position `k` on: for the first
    /// road side that is also on the perimeter of `old_owner` and whose other
    /// side some neighborhood walks, the first such neighborhood.
    pub open spec fn taker(self, id: BlockID, old_owner: NeighborhoodID, k: int) -> Option<
        NeighborhoodID,
    >
        decreases self.blocks[id.0 as int].roads.len() - k,
    {
        let roads = self.blocks[id.0 as int].roads;
        if k < 0 || k >= roads.len() {
            None
        } else if self.get(old_owner).block.roads.contains(roads[k]) && first_walking(
            self.neighborhoods,
            opposite(roads[k]),
            0,
        ) is Some {
            first_walking(self.neighborhoods, opposite(roads[k]), 0)
        } else {
            self.taker(id, old_owner, k + 1)
        }
    }

    /// The same, with other neighborhoods in place of these.
    pub open spec fn with_neighborhoods(self, neighborhoods: Seq<NeighborhoodView>) -> Self {
        PartitioningView { neighborhoods, ..self }
    }
}

/// The blocks of a map, the neighborhoods made of them, and which block
/// belongs to which neighborhood.
pub struct Partitioning {
    pub map: MapName,
    neighborhoods: Vec<Neighborhood>,
    single_blocks: Vec<Block>,
    neighborhood_id_counter: usize,
    block_to_neighborhood: Vec<NeighborhoodID>,
}

impl View for Partitioning {
    type V = PartitioningView;

    closed spec fn view(&self) -> PartitioningView {
        PartitioningView {
            map: self.map@,
            neighborhoods: neighborhood_views(self.neighborhoods@),
            blocks: block_views(self.single_blocks@),
            owners: self.block_to_neighborhood@,
            next_id: self.neighborhood_id_counter,
        }
    }
}

impl Partitioning {
    /// The representation is in order: see [`PartitioningView::wf`].
    pub open spec fn wf(&self) -> bool {
        self@.wf()
    }

    /// A partitioning of nothing, under a placeholder name.
    pub fn empty() -> (p: Partitioning)
        ensures
            p.wf(),
            p@.neighborhoods.len() == 0,
            p@.blocks.len() == 0,
            p@.owners.len() == 0,
            p@.next_id == 0,
            p@.map.country == "zz"@,
            p@.map.city == "temp"@,
            p@.map.map == "orary"@,
    {
        Partitioning {
            map: MapName {
                country: "zz".to_owned(),
                city: "temp".to_owned(),
                map: "orary".to_owned(),
            },
            neighborhoods: Vec::new(),
            single_blocks: Vec::new(),
            neighborhood_id_counter: 0,
            block_to_neighborhood: Vec::new(),
        }
    }

    /// Where the neighborhood `id` stands, if there is one.
    fn find(&self, id: NeighborhoodID) -> (r: Option<usize>)
        requires
            self.wf(),
        ensures
            match r {
                Some(i) => self@.has(id) && i == self@.index_of(id) && i < self.neighborhoods.len()
                    && self.neighborhoods[i as int].id == id,
                None => !self@.has(id),
            },
    {
        let mut i: usize = 0;
        while i < self.neighborhoods.len()
            invariant
                self.wf(),
                i <= self.neighborhoods.len(),
                forall|k: int| 0 <= k < i ==> (#[trigger] self@.neighborhoods[k]).id != id,
            decreases self.neighborhoods.len() - i,
        {
            if self.neighborhoods[i].id == id {
                proof {
                    let v = self@;
                    assert(v.neighborhoods[i as int].id == id);
                    let j = v.index_of(id);
                    assert(0 <= j < v.neighborhoods.len() && v.neighborhoods[j].id == id);
                    if j < i {
                        assert(v.neighborhoods[j].id.0 < v.neighborhoods[i as int].id.0);
                    }
                    if i < j {
                        assert(v.neighborhoods[i as int].id.0 < v.neighborhoods[j].id.0);
                    }
                }
                return Some(i);
            }
            i += 1;
        }
        None
    }

    /// Whether there is a neighborhood `id`.
    pub fn has_neighborhood(&self, id: NeighborhoodID) -> (r: bool)
        requires
            self.wf(),
        ensures
            r == self@.has(id),
    {
        self.find(id).is_some()
    }

    /// The merged block of neighborhood `id`.
    pub fn neighborhood_block(&self, id: NeighborhoodID) -> (r: &Block)
        requires
            self.wf(),
            self@.has(id),
        ensures
            r@ == self@.get(id).block,
    {
        let i = self.find(id).unwrap();
        &self.neighborhoods[i].block
    }

    /// The colour of neighborhood `id`.
    pub fn neighborhood_color(&self, id: NeighborhoodID) -> (r: Color)
        requires
            self.wf(),
            self@.has(id),
        ensures
            r == self@.get(id).color,
    {
        let i = self.find(id).unwrap();
        self.neighborhoods[i].color
    }

    /// All neighborhoods, by ascending ID.
    pub fn all_neighborhoods(&self) -> (r: &Vec<Neighborhood>)
        ensures
            neighborhood_views(r@) == self@.neighborhoods,
    {
        &self.neighborhoods
    }

    /// The map that the blocks were taken from.
    pub fn map_name(&self) -> (r: &MapName)
        ensures
            r@ == self@.map,
    {
        &self.map
    }

    /// The ID that the next new neighborhood gets.
    pub fn next_neighborhood_id(&self) -> (r: NeighborhoodID)
        ensures
            r.0 == self@.next_id,
    {
        NeighborhoodID(self.neighborhood_id_counter)
    }

    /// The single block `id`.
    pub fn get_block(&self, id: BlockID) -> (r: &Block)
        requires
            id.0 < self@.blocks.len(),
        ensures
            r@ == self@.blocks[id.0 as int],
    {
        &self.single_blocks[id.0]
    }

    /// The neighborhood that block `id` belongs to.
    pub fn block_to_neighborhood(&self, id: BlockID) -> (r: NeighborhoodID)
        requires
            self.wf(),
            id.0 < self@.blocks.len(),
        ensures
            r == self@.owners[id.0 as int],
            self@.has(r),
    {
        self.block_to_neighborhood[id.0]
    }

    /// The IDs of all single blocks, ascending.
    pub fn all_block_ids(&self) -> (r: Vec<BlockID>)
        ensures
            r@ == Seq::new(self@.blocks.len(), |i: int| BlockID(i as usize)),
    {
        let mut out: Vec<BlockID> = Vec::new();
        let mut i: usize = 0;
        while i < self.single_blocks.len()
            invariant
                i <= self.single_blocks.len(),
                out@ == Seq::new(i as nat, |k: int| BlockID(k as usize)),
            decreases self.single_blocks.len() - i,
        {
            out.push(BlockID(i));
            i += 1;
            assert(out@ =~= Seq::new(i as nat, |k: int| BlockID(k as usize)));
        }
        assert(out@ =~= Seq::new(self@.blocks.len(), |i: int| BlockID(i as usize)));
        out
    }

    /// All single blocks, each with its ID, ascending.
    pub fn all_single_blocks(&self) -> (r: Vec<(BlockID, &Block)>)
        ensures
            r@.len() == self@.blocks.len(),
            forall|i: int|
                0 <= i < r@.len() ==> (#[trigger] r@[i]).0 == BlockID(i as usize) && r@[i].1@
                    == self@.blocks[i],
    {
        let mut out: Vec<(BlockID, &Block)> = Vec::new();
        let mut i: usize = 0;
        while i < self.single_blocks.len()
            invariant
                i <= self.single_blocks.len(),
                out@.len() == i,
                forall|k: int|
                    0 <= k < i ==> (#[trigger] out@[k]).0 == BlockID(k as usize) && out@[k].1@
                        == self@.blocks[k],
            decreases self.single_blocks.len() - i,
        {
            out.push((BlockID(i), &self.single_blocks[i]));
            i += 1;
        }
        out
    }
}

impl Partitioning {
    /// The blocks to merge into the new block of `new_owner` when it takes
    /// block `id`: its own, and `id`. Ascending.
    pub fn blocks_gained(&self, id: BlockID, new_owner: NeighborhoodID) -> (r: Vec<BlockID>)
        ensures
            r@ == self@.gaining(id, new_owner),
    {
        let mut out: Vec<BlockID> = Vec::new();
        let mut b: usize = 0;
        while b < self.block_to_neighborhood.len()
            invariant
                b <= self.block_to_neighborhood.len(),
                out@ == blocks_with(self@.owners, new_owner, id, b as nat),
            decreases self.block_to_neighborhood.len() - b,
        {
            if self.block_to_neighborhood[b] == new_owner || b == id.0 {
                out.push(BlockID(b));
            }
            b += 1;
        }
        out
    }

    /// The blocks to merge into the new block of `old_owner` when it gives
    /// block `id` away: its own, but for `id`. Ascending.
    pub fn blocks_kept(&self, id: BlockID, old_owner: NeighborhoodID) -> (r: Vec<BlockID>)
        ensures
            r@ == self@.keeping(id, old_owner),
    {
        let mut out: Vec<BlockID> = Vec::new();
        let mut b: usize = 0;
        while b < self.block_to_neighborhood.len()
            invariant
                b <= self.block_to_neighborhood.len(),
                out@ == blocks_without(self@.owners, old_owner, id, b as nat),
            decreases self.block_to_neighborhood.len() - b,
        {
            if self.block_to_neighborhood[b] == old_owner && b != id.0 {
                out.push(BlockID(b));
            }
            b += 1;
        }
        out
    }

    /// The perimeters of the given single blocks, in the order given: what is
    /// to be merged into one.
    pub fn perimeters_of(&self, input: &Vec<BlockID>) -> (r: Vec<Perimeter>)
        requires
            forall|k: int| 0 <= k < input@.len() ==> (#[trigger] input@[k]).0 < self@.blocks.len(),
        ensures
            r@.len() == input@.len(),
            forall|k: int|
                0 <= k < input@.len() ==> (#[trigger] r@[k])@ == self@.blocks[input@[k].0 as int],
    {
        let mut out: Vec<Perimeter> = Vec::new();
        let mut i: usize = 0;
        while i < input.len()
            invariant
                i <= input.len(),
                out@.len() == i,
                forall|k: int|
                    0 <= k < input@.len() ==> (#[trigger] input@[k]).0 < self@.blocks.len(),
                forall|k: int|
                    0 <= k < i ==> (#[trigger] out@[k])@ == self@.blocks[input@[k].0 as int],
            decreases input.len() - i,
        {
            let id = input[i];
            out.push(self.get_block(id).perimeter.clone());
            i += 1;
        }
        out
    }

    /// Replaces the block of the neighborhood that stands at `i`.
    fn set_block(&mut self, i: usize, block: Block)
        requires
            old(self).wf(),
            i < old(self)@.neighborhoods.len(),
        ensures
            final(self).wf(),
            final(self)@ == old(self)@.with_block(old(self)@.neighborhoods[i as int].id, block@),
            final(self)@.neighborhoods == old(self)@.neighborhoods.update(
                i as int,
                NeighborhoodView {
                    id: old(self)@.neighborhoods[i as int].id,
                    block: block@,
                    color: old(self)@.neighborhoods[i as int].color,
                },
            ),
    {
        let ghost before = self@;
        let id = self.neighborhoods[i].id;
        let color = self.neighborhoods[i].color;
        proof {
            lemma_index_of(before, i as int);
        }
        self.neighborhoods.set(i, Neighborhood { id, block, color });
        proof {
            let entry = NeighborhoodView { id, block: block@, color };
            assert(self@.neighborhoods =~= before.neighborhoods.update(i as int, entry));
            lemma_update_keeps_ids(before, i as int, entry);
        }
    }
}

impl Partitioning {
    /// Gives block `id` to neighborhood `hood`.
    fn set_owner(&mut self, id: BlockID, hood: NeighborhoodID)
        requires
            old(self).wf(),
            old(self)@.has(hood),
            id.0 < old(self)@.owners.len(),
        ensures
            final(self).wf(),
            final(self)@ == old(self)@.with_owner(id, hood),
    {
        self.block_to_neighborhood.set(id.0, hood);
    }

    /// Takes out the neighborhood at `j`, which owns no block.
    fn remove_at(&mut self, j: usize)
        requires
            old(self).wf(),
            j < old(self)@.neighborhoods.len(),
            forall|b: int|
                0 <= b < old(self)@.owners.len() ==> (#[trigger] old(self)@.owners[b]) != old(
                    self,
                )@.neighborhoods[j as int].id,
        ensures
            final(self).wf(),
            final(self)@ == old(self)@.without(old(self)@.neighborhoods[j as int].id),
            final(self)@.neighborhoods == old(self)@.neighborhoods.remove(j as int),
    {
        let ghost before = self@;
        proof {
            lemma_index_of(before, j as int);
        }
        self.neighborhoods.remove(j);
        proof {
            assert(self@.neighborhoods =~= before.neighborhoods.remove(j as int));
            lemma_remove_keeps_order(before, j as int);
        }
    }

    /// Moves block `id` from `old_owner` to `new_owner`, given what merging
    /// gave: `merged_new` for the blocks of [`Self::blocks_gained`], and
    /// `merged_old` for those of [`Self::blocks_kept`].
    ///
    /// Where the new neighborhood cannot be formed, nothing changes and the
    /// error is handed back. Where `old_owner` keeps no block, it is removed
    /// and the answer names `new_owner`, which the caller should turn to;
    /// `merged_old` is not looked at. Else the old neighborhood must be
    /// formable too, and both get their new blocks.
    pub fn transfer_block(
        &mut self,
        id: BlockID,
        old_owner: NeighborhoodID,
        new_owner: NeighborhoodID,
        merged_new: Result<Block, PartitionError>,
        merged_old: Result<Block, PartitionError>,
    ) -> (r: Result<Option<NeighborhoodID>, PartitionError>)
        requires
            old(self).wf(),
            old_owner != new_owner,
            old(self)@.has(old_owner),
            old(self)@.has(new_owner),
            id.0 < old(self)@.blocks.len(),
        ensures
            final(self).wf(),
            r == old(self)@.transfer_result(id, old_owner, new_owner, merged_new, merged_old),
            final(self)@ == old(self)@.transfer_state(
                id,
                old_owner,
                new_owner,
                merged_new,
                merged_old,
            ),
            r is Ok ==> final(self)@.owners[id.0 as int] == new_owner && final(self)@.has(new_owner),
    {
        let gained = match merged_new {
            Ok(block) => block,
            Err(e) => {
                return Err(e);
            },
        };
        let ghost before = self@;
        let stays = self.blocks_kept(id, old_owner);
        if stays.len() == 0 {
            // The old neighborhood goes away.
            let i = self.find(new_owner).unwrap();
            self.set_block(i, gained);
            proof {
                lemma_update_keeps_ids(
                    before,
                    i as int,
                    NeighborhoodView {
                        id: new_owner,
                        block: gained@,
                        color: before.neighborhoods[i as int].color,
                    },
                );
            }
            self.set_owner(id, new_owner);
            let j = self.find(old_owner).unwrap();
            proof {
                lemma_keeping_empty(before.owners, old_owner, id);
            }
            self.remove_at(j);
            proof {
                lemma_remove_keeps_others(
                    before.with_block(new_owner, gained@).with_owner(id, new_owner),
                    j as int,
                    new_owner,
                );
            }
            return Ok(Some(new_owner));
        }
        let kept = match merged_old {
            Ok(block) => block,
            Err(e) => {
                return Err(e);
            },
        };
        let j = self.find(old_owner).unwrap();
        self.set_block(j, kept);
        proof {
            lemma_update_keeps_ids(
                before,
                j as int,
                NeighborhoodView {
                    id: old_owner,
                    block: kept@,
                    color: before.neighborhoods[j as int].color,
                },
            );
        }
        let ghost middle = self@;
        let i = self.find(new_owner).unwrap();
        self.set_block(i, gained);
        proof {
            lemma_update_keeps_ids(
                middle,
                i as int,
                NeighborhoodView {
                    id: new_owner,
                    block: gained@,
                    color: middle.neighborhoods[i as int].color,
                },
            );
        }
        self.set_owner(id, new_owner);
        Ok(None)
    }
}

impl Partitioning {
    /// The first neighborhood, by ascending ID, whose perimeter walks `side`.
    fn first_with_side(&self, side: RoadSideID) -> (r: Option<NeighborhoodID>)
        ensures
            r == first_walking(self@.neighborhoods, side, 0),
            r is Some ==> self@.has(r->0),
    {
        let mut i: usize = 0;
        while i < self.neighborhoods.len()
            invariant
                i <= self.neighborhoods.len(),
                first_walking(self@.neighborhoods, side, 0) == first_walking(
                    self@.neighborhoods,
                    side,
                    i as int,
                ),
            decreases self.neighborhoods.len() - i,
        {
            if self.neighborhoods[i].block.perimeter.has_side(side) {
                assert(self@.neighborhoods[i as int].id == self.neighborhoods[i as int].id);
                return Some(self.neighborhoods[i].id);
            }
            i += 1;
        }
        None
    }

    /// The neighborhood that would take block `id` if `old_owner` let it go:
    /// the block's road sides are tried in order; one counts if it lies on the
    /// perimeter of `old_owner` and some neighborhood walks its other side.
    /// The first neighborhood doing so, by ascending ID, is the answer. `None`
    /// where no road side counts: the block then gets a neighborhood of its
    /// own.
    pub fn find_new_owner(&self, id: BlockID, old_owner: NeighborhoodID) -> (r: Option<
        NeighborhoodID,
    >)
        requires
            self.wf(),
            id.0 < self@.blocks.len(),
            self@.has(old_owner),
        ensures
            r == self@.taker(id, old_owner, 0),
            r is Some ==> self@.has(r->0),
    {
        let j = self.find(old_owner).unwrap();
        let mut k: usize = 0;
        while k < self.single_blocks[id.0].perimeter.roads.len()
            invariant
                self.wf(),
                id.0 < self@.blocks.len(),
                j == self@.index_of(old_owner),
                j < self.neighborhoods.len(),
                k <= self.single_blocks[id.0 as int].perimeter.roads.len(),
                self@.taker(id, old_owner, 0) == self@.taker(id, old_owner, k as int),
            decreases self.single_blocks[id.0 as int].perimeter.roads.len() - k,
        {
            let side = self.single_blocks[id.0].perimeter.roads[k];
            assert(side == self@.blocks[id.0 as int].roads[k as int]);
            assert(self@.get(old_owner).block == self.neighborhoods[j as int].block@);
            if self.neighborhoods[j].block.perimeter.has_side(side) {
                match self.first_with_side(side.other_side()) {
                    Some(hood) => {
                        return Some(hood);
                    },
                    None => {},
                }
            }
            k += 1;
        }
        None
    }

    /// Adds a red neighborhood under the next ID, holding a copy of block `id`.
    fn push_fresh(&mut self, id: BlockID) -> (hood: NeighborhoodID)
        requires
            old(self).wf(),
            id.0 < old(self)@.blocks.len(),
            old(self)@.next_id < usize::MAX,
        ensures
            final(self).wf(),
            final(self)@ == old(self)@.with_fresh(id),
            hood.0 == old(self)@.next_id,
            final(self)@.has(hood),
            forall|other: NeighborhoodID| old(self)@.has(other) ==> final(self)@.has(other),
    {
        let ghost before = self@;
        let hood = NeighborhoodID(self.neighborhood_id_counter);
        self.neighborhood_id_counter += 1;
        let block = self.single_blocks[id.0].clone();
        self.neighborhoods.push(Neighborhood { id: hood, block, color: Color::Red });
        proof {
            let entry = NeighborhoodView {
                id: hood,
                block: before.blocks[id.0 as int],
                color: Color::Red,
            };
            assert(self@.neighborhoods =~= before.neighborhoods.push(entry));
            assert(self@.neighborhoods[before.neighborhoods.len() as int].id == hood);
            assert forall|other: NeighborhoodID| before.has(other) implies self@.has(other) by {
                let k = before.index_of(other);
                assert(self@.neighborhoods[k].id == other);
            }
            assert forall|a: int, b: int| 0 <= a < b < self@.neighborhoods.len() implies (
            #[trigger] self@.neighborhoods[a]).id.0 < (#[trigger] self@.neighborhoods[b]).id.0 by {
                assert(before.neighborhoods[a].id.0 < before.next_id);
                if b < before.neighborhoods.len() {
                    assert(before.neighborhoods[a].id.0 < before.neighborhoods[b].id.0);
                }
            }
            assert forall|a: int| 0 <= a < self@.neighborhoods.len() implies (
            #[trigger] self@.neighborhoods[a]).id.0 < self@.next_id by {
                if a < before.neighborhoods.len() {
                    assert(before.neighborhoods[a].id.0 < before.next_id);
                }
            }
            assert forall|b: int| 0 <= b < self@.owners.len() implies self@.has(
                #[trigger] self@.owners[b],
            ) by {
                assert(before.has(before.owners[b]));
            }
        }
        hood
    }

    /// Takes block `id` out of `old_owner`: it goes to the neighborhood that
    /// [`Self::find_new_owner`] names, or, where that names none, to a new
    /// neighborhood under the next ID. `merged_new` and `merged_old` are what
    /// merging gave for the blocks of [`Self::blocks_gained`] (asked of the
    /// taking neighborhood) and of [`Self::blocks_kept`].
    ///
    /// Where the transfer fails, the neighborhoods and owners stay as they
    /// were; a new neighborhood that was made for it is taken out again, and
    /// only its ID stays used up.
    pub fn remove_block_from_neighborhood(
        &mut self,
        id: BlockID,
        old_owner: NeighborhoodID,
        merged_new: Result<Block, PartitionError>,
        merged_old: Result<Block, PartitionError>,
    ) -> (r: Result<Option<NeighborhoodID>, PartitionError>)
        requires
            old(self).wf(),
            id.0 < old(self)@.blocks.len(),
            old(self)@.has(old_owner),
            old(self)@.taker(id, old_owner, 0) != Some(old_owner),
            old(self)@.next_id < usize::MAX,
        ensures
            final(self).wf(),
            match old(self)@.taker(id, old_owner, 0) {
                Some(new_owner) => {
                    &&& r == old(self)@.transfer_result(
                        id,
                        old_owner,
                        new_owner,
                        merged_new,
                        merged_old,
                    )
                    &&& final(self)@ == old(self)@.transfer_state(
                        id,
                        old_owner,
                        new_owner,
                        merged_new,
                        merged_old,
                    )
                },
                None => {
                    let new_owner = NeighborhoodID(old(self)@.next_id);
                    let grown = old(self)@.with_fresh(id);
                    &&& r == grown.transfer_result(id, old_owner, new_owner, merged_new, merged_old)
                    &&& final(self)@ == if r is Err {
                        old(self)@.with_id_spent()
                    } else {
                        grown.transfer_state(id, old_owner, new_owner, merged_new, merged_old)
                    }
                },
            },
    {
        match self.find_new_owner(id, old_owner) {
            Some(new_owner) => self.transfer_block(id, old_owner, new_owner, merged_new, merged_old),
            None => {
                let ghost before = self@;
                proof {
                    let j = before.index_of(old_owner);
                    assert(before.neighborhoods[j].id.0 < before.next_id);
                }
                let new_owner = self.push_fresh(id);
                let ghost grown = self@;
                let result = self.transfer_block(id, old_owner, new_owner, merged_new, merged_old);
                if result.is_err() {
                    assert(self@ == grown);
                    // Take the new neighborhood out again.
                    self.neighborhoods.pop();
                    proof {
                        assert(self@.neighborhoods =~= grown.neighborhoods.drop_last());
                        assert(grown.neighborhoods.drop_last() =~= before.neighborhoods);
                        assert(self@ == before.with_id_spent());
                        assert forall|a: int| 0 <= a < self@.neighborhoods.len() implies (
                        #[trigger] self@.neighborhoods[a]).id.0 < self@.next_id by {
                            assert(before.neighborhoods[a].id.0 < before.next_id);
                        }
                    }
                }
                result
            },
        }
    }
}

impl Partitioning {
    /// The perimeters of all neighborhoods, by ascending ID: what a colouring
    /// is computed for.
    pub fn neighborhood_perimeters(&self) -> (r: Vec<Perimeter>)
        ensures
            r@.len() == self@.neighborhoods.len(),
            forall|i: int| 0 <= i < r@.len() ==> (#[trigger] r@[i])@ == self@.neighborhoods[i].block,
    {
        let mut out: Vec<Perimeter> = Vec::new();
        let mut i: usize = 0;
        while i < self.neighborhoods.len()
            invariant
                i <= self.neighborhoods.len(),
                out@.len() == i,
                forall|k: int| 0 <= k < i ==> (#[trigger] out@[k])@ == self@.neighborhoods[k].block,
            decreases self.neighborhoods.len() - i,
        {
            out.push(self.neighborhoods[i].block.perimeter.clone());
            i += 1;
        }
        out
    }

    /// Colours the neighborhoods anew. `colors` holds one palette index for
    /// each neighborhood, by ascending ID, as a colouring of
    /// [`Self::neighborhood_perimeters`] gave them; `None` where no colouring
    /// was found: each neighborhood then takes its own position as its index.
    /// Indices wrap around the palette. True if some colour changed.
    pub fn recalculate_coloring(&mut self, colors: Option<Vec<usize>>) -> (changed: bool)
        requires
            old(self).wf(),
        ensures
            final(self).wf(),
            final(self)@ == old(self)@.with_neighborhoods(
                recolored(
                    old(self)@.neighborhoods,
                    chosen_colors(colors, old(self)@.neighborhoods.len()),
                ),
            ),
            changed == colors_differ(old(self)@.neighborhoods, final(self)@.neighborhoods),
    {
        let ghost before = self@;
        let ghost chosen = chosen_colors(colors, before.neighborhoods.len());
        let n = self.neighborhoods.len();
        assert(recolored(before.neighborhoods, chosen.take(0)) =~= before.neighborhoods);
        let mut changed = false;
        let mut i: usize = 0;
        while i < n
            invariant
                self.wf(),
                n == before.neighborhoods.len(),
                i <= n,
                chosen == chosen_colors(colors, before.neighborhoods.len()),
                self@ == before.with_neighborhoods(
                    recolored(before.neighborhoods, chosen.take(if i < chosen.len() {
                        i as int
                    } else {
                        chosen.len() as int
                    })),
                ),
                changed ==> colors_differ(before.neighborhoods, self@.neighborhoods),
                !changed ==> forall|k: int|
                    0 <= k < n ==> (#[trigger] self@.neighborhoods[k]).color
                        == before.neighborhoods[k].color,
            decreases n - i,
        {
            let pick: Option<usize> = match &colors {
                Some(c) => if i < c.len() {
                    Some(c[i])
                } else {
                    None
                },
                None => Some(i),
            };
            let ghost here = self@;
            match pick {
                Some(idx) => {
                    assert(i < chosen.len() && chosen[i as int] == idx);
                    let color = palette_color(idx);
                    let was = self.neighborhoods[i].color;
                    self.neighborhoods[i].color = color;
                    if was != color {
                        changed = true;
                    }
                    proof {
                        let entry = NeighborhoodView {
                            id: here.neighborhoods[i as int].id,
                            block: here.neighborhoods[i as int].block,
                            color,
                        };
                        assert(self@.neighborhoods =~= here.neighborhoods.update(i as int, entry));
                        lemma_update_keeps_ids(here, i as int, entry);
                        assert(chosen.take(i + 1)[i as int] == idx);
                        assert forall|k: int| 0 <= k < n implies #[trigger] self@.neighborhoods[k]
                            == recolored(before.neighborhoods, chosen.take(i + 1))[k] by {
                            if k < i {
                                assert(chosen.take(i as int)[k] == chosen.take(i + 1)[k]);
                            }
                        }
                        assert(self@.neighborhoods =~= recolored(
                            before.neighborhoods,
                            chosen.take(i + 1),
                        ));
                        if was != color {
                            assert(self@.neighborhoods[i as int].color
                                != before.neighborhoods[i as int].color);
                        } else if changed {
                            let w = choose|w: int|
                                0 <= w < before.neighborhoods.len() && w < here.neighborhoods.len()
                                    && (#[trigger] before.neighborhoods[w]).color
                                    != here.neighborhoods[w].color;
                            assert(before.neighborhoods[w].color != self@.neighborhoods[w].color);
                        }
                    }
                },
                None => {
                    assert(i >= chosen.len());
                },
            }
            i += 1;
        }
        proof {
            assert(recolored(before.neighborhoods, chosen.take(if n < chosen.len() {
                n as int
            } else {
                chosen.len() as int
            })) =~= recolored(before.neighborhoods, chosen));
        }
        changed
    }

    /// The blocks on the frontier of `perim`: those with a road side on a
    /// road that `perim` runs along, whether just inside or just outside.
    /// Ascending.
    pub fn calculate_frontier(&self, perim: &Perimeter) -> (r: Vec<BlockID>)
        ensures
            r@ == frontier(self@.blocks, perim@, self@.blocks.len()),
    {
        let mut out: Vec<BlockID> = Vec::new();
        let mut b: usize = 0;
        while b < self.single_blocks.len()
            invariant
                b <= self.single_blocks.len(),
                out@ == frontier(self@.blocks, perim@, b as nat),
            decreases self.single_blocks.len() - b,
        {
            let roads = &self.single_blocks[b].perimeter.roads;
            let mut found = false;
            let mut k: usize = 0;
            while k < roads.len() && !found
                invariant
                    b < self.single_blocks.len(),
                    roads@ == self@.blocks[b as int].roads,
                    k <= roads.len(),
                    found ==> self@.blocks[b as int].adjacent(perim@),
                    !found ==> forall|m: int|
                        0 <= m < k ==> !perim@.touches((#[trigger] roads@[m]).road),
                decreases roads.len() - k + (if found { 0int } else { 1int }),
            {
                if perim.touches_road(roads[k].road) {
                    found = true;
                    assert(perim@.touches(self@.blocks[b as int].roads[k as int].road));
                } else {
                    k += 1;
                }
            }
            if found {
                out.push(BlockID(b));
            }
            b += 1;
        }
        out
    }

    /// The first neighborhood, by ascending ID, whose perimeter encloses the
    /// single block `id`.
    pub fn neighborhood_containing(&self, id: BlockID) -> (r: Option<NeighborhoodID>)
        requires
            id.0 < self@.blocks.len(),
        ensures
            r == first_enclosing(self@.neighborhoods, self@.blocks[id.0 as int], 0),
            r is Some ==> self@.has(r->0),
    {
        let block = &self.single_blocks[id.0];
        let mut i: usize = 0;
        while i < self.neighborhoods.len()
            invariant
                i <= self.neighborhoods.len(),
                block@ == self@.blocks[id.0 as int],
                first_enclosing(self@.neighborhoods, block@, 0) == first_enclosing(
                    self@.neighborhoods,
                    block@,
                    i as int,
                ),
            decreases self.neighborhoods.len() - i,
        {
            if self.neighborhoods[i].block.perimeter.contains(&block.perimeter) {
                assert(self@.neighborhoods[i as int].id == self.neighborhoods[i as int].id);
                return Some(self.neighborhoods[i].id);
            }
            i += 1;
        }
        None
    }
}

/// The one perimeter that merging gave. A neighborhood that falls into
/// several pieces, or into none, is refused.
pub fn only_perimeter(merged: Vec<Perimeter>) -> (r: Result<Perimeter, PartitionError>)
    ensures
        match r {
            Ok(p) => merged@.len() == 1 && p == merged@[0],
            Err(e) => merged@.len() != 1 && e == PartitionError::Split(merged.len()),
        },
{
    let mut merged = merged;
    let pieces = merged.len();
    if pieces != 1 {
        return Err(PartitionError::Split(pieces));
    }
    match merged.pop() {
        Some(p) => Ok(p),
        None => Err(PartitionError::Split(pieces)),
    }
}

impl Partitioning {
    /// Builds the partitioning of a map from its single blocks and from the
    /// blocks that merging them along minor roads gave. Each merged block
    /// becomes a neighborhood, numbered from 0 in the order given. Each single
    /// block goes to the first of them whose perimeter encloses it; one that
    /// none encloses gets a neighborhood of its own, under the next number.
    /// Every neighborhood is red until [`Self::recalculate_coloring`] is
    /// called.
    pub fn seed_using_heuristics(map: MapName, single_blocks: Vec<Block>, merged: Vec<Block>) -> (p:
        Partitioning)
        ensures
            p.wf(),
            p@.map == map@,
            p@.blocks == block_views(single_blocks@),
            p@.neighborhoods == seeding(
                block_views(merged@),
                block_views(single_blocks@),
                single_blocks@.len(),
            ).neighborhoods,
            p@.owners == seeding(
                block_views(merged@),
                block_views(single_blocks@),
                single_blocks@.len(),
            ).owners,
            p@.next_id == p@.neighborhoods.len(),
    {
        let ghost given = merged@;
        let ghost from_merging = seeded(block_views(given));
        let ghost blocks = block_views(single_blocks@);
        let ghost name = map@;
        let n = merged.len();
        let mut merged = merged;
        let mut rest: Vec<Block> = Vec::new();
        while merged.len() > 0
            invariant
                merged@.len() + rest@.len() == n,
                n == given.len(),
                merged@ == given.take(merged@.len() as int),
                forall|k: int| 0 <= k < rest@.len() ==> (#[trigger] rest@[k]) == given[n - 1 - k],
            decreases merged.len(),
        {
            let ghost len = merged@.len();
            let block = merged.pop().unwrap();
            rest.push(block);
            assert(merged@ =~= given.take(len - 1));
        }
        let ghost reversed = rest@;
        let mut neighborhoods: Vec<Neighborhood> = Vec::new();
        while rest.len() > 0
            invariant
                neighborhoods@.len() + rest@.len() == n,
                n == given.len(),
                reversed.len() == n,
                rest@ == reversed.take(rest@.len() as int),
                forall|k: int| 0 <= k < n ==> (#[trigger] reversed[k]) == given[n - 1 - k],
                forall|k: int|
                    0 <= k < neighborhoods@.len() ==> (#[trigger] neighborhoods@[k])@ == seeded(
                        block_views(given),
                    )[k],
            decreases rest.len(),
        {
            let ghost len = rest@.len();
            let block = rest.pop().unwrap();
            assert(block == reversed[len - 1]);
            assert(rest@ =~= reversed.take(len - 1));
            let id = NeighborhoodID(neighborhoods.len());
            neighborhoods.push(Neighborhood { id, block, color: Color::Red });
        }
        let mut p = Partitioning {
            map,
            neighborhoods,
            single_blocks,
            neighborhood_id_counter: n,
            block_to_neighborhood: Vec::new(),
        };
        assert(p@.neighborhoods =~= from_merging);

        // Which of the merged blocks encloses each single block, if any does.
        let mut found: Vec<Option<NeighborhoodID>> = Vec::new();
        let mut b: usize = 0;
        while b < p.single_blocks.len()
            invariant
                b <= p.single_blocks.len(),
                found@.len() == b,
                p@.blocks == blocks,
                p@.neighborhoods == from_merging,
                forall|k: int|
                    0 <= k < b ==> (#[trigger] found@[k]) == first_enclosing(
                        from_merging,
                        blocks[k],
                        0,
                    ) && (found@[k] is Some ==> has_id(from_merging, found@[k]->0)),
            decreases p.single_blocks.len() - b,
        {
            let owner = p.neighborhood_containing(BlockID(b));
            found.push(owner);
            b += 1;
        }

        // A neighborhood for each block that none encloses.
        let mut owners: Vec<NeighborhoodID> = Vec::new();
        let mut b: usize = 0;
        while b < p.single_blocks.len()
            invariant
                b <= p.single_blocks.len(),
                found@.len() == p.single_blocks@.len(),
                p@.map == name,
                p@.blocks == blocks,
                blocks.len() == p.single_blocks@.len(),
                from_merging == seeded(block_views(given)),
                forall|k: int|
                    0 <= k < found@.len() ==> (#[trigger] found@[k]) == first_enclosing(
                        from_merging,
                        blocks[k],
                        0,
                    ) && (found@[k] is Some ==> has_id(from_merging, found@[k]->0)),
                p@.neighborhoods == seeding(block_views(given), blocks, b as nat).neighborhoods,
                owners@ == seeding(block_views(given), blocks, b as nat).owners,
                owners@.len() == b,
                from_merging.len() <= p@.neighborhoods.len(),
                forall|i: int|
                    0 <= i < from_merging.len() ==> (#[trigger] p@.neighborhoods[i]).id
                        == from_merging[i].id,
                forall|i: int|
                    0 <= i < p@.neighborhoods.len() ==> (#[trigger] p@.neighborhoods[i]).id.0 == i,
                forall|k: int| 0 <= k < b ==> has_id(p@.neighborhoods, #[trigger] owners@[k]),
            decreases p.single_blocks.len() - b,
        {
            let ghost before = p@.neighborhoods;
            let ghost owned = owners@;
            match found[b] {
                Some(hood) => {
                    owners.push(hood);
                    proof {
                        let i = position_of(from_merging, hood);
                        assert(from_merging[i].id == hood);
                        assert(p@.neighborhoods[i].id == hood);
                    }
                },
                None => {
                    let hood = NeighborhoodID(p.neighborhoods.len());
                    let block = p.single_blocks[b].clone();
                    p.neighborhoods.push(Neighborhood { id: hood, block, color: Color::Red });
                    owners.push(hood);
                    proof {
                        let entry = NeighborhoodView {
                            id: hood,
                            block: blocks[b as int],
                            color: Color::Red,
                        };
                        assert(p@.neighborhoods =~= before.push(entry));
                        assert(p@.neighborhoods[before.len() as int].id == hood);
                    }
                },
            }
            proof {
                assert forall|k: int| 0 <= k < b + 1 implies has_id(
                    p@.neighborhoods,
                    #[trigger] owners@[k],
                ) by {
                    if k < b {
                        let i = position_of(before, owned[k]);
                        assert(before[i].id == owned[k]);
                        assert(p@.neighborhoods[i].id == owned[k]);
                    }
                }
            }
            b += 1;
        }
        p.neighborhood_id_counter = p.neighborhoods.len();
        p.block_to_neighborhood = owners;
        p
    }
}

impl Clone for Partitioning {
    fn clone(&self) -> (r: Partitioning)
        ensures
            r@ == self@,
    {
        let map = MapName {
            country: self.map.country.clone(),
            city: self.map.city.clone(),
            map: self.map.map.clone(),
        };
        let mut neighborhoods: Vec<Neighborhood> = Vec::new();
        let mut i: usize = 0;
        while i < self.neighborhoods.len()
            invariant
                i <= self.neighborhoods.len(),
                neighborhoods@.len() == i,
                forall|k: int| 0 <= k < i ==> (#[trigger] neighborhoods@[k])@ == self.neighborhoods@[k]@,
            decreases self.neighborhoods.len() - i,
        {
            let n = &self.neighborhoods[i];
            neighborhoods.push(Neighborhood { id: n.id, block: n.block.clone(), color: n.color });
            i += 1;
        }
        let mut single_blocks: Vec<Block> = Vec::new();
        let mut b: usize = 0;
        while b < self.single_blocks.len()
            invariant
                b <= self.single_blocks.len(),
                single_blocks@.len() == b,
                forall|k: int| 0 <= k < b ==> (#[trigger] single_blocks@[k])@ == self.single_blocks@[k]@,
            decreases self.single_blocks.len() - b,
        {
            single_blocks.push(self.single_blocks[b].clone());
            b += 1;
        }
        let mut block_to_neighborhood: Vec<NeighborhoodID> = Vec::new();
        let mut o: usize = 0;
        while o < self.block_to_neighborhood.len()
            invariant
                o <= self.block_to_neighborhood.len(),
                block_to_neighborhood@ == self.block_to_neighborhood@.take(o as int),
            decreases self.block_to_neighborhood.len() - o,
        {
            block_to_neighborhood.push(self.block_to_neighborhood[o]);
            o += 1;
            assert(block_to_neighborhood@ =~= self.block_to_neighborhood@.take(o as int));
        }
        assert(self.block_to_neighborhood@.take(o as int) =~= self.block_to_neighborhood@);
        let r = Partitioning {
            map,
            neighborhoods,
            single_blocks,
            neighborhood_id_counter: self.neighborhood_id_counter,
            block_to_neighborhood,
        };
        assert(r@.neighborhoods =~= self@.neighborhoods);
        assert(r@.blocks =~= self@.blocks);
        r
    }
}

} // verus!

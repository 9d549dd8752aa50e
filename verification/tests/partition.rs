use street_ui::partition::{
    only_perimeter, palette_color, BlockID, Color, MapName, NeighborhoodID, PartitionError,
    Partitioning, NUM_COLORS,
};
use street_ui::roads::{Block, Perimeter, RoadID, RoadSideID, SideOfRoad};

fn right(road: usize) -> RoadSideID {
    RoadSideID { road: RoadID(road), side: SideOfRoad::Right }
}

fn left(road: usize) -> RoadSideID {
    RoadSideID { road: RoadID(road), side: SideOfRoad::Left }
}

fn block(roads: Vec<RoadSideID>, interior: Vec<usize>) -> Block {
    Block {
        perimeter: Perimeter { roads, interior: interior.into_iter().map(RoadID).collect() },
    }
}

fn block_a() -> Block {
    block(vec![right(0), right(1), right(2)], vec![])
}

fn block_b() -> Block {
    block(vec![left(2), right(3), right(4)], vec![])
}

fn block_c() -> Block {
    block(vec![left(4), right(5)], vec![])
}

fn block_ab() -> Block {
    block(vec![right(0), right(1), right(3), right(4)], vec![2])
}

fn block_bc() -> Block {
    block(vec![left(2), right(3), right(5)], vec![4])
}

fn block_abc() -> Block {
    block(vec![right(0), right(1), right(3), right(5)], vec![2, 4])
}

fn name() -> MapName {
    MapName { country: "us".to_string(), city: "seattle".to_string(), map: "montlake".to_string() }
}

// Blocks A, B, C in a row; A and B merged into neighborhood 0, C alone in 1.
fn seeded() -> Partitioning {
    let mut p = Partitioning::seed_using_heuristics(
        name(),
        vec![block_a(), block_b(), block_c()],
        vec![block_ab(), block_c()],
    );
    p.recalculate_coloring(Some(vec![0, 1]));
    p
}

fn ids(p: &Partitioning) -> Vec<usize> {
    p.all_neighborhoods().iter().map(|n| n.id.0).collect()
}

fn owners(p: &Partitioning) -> Vec<usize> {
    p.all_block_ids().into_iter().map(|b| p.block_to_neighborhood(b).0).collect()
}

const N0: NeighborhoodID = NeighborhoodID(0);
const N1: NeighborhoodID = NeighborhoodID(1);
const N2: NeighborhoodID = NeighborhoodID(2);
const A: BlockID = BlockID(0);
const B: BlockID = BlockID(1);
const C: BlockID = BlockID(2);

#[test]
fn empty_partitioning_holds_nothing() {
    let p = Partitioning::empty();
    assert_eq!(p.map.country, "zz");
    assert_eq!(p.map.city, "temp");
    assert_eq!(p.map.map, "orary");
    assert!(p.all_neighborhoods().is_empty());
    assert!(p.all_block_ids().is_empty());
    assert!(p.all_single_blocks().is_empty());
    assert_eq!(p.next_neighborhood_id(), NeighborhoodID(0));
}

#[test]
fn palette_wraps_around() {
    assert_eq!(NUM_COLORS, 6);
    assert_eq!(palette_color(0), Color::Blue);
    assert_eq!(palette_color(1), Color::Yellow);
    assert_eq!(palette_color(2), Color::Green);
    assert_eq!(palette_color(3), Color::Purple);
    assert_eq!(palette_color(4), Color::Pink);
    assert_eq!(palette_color(5), Color::Orange);
    assert_eq!(palette_color(6), Color::Blue);
    assert_eq!(palette_color(13), Color::Yellow);
}

#[test]
fn seeding_numbers_neighborhoods_and_assigns_blocks() {
    let p = seeded();
    assert_eq!(p.map, name());
    assert_eq!(ids(&p), vec![0, 1]);
    assert_eq!(p.next_neighborhood_id(), N2);
    assert_eq!(p.all_block_ids(), vec![A, B, C]);
    assert_eq!(owners(&p), vec![0, 0, 1]);
    assert_eq!(*p.neighborhood_block(N0), block_ab());
    assert_eq!(*p.neighborhood_block(N1), block_c());
    assert_eq!(*p.get_block(B), block_b());
    assert!(p.has_neighborhood(N1));
    assert!(!p.has_neighborhood(N2));
}

#[test]
fn seeding_leaves_every_neighborhood_red() {
    let p = Partitioning::seed_using_heuristics(
        name(),
        vec![block_a(), block_b(), block_c()],
        vec![block_ab(), block_c()],
    );
    assert_eq!(p.neighborhood_color(N0), Color::Red);
    assert_eq!(p.neighborhood_color(N1), Color::Red);
    let p = seeded();
    assert_eq!(p.neighborhood_color(N0), Color::Blue);
    assert_eq!(p.neighborhood_color(N1), Color::Yellow);
}

#[test]
fn colouring_without_indices_uses_positions() {
    let mut p = Partitioning::seed_using_heuristics(
        name(),
        vec![block_a(), block_b(), block_c()],
        vec![block_a(), block_b(), block_c()],
    );
    assert!(p.recalculate_coloring(None));
    assert_eq!(p.neighborhood_color(N0), Color::Blue);
    assert_eq!(p.neighborhood_color(N1), Color::Yellow);
    assert_eq!(p.neighborhood_color(N2), Color::Green);
    assert_eq!(owners(&p), vec![0, 1, 2]);
}

#[test]
fn seeding_takes_the_first_enclosing_neighborhood() {
    // Both merged blocks enclose A; the first one wins.
    let p = Partitioning::seed_using_heuristics(
        name(),
        vec![block_a()],
        vec![block_ab(), block_abc()],
    );
    assert_eq!(p.block_to_neighborhood(A), N0);
    assert_eq!(p.neighborhood_containing(A), Some(N0));
}

#[test]
fn seeding_gives_a_block_that_nothing_encloses_a_neighborhood() {
    let p = Partitioning::seed_using_heuristics(
        name(),
        vec![block_c(), block_a(), block_b()],
        vec![block_a()],
    );
    // A is enclosed by the merged block; C and B get neighborhoods of their own, in turn.
    assert_eq!(ids(&p), vec![0, 1, 2]);
    assert_eq!(owners(&p), vec![1, 0, 2]);
    assert_eq!(*p.neighborhood_block(N0), block_a());
    assert_eq!(*p.neighborhood_block(N1), block_c());
    assert_eq!(*p.neighborhood_block(N2), block_b());
    assert_eq!(p.neighborhood_color(N1), Color::Red);
    assert_eq!(p.next_neighborhood_id(), NeighborhoodID(3));
    // Each block is now enclosed by the neighborhood that it belongs to.
    assert_eq!(p.neighborhood_containing(BlockID(0)), Some(N1));
    assert_eq!(p.neighborhood_containing(BlockID(1)), Some(N0));
    assert_eq!(p.neighborhood_containing(BlockID(2)), Some(N2));
}

#[test]
fn seeding_without_merged_blocks_makes_a_neighborhood_per_block() {
    let p = Partitioning::seed_using_heuristics(name(), vec![block_a(), block_b()], vec![]);
    assert_eq!(ids(&p), vec![0, 1]);
    assert_eq!(owners(&p), vec![0, 1]);
    assert_eq!(*p.neighborhood_block(N0), block_a());
    assert_eq!(*p.neighborhood_block(N1), block_b());
    assert_eq!(p.next_neighborhood_id(), N2);
}

#[test]
fn seeding_of_nothing() {
    let p = Partitioning::seed_using_heuristics(name(), vec![], vec![block_a()]);
    assert_eq!(ids(&p), vec![0]);
    assert!(p.all_block_ids().is_empty());
    assert_eq!(p.next_neighborhood_id(), N1);
}

#[test]
fn every_block_belongs_to_a_neighborhood_after_seeding() {
    let singles = vec![block_c(), block_a(), block_b(), block_a()];
    let merged_sets = vec![vec![], vec![block_ab()], vec![block_c(), block_ab()], vec![block_abc()]];
    for merged in merged_sets {
        let all: Vec<Block> = singles.iter().map(|b| b.clone()).collect();
        let p = Partitioning::seed_using_heuristics(name(), all, merged);
        for b in p.all_block_ids() {
            let owner = p.block_to_neighborhood(b);
            assert!(p.has_neighborhood(owner));
            assert!(p.blocks_gained(b, owner).contains(&b));
        }
    }
}

#[test]
fn all_single_blocks_pairs_ids_with_blocks() {
    let p = seeded();
    let all = p.all_single_blocks();
    assert_eq!(all.len(), 3);
    assert_eq!(all[0].0, A);
    assert_eq!(*all[0].1, block_a());
    assert_eq!(all[2].0, C);
    assert_eq!(*all[2].1, block_c());
}

#[test]
fn recolouring_reports_a_change() {
    let mut p = seeded();
    assert!(!p.recalculate_coloring(Some(vec![0, 1])));
    assert!(p.recalculate_coloring(Some(vec![1, 0])));
    assert_eq!(p.neighborhood_color(N0), Color::Yellow);
    assert_eq!(p.neighborhood_color(N1), Color::Blue);
    assert!(!p.recalculate_coloring(Some(vec![7, 6])));
}

#[test]
fn recolouring_with_too_few_colours_keeps_the_rest() {
    let mut p = seeded();
    assert!(p.recalculate_coloring(Some(vec![4])));
    assert_eq!(p.neighborhood_color(N0), Color::Pink);
    assert_eq!(p.neighborhood_color(N1), Color::Yellow);
    assert!(!p.recalculate_coloring(Some(vec![])));
}

#[test]
fn proper_colouring_separates_adjacent_neighborhoods() {
    // Neighborhoods 0 and 1 both run along road 4.
    let mut p = seeded();
    p.recalculate_coloring(Some(vec![3, 5]));
    let perims = p.neighborhood_perimeters();
    assert!(perims[0].touches_road(RoadID(4)) && perims[1].touches_road(RoadID(4)));
    assert_ne!(p.neighborhood_color(N0), p.neighborhood_color(N1));
    assert_ne!(p.neighborhood_color(N0), Color::Red);
    assert_ne!(p.neighborhood_color(N1), Color::Red);
}

#[test]
fn frontier_holds_blocks_along_the_perimeter() {
    let p = seeded();
    assert_eq!(p.calculate_frontier(&block_ab().perimeter), vec![A, B, C]);
    assert_eq!(p.calculate_frontier(&block_c().perimeter), vec![B, C]);
    assert_eq!(p.calculate_frontier(&block_a().perimeter), vec![A, B]);
    let nowhere = Perimeter { roads: vec![right(9)], interior: vec![] };
    assert_eq!(p.calculate_frontier(&nowhere), Vec::<BlockID>::new());
}

#[test]
fn plan_of_a_transfer() {
    let p = seeded();
    assert_eq!(p.blocks_gained(B, N1), vec![B, C]);
    assert_eq!(p.blocks_kept(B, N0), vec![A]);
    assert_eq!(p.blocks_gained(C, N0), vec![A, B, C]);
    assert_eq!(p.blocks_kept(C, N1), Vec::<BlockID>::new());
    let perims = p.perimeters_of(&vec![B, C]);
    assert_eq!(perims, vec![block_b().perimeter, block_c().perimeter]);
}

#[test]
fn transfer_moves_one_block() {
    let mut p = seeded();
    let r = p.transfer_block(B, N0, N1, Ok(block_bc()), Ok(block_a()));
    assert_eq!(r, Ok(None));
    assert_eq!(owners(&p), vec![0, 1, 1]);
    assert_eq!(ids(&p), vec![0, 1]);
    assert_eq!(*p.neighborhood_block(N0), block_a());
    assert_eq!(*p.neighborhood_block(N1), block_bc());
    assert_eq!(p.neighborhood_color(N0), Color::Blue);
    assert_eq!(p.neighborhood_color(N1), Color::Yellow);
    assert_eq!(p.next_neighborhood_id(), N2);
}

#[test]
fn transfer_of_the_last_block_removes_the_neighborhood() {
    let mut p = seeded();
    // The merged block of what the old owner keeps is not looked at.
    let r = p.transfer_block(C, N1, N0, Ok(block_abc()), Err(PartitionError::Split(0)));
    assert_eq!(r, Ok(Some(N0)));
    assert_eq!(ids(&p), vec![0]);
    assert_eq!(owners(&p), vec![0, 0, 0]);
    assert_eq!(*p.neighborhood_block(N0), block_abc());
    assert!(!p.has_neighborhood(N1));
}

#[test]
fn transfer_that_cannot_form_the_new_neighborhood_changes_nothing() {
    let mut p = seeded();
    let r = p.transfer_block(B, N0, N1, Err(PartitionError::Split(2)), Ok(block_a()));
    assert_eq!(r, Err(PartitionError::Split(2)));
    assert_eq!(owners(&p), vec![0, 0, 1]);
    assert_eq!(*p.neighborhood_block(N0), block_ab());
    assert_eq!(*p.neighborhood_block(N1), block_c());
}

#[test]
fn transfer_that_cannot_form_the_old_neighborhood_changes_nothing() {
    let mut p = seeded();
    let why = PartitionError::NoBlock("no polygon".to_string());
    let r = p.transfer_block(B, N0, N1, Ok(block_bc()), Err(why));
    assert_eq!(r, Err(PartitionError::NoBlock("no polygon".to_string())));
    assert_eq!(owners(&p), vec![0, 0, 1]);
    assert_eq!(*p.neighborhood_block(N0), block_ab());
    assert_eq!(*p.neighborhood_block(N1), block_c());
}

#[test]
fn every_block_keeps_an_owner_through_transfers() {
    let mut p = seeded();
    p.transfer_block(B, N0, N1, Ok(block_bc()), Ok(block_a())).unwrap();
    p.transfer_block(A, N0, N1, Ok(block_abc()), Err(PartitionError::Split(0))).unwrap();
    for b in p.all_block_ids() {
        let owner = p.block_to_neighborhood(b);
        assert!(p.has_neighborhood(owner));
    }
    assert_eq!(ids(&p), vec![1]);
}

#[test]
fn a_block_is_offered_to_the_neighbor_across_the_road() {
    let p = seeded();
    // B borders neighborhood 1 across road 4.
    assert_eq!(p.find_new_owner(B, N0), Some(N1));
    // Nothing lies across the roads of A that are on the perimeter.
    assert_eq!(p.find_new_owner(A, N0), None);
    // C borders neighborhood 0 across road 4.
    assert_eq!(p.find_new_owner(C, N1), Some(N0));
}

#[test]
fn removing_a_block_gives_it_to_the_neighbor() {
    let mut p = seeded();
    let r = p.remove_block_from_neighborhood(B, N0, Ok(block_bc()), Ok(block_a()));
    assert_eq!(r, Ok(None));
    assert_eq!(owners(&p), vec![0, 1, 1]);
    assert_eq!(ids(&p), vec![0, 1]);
    assert_eq!(p.next_neighborhood_id(), N2);
}

#[test]
fn removing_a_block_without_neighbor_makes_a_neighborhood() {
    let mut p = seeded();
    assert_eq!(p.blocks_gained(A, p.next_neighborhood_id()), vec![A]);
    let r = p.remove_block_from_neighborhood(A, N0, Ok(block_a()), Ok(block_b()));
    assert_eq!(r, Ok(None));
    assert_eq!(ids(&p), vec![0, 1, 2]);
    assert_eq!(owners(&p), vec![2, 0, 1]);
    assert_eq!(*p.neighborhood_block(N2), block_a());
    assert_eq!(*p.neighborhood_block(N0), block_b());
    assert_eq!(p.neighborhood_color(N2), Color::Red);
    assert_eq!(p.next_neighborhood_id(), NeighborhoodID(3));
}

#[test]
fn removing_that_fails_takes_the_new_neighborhood_out_again() {
    let mut p = seeded();
    let r = p.remove_block_from_neighborhood(A, N0, Ok(block_a()), Err(PartitionError::Split(3)));
    assert_eq!(r, Err(PartitionError::Split(3)));
    assert_eq!(ids(&p), vec![0, 1]);
    assert_eq!(owners(&p), vec![0, 0, 1]);
    assert_eq!(*p.neighborhood_block(N0), block_ab());
    // The ID stays used up.
    assert_eq!(p.next_neighborhood_id(), NeighborhoodID(3));
}

#[test]
fn removing_the_only_block_moves_the_neighborhood() {
    let mut p = Partitioning::seed_using_heuristics(name(), vec![block_a()], vec![block_a()]);
    let r = p.remove_block_from_neighborhood(A, N0, Ok(block_a()), Err(PartitionError::Split(0)));
    assert_eq!(r, Ok(Some(N1)));
    assert_eq!(ids(&p), vec![1]);
    assert_eq!(owners(&p), vec![1]);
    assert_eq!(p.neighborhood_color(N1), Color::Red);
}

#[test]
fn only_one_perimeter_is_accepted() {
    let one = only_perimeter(vec![block_a().perimeter]);
    assert_eq!(one, Ok(block_a().perimeter));
    let two = only_perimeter(vec![block_a().perimeter, block_c().perimeter]);
    assert_eq!(two, Err(PartitionError::Split(2)));
    let none = only_perimeter(vec![]);
    assert_eq!(none, Err(PartitionError::Split(0)));
}

#[test]
fn error_messages() {
    assert_eq!(
        PartitionError::Split(3).message(),
        "Splitting this neighborhood into 3 pieces is currently unsupported"
    );
    assert_eq!(
        PartitionError::Split(12).message(),
        "Splitting this neighborhood into 12 pieces is currently unsupported"
    );
    assert_eq!(PartitionError::NoBlock("bad ring".to_string()).message(), "bad ring");
}

#[test]
fn the_map_name_can_be_read() {
    let p = seeded();
    assert_eq!(*p.map_name(), name());
    assert_eq!(p.map_name().city, "seattle");
}

#[test]
fn a_clone_is_a_partitioning_of_its_own() {
    let p = seeded();
    let mut q = p.clone();
    assert_eq!(q.map, p.map);
    assert_eq!(q.all_neighborhoods(), p.all_neighborhoods());
    assert_eq!(owners(&q), owners(&p));
    assert_eq!(q.next_neighborhood_id(), p.next_neighborhood_id());
    q.transfer_block(C, N1, N0, Ok(block_abc()), Err(PartitionError::Split(0))).unwrap();
    assert_eq!(ids(&q), vec![0]);
    assert_eq!(ids(&p), vec![0, 1]);
    assert_eq!(owners(&p), vec![0, 0, 1]);
}

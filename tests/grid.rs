use blocques::{Block, ChunkArray, CHUNK_SIZE};

#[test]
fn new_grid_holds_defaults() {
    let grid: ChunkArray<Block> = ChunkArray::new();
    assert_eq!(*grid.get((0, 0, 0)), Block::Empty);
    assert_eq!(*grid.get((15, 15, 15)), Block::Empty);
    let counts: ChunkArray<u32> = ChunkArray::new();
    assert_eq!(*counts.get((7, 3, 9)), 0);
}

#[test]
fn set_changes_one_cell() {
    let mut grid: ChunkArray<u32> = ChunkArray::new();
    grid.set((1, 2, 3), 7);
    assert_eq!(*grid.get((1, 2, 3)), 7);
    assert_eq!(*grid.get((3, 2, 1)), 0);
    assert_eq!(*grid.get((1, 2, 4)), 0);
    grid.set((1, 2, 3), 9);
    assert_eq!(*grid.get((1, 2, 3)), 9);
}

#[test]
fn iter_flat_coords_visits_every_cell_once_in_x_major_order() {
    let mut grid: ChunkArray<u32> = ChunkArray::new();
    grid.set((15, 0, 1), 5);
    let cells = grid.iter_flat_coords();
    assert_eq!(cells.len(), CHUNK_SIZE * CHUNK_SIZE * CHUNK_SIZE);
    assert_eq!(cells[0].0, (0, 0, 0));
    assert_eq!(cells[1].0, (0, 0, 1));
    assert_eq!(cells[16].0, (0, 1, 0));
    assert_eq!(cells[256].0, (1, 0, 0));
    assert_eq!(cells[4095].0, (15, 15, 15));
    let (pos, value) = cells[15 * 256 + 1];
    assert_eq!(pos, (15, 0, 1));
    assert_eq!(*value, 5);
    let mut seen = std::collections::HashSet::new();
    for (pos, _) in &cells {
        assert!(seen.insert(*pos));
    }
    assert_eq!(seen.len(), 4096);
}

#[test]
fn map_sees_position_and_value() {
    let mut grid: ChunkArray<u32> = ChunkArray::new();
    grid.set((2, 4, 6), 10);
    let mapped = grid.map(|(x, y, z), v: &u32| *v as u64 + x as u64 * 100 + y as u64 * 10 + z as u64);
    assert_eq!(*mapped.get((2, 4, 6)), 10 + 246);
    assert_eq!(*mapped.get((9, 1, 0)), 910);
    assert_eq!(*mapped.get((0, 0, 0)), 0);
}

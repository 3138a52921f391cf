use blocques::{
    generate_terrain, split_world_coord, AdjacentChunkManager, Block, ChunkCoord, Face, SubTextureInfo, Vertex,
    World, CHUNK_COLUMNS,
};

fn atlas() -> SubTextureInfo {
    SubTextureInfo { x: 0, y: 0, size: 1 }
}

fn quads_of(world: &World, chunk: ChunkCoord, pos: (u8, u8, u8)) -> Vec<Vertex> {
    let c = world.get_chunk(chunk).unwrap();
    let adj = AdjacentChunkManager::from_world(world, chunk);
    let g = c.to_world_coords(pos);
    c.get_local_block(pos).get_vertices(g, pos, &adj, &atlas())
}

fn has_quad(quads: &[Vertex], face: Face, g: (i64, i64, i64)) -> bool {
    let q = face.vertices(g, &atlas());
    quads.chunks(4).any(|c| c == q.as_slice())
}

#[test]
fn split_uses_floor_division() {
    assert_eq!(split_world_coord((-1, 0, 17)), ((-1, 0, 1), (15, 0, 1)));
    assert_eq!(split_world_coord((-16, -17, 15)), ((-1, -2, 0), (0, 15, 15)));
    assert_eq!(split_world_coord((i64::MIN, i64::MAX, 0)), ((i64::MIN / 16, i64::MAX / 16, 0), (0, 15, 0)));
}

#[test]
fn split_round_trips() {
    for g in [-1000i64, -33, -17, -16, -15, -1, 0, 1, 15, 16, 17, 255, 1000] {
        let ((cx, cy, cz), (lx, ly, lz)) = split_world_coord((g, g + 1, g - 1));
        assert_eq!(cx * 16 + lx as i64, g);
        assert_eq!(cy * 16 + ly as i64, g + 1);
        assert_eq!(cz * 16 + lz as i64, g - 1);
        assert!(lx < 16 && ly < 16 && lz < 16);
    }
}

#[test]
fn absent_chunk_reads_empty() {
    let world = World::new();
    assert_eq!(world.get_block((5, -3, 100)), Block::Empty);
    assert!(world.get_chunk((0, 0, 0)).is_none());
}

#[test]
fn set_block_creates_an_empty_chunk() {
    let mut world = World::new();
    world.set_block((-1, -1, -1), Block::Filled);
    assert_eq!(world.get_block((-1, -1, -1)), Block::Filled);
    assert_eq!(world.get_block((-2, -1, -1)), Block::Empty);
    assert_eq!(world.get_block((15, 15, 15)), Block::Empty);
    let chunk = world.get_chunk((-1, -1, -1)).unwrap();
    assert_eq!(chunk.location(), (-1, -1, -1));
    assert_eq!(chunk.get_local_block((15, 15, 15)), Block::Filled);
    assert_eq!(chunk.get_local_block((14, 15, 15)), Block::Empty);
    assert!(world.get_chunk((0, 0, 0)).is_none());
    assert!(chunk.flatten_mesh().is_empty());
}

#[test]
fn interior_block_has_no_quads() {
    let mut world = World::new();
    for x in 4..7 {
        for y in 4..7 {
            for z in 4..7 {
                world.set_block((x, y, z), Block::Filled);
            }
        }
    }
    assert!(quads_of(&world, (0, 0, 0), (5, 5, 5)).is_empty());
    assert_eq!(quads_of(&world, (0, 0, 0), (4, 5, 5)).len(), 4);
    assert_eq!(quads_of(&world, (0, 0, 0), (4, 4, 4)).len(), 12);
}

#[test]
fn lone_block_has_six_quads() {
    let mut world = World::new();
    world.set_block((7, 8, 9), Block::Filled);
    let quads = quads_of(&world, (0, 0, 0), (7, 8, 9));
    assert_eq!(quads.len(), 24);
    for face in [Face::XNeg, Face::XPos, Face::YNeg, Face::YPos, Face::ZNeg, Face::ZPos] {
        assert!(has_quad(&quads, face, (7, 8, 9)));
    }
    assert!(quads_of(&world, (0, 0, 0), (7, 8, 10)).is_empty());
}

#[test]
fn face_towards_empty_block_of_next_chunk_shows() {
    let mut world = World::new();
    world.set_block((15, 5, 5), Block::Filled);
    world.set_block((16, 5, 5), Block::Empty);
    assert!(world.get_chunk((1, 0, 0)).is_some());
    let quads = quads_of(&world, (0, 0, 0), (15, 5, 5));
    assert_eq!(quads.len(), 24);
    assert!(has_quad(&quads, Face::XPos, (15, 5, 5)));
}

#[test]
fn face_towards_solid_block_of_next_chunk_hides_on_both_sides() {
    let mut world = World::new();
    world.set_block((15, 5, 5), Block::Filled);
    world.set_block((16, 5, 5), Block::Filled);
    let a = quads_of(&world, (0, 0, 0), (15, 5, 5));
    let b = quads_of(&world, (1, 0, 0), (0, 5, 5));
    assert_eq!(a.len(), 20);
    assert_eq!(b.len(), 20);
    assert!(!has_quad(&a, Face::XPos, (15, 5, 5)));
    assert!(!has_quad(&b, Face::XNeg, (16, 5, 5)));
}

#[test]
fn face_towards_absent_chunk_shows() {
    let mut world = World::new();
    world.set_block((15, 0, 5), Block::Filled);
    world.set_block((14, 0, 5), Block::Filled);
    let adj = AdjacentChunkManager::from_world(&world, (0, 0, 0));
    assert_eq!(adj.get_face((15, 0, 5), Face::XPos), Block::NotGenerated);
    assert_eq!(adj.get_face((15, 0, 5), Face::YNeg), Block::NotGenerated);
    assert_eq!(adj.get_face((15, 0, 5), Face::XNeg), Block::Filled);
    assert_eq!(adj.get_face((15, 0, 5), Face::YPos), Block::Empty);
    let quads = quads_of(&world, (0, 0, 0), (15, 0, 5));
    assert_eq!(quads.len(), 20);
    assert!(has_quad(&quads, Face::XPos, (15, 0, 5)));
    assert!(has_quad(&quads, Face::YNeg, (15, 0, 5)));
    assert!(!has_quad(&quads, Face::XNeg, (15, 0, 5)));
}

#[test]
fn one_block_world_gives_twenty_four_vertices() {
    let mut world = World::new();
    let before = world.get_block((2, 2, 2));
    world.set_block((2, 2, 2), if before == Block::Empty { Block::Filled } else { Block::Empty });
    let t = SubTextureInfo { x: 4, y: 6, size: 3 };
    world.generate_vertices_for_chunks(vec![(0, 0, 0)], &t);
    let vertices = world.get_vertices_for_chunks(vec![(0, 0, 0)]);
    assert_eq!(vertices.len(), 24);
    for v in &vertices {
        assert!(v.tex_coords.0 == 4 || v.tex_coords.0 == 7);
        assert!(v.tex_coords.1 == 6 || v.tex_coords.1 == 9);
        let (x, y, z) = v.position;
        assert!((2..=3).contains(&x) && (2..=3).contains(&y) && (2..=3).contains(&z));
    }
}

#[test]
fn regenerating_twice_gives_the_same_vertices() {
    let mut world = World::new();
    world.set_block((2, 2, 2), Block::Filled);
    world.set_block((15, 3, 0), Block::Filled);
    world.set_block((16, 3, 0), Block::Filled);
    world.set_block((-1, 0, 0), Block::Filled);
    let coords = vec![(0, 0, 0), (1, 0, 0), (-1, 0, 0), (5, 5, 5)];
    world.generate_vertices_for_chunks(coords.clone(), &atlas());
    let first = world.get_vertices_for_chunks(coords.clone());
    world.generate_vertices_for_chunks(coords.clone(), &atlas());
    let second = world.get_vertices_for_chunks(coords.clone());
    assert_eq!(first, second);
    assert_eq!(first.len(), 24 + 20 + 20 + 24);
}

#[test]
fn quads_stay_until_regenerated() {
    let mut world = World::new();
    world.set_block((2, 2, 2), Block::Filled);
    world.generate_vertices_for_chunks(vec![(0, 0, 0)], &atlas());
    world.set_block((3, 2, 2), Block::Filled);
    assert_eq!(world.get_vertices_for_chunks(vec![(0, 0, 0)]).len(), 24);
    world.generate_vertices_for_chunks(vec![(0, 0, 0)], &atlas());
    assert_eq!(world.get_vertices_for_chunks(vec![(0, 0, 0)]).len(), 40);
}

#[test]
fn vertices_follow_the_requested_chunk_order() {
    let mut world = World::new();
    world.set_block((0, 0, 0), Block::Filled);
    world.set_block((32, 0, 0), Block::Filled);
    let coords = vec![(0, 0, 0), (2, 0, 0)];
    world.generate_vertices_for_chunks(coords, &atlas());
    let forward = world.get_vertices_for_chunks(vec![(0, 0, 0), (9, 9, 9), (2, 0, 0)]);
    let backward = world.get_vertices_for_chunks(vec![(2, 0, 0), (0, 0, 0)]);
    assert_eq!(forward.len(), 48);
    assert_eq!(forward[..24], backward[24..]);
    assert_eq!(forward[24..], backward[..24]);
}

fn heights(f: impl Fn(usize, usize) -> i64) -> Vec<i64> {
    let mut h = Vec::new();
    for x in 0..16 {
        for z in 0..16 {
            h.push(f(x, z));
        }
    }
    assert_eq!(h.len(), CHUNK_COLUMNS);
    h
}

#[test]
fn terrain_fills_below_the_column_height() {
    let h = heights(|x, z| (x + z) as i64 - 4);
    let chunk = generate_terrain((0, 0, 0), &h);
    assert_eq!(chunk.get_local_block((0, 0, 0)), Block::Empty);
    assert_eq!(chunk.get_local_block((3, 0, 2)), Block::Filled);
    assert_eq!(chunk.get_local_block((3, 1, 2)), Block::Empty);
    assert_eq!(chunk.get_local_block((15, 15, 15)), Block::Filled);
    assert_eq!(chunk.get_local_block((15, 15, 5)), Block::Filled);
    assert_eq!(chunk.get_local_block((15, 15, 4)), Block::Empty);
    let below = generate_terrain((0, -1, 0), &h);
    assert_eq!(below.get_local_block((0, 15, 0)), Block::Empty);
    assert_eq!(below.get_local_block((0, 12, 0)), Block::Empty);
    assert_eq!(below.get_local_block((0, 11, 0)), Block::Filled);
    let above = generate_terrain((0, 2, 0), &h);
    assert_eq!(above.get_local_block((15, 0, 15)), Block::Empty);
}

#[test]
fn terrain_does_not_depend_on_generation_order() {
    let column = |c: ChunkCoord| heights(move |x, z| 8 + ((c.0 * 16 + x as i64) % 5) - ((c.2 * 16 + z as i64) % 3));
    let coords: Vec<ChunkCoord> = vec![(0, 0, 0), (0, -1, 0), (1, 0, 0), (0, 0, -1), (-1, 0, 1)];
    let mut a = World::new();
    for c in &coords {
        a.generate_chunk(*c, &column(*c));
    }
    let mut b = World::new();
    for c in coords.iter().rev() {
        b.ensure_chunk(*c, &column(*c));
        b.ensure_chunk(*c, &heights(|_, _| 100));
    }
    for x in -20..36 {
        for y in -20..20 {
            for z in -20..36 {
                assert_eq!(a.get_block((x, y, z)), b.get_block((x, y, z)));
            }
        }
    }
    assert_eq!(a.get_block((0, 7, 0)), Block::Filled);
    assert_eq!(a.get_block((0, 8, 0)), Block::Empty);
    assert_eq!(a.get_block((0, -16, 0)), Block::Filled);
}

#[test]
fn generate_chunk_replaces_an_existing_chunk() {
    let mut world = World::new();
    world.set_block((1, 1, 1), Block::Filled);
    world.generate_chunk((0, 0, 0), &heights(|_, _| 0));
    assert_eq!(world.get_block((1, 1, 1)), Block::Empty);
    world.ensure_chunk((0, 0, 0), &heights(|_, _| 16));
    assert_eq!(world.get_block((1, 1, 1)), Block::Empty);
}

use blocques::{Block, Face, SubTextureInfo, Vertex};

fn rect() -> SubTextureInfo {
    SubTextureInfo { x: 3, y: 5, size: 2 }
}

#[test]
fn transparency_of_each_state() {
    assert!(Block::Empty.is_transparent());
    assert!(!Block::Filled.is_transparent());
    assert!(Block::NotGenerated.is_transparent());
}

#[test]
fn default_block_is_empty() {
    assert_eq!(Block::default(), Block::Empty);
}

#[test]
fn only_filled_blocks_have_a_texture() {
    assert_eq!(Block::Filled.get_texture_info(&rect()), Some(rect()));
    assert_eq!(Block::Empty.get_texture_info(&rect()), None);
    assert_eq!(Block::NotGenerated.get_texture_info(&rect()), None);
}

fn v(p: (i64, i64, i64), t: (u64, u64)) -> Vertex {
    Vertex { position: p, tex_coords: t }
}

#[test]
fn face_corners_and_texture_coordinates() {
    let t = rect();
    assert_eq!(
        Face::XNeg.vertices((0, 0, 0), &t),
        vec![v((0, 1, 1), (5, 7)), v((0, 0, 1), (5, 5)), v((0, 0, 0), (3, 5)), v((0, 1, 0), (3, 7))]
    );
    assert_eq!(
        Face::XPos.vertices((10, -4, 2), &t),
        vec![v((11, -3, 2), (5, 7)), v((11, -4, 2), (5, 5)), v((11, -4, 3), (3, 5)), v((11, -3, 3), (3, 7))]
    );
    assert_eq!(
        Face::YNeg.vertices((0, 0, 0), &t),
        vec![v((0, 0, 0), (5, 7)), v((0, 0, 1), (5, 5)), v((1, 0, 1), (3, 5)), v((1, 0, 0), (3, 7))]
    );
    assert_eq!(
        Face::YPos.vertices((0, 0, 0), &t),
        vec![v((1, 1, 0), (5, 7)), v((1, 1, 1), (5, 5)), v((0, 1, 1), (3, 5)), v((0, 1, 0), (3, 7))]
    );
    assert_eq!(
        Face::ZNeg.vertices((0, 0, 0), &t),
        vec![v((0, 1, 0), (5, 7)), v((0, 0, 0), (5, 5)), v((1, 0, 0), (3, 5)), v((1, 1, 0), (3, 7))]
    );
    assert_eq!(
        Face::ZPos.vertices((0, 0, 0), &t),
        vec![v((1, 1, 1), (5, 7)), v((1, 0, 1), (5, 5)), v((0, 0, 1), (3, 5)), v((0, 1, 1), (3, 7))]
    );
}

fn sub(a: (i64, i64, i64), b: (i64, i64, i64)) -> (i64, i64, i64) {
    (a.0 - b.0, a.1 - b.1, a.2 - b.2)
}

fn cross(a: (i64, i64, i64), b: (i64, i64, i64)) -> (i64, i64, i64) {
    (a.1 * b.2 - a.2 * b.1, a.2 * b.0 - a.0 * b.2, a.0 * b.1 - a.1 * b.0)
}

#[test]
fn every_quad_is_clockwise_from_outside() {
    let inward = [
        (Face::XNeg, (1, 0, 0)),
        (Face::XPos, (-1, 0, 0)),
        (Face::YNeg, (0, 1, 0)),
        (Face::YPos, (0, -1, 0)),
        (Face::ZNeg, (0, 0, 1)),
        (Face::ZPos, (0, 0, -1)),
    ];
    for (face, into_block) in inward {
        let q = face.vertices((0, 0, 0), &rect());
        for k in 0..4 {
            let a = q[k].position;
            let b = q[(k + 1) % 4].position;
            let c = q[(k + 2) % 4].position;
            assert_eq!(cross(sub(b, a), sub(c, b)), into_block);
        }
    }
}

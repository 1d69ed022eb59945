use forma::block::Block;
use forma::mesh::{Vec3i, Vertex};
use forma::meshing::make_mesh;

fn encode_chunk(cells: &[u16], names: &[&[u8]]) -> Vec<u8> {
    assert_eq!(cells.len(), 4096);
    let mut v: Vec<u8> = Vec::new();
    for &c in cells {
        v.push((c & 0xff) as u8);
        v.push((c >> 8) as u8);
    }
    let n = names.len() as u16;
    v.push((n & 0xff) as u8);
    v.push((n >> 8) as u8);
    for name in names {
        v.push(name.len() as u8);
        v.extend_from_slice(name);
    }
    v
}

fn chunk_with_solids(solids: &[(usize, usize, usize)]) -> Block {
    let mut cells = vec![0u16; 4096];
    for &(x, y, z) in solids {
        cells[x + 16 * y + 256 * z] = 1;
    }
    let data = encode_chunk(&cells, &[b"air", b"stone"]);
    Block::parse_data(&data).unwrap()
}

fn normals() -> [Vec3i; 6] {
    [
        Vec3i { x: 1, y: 0, z: 0 },
        Vec3i { x: -1, y: 0, z: 0 },
        Vec3i { x: 0, y: 1, z: 0 },
        Vec3i { x: 0, y: -1, z: 0 },
        Vec3i { x: 0, y: 0, z: 1 },
        Vec3i { x: 0, y: 0, z: -1 },
    ]
}

#[test]
fn empty_chunk_meshes_to_nothing() {
    let block = chunk_with_solids(&[]);
    let mesh = make_mesh(&block);
    assert_eq!(mesh.len(), 0);
}

#[test]
fn single_cell_has_36_vertices() {
    let block = chunk_with_solids(&[(0, 0, 0)]);
    let mesh = make_mesh(&block);
    assert_eq!(mesh.len(), 36);
}

#[test]
fn single_cell_faces_share_fixed_normals() {
    let block = chunk_with_solids(&[(0, 0, 0)]);
    let mesh = make_mesh(&block);
    let vs: &Vec<Vertex> = mesh.vertex_data();
    assert_eq!(vs.len(), 36);
    let expected = normals();
    for face in 0..6 {
        let face_normal = vs[6 * face].normal;
        assert_eq!(face_normal, expected[face]);
        for k in 0..6 {
            assert_eq!(vs[6 * face + k].normal, face_normal);
        }
    }
}

#[test]
fn two_adjacent_cells_have_60_vertices() {
    let block = chunk_with_solids(&[(0, 0, 0), (1, 0, 0)]);
    let mesh = make_mesh(&block);
    assert_eq!(mesh.len(), 60);
}

#[test]
fn shared_face_is_hidden_on_both_sides() {
    let block = chunk_with_solids(&[(0, 0, 0), (1, 0, 0)]);
    let mesh = make_mesh(&block);
    // positions are stored doubled; the shared boundary plane is x == 1.
    // No +X face of the left cell and no -X face of the right cell may
    // appear: no vertex on that plane carries an X-axis normal.
    for v in mesh.vertex_data() {
        let x_normal = v.normal.x != 0;
        if x_normal && v.position.x == 1 {
            panic!("vertex on the shared face plane with an X-axis normal");
        }
    }
    // the outer X faces of the pair are still there
    assert!(mesh.vertex_data().iter().any(|v| v.normal.x == -1 && v.position.x == -1));
    assert!(mesh.vertex_data().iter().any(|v| v.normal.x == 1 && v.position.x == 3));
}

#[test]
fn meshing_twice_gives_identical_output() {
    let block = chunk_with_solids(&[(0, 0, 0), (5, 9, 14), (15, 15, 15)]);
    let first = make_mesh(&block);
    let second = make_mesh(&block);
    assert_eq!(first.vertex_data(), second.vertex_data());
}

#[test]
fn chunk_boundary_faces_are_emitted() {
    // a cell in the far corner: out-of-chunk neighbours count as absent,
    // so all six faces are emitted even though three sit on the boundary
    let block = chunk_with_solids(&[(15, 15, 15)]);
    let mesh = make_mesh(&block);
    assert_eq!(mesh.len(), 36);
}

#[test]
fn fully_buried_cell_is_invisible() {
    // a cell surrounded on all six sides emits nothing itself
    let block = chunk_with_solids(&[
        (8, 8, 8),
        (9, 8, 8),
        (7, 8, 8),
        (8, 9, 8),
        (8, 7, 8),
        (8, 8, 9),
        (8, 8, 7),
    ]);
    let mesh = make_mesh(&block);
    // six neighbours, each with five visible faces
    assert_eq!(mesh.len(), 6 * 5 * 6);
}

#[test]
fn single_cell_positions_are_the_cube_corners() {
    let block = chunk_with_solids(&[(2, 3, 4)]);
    let mesh = make_mesh(&block);
    // doubled coordinates: every corner component is 2c - 1 or 2c + 1
    for v in mesh.vertex_data() {
        assert!(v.position.x == 3 || v.position.x == 5);
        assert!(v.position.y == 5 || v.position.y == 7);
        assert!(v.position.z == 7 || v.position.z == 9);
        assert!(v.texcoord.x == 0 || v.texcoord.x == 1);
        assert!(v.texcoord.y == 0 || v.texcoord.y == 1);
    }
    assert_eq!(mesh.len(), 36);
}

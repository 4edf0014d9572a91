use voxelcore::mesh::{build_chunk_mesh, collect_billboards, collect_quads, NeighborChunks};
use voxelcore::{BlockType, Chunk};

fn no_neighbors() -> NeighborChunks {
    NeighborChunks::none()
}

#[test]
fn empty_chunk_yields_zero_vertex_mesh() {
    let chunk = Chunk::default();
    let mesh = build_chunk_mesh(&chunk, &no_neighbors());
    assert_eq!(mesh.vertices.len(), 0);
    assert_eq!(mesh.indices.len(), 0);
}

#[test]
fn isolated_block_six_quads() {
    // One solid block surrounded entirely by air: exactly 6 quads,
    // 24 vertices, 36 indices, none merged.
    let mut chunk = Chunk::default();
    chunk.set(8, 8, 8, BlockType::Stone);
    let quads = collect_quads(&chunk, &no_neighbors());
    assert_eq!(quads.len(), 6);
    for q in &quads {
        assert_eq!(q.w, 1);
        assert_eq!(q.h, 1);
        assert_eq!(q.block, BlockType::Stone.id());
    }
    let mesh = build_chunk_mesh(&chunk, &no_neighbors());
    assert_eq!(mesh.vertices.len(), 24);
    assert_eq!(mesh.indices.len(), 36);
}

#[test]
fn isolated_block_at_corner() {
    let mut chunk = Chunk::default();
    chunk.set(0, 0, 0, BlockType::Dirt);
    let quads = collect_quads(&chunk, &no_neighbors());
    assert_eq!(quads.len(), 6);
    let mesh = build_chunk_mesh(&chunk, &no_neighbors());
    assert_eq!(mesh.vertices.len(), 24);
    assert_eq!(mesh.indices.len(), 36);
}

fn layer_chunk(y: usize, b: BlockType) -> Chunk {
    let mut chunk = Chunk::default();
    for z in 0..16 {
        for x in 0..16 {
            chunk.set(x, y, z, b);
        }
    }
    chunk
}

#[test]
fn full_layer_merges_to_two_quads() {
    // A full 16x16 horizontal layer of stone with identical neighbors
    // across all four horizontal edges: exactly 2 merged 16x16 quads (top
    // and bottom), zero side quads.
    let y = 5;
    let chunk = layer_chunk(y, BlockType::Stone);
    let neighbors = NeighborChunks {
        east: Some(layer_chunk(y, BlockType::Stone)),
        west: Some(layer_chunk(y, BlockType::Stone)),
        top: None,
        bottom: None,
        south: Some(layer_chunk(y, BlockType::Stone)),
        north: Some(layer_chunk(y, BlockType::Stone)),
    };
    let quads = collect_quads(&chunk, &neighbors);
    assert_eq!(quads.len(), 2);
    for q in &quads {
        assert_eq!(q.w, 16);
        assert_eq!(q.h, 16);
        assert_eq!(q.u, 0);
        assert_eq!(q.v, 0);
        assert_eq!(q.slice as usize, y);
        assert!(q.dir == 2 || q.dir == 3);
    }
    let mesh = build_chunk_mesh(&chunk, &neighbors);
    assert_eq!(mesh.vertices.len(), 8);
    assert_eq!(mesh.indices.len(), 12);
}

#[test]
fn transparent_blocks_never_merge() {
    // Two horizontally adjacent water cells: every emitted quad stays an
    // isolated 1x1 quad. The seam between the two same-type cells shows no
    // internal face, and the 10 outer faces are not merged.
    let mut chunk = Chunk::default();
    chunk.set(5, 5, 5, BlockType::Water);
    chunk.set(6, 5, 5, BlockType::Water);
    let quads = collect_quads(&chunk, &no_neighbors());
    assert_eq!(quads.len(), 10);
    for q in &quads {
        assert_eq!(q.w, 1);
        assert_eq!(q.h, 1);
    }
}

#[test]
fn opaque_pair_merges_where_transparent_would_not() {
    // The same arrangement in stone merges the coplanar faces.
    let mut chunk = Chunk::default();
    chunk.set(5, 5, 5, BlockType::Stone);
    chunk.set(6, 5, 5, BlockType::Stone);
    let quads = collect_quads(&chunk, &no_neighbors());
    // Two end caps plus four merged 2x1 side faces.
    assert_eq!(quads.len(), 6);
    let merged = quads.iter().filter(|q| q.w == 2 || q.h == 2).count();
    assert_eq!(merged, 4);
}

#[test]
fn water_against_glass_shows_seam() {
    // Two different transparent blocks expose their mutual faces.
    let mut chunk = Chunk::default();
    chunk.set(5, 5, 5, BlockType::Water);
    chunk.set(6, 5, 5, BlockType::Glass);
    let quads = collect_quads(&chunk, &no_neighbors());
    assert_eq!(quads.len(), 12);
}

#[test]
fn torch_billboard_mesh() {
    // A single torch and nothing else: zero cube-face quads and exactly
    // 8 triangles from the billboard pass.
    let mut chunk = Chunk::default();
    chunk.set(3, 5, 3, BlockType::Torch);
    let quads = collect_quads(&chunk, &no_neighbors());
    assert_eq!(quads.len(), 0);
    let bills = collect_billboards(&chunk);
    assert_eq!(bills.len(), 1);
    assert_eq!(bills[0].x, 3);
    assert_eq!(bills[0].y, 5);
    assert_eq!(bills[0].z, 3);
    let mesh = build_chunk_mesh(&chunk, &no_neighbors());
    assert_eq!(mesh.vertices.len(), 16);
    assert_eq!(mesh.indices.len(), 24);
    assert_eq!(mesh.indices.len() / 3, 8);
    for i in &mesh.indices {
        assert!((*i as usize) < mesh.vertices.len());
    }
}

#[test]
fn neighbor_chunk_culls_boundary_face() {
    // A block at the east boundary: with no neighbor the face shows, with
    // a solid neighbor across the edge it is culled.
    let mut chunk = Chunk::default();
    chunk.set(15, 8, 8, BlockType::Stone);
    let open = collect_quads(&chunk, &no_neighbors());
    assert_eq!(open.len(), 6);

    let mut nb = Chunk::default();
    nb.set(0, 8, 8, BlockType::Stone);
    let neighbors = NeighborChunks {
        east: Some(nb),
        west: None,
        top: None,
        bottom: None,
        south: None,
        north: None,
    };
    let culled = collect_quads(&chunk, &neighbors);
    assert_eq!(culled.len(), 5);
}

#[test]
fn quad_geometry_positions_are_cell_corners() {
    // The single top face of a block at the origin spans one cell at
    // height 1, in hundredths of a cell.
    let mut chunk = Chunk::default();
    chunk.set(0, 0, 0, BlockType::Stone);
    let mesh = build_chunk_mesh(&chunk, &no_neighbors());
    let top: Vec<_> = mesh.vertices.iter().filter(|v| v.ny == 1).collect();
    assert_eq!(top.len(), 4);
    for v in top {
        assert_eq!(v.py, 100);
        assert!(v.px == 0 || v.px == 100);
        assert!(v.pz == 0 || v.pz == 100);
    }
}

use rasterizer::mesh::{Mesh, MeshError, MESH_COORD_MAX, N_CUBE_FACES, N_CUBE_VERTICES};
use rasterizer::vector::Vec3;

const FX: i64 = 65536;

#[test]
fn minimal_file_gives_four_vertices_and_two_faces() {
    let src = b"v 0.0 0.0 0.0\nv 1.0 0.0 0.0\nv 0.0 1.0 0.0\nv 0.0 0.0 1.0\nf 1 2 3\nf 2/7/9 3/1 4\n";
    let m = Mesh::from_source(src).unwrap();
    assert_eq!(m.vertices.len(), 4);
    assert_eq!(m.faces.len(), 2);
    assert_eq!(m.vertices[1], Vec3::new(FX, 0, 0));
    assert_eq!((m.faces[0].a, m.faces[0].b, m.faces[0].c), (1, 2, 3));
    assert_eq!((m.faces[1].a, m.faces[1].b, m.faces[1].c), (2, 3, 4));
    assert_eq!(m.rotation, Vec3::new(0, 0, 0));
    assert_eq!(m.scale, Vec3::new(FX, FX, FX));
    assert_eq!(m.translation, Vec3::new(0, 0, 0));
}

#[test]
fn unknown_line_prefixes_are_ignored() {
    let src = b"# comment\nvn 1 2 3\nvt 0.5 0.5\ng group\nv 2.5 -0.25 3\nusemtl x\n";
    let m = Mesh::from_source(src).unwrap();
    assert_eq!(m.vertices.len(), 1);
    assert_eq!(m.faces.len(), 0);
    assert_eq!(m.vertices[0], Vec3::new(2 * FX + FX / 2, -(FX / 4), 3 * FX));
}

#[test]
fn fractional_coordinates_truncate_toward_zero() {
    let m = Mesh::from_source(b"v 0.5 -0.5 0.000015\n").unwrap();
    assert_eq!(m.vertices[0].x, 32768);
    assert_eq!(m.vertices[0].y, -32768);
    // 0.000015 * 65536 is just below one: it truncates to zero units
    assert_eq!(m.vertices[0].z, 0);
}

#[test]
fn windows_line_endings_and_extra_spaces_parse() {
    let m = Mesh::from_source(b"v  1 2 3\r\nv 4 5 6\r\nf 1 2 2\r\n").unwrap();
    assert_eq!(m.vertices.len(), 2);
    assert_eq!(m.faces.len(), 1);
    assert_eq!(m.vertices[1], Vec3::new(4 * FX, 5 * FX, 6 * FX));
}

#[test]
fn malformed_number_is_a_load_error() {
    assert_eq!(Mesh::from_source(b"v 1.0 abc 3.0\n").err(), Some(MeshError::BadNumber));
    assert_eq!(Mesh::from_source(b"v 1.0.0 2 3\n").err(), Some(MeshError::BadNumber));
    assert_eq!(Mesh::from_source(b"f 1 x 3\n").err(), Some(MeshError::BadNumber));
}

#[test]
fn missing_tokens_are_a_load_error() {
    assert_eq!(Mesh::from_source(b"v 1.0 2.0\n").err(), Some(MeshError::MissingToken));
    assert_eq!(Mesh::from_source(b"v 1 2 3\nf 1 2\n").err(), Some(MeshError::MissingToken));
}

#[test]
fn oversized_coordinate_is_a_load_error() {
    assert_eq!(Mesh::from_source(b"v 300 0 0\n").err(), Some(MeshError::OutOfRange));
    assert_eq!(Mesh::from_source(b"v 0 -1000.5 0\n").err(), Some(MeshError::OutOfRange));
    // the boundary itself is representable
    let edge = Mesh::from_source(b"v 256 -256 0\n").unwrap();
    assert_eq!(edge.vertices[0].x, MESH_COORD_MAX);
    assert_eq!(edge.vertices[0].y, -MESH_COORD_MAX);
}

#[test]
fn face_index_zero_or_beyond_vertex_count_is_a_load_error() {
    assert_eq!(Mesh::from_source(b"v 1 2 3\nf 0 1 1\n").err(), Some(MeshError::BadIndex));
    assert_eq!(Mesh::from_source(b"v 1 2 3\nf 1 1 2\n").err(), Some(MeshError::BadIndex));
    // forward references within range are fine
    assert!(Mesh::from_source(b"f 1 2 2\nv 1 2 3\nv 4 5 6\n").is_ok());
}

#[test]
fn face_lines_ignore_texture_and_normal_indices() {
    let m = Mesh::from_source(b"v 0 0 0\nv 1 0 0\nv 0 1 0\nf 1/11/4 2//9 3/5\n").unwrap();
    assert_eq!((m.faces[0].a, m.faces[0].b, m.faces[0].c), (1, 2, 3));
    assert_eq!(m.faces[0].color.r, 240);
    assert_eq!(m.faces[0].color.a, 255);
}

#[test]
fn extra_face_tokens_are_parsed_but_only_first_three_used() {
    let m = Mesh::from_source(b"v 0 0 0\nv 1 0 0\nv 0 1 0\nv 1 1 0\nf 1 2 3 4\n").unwrap();
    assert_eq!((m.faces[0].a, m.faces[0].b, m.faces[0].c), (1, 2, 3));
    // a malformed fourth token still poisons the line
    assert_eq!(Mesh::from_source(b"v 0 0 0\nf 1 1 1 oops\n").err(), Some(MeshError::BadNumber));
}

#[test]
fn empty_source_gives_empty_mesh() {
    let m = Mesh::from_source(b"").unwrap();
    assert_eq!(m.vertices.len(), 0);
    assert_eq!(m.faces.len(), 0);
}

#[test]
fn cube_has_eight_vertices_and_twelve_faces() {
    let m = Mesh::new_cube();
    assert_eq!(m.vertices.len(), N_CUBE_VERTICES);
    assert_eq!(m.faces.len(), N_CUBE_FACES);
    assert_eq!(m.vertices[0], Vec3::new(-FX, -FX, -FX));
    assert_eq!((m.faces[0].a, m.faces[0].b, m.faces[0].c), (1, 2, 3));
    // every index addresses the vertex list
    for f in &m.faces {
        for i in [f.a, f.b, f.c] {
            assert!(1 <= i && i <= 8);
        }
    }
}

use scop::obj::{parse_obj, parse_obj_bytes, FormatError, FormatErrorKind, Mesh, ObjError, MAX_VERTICES};

fn triangles(mesh: &Mesh) -> Vec<Vec<u16>> {
    mesh.faces.iter().map(|f| f.indices.clone()).collect()
}

fn format_error(line: usize, kind: FormatErrorKind) -> ObjError {
    ObjError::Format(FormatError { line, kind })
}

fn parse_err(text: &str) -> ObjError {
    match parse_obj(text) {
        Ok(_) => panic!("expected an error for {:?}", text),
        Err(e) => e,
    }
}

#[test]
fn single_vertex_and_triangle() {
    let mesh = parse_obj("v 1 2 3\nf 1 2 3").unwrap();
    assert_eq!(mesh.vertex_count(), 1);
    assert_eq!(mesh.vertices[0].x, b"1".to_vec());
    assert_eq!(mesh.vertices[0].y, b"2".to_vec());
    assert_eq!(mesh.vertices[0].z, b"3".to_vec());
    assert_eq!(triangles(&mesh), vec![vec![0, 1, 2]]);
    assert_eq!(mesh.indices, vec![0, 1, 2]);
    assert_eq!(mesh.index_count(), 3);
}

#[test]
fn pentagon_is_fan_triangulated() {
    let text = "v 0 0 0\nv 1 0 0\nv 1 1 0\nv 0 1 0\nv -1 0 0\nf 1 2 3 4 5\n";
    let mesh = parse_obj(text).unwrap();
    assert_eq!(triangles(&mesh), vec![vec![0, 1, 2], vec![0, 2, 3], vec![0, 3, 4]]);
    assert_eq!(mesh.indices, vec![0, 1, 2, 0, 2, 3, 0, 3, 4]);
    assert_eq!(mesh.index_count(), 9);
}

#[test]
fn quad_gives_two_triangles_sharing_first_vertex() {
    let mesh = parse_obj("f 4 3 2 1").unwrap();
    assert_eq!(triangles(&mesh), vec![vec![3, 2, 1], vec![3, 1, 0]]);
}

#[test]
fn face_with_zero_index_is_rejected() {
    assert_eq!(parse_err("v 0 0 0\nf 0 1 2"), format_error(2, FormatErrorKind::ZeroIndex));
    assert_eq!(parse_err("f 1 2 0"), format_error(1, FormatErrorKind::ZeroIndex));
}

#[test]
fn face_with_fewer_than_three_indices_is_rejected() {
    assert_eq!(parse_err("f 1 2"), format_error(1, FormatErrorKind::TooFewIndices));
    assert_eq!(parse_err("f"), format_error(1, FormatErrorKind::TooFewIndices));
}

#[test]
fn vertex_with_two_or_four_coordinates_is_rejected() {
    assert_eq!(parse_err("v 1 2"), format_error(1, FormatErrorKind::MissingCoordinate));
    assert_eq!(parse_err("v 1 2 3 4"), format_error(1, FormatErrorKind::ExtraCoordinate));
    assert_eq!(parse_err("v"), format_error(1, FormatErrorKind::MissingCoordinate));
}

#[test]
fn vertex_with_bad_coordinate_is_rejected() {
    assert_eq!(parse_err("v 1 a 3"), format_error(1, FormatErrorKind::InvalidCoordinate));
    assert_eq!(parse_err("v 1 2 1.2.3"), format_error(1, FormatErrorKind::InvalidCoordinate));
    assert_eq!(parse_err("v . 2 3"), format_error(1, FormatErrorKind::InvalidCoordinate));
    assert_eq!(parse_err("v 1e 2 3"), format_error(1, FormatErrorKind::InvalidCoordinate));
    assert_eq!(parse_err("v e5 2 3"), format_error(1, FormatErrorKind::InvalidCoordinate));
    assert_eq!(parse_err("v 1 2 --3"), format_error(1, FormatErrorKind::InvalidCoordinate));
    assert_eq!(parse_err("v 1 2 infinit"), format_error(1, FormatErrorKind::InvalidCoordinate));
}

#[test]
fn float_forms_are_accepted() {
    let text = "v 1e5 -.5 +2.\nv 1.5E-3 0.25e+2 -0\nv inf -Infinity NaN\n";
    let mesh = parse_obj(text).unwrap();
    assert_eq!(mesh.vertex_count(), 3);
    assert_eq!(mesh.vertices[0].y, b"-.5".to_vec());
    assert_eq!(mesh.vertices[2].z, b"NaN".to_vec());
    for v in &mesh.vertices {
        for c in [&v.x, &v.y, &v.z] {
            let s = std::str::from_utf8(c).unwrap();
            assert!(s.parse::<f32>().is_ok(), "{} should parse", s);
        }
    }
}

#[test]
fn face_with_bad_index_is_rejected() {
    assert_eq!(parse_err("f 1 x 2"), format_error(1, FormatErrorKind::InvalidIndex));
    assert_eq!(parse_err("f 1 70000 2"), format_error(1, FormatErrorKind::InvalidIndex));
    assert_eq!(parse_err("f 1 -2 3"), format_error(1, FormatErrorKind::InvalidIndex));
    assert_eq!(parse_err("f 1/1 2/2 3/3"), format_error(1, FormatErrorKind::InvalidIndex));
    // The first bad index decides.
    assert_eq!(parse_err("f 1 x 0"), format_error(1, FormatErrorKind::InvalidIndex));
    assert_eq!(parse_err("f 0 x"), format_error(1, FormatErrorKind::ZeroIndex));
}

#[test]
fn largest_index_and_plus_sign_are_accepted() {
    let mesh = parse_obj("f 65535 +2 003").unwrap();
    assert_eq!(mesh.indices, vec![65534, 1, 2]);
}

#[test]
fn other_lines_are_ignored() {
    let text = "# a comment\nvn 0 0 1\nvt 0.5 0.5\no name\n\nv 1 2 3\ns off\nusemtl x\n";
    let mesh = parse_obj(text).unwrap();
    assert_eq!(mesh.vertex_count(), 1);
    assert!(mesh.faces.is_empty());
}

#[test]
fn empty_text_gives_empty_mesh() {
    let mesh = parse_obj("").unwrap();
    assert_eq!(mesh.vertex_count(), 0);
    assert_eq!(mesh.index_count(), 0);
}

#[test]
fn spacing_and_crlf_are_tolerated() {
    let text = "  v\t1   2 3 \r\n\r\nf  1\t1 1\r\n";
    let mesh = parse_obj(text).unwrap();
    assert_eq!(mesh.vertex_count(), 1);
    assert_eq!(mesh.vertices[0].z, b"3".to_vec());
    assert_eq!(mesh.indices, vec![0, 0, 0]);
}

#[test]
fn line_numbers_count_blank_lines() {
    assert_eq!(parse_err("\n\n# c\nv 1 2\n"), format_error(4, FormatErrorKind::MissingCoordinate));
}

#[test]
fn first_error_wins() {
    assert_eq!(parse_err("f 1 2\nv 1\n"), format_error(1, FormatErrorKind::TooFewIndices));
    assert_eq!(parse_err("v 0 0 0\nv 1\nf 0 0 0\n"), format_error(2, FormatErrorKind::MissingCoordinate));
}

#[test]
fn seventy_thousand_vertices_raise_capacity_error() {
    let text = "v 0 0 0\n".repeat(70000);
    assert_eq!(parse_obj(&text).err(), Some(ObjError::Capacity));
}

#[test]
fn exactly_max_vertices_are_accepted() {
    let mut text = "v 0.5 -0.5 0\n".repeat(MAX_VERTICES);
    text.push_str("f 1 2 65535\n");
    let mesh = parse_obj(&text).unwrap();
    assert_eq!(mesh.vertex_count(), 65535);
    assert_eq!(mesh.indices, vec![0, 1, 65534]);
    text.push_str("v 1 1 1\n");
    assert_eq!(parse_obj(&text).err(), Some(ObjError::Capacity));
}

#[test]
fn format_error_before_capacity_on_same_line() {
    let mut text = "v 0 0 0\n".repeat(MAX_VERTICES);
    text.push_str("v 1 2\n");
    assert_eq!(parse_err(&text), format_error(65536, FormatErrorKind::MissingCoordinate));
}

#[test]
fn bytes_and_text_agree() {
    let text = "v 1 2 3\nv 4 5 6\nv 7 8 9\nf 1 2 3\n";
    let a = parse_obj(text).unwrap();
    let b = parse_obj_bytes(text.as_bytes()).unwrap();
    assert_eq!(a.indices, b.indices);
    assert_eq!(a.vertex_count(), b.vertex_count());
}

#[test]
fn error_kinds_have_descriptions() {
    assert_eq!(FormatErrorKind::ZeroIndex.description(), "invalid vertex index (0)");
    assert_eq!(FormatErrorKind::TooFewIndices.description(), "a face must have at least 3 indices");
}

#[test]
fn unicode_whitespace_separates_words() {
    let mesh = parse_obj("v 1\u{a0}2 3\nv\u{3000}4\u{2009}5\u{85}6\u{202f}\nf 1\u{1680}2\u{205f}2\u{2028}").unwrap();
    assert_eq!(mesh.vertex_count(), 2);
    assert_eq!(mesh.vertices[0].y, b"2".to_vec());
    assert_eq!(mesh.vertices[1].x, b"4".to_vec());
    assert_eq!(mesh.vertices[1].z, b"6".to_vec());
    assert_eq!(mesh.indices, vec![0, 1, 1]);
}

#[test]
fn other_non_ascii_text_is_not_whitespace() {
    assert_eq!(parse_err("v 1\u{e9}2 3"), format_error(1, FormatErrorKind::MissingCoordinate));
    let mesh = parse_obj("# caf\u{e9} \u{2603}\nv 1 2 3\n").unwrap();
    assert_eq!(mesh.vertex_count(), 1);
}

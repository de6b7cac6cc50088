use std::num::{ParseFloatError, ParseIntError};

use vulkan_engine::assets::mesh_parser::{
    parse, parse_face, parse_token, parse_triplet, Face, FaceIndex, MeshBuilder, ParserError,
};

#[derive(Debug, Default, Clone, Copy, PartialEq)]
struct Vertex {
    position: [f32; 3],
    color: Option<[f32; 3]>,
}

fn parse_numbers(value: &str) -> Result<Vec<f32>, ParseFloatError> {
    value.split(' ').map(|x| x.parse()).collect::<Result<_, _>>()
}

fn parse_vertex(value: &str) -> Result<Vertex, ParseFloatError> {
    let vec = parse_numbers(value)?;
    let mut color = None;
    if vec.len() == 6 {
        color = Some([vec[3], vec[4], vec[5]]);
    }
    Ok(Vertex { position: [vec[0], vec[1], vec[2]], color })
}

fn parse_uv(value: &str) -> Result<[f32; 2], ParseFloatError> {
    let numbers = parse_numbers(value)?;
    Ok([numbers[0], numbers[1]])
}

fn parse_normal(value: &str) -> Result<[f32; 3], ParseFloatError> {
    let numbers = parse_numbers(value)?;
    Ok([numbers[0], numbers[1], numbers[2]])
}

type Builder = MeshBuilder<Vertex, [f32; 2], [f32; 3]>;

fn token(t: &str, v: &str, b: &mut Builder) -> Result<(), ParserError> {
    parse_token(t, v, b, parse_vertex, parse_uv, parse_normal)
}

#[test]
fn test_parse_token() -> Result<(), ParserError> {
    let mut builder: Builder = MeshBuilder::new();

    token("o", "foo bar", &mut builder)?;
    token("v", "1 2 3", &mut builder)?;
    token("v", "4 5 6", &mut builder)?;
    token("f", "1 2 2", &mut builder)?;
    token("g", "new group", &mut builder)?;

    assert_eq!(builder.name(), &Some("foo bar".to_string()));
    assert_eq!(
        builder.vertices(),
        &vec![
            Vertex { position: [1.0, 2.0, 3.0], ..Vertex::default() },
            Vertex { position: [4.0, 5.0, 6.0], ..Vertex::default() }
        ]
    );

    Ok(())
}

#[test]
fn test_parse_face() -> Result<(), ParserError> {
    assert_eq!(
        parse_face("1 2/2 3/2/1 5//2")?,
        Face {
            face_i: vec![
                FaceIndex { vert_i: 1, ..FaceIndex::default() },
                FaceIndex { vert_i: 2, uv_i: Some(2), ..FaceIndex::default() },
                FaceIndex { vert_i: 3, uv_i: Some(2), normal_i: Some(1) },
                FaceIndex { vert_i: 5, normal_i: Some(2), ..FaceIndex::default() }
            ]
        }
    );
    Ok(())
}

#[test]
fn test_parse_triplet() -> Result<(), ParseIntError> {
    assert_eq!(parse_triplet("1")?, &[Some(1), None, None]);
    assert_eq!(parse_triplet("1/3")?, &[Some(1), Some(3), None]);
    assert_eq!(parse_triplet("1/2/3")?, &[Some(1), Some(2), Some(3)]);
    assert_eq!(parse_triplet("1//3")?, &[Some(1), None, Some(3)]);

    Ok(())
}

#[test]
fn parse_triplet_ignores_pieces_after_the_third() {
    assert_eq!(parse_triplet("1/2/3/x").unwrap(), vec![Some(1), Some(2), Some(3)]);
    assert_eq!(parse_triplet("+7").unwrap(), vec![Some(7), None, None]);
}

#[test]
fn parse_triplet_rejects_non_numbers() {
    assert!(parse_triplet("a/1").is_err());
    assert!(parse_triplet("1/-2").is_err());
    assert!(parse_triplet("1/ 2").is_err());
}

#[test]
fn parse_face_without_vertex_index_is_a_face_error() {
    assert!(matches!(parse_face("/2"), Err(ParserError::ParseFaceError)));
    assert!(matches!(parse_face("1 //3"), Err(ParserError::ParseFaceError)));
}

#[test]
fn parse_face_with_bad_number_is_an_int_error() {
    assert!(matches!(parse_face("1 x 3"), Err(ParserError::ParseIntError(_))));
    // a double space gives an empty piece, which has no vertex index
    assert!(matches!(parse_face("1  3"), Err(ParserError::ParseFaceError)));
}

#[test]
fn parse_token_reports_bad_numbers_and_keeps_the_builder() {
    let mut builder: Builder = MeshBuilder::new();
    assert!(matches!(token("v", "1 x 3", &mut builder), Err(ParserError::ParseFloatError(_))));
    assert!(builder.vertices().is_empty());
    assert!(token("#", "a comment", &mut builder).is_ok());
    assert!(token("s", "off", &mut builder).is_ok());
    assert!(builder.vertices().is_empty());
    assert_eq!(builder.name(), &None);
}

#[test]
fn parse_token_empty_name_is_no_name() {
    let mut builder: Builder = MeshBuilder::new();
    token("o", "", &mut builder).unwrap();
    assert_eq!(builder.name(), &None);
}

fn lines(text: &str) -> Vec<String> {
    text.lines().map(|l| l.to_string()).collect()
}

#[test]
fn build_mesh_fans_polygons_and_counts_from_one() {
    let obj = lines("o quad\nv 0 0 0\nv 1 0 0\nv 1 1 0\nv 0 1 0\nf 1 2 3 4");
    let builder: Builder = parse(&obj, parse_vertex, parse_uv, parse_normal).unwrap();
    let mesh = builder.build_mesh().unwrap();
    assert_eq!(mesh.name, Some("quad".to_string()));
    assert_eq!(mesh.vertices.len(), 4);
    assert_eq!(mesh.submeshes.len(), 1);
    let faces: Vec<[usize; 3]> = mesh.submeshes[0].faces.iter().map(|f| f.indices).collect();
    assert_eq!(faces, vec![[1, 2, 3], [1, 3, 4]]);
    assert!(mesh.vertices.iter().all(|v| v.uv.is_none() && v.normal.is_none()));
}

#[test]
fn build_mesh_copies_a_vertex_used_with_another_texture_coordinate() {
    let obj = lines(
        "v 0 0 0\nv 1 0 0\nv 1 1 0\nvt 0 0\nvt 1 1\nvn 0 0 1\nvn 0 1 0\nf 1/1/1 2/1/1 3/1/1\nf 1/2/2 3/2/2 2/2/2",
    );
    let builder: Builder = parse(&obj, parse_vertex, parse_uv, parse_normal).unwrap();
    let mesh = builder.build_mesh().unwrap();
    // the second face gives every vertex another texture coordinate: three copies
    assert_eq!(mesh.vertices.len(), 6);
    let faces: Vec<[usize; 3]> = mesh.submeshes[0].faces.iter().map(|f| f.indices).collect();
    assert_eq!(faces, vec![[1, 2, 3], [4, 5, 6]]);
    assert_eq!(mesh.vertices[0].uv, Some([0.0, 0.0]));
    assert_eq!(mesh.vertices[3].uv, Some([1.0, 1.0]));
    // the normal is looked up by the normal index
    assert_eq!(mesh.vertices[0].normal, Some([0.0, 0.0, 1.0]));
    assert_eq!(mesh.vertices[3].normal, Some([0.0, 1.0, 0.0]));
    assert_eq!(mesh.vertices[3].data.position, [0.0, 0.0, 0.0]);
}

#[test]
fn build_mesh_takes_normals_by_the_normal_index() {
    let obj = lines("v 0 0 0\nv 1 0 0\nv 1 1 0\nvn 0 0 1\nvn 0 1 0\nf 1//2 2//2 3//1");
    let builder: Builder = parse(&obj, parse_vertex, parse_uv, parse_normal).unwrap();
    let mesh = builder.build_mesh().unwrap();
    assert_eq!(mesh.vertices.len(), 3);
    assert_eq!(mesh.vertices[0].uv, None);
    assert_eq!(mesh.vertices[0].normal, Some([0.0, 1.0, 0.0]));
    assert_eq!(mesh.vertices[2].normal, Some([0.0, 0.0, 1.0]));
}

#[test]
fn build_mesh_keeps_groups_in_order() {
    let obj = lines("v 0 0 0\nv 1 0 0\nv 1 1 0\ng first\nf 1 2 3\ng second\nf 3 2 1\ng ");
    let builder: Builder = parse(&obj, parse_vertex, parse_uv, parse_normal).unwrap();
    let mesh = builder.build_mesh().unwrap();
    let names: Vec<Option<String>> = mesh.submeshes.iter().map(|s| s.name.clone()).collect();
    // the last group line, with an empty name, starts an empty, unnamed group
    assert_eq!(names, vec![Some("first".to_string()), Some("second".to_string()), None]);
    assert_eq!(mesh.submeshes[1].faces[0].indices, [3, 2, 1]);
    assert!(mesh.submeshes[2].faces.is_empty());
}

#[test]
fn parse_stops_at_the_first_bad_line() {
    let obj = lines("v 0 0 0\nf 1 q 3\nv 1 1 1");
    let r: Result<Builder, ParserError> = parse(&obj, parse_vertex, parse_uv, parse_normal);
    assert!(matches!(r, Err(ParserError::ParseIntError(_))));
}

#[test]
fn parse_skips_lines_without_a_space() {
    let obj = lines("empty\nv 1 2 3\n\nvn 0 0 1");
    let builder: Builder = parse(&obj, parse_vertex, parse_uv, parse_normal).unwrap();
    assert_eq!(builder.vertices().len(), 1);
}

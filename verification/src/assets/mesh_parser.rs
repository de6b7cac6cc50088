//! A reader for Wavefront `.obj` meshes.
use std::num::{ParseFloatError, ParseIntError};
use vstd::prelude::*;

use crate::mesh;
use crate::text::{parse_usize, split_by, split_once_at, split_pieces, usize_literal};
use vstd::std_specs::cmp::PartialEqSpec;

verus! {

#[derive(Debug, Clone, Copy, Default, PartialEq, Eq, Structural)]
pub struct FaceIndex {
    pub vert_i: usize,
    pub uv_i: Option<usize>,
    pub normal_i: Option<usize>,
}

#[derive(Debug, Default, PartialEq)]
pub struct Face {
    pub face_i: Vec<FaceIndex>,
}

#[derive(Debug)]
pub enum ParserError {
    ParseFloatError(ParseFloatError),
    ParseIntError(ParseIntError),
    IoError(std::io::Error),
    ParseFaceError,
}

/// What kind of error a parser function reported.
#[derive(PartialEq, Eq, Structural)]
pub enum ParserErrorKind {
    Float,
    Int,
    Io,
    Face,
}

pub open spec fn error_kind(e: ParserError) -> ParserErrorKind {
    match e {
        ParserError::ParseFloatError(_) => ParserErrorKind::Float,
        ParserError::ParseIntError(_) => ParserErrorKind::Int,
        ParserError::IoError(_) => ParserErrorKind::Io,
        ParserError::ParseFaceError => ParserErrorKind::Face,
    }
}

/// The value of one entry of an index triplet: an empty entry is `None`,
/// anything else must be a `usize` literal (`None` when it is not).
pub open spec fn triplet_entry(p: Seq<char>) -> Option<Option<usize>> {
    if p.len() == 0 {
        Some(None)
    } else {
        match usize_literal(p) {
            Some(v) => Some(Some(v as usize)),
            None => None,
        }
    }
}

/// Entry `i` of a triplet read from the pieces `ps`; missing pieces give an
/// empty entry.
pub open spec fn triplet_slot(ps: Seq<Seq<char>>, i: int) -> Option<Option<usize>> {
    if i < ps.len() {
        triplet_entry(ps[i])
    } else {
        Some(None)
    }
}

/// The triplet that `value` describes: its first three `/`-separated pieces
/// (pieces after the third are ignored), or `None` when one of them is
/// neither empty nor a `usize` literal.
pub open spec fn triplet_of(value: Seq<char>) -> Option<Seq<Option<usize>>> {
    let ps = split_pieces(value, '/');
    match (triplet_slot(ps, 0), triplet_slot(ps, 1), triplet_slot(ps, 2)) {
        (Some(a), Some(b), Some(c)) => Some(seq![a, b, c]),
        _ => None,
    }
}

/// Parses a triplet `v/vt/vn` whose parts may be empty or missing.
pub fn parse_triplet(value: &str) -> (r: Result<Vec<Option<usize>>, ParseIntError>)
    ensures
        match triplet_of(value@) {
            Some(t) => r matches Ok(v) && v@ == t,
            None => r is Err,
        },
{
    let mut ret: Vec<Option<usize>> = vec![None; 3];
    let pieces = split_by(value, '/');
    let ghost ps = split_pieces(value@, '/');
    let n = if pieces.len() < 3 { pieces.len() } else { 3 };
    let mut i: usize = 0;
    while i < n
        invariant
            n <= 3,
            n <= pieces@.len(),
            n == 3 || n == pieces@.len(),
            i <= n,
            ret@.len() == 3,
            ps == pieces@.map_values(|p: &str| p@),
            ps == split_pieces(value@, '/'),
            forall|j: int| 0 <= j < i ==> triplet_slot(ps, j) == Some(#[trigger] ret@[j]),
            forall|j: int| i <= j < 3 ==> #[trigger] ret@[j] == None::<usize>,
        decreases n - i,
    {
        let b = pieces[i];
        assert(ps[i as int] == b@);
        let entry = if b.is_empty() {
            None
        } else {
            match parse_usize(b) {
                Ok(v) => Some(v),
                Err(e) => {
                    assert(triplet_slot(ps, i as int) is None);
                    assert(triplet_of(value@) is None) by {
                        if i == 0 {
                            assert(triplet_slot(ps, 0) is None);
                        } else if i == 1 {
                            assert(triplet_slot(ps, 1) is None);
                        } else {
                            assert(triplet_slot(ps, 2) is None);
                        }
                    }
                    return Err(e);
                },
            }
        };
        assert(triplet_slot(ps, i as int) == Some(entry));
        ret.set(i, entry);
        i += 1;
    }
    assert(forall|j: int| n <= j < 3 ==> triplet_slot(ps, j) == Some(#[trigger] ret@[j]));
    assert(ret@ =~= seq![ret@[0], ret@[1], ret@[2]]);
    Ok(ret)
}

/// The face index that `value` describes: a triplet whose first entry (the
/// vertex) must be present.
pub open spec fn face_index_of(value: Seq<char>) -> Result<FaceIndex, ParserErrorKind> {
    match triplet_of(value) {
        None => Err(ParserErrorKind::Int),
        Some(t) => match t[0] {
            None => Err(ParserErrorKind::Face),
            Some(v) => Ok(FaceIndex { vert_i: v, uv_i: t[1], normal_i: t[2] }),
        },
    }
}

/// The face indices of the pieces `ps`, or the error of the first piece that
/// is not a face index.
pub open spec fn face_indices_of(ps: Seq<Seq<char>>) -> Result<Seq<FaceIndex>, ParserErrorKind>
    decreases ps.len(),
{
    if ps.len() == 0 {
        Ok(Seq::empty())
    } else {
        match face_indices_of(ps.drop_last()) {
            Err(k) => Err(k),
            Ok(pre) => match face_index_of(ps.last()) {
                Err(k) => Err(k),
                Ok(fi) => Ok(pre.push(fi)),
            },
        }
    }
}

/// The face that `value` describes: face indices separated by single spaces.
pub open spec fn face_of(value: Seq<char>) -> Result<Seq<FaceIndex>, ParserErrorKind> {
    face_indices_of(split_pieces(value, ' '))
}

/// Parses a single face index `v`, `v/vt`, `v//vn` or `v/vt/vn`.
fn parse_face_index(value: &str) -> (r: Result<FaceIndex, ParserError>)
    ensures
        match face_index_of(value@) {
            Ok(fi) => r == Ok::<FaceIndex, ParserError>(fi),
            Err(k) => r matches Err(e) && error_kind(e) == k,
        },
{
    let triplet = match parse_triplet(value) {
        Ok(t) => t,
        Err(e) => return Err(ParserError::ParseIntError(e)),
    };
    let vert_i = match triplet[0] {
        Some(v) => v,
        None => return Err(ParserError::ParseFaceError),
    };
    Ok(FaceIndex { vert_i, uv_i: triplet[1], normal_i: triplet[2] })
}

/// Parses the face indices of a face line, separated by spaces.
pub fn parse_face(value: &str) -> (r: Result<Face, ParserError>)
    ensures
        match face_of(value@) {
            Ok(fis) => r matches Ok(f) && f.face_i@ == fis,
            Err(k) => r matches Err(e) && error_kind(e) == k,
        },
{
    let pieces = split_by(value, ' ');
    let ghost ps = split_pieces(value@, ' ');
    let mut face_i: Vec<FaceIndex> = Vec::new();
    let mut i: usize = 0;
    assert(ps.take(0) =~= Seq::<Seq<char>>::empty());
    while i < pieces.len()
        invariant
            i <= pieces@.len(),
            ps == pieces@.map_values(|p: &str| p@),
            ps == split_pieces(value@, ' '),
            face_indices_of(ps.take(i as int)) == Ok::<Seq<FaceIndex>, ParserErrorKind>(face_i@),
        decreases pieces.len() - i,
    {
        let piece = pieces[i];
        assert(ps.take(i + 1).drop_last() =~= ps.take(i as int));
        assert(ps.take(i + 1).last() == piece@);
        match parse_face_index(piece) {
            Ok(fi) => face_i.push(fi),
            Err(e) => {
                assert(face_indices_of(ps.take(i + 1)) is Err);
                proof { lemma_face_error_persists(ps, i as int + 1); }
                assert(ps.take(ps.len() as int) =~= ps);
                return Err(e);
            },
        }
        i += 1;
    }
    assert(ps.take(ps.len() as int) =~= ps);
    Ok(Face { face_i })
}

/// Once a prefix of the pieces holds a piece that is not a face index, every
/// longer prefix reports the same error.
proof fn lemma_face_error_persists(ps: Seq<Seq<char>>, n: int)
    requires
        0 <= n <= ps.len(),
        face_indices_of(ps.take(n)) is Err,
    ensures
        face_indices_of(ps) == face_indices_of(ps.take(n)),
    decreases ps.len() - n,
{
    if n < ps.len() {
        assert(ps.take(n + 1).drop_last() =~= ps.take(n));
        lemma_face_error_persists(ps, n + 1);
    } else {
        assert(ps.take(n) =~= ps);
    }
}

/// The characters of an optional name.
pub open spec fn name_view(name: Option<String>) -> Option<Seq<char>> {
    match name {
        Some(s) => Some(s@),
        None => None,
    }
}

/// The name that a name line gives: none when it is empty.
pub open spec fn group_name(value: Seq<char>) -> Option<Seq<char>> {
    if value.len() == 0 {
        None
    } else {
        Some(value)
    }
}

/// A group of faces with an optional name.
#[derive(Debug, Default)]
pub struct Submesh {
    name: Option<String>,
    faces: Vec<Face>,
}

/// A group of faces as values: its name and the face indices of each face.
pub struct SubmeshModel {
    pub name: Option<Seq<char>>,
    pub faces: Seq<Seq<FaceIndex>>,
}

impl View for Submesh {
    type V = SubmeshModel;

    closed spec fn view(&self) -> SubmeshModel {
        SubmeshModel { name: name_view(self.name), faces: self.faces@.map_values(|f: Face| f.face_i@) }
    }
}

/// A mesh as read so far: its name, the finished groups, and the vertices,
/// texture coordinates and normals, each of the caller's type (the file
/// gives them as floating-point numbers).
#[derive(Debug, Default)]
pub struct Mesh<P, U, N> {
    name: Option<String>,
    submeshes: Vec<Submesh>,
    vertices: Vec<P>,
    uvs: Vec<U>,
    normals: Vec<N>,
}

/// A mesh under construction: the finished part and the group that faces
/// are added to.
#[derive(Debug, Default)]
pub struct MeshBuilder<P, U, N> {
    mesh: Mesh<P, U, N>,
    curr_submesh: Submesh,
}

/// A mesh under construction as values.
pub struct MeshModel<P, U, N> {
    pub name: Option<Seq<char>>,
    pub submeshes: Seq<SubmeshModel>,
    pub current: SubmeshModel,
    pub vertices: Seq<P>,
    pub uvs: Seq<U>,
    pub normals: Seq<N>,
}

impl<P, U, N> View for MeshBuilder<P, U, N> {
    type V = MeshModel<P, U, N>;

    closed spec fn view(&self) -> MeshModel<P, U, N> {
        MeshModel {
            name: name_view(self.mesh.name),
            submeshes: self.mesh.submeshes@.map_values(|s: Submesh| s@),
            current: self.curr_submesh@,
            vertices: self.mesh.vertices@,
            uvs: self.mesh.uvs@,
            normals: self.mesh.normals@,
        }
    }
}

/// The builder after a group line with the name `value`: while the current
/// group has no faces it is only renamed; otherwise it is finished and an
/// empty group with that name follows it.
pub open spec fn after_group<P, U, N>(m: MeshModel<P, U, N>, value: Seq<char>) -> MeshModel<P, U, N> {
    if m.current.faces.len() == 0 {
        MeshModel { current: SubmeshModel { name: group_name(value), ..m.current }, ..m }
    } else {
        MeshModel {
            submeshes: m.submeshes.push(m.current),
            current: SubmeshModel { name: group_name(value), faces: Seq::empty() },
            ..m
        }
    }
}

/// The builder with one more vertex.
pub open spec fn with_vertex<P, U, N>(m: MeshModel<P, U, N>, p: P) -> MeshModel<P, U, N> {
    MeshModel { vertices: m.vertices.push(p), ..m }
}

/// The builder with one more texture coordinate.
pub open spec fn with_uv<P, U, N>(m: MeshModel<P, U, N>, u: U) -> MeshModel<P, U, N> {
    MeshModel { uvs: m.uvs.push(u), ..m }
}

/// The builder with one more normal.
pub open spec fn with_normal<P, U, N>(m: MeshModel<P, U, N>, n: N) -> MeshModel<P, U, N> {
    MeshModel { normals: m.normals.push(n), ..m }
}

/// The builder with one more face in the current group.
pub open spec fn with_face<P, U, N>(m: MeshModel<P, U, N>, f: Seq<FaceIndex>) -> MeshModel<P, U, N> {
    MeshModel { current: SubmeshModel { faces: m.current.faces.push(f), ..m.current }, ..m }
}

/// The builder with the mesh name of a name line.
pub open spec fn with_name<P, U, N>(m: MeshModel<P, U, N>, value: Seq<char>) -> MeshModel<P, U, N> {
    MeshModel { name: group_name(value), ..m }
}

/// The name of a name line: the text itself, or none when it is empty.
fn name_of(value: &str) -> (r: Option<String>)
    ensures
        name_view(r) == group_name(value@),
{
    if value.is_empty() {
        None
    } else {
        Some(value.to_owned())
    }
}

impl<P, U, N> MeshBuilder<P, U, N> {
    /// An empty builder: no name, no groups, no vertices.
    pub fn new() -> (b: Self)
        ensures
            b@.name is None,
            b@.submeshes.len() == 0,
            b@.current.name is None,
            b@.current.faces.len() == 0,
            b@.vertices.len() == 0,
            b@.uvs.len() == 0,
            b@.normals.len() == 0,
    {
        let b = MeshBuilder {
            mesh: Mesh {
                name: None,
                submeshes: Vec::new(),
                vertices: Vec::new(),
                uvs: Vec::new(),
                normals: Vec::new(),
            },
            curr_submesh: Submesh { name: None, faces: Vec::new() },
        };
        assert(b@.submeshes.len() == 0);
        b
    }

    /// The mesh name read so far.
    pub fn name(&self) -> (r: &Option<String>)
        ensures
            name_view(*r) == self@.name,
    {
        &self.mesh.name
    }

    /// The vertices read so far.
    pub fn vertices(&self) -> (r: &Vec<P>)
        ensures
            r@ == self@.vertices,
    {
        &self.mesh.vertices
    }

    /// Starts the group `name` (see `after_group`).
    fn set_group(&mut self, name: &str)
        ensures
            final(self)@ == after_group(old(self)@, name@),
    {
        if self.curr_submesh.faces.len() == 0 {
            self.curr_submesh.name = name_of(name);
            proof {
                assert(final(self)@.current.faces =~= old(self)@.current.faces);
            }
        } else {
            let mut fg = Submesh { name: name_of(name), faces: Vec::new() };
            std::mem::swap(&mut fg, &mut self.curr_submesh);
            self.mesh.submeshes.push(fg);
            proof {
                assert(final(self)@.submeshes =~= old(self)@.submeshes.push(old(self)@.current));
                assert(final(self)@.current.faces =~= Seq::<Seq<FaceIndex>>::empty());
            }
        }
    }

    fn push_vertex(&mut self, vertex: P)
        ensures
            final(self)@ == with_vertex(old(self)@, vertex),
    {
        self.mesh.vertices.push(vertex);
    }

    fn push_uv(&mut self, uv: U)
        ensures
            final(self)@ == with_uv(old(self)@, uv),
    {
        self.mesh.uvs.push(uv);
    }

    fn push_normal(&mut self, normal: N)
        ensures
            final(self)@ == with_normal(old(self)@, normal),
    {
        self.mesh.normals.push(normal);
    }

    fn push_face(&mut self, face: Face)
        ensures
            final(self)@ == with_face(old(self)@, face.face_i@),
    {
        let ghost fi = face.face_i@;
        self.curr_submesh.faces.push(face);
        proof {
            assert(final(self)@.current.faces =~= old(self)@.current.faces.push(fi));
        }
    }
}

/// Whether `s` is the word `w`.
fn is_word(s: &str, w: &str) -> (r: bool)
    ensures
        r == (s@ == w@),
{
    s.to_owned() == w.to_owned()
}

/// The tokens that `parse_token` reads are different words.
proof fn lemma_tokens_distinct()
    ensures
        "o"@ != "g"@ && "o"@ != "v"@ && "o"@ != "vt"@ && "o"@ != "vn"@ && "o"@ != "f"@,
        "g"@ != "v"@ && "g"@ != "vt"@ && "g"@ != "vn"@ && "g"@ != "f"@,
        "v"@ != "vt"@ && "v"@ != "vn"@ && "v"@ != "f"@,
        "vt"@ != "vn"@ && "vt"@ != "f"@,
        "vn"@ != "f"@,
{
    reveal_strlit("o");
    reveal_strlit("g");
    reveal_strlit("v");
    reveal_strlit("vt");
    reveal_strlit("vn");
    reveal_strlit("f");
    assert("o"@.len() == 1 && "o"@[0] == 'o');
    assert("g"@.len() == 1 && "g"@[0] == 'g');
    assert("v"@.len() == 1 && "v"@[0] == 'v');
    assert("f"@.len() == 1 && "f"@[0] == 'f');
    assert("vt"@.len() == 2 && "vt"@[1] == 't');
    assert("vn"@.len() == 2 && "vn"@[1] == 'n');
}

/// Whether a line with this token is read as data (`o`, `g`, `v`, `vt`, `vn`,
/// `f`); every other token but `usemtl` is skipped.
pub open spec fn is_data_token(token: Seq<char>) -> bool {
    token == "o"@ || token == "g"@ || token == "v"@ || token == "vt"@ || token == "vn"@ || token == "f"@
}

/// What reading a line with the token `token` and the rest `value` does to
/// a builder, and what it returns (see `parse_token`); the number readers
/// are the caller's, so a number line records one of their results: what
/// they read, or the error they gave.
pub open spec fn token_effect<P, U, N, FV, FU, FN>(
    m0: MeshModel<P, U, N>,
    m1: MeshModel<P, U, N>,
    token: Seq<char>,
    value: Seq<char>,
    parse_vertex: FV,
    parse_uv: FU,
    parse_normal: FN,
    r: Result<(), ParserError>,
) -> bool where
    FV: Fn(&str) -> Result<P, ParseFloatError>,
    FU: Fn(&str) -> Result<U, ParseFloatError>,
    FN: Fn(&str) -> Result<N, ParseFloatError>,
 {
    if token == "o"@ {
        r is Ok && m1 == with_name(m0, value)
    } else if token == "g"@ {
        r is Ok && m1 == after_group(m0, value)
    } else if token == "v"@ {
        match r {
            Ok(_) => exists|s: &str, p: P|
                s@ == value && #[trigger] parse_vertex.ensures((s,), Ok::<P, ParseFloatError>(p)) && m1
                    == with_vertex(m0, p),
            Err(ParserError::ParseFloatError(e)) => exists|s: &str|
                s@ == value && #[trigger] parse_vertex.ensures((s,), Err::<P, ParseFloatError>(e))
                    && m1 == m0,
            Err(_) => false,
        }
    } else if token == "vt"@ {
        match r {
            Ok(_) => exists|s: &str, u: U|
                s@ == value && #[trigger] parse_uv.ensures((s,), Ok::<U, ParseFloatError>(u)) && m1
                    == with_uv(m0, u),
            Err(ParserError::ParseFloatError(e)) => exists|s: &str|
                s@ == value && #[trigger] parse_uv.ensures((s,), Err::<U, ParseFloatError>(e)) && m1
                    == m0,
            Err(_) => false,
        }
    } else if token == "vn"@ {
        match r {
            Ok(_) => exists|s: &str, n: N|
                s@ == value && #[trigger] parse_normal.ensures((s,), Ok::<N, ParseFloatError>(n)) && m1
                    == with_normal(m0, n),
            Err(ParserError::ParseFloatError(e)) => exists|s: &str|
                s@ == value && #[trigger] parse_normal.ensures((s,), Err::<N, ParseFloatError>(e))
                    && m1 == m0,
            Err(_) => false,
        }
    } else if token == "f"@ {
        match face_of(value) {
            Ok(fis) => r is Ok && m1 == with_face(m0, fis),
            Err(k) => (r matches Err(e) && error_kind(e) == k) && m1 == m0,
        }
    } else {
        r is Ok && m1 == m0
    }
}

/// Reads one line of a `.obj` file, split into its token and the rest, into
/// `builder`: `o` names the mesh, `g` starts a group, `v`, `vt` and `vn` add
/// a vertex, texture coordinate or normal (read from the rest by the
/// caller's number readers), `f` adds a face; other tokens are skipped.
/// Material use (`usemtl`) is not supported.
pub fn parse_token<P, U, N, FV, FU, FN>(
    token: &str,
    value: &str,
    builder: &mut MeshBuilder<P, U, N>,
    parse_vertex: FV,
    parse_uv: FU,
    parse_normal: FN,
) -> (r: Result<(), ParserError>) where
    FV: Fn(&str) -> Result<P, ParseFloatError>,
    FU: Fn(&str) -> Result<U, ParseFloatError>,
    FN: Fn(&str) -> Result<N, ParseFloatError>,

    requires
        token@ != "usemtl"@,
        parse_vertex.requires((value,)),
        parse_uv.requires((value,)),
        parse_normal.requires((value,)),
    ensures
        token@ == "o"@ ==> r is Ok && final(builder)@ == with_name(old(builder)@, value@),
        token@ == "g"@ ==> r is Ok && final(builder)@ == after_group(old(builder)@, value@),
        token@ == "v"@ ==> match r {
            Ok(_) => exists|p: P|
                #[trigger] parse_vertex.ensures((value,), Ok::<P, ParseFloatError>(p))
                    && final(builder)@ == with_vertex(old(builder)@, p),
            Err(ParserError::ParseFloatError(e)) => parse_vertex.ensures((value,), Err::<P, ParseFloatError>(e))
                && final(builder)@ == old(builder)@,
            Err(_) => false,
        },
        token@ == "vt"@ ==> match r {
            Ok(_) => exists|u: U|
                #[trigger] parse_uv.ensures((value,), Ok::<U, ParseFloatError>(u))
                    && final(builder)@ == with_uv(old(builder)@, u),
            Err(ParserError::ParseFloatError(e)) => parse_uv.ensures((value,), Err::<U, ParseFloatError>(e))
                && final(builder)@ == old(builder)@,
            Err(_) => false,
        },
        token@ == "vn"@ ==> match r {
            Ok(_) => exists|n: N|
                #[trigger] parse_normal.ensures((value,), Ok::<N, ParseFloatError>(n))
                    && final(builder)@ == with_normal(old(builder)@, n),
            Err(ParserError::ParseFloatError(e)) => parse_normal.ensures((value,), Err::<N, ParseFloatError>(e))
                && final(builder)@ == old(builder)@,
            Err(_) => false,
        },
        token@ == "f"@ ==> match face_of(value@) {
            Ok(fis) => r is Ok && final(builder)@ == with_face(old(builder)@, fis),
            Err(k) => (r matches Err(e) && error_kind(e) == k) && final(builder)@ == old(builder)@,
        },
        !is_data_token(token@) ==> r is Ok && final(builder)@ == old(builder)@,
        token_effect(
            old(builder)@,
            final(builder)@,
            token@,
            value@,
            parse_vertex,
            parse_uv,
            parse_normal,
            r,
        ),
{
    proof {
        lemma_tokens_distinct();
    }
    if is_word(token, "o") {
        builder.mesh.name = name_of(value);
    } else if is_word(token, "g") {
        builder.set_group(value);
    } else if is_word(token, "v") {
        match parse_vertex(value) {
            Ok(p) => builder.push_vertex(p),
            Err(e) => return Err(ParserError::ParseFloatError(e)),
        }
    } else if is_word(token, "vt") {
        match parse_uv(value) {
            Ok(u) => builder.push_uv(u),
            Err(e) => return Err(ParserError::ParseFloatError(e)),
        }
    } else if is_word(token, "vn") {
        match parse_normal(value) {
            Ok(n) => builder.push_normal(n),
            Err(e) => return Err(ParserError::ParseFloatError(e)),
        }
    } else if is_word(token, "f") {
        match parse_face(value) {
            Ok(face) => builder.push_face(face),
            Err(e) => return Err(e),
        }
    }
    Ok(())
}

/// The attribute that a 1-based index names in `table`, if there is an index.
pub open spec fn attr_at<T>(table: Seq<T>, i: Option<usize>) -> Option<T> {
    match i {
        Some(x) => Some(table[x - 1]),
        None => None,
    }
}

/// Two optional attributes are the same by the attribute type's `==`.
pub open spec fn same_attr<T: PartialEq>(a: Option<T>, b: Option<T>) -> bool {
    match (a, b) {
        (None, None) => true,
        (Some(x), Some(y)) => x.eq_spec(&y),
        _ => false,
    }
}

/// Whether two optional attributes are the same (by `same_attr` where the
/// attribute type's `==` follows its specification).
fn attr_eq<T: PartialEq>(a: &Option<T>, b: &Option<T>) -> (r: bool)
    ensures
        T::obeys_eq_spec() ==> r == same_attr(*a, *b),
{
    match (a, b) {
        (None, None) => true,
        (Some(x), Some(y)) => *x == *y,
        _ => false,
    }
}

/// Visiting one corner of a face: the corner's vertex takes the corner's
/// texture coordinate and normal if it has neither yet; if it then has
/// others, a copy of it with the corner's ones is appended and the corner
/// refers to the copy. Gives the vertices and the corner's 1-based vertex
/// index.
pub open spec fn visit_corner<P, U: PartialEq, N: PartialEq>(
    verts: Seq<mesh::Vertex<P, U, N>>,
    fi: FaceIndex,
    uvs: Seq<U>,
    normals: Seq<N>,
) -> (Seq<mesh::Vertex<P, U, N>>, usize) {
    let k = fi.vert_i - 1;
    let v = verts[k];
    let uv = attr_at(uvs, fi.uv_i);
    let normal = attr_at(normals, fi.normal_i);
    let v1 = if v.uv is None && v.normal is None {
        mesh::Vertex { data: v.data, uv: uv, normal: normal }
    } else {
        v
    };
    let verts1 = verts.update(k, v1);
    if !same_attr(v1.uv, uv) || !same_attr(v1.normal, normal) {
        (verts1.push(mesh::Vertex { data: v1.data, uv: uv, normal: normal }), (verts1.len() + 1) as usize)
    } else {
        (verts1, fi.vert_i)
    }
}

/// The corner `fi` names a vertex of `verts` that already carries the
/// corner's texture coordinate and normal (by their types' `==`).
pub open spec fn corner_agrees<P, U: PartialEq, N: PartialEq>(
    verts: Seq<mesh::Vertex<P, U, N>>,
    fi: FaceIndex,
    uvs: Seq<U>,
    normals: Seq<N>,
) -> bool {
    &&& 1 <= fi.vert_i <= verts.len()
    &&& same_attr(verts[fi.vert_i - 1].uv, attr_at(uvs, fi.uv_i))
    &&& same_attr(verts[fi.vert_i - 1].normal, attr_at(normals, fi.normal_i))
}

/// A corner whose vertex already carries exactly the corner's texture
/// coordinate and normal keeps its own vertex index and changes no vertex.
pub proof fn law_agreeing_corner_reuses_its_vertex<P, U: PartialEq, N: PartialEq>(
    verts: Seq<mesh::Vertex<P, U, N>>,
    fi: FaceIndex,
    uvs: Seq<U>,
    normals: Seq<N>,
)
    requires
        corner_agrees(verts, fi, uvs, normals),
    ensures
        visit_corner(verts, fi, uvs, normals) == (verts, fi.vert_i),
{
    let k = fi.vert_i - 1;
    let v = verts[k];
    if v.uv is None && v.normal is None {
        assert(attr_at(uvs, fi.uv_i) is None);
        assert(attr_at(normals, fi.normal_i) is None);
    }
    assert(verts.update(k, v) =~= verts);
}

/// A corner whose vertex has no texture coordinate and no normal yet gives
/// it the corner's ones and keeps its own vertex index (for attributes that
/// are equal to themselves by `==`).
pub proof fn law_fresh_vertex_takes_the_corner<P, U: PartialEq, N: PartialEq>(
    verts: Seq<mesh::Vertex<P, U, N>>,
    fi: FaceIndex,
    uvs: Seq<U>,
    normals: Seq<N>,
)
    requires
        1 <= fi.vert_i <= verts.len(),
        verts[fi.vert_i - 1].uv is None && verts[fi.vert_i - 1].normal is None,
        same_attr(attr_at(uvs, fi.uv_i), attr_at(uvs, fi.uv_i)),
        same_attr(attr_at(normals, fi.normal_i), attr_at(normals, fi.normal_i)),
    ensures
        visit_corner(verts, fi, uvs, normals) == (
            verts.update(
                fi.vert_i - 1,
                mesh::Vertex {
                    data: verts[fi.vert_i - 1].data,
                    uv: attr_at(uvs, fi.uv_i),
                    normal: attr_at(normals, fi.normal_i),
                },
            ),
            fi.vert_i,
        ),
{
}

/// A corner whose vertex already carries another texture coordinate or
/// normal leaves that vertex as it is and refers to a new copy of it, with
/// the corner's texture coordinate and normal, appended last.
pub proof fn law_differing_corner_copies_its_vertex<P, U: PartialEq, N: PartialEq>(
    verts: Seq<mesh::Vertex<P, U, N>>,
    fi: FaceIndex,
    uvs: Seq<U>,
    normals: Seq<N>,
)
    requires
        1 <= fi.vert_i <= verts.len(),
        !(verts[fi.vert_i - 1].uv is None && verts[fi.vert_i - 1].normal is None),
        !corner_agrees(verts, fi, uvs, normals),
    ensures
        visit_corner(verts, fi, uvs, normals) == (
            verts.push(
                mesh::Vertex {
                    data: verts[fi.vert_i - 1].data,
                    uv: attr_at(uvs, fi.uv_i),
                    normal: attr_at(normals, fi.normal_i),
                },
            ),
            (verts.len() + 1) as usize,
        ),
{
    let k = fi.vert_i - 1;
    assert(verts.update(k, verts[k]) =~= verts);
}

/// The first three corners of each face, by their own vertex indices.
pub open spec fn own_firsts(fs: Seq<Seq<FaceIndex>>) -> Seq<(usize, usize, usize)> {
    Seq::new(fs.len(), |j: int| (fs[j][0].vert_i, fs[j][1].vert_i, fs[j][2].vert_i))
}

/// Faces whose first three corners all agree with the vertices they name
/// add no vertex, and their triangles use the faces' own vertex indices.
pub proof fn law_agreeing_faces_add_no_vertex<P, U: PartialEq, N: PartialEq>(
    verts: Seq<mesh::Vertex<P, U, N>>,
    fs: Seq<Seq<FaceIndex>>,
    uvs: Seq<U>,
    normals: Seq<N>,
)
    requires
        forall|j: int|
            0 <= j < fs.len() ==> (#[trigger] fs[j]).len() >= 3 && corner_agrees(verts, fs[j][0], uvs, normals)
                && corner_agrees(verts, fs[j][1], uvs, normals) && corner_agrees(verts, fs[j][2], uvs, normals),
    ensures
        visit_faces(verts, fs, uvs, normals).0 == verts,
        visit_faces(verts, fs, uvs, normals).1 == fans(fs, own_firsts(fs)),
        forall|j: int|
            0 <= j < fs.len() ==> corner_indices(#[trigger] fs[j], own_firsts(fs)[j]) == fs[j].map_values(
                |f: FaceIndex| f.vert_i,
            ),
    decreases fs.len(),
{
    assert forall|j: int| 0 <= j < fs.len() implies corner_indices(#[trigger] fs[j], own_firsts(fs)[j])
        == fs[j].map_values(|f: FaceIndex| f.vert_i) by {
        assert(corner_indices(fs[j], own_firsts(fs)[j]) =~= fs[j].map_values(|f: FaceIndex| f.vert_i));
    }
    if fs.len() > 0 {
        let d = fs.drop_last();
        assert forall|j: int| 0 <= j < d.len() implies (#[trigger] d[j]).len() >= 3 && corner_agrees(
            verts,
            d[j][0],
            uvs,
            normals,
        ) && corner_agrees(verts, d[j][1], uvs, normals) && corner_agrees(verts, d[j][2], uvs, normals) by {
            assert(d[j] == fs[j]);
        }
        law_agreeing_faces_add_no_vertex(verts, d, uvs, normals);
        let last = fs.last();
        assert(last == fs[fs.len() - 1]);
        law_agreeing_corner_reuses_its_vertex(verts, last[0], uvs, normals);
        law_agreeing_corner_reuses_its_vertex(verts, last[1], uvs, normals);
        law_agreeing_corner_reuses_its_vertex(verts, last[2], uvs, normals);
        assert(own_firsts(fs).drop_last() =~= own_firsts(d));
        assert(own_firsts(fs).last() == own_firsts(fs)[fs.len() - 1]);
        assert(visit_face(verts, last, uvs, normals).1 == corner_indices(last, own_firsts(fs).last()));
    }
}

/// A corner that can be visited: its vertex index names one of the first
/// `n` vertices, its texture coordinate index (if any) names a texture
/// coordinate, and its normal index (if any) names a normal.
pub open spec fn corner_ok(fi: FaceIndex, n: nat, n_uvs: nat, n_normals: nat) -> bool {
    &&& 1 <= fi.vert_i <= n
    &&& fi.uv_i matches Some(x) ==> 1 <= x <= n_uvs
    &&& fi.normal_i matches Some(x) ==> 1 <= x <= n_normals
}

fn visit_corner_exec<P: Copy, U: Copy + PartialEq, N: Copy + PartialEq>(
    vertices: &mut Vec<mesh::Vertex<P, U, N>>,
    fi: FaceIndex,
    uvs: &Vec<U>,
    normals: &Vec<N>,
) -> (vert_i: usize)
    requires
        corner_ok(fi, old(vertices)@.len(), uvs@.len(), normals@.len()),
    ensures
        (U::obeys_eq_spec() && N::obeys_eq_spec()) ==> (final(vertices)@, vert_i) == visit_corner(
            old(vertices)@,
            fi,
            uvs@,
            normals@,
        ),
        old(vertices)@.len() <= final(vertices)@.len(),
        1 <= vert_i <= final(vertices)@.len(),
        forall|i: int|
            0 <= i < old(vertices)@.len() ==> (#[trigger] final(vertices)@[i]).data == old(
                vertices,
            )@[i].data,
{
    let k = fi.vert_i - 1;
    let uv = match fi.uv_i {
        Some(x) => Some(uvs[x - 1]),
        None => None,
    };
    let normal = match fi.normal_i {
        Some(x) => Some(normals[x - 1]),
        None => None,
    };
    let mut vertex = vertices[k];
    if vertex.uv.is_none() && vertex.normal.is_none() {
        vertex = mesh::Vertex { data: vertex.data, uv: uv, normal: normal };
    }
    vertices.set(k, vertex);
    if !attr_eq(&vertex.uv, &uv) || !attr_eq(&vertex.normal, &normal) {
        let new_vertex = mesh::Vertex { data: vertex.data, uv: uv, normal: normal };
        vertices.push(new_vertex);
        vertices.len()
    } else {
        fi.vert_i
    }
}

/// Visiting the first three corners of a face, in order: the vertices
/// after, and the face's 1-based vertex indices with those three replaced.
pub open spec fn visit_face<P, U: PartialEq, N: PartialEq>(
    verts: Seq<mesh::Vertex<P, U, N>>,
    fis: Seq<FaceIndex>,
    uvs: Seq<U>,
    normals: Seq<N>,
) -> (Seq<mesh::Vertex<P, U, N>>, Seq<usize>) {
    let (v1, i0) = visit_corner(verts, fis[0], uvs, normals);
    let (v2, i1) = visit_corner(v1, fis[1], uvs, normals);
    let (v3, i2) = visit_corner(v2, fis[2], uvs, normals);
    (v3, fis.map_values(|f: FaceIndex| f.vert_i).update(0, i0).update(1, i1).update(2, i2))
}

/// The triangles of a convex polygon: a fan around its first corner.
pub open spec fn fan(idx: Seq<usize>) -> Seq<Seq<usize>> {
    Seq::new((idx.len() - 2) as nat, |t: int| seq![idx[0], idx[t + 1], idx[t + 2]])
}

/// The vertex indices of the corners of a face, its first three replaced by
/// `first`.
pub open spec fn corner_indices(fis: Seq<FaceIndex>, first: (usize, usize, usize)) -> Seq<usize> {
    fis.map_values(|f: FaceIndex| f.vert_i).update(0, first.0).update(1, first.1).update(2, first.2)
}

/// The triangles of the faces `fs`, in order, each cut into a fan around its
/// first corner after its first three corners became `firsts`.
pub open spec fn fans(fs: Seq<Seq<FaceIndex>>, firsts: Seq<(usize, usize, usize)>) -> Seq<Seq<usize>>
    decreases fs.len(),
{
    if fs.len() == 0 {
        Seq::empty()
    } else {
        fans(fs.drop_last(), firsts.drop_last()) + fan(corner_indices(fs.last(), firsts.last()))
    }
}

/// Each of the three indices names one of the first `n` vertices (1-based).
pub open spec fn firsts_in_range(firsts: Seq<(usize, usize, usize)>, n: nat) -> bool {
    forall|j: int|
        0 <= j < firsts.len() ==> 1 <= (#[trigger] firsts[j]).0 <= n && 1 <= firsts[j].1 <= n && 1
            <= firsts[j].2 <= n
}

/// `tris` are the faces `fs` cut into fans, for some choice of their first
/// three corners among the first `n` vertices.
pub open spec fn fanned(tris: Seq<mesh::Face>, fs: Seq<Seq<FaceIndex>>, n: nat) -> bool {
    exists|firsts: Seq<(usize, usize, usize)>|
        firsts.len() == fs.len() && #[trigger] firsts_in_range(firsts, n) && tris.map_values(
            |f: mesh::Face| f.indices@,
        ) == fans(fs, firsts)
}

proof fn lemma_fanned_grows(tris: Seq<mesh::Face>, fs: Seq<Seq<FaceIndex>>, a: nat, b: nat)
    requires
        fanned(tris, fs, a),
        a <= b,
    ensures
        fanned(tris, fs, b),
{
    let firsts = choose|firsts: Seq<(usize, usize, usize)>|
        firsts.len() == fs.len() && #[trigger] firsts_in_range(firsts, a) && tris.map_values(
            |f: mesh::Face| f.indices@,
        ) == fans(fs, firsts);
    assert(firsts_in_range(firsts, b));
}

/// Every corner of every face names one of the first `n` vertices.
pub open spec fn corners_name_vertices(fs: Seq<Seq<FaceIndex>>, n: nat) -> bool {
    forall|j: int, k: int|
        0 <= j < fs.len() && 0 <= k < fs[j].len() ==> 1 <= (#[trigger] fs[j][k]).vert_i <= n
}

/// Every index of every triangle names one of the first `n` vertices.
pub open spec fn indices_in_range(tris: Seq<Seq<usize>>, n: nat) -> bool {
    forall|t: int, c: int| 0 <= t < tris.len() && 0 <= c < tris[t].len() ==> 1 <= #[trigger] tris[t][c] <= n
}

proof fn lemma_fans_in_range(fs: Seq<Seq<FaceIndex>>, firsts: Seq<(usize, usize, usize)>, m: nat, n: nat)
    requires
        firsts.len() == fs.len(),
        firsts_in_range(firsts, n),
        corners_name_vertices(fs, m),
        m <= n,
        forall|j: int| 0 <= j < fs.len() ==> (#[trigger] fs[j]).len() >= 3,
    ensures
        indices_in_range(fans(fs, firsts), n),
    decreases fs.len(),
{
    if fs.len() > 0 {
        let fs0 = fs.drop_last();
        let f0 = firsts.drop_last();
        assert forall|j: int, k: int| 0 <= j < fs0.len() && 0 <= k < fs0[j].len() implies 1 <= (
        #[trigger] fs0[j][k]).vert_i <= m by {
            assert(fs0[j] == fs[j]);
        }
        assert forall|j: int| 0 <= j < f0.len() implies 1 <= (#[trigger] f0[j]).0 <= n && 1 <= f0[j].1
            <= n && 1 <= f0[j].2 <= n by {
            assert(f0[j] == firsts[j]);
        }
        assert forall|j: int| 0 <= j < fs0.len() implies (#[trigger] fs0[j]).len() >= 3 by {
            assert(fs0[j] == fs[j]);
        }
        lemma_fans_in_range(fs0, f0, m, n);
        let last = fs.last();
        let idx = corner_indices(last, firsts.last());
        assert(last == fs[fs.len() - 1]);
        assert(firsts.last() == firsts[firsts.len() - 1]);
        let pre = fans(fs0, f0);
        let tail = fan(idx);
        assert forall|t: int, c: int| 0 <= t < tail.len() && 0 <= c < tail[t].len() implies 1
            <= #[trigger] tail[t][c] <= n by {
            let q = if c == 0 { 0 } else { t + c };
            assert(tail[t][c] == idx[q]);
            if q >= 3 {
                assert(idx[q] == last[q].vert_i);
                assert(1 <= fs[fs.len() - 1][q].vert_i <= m);
            }
        }
        let all = fans(fs, firsts);
        assert(all == pre + tail);
        assert forall|t: int, c: int| 0 <= t < all.len() && 0 <= c < all[t].len() implies 1
            <= #[trigger] all[t][c] <= n by {
            if t < pre.len() {
                assert(all[t] == pre[t]);
                assert(1 <= pre[t][c] <= n);
            } else {
                assert(all[t] == tail[t - pre.len()]);
                assert(1 <= tail[t - pre.len()][c] <= n);
            }
        }
    }
}

/// Visiting the faces `fs` in order: the vertices after, and the triangles.
pub open spec fn visit_faces<P, U: PartialEq, N: PartialEq>(
    verts: Seq<mesh::Vertex<P, U, N>>,
    fs: Seq<Seq<FaceIndex>>,
    uvs: Seq<U>,
    normals: Seq<N>,
) -> (Seq<mesh::Vertex<P, U, N>>, Seq<Seq<usize>>)
    decreases fs.len(),
{
    if fs.len() == 0 {
        (verts, Seq::empty())
    } else {
        let (v1, tris) = visit_faces(verts, fs.drop_last(), uvs, normals);
        let (v2, idx) = visit_face(v1, fs.last(), uvs, normals);
        (v2, tris + fan(idx))
    }
}

/// Faces that can be visited: each has at least three corners, and its
/// first three corners can be visited with `n` vertices.
pub open spec fn faces_ok(fs: Seq<Seq<FaceIndex>>, n: nat, n_uvs: nat, n_normals: nat) -> bool {
    forall|j: int|
        0 <= j < fs.len() ==> (#[trigger] fs[j]).len() >= 3 && corner_ok(fs[j][0], n, n_uvs, n_normals)
            && corner_ok(fs[j][1], n, n_uvs, n_normals) && corner_ok(fs[j][2], n, n_uvs, n_normals)
}

/// The number of triangles that the faces `fs` are cut into.
pub open spec fn triangle_count(fs: Seq<Seq<FaceIndex>>) -> int
    decreases fs.len(),
{
    if fs.len() == 0 {
        0
    } else {
        triangle_count(fs.drop_last()) + (fs.last().len() - 2)
    }
}

/// The vertex index of corner `k` of a face once its first three corners
/// have been visited.
fn corner_index(fis: &Vec<FaceIndex>, i0: usize, i1: usize, i2: usize, k: usize) -> (r: usize)
    requires
        3 <= fis@.len(),
        k < fis@.len(),
    ensures
        r == fis@.map_values(|f: FaceIndex| f.vert_i).update(0, i0).update(1, i1).update(2, i2)[k as int],
{
    if k == 0 {
        i0
    } else if k == 1 {
        i1
    } else if k == 2 {
        i2
    } else {
        assert(fis@.map_values(|f: FaceIndex| f.vert_i)[k as int] == fis@[k as int].vert_i);
        fis[k].vert_i
    }
}

/// Visits the faces of a group, appending the vertices they make, and
/// gives their triangles.
fn visit_faces_exec<P: Copy, U: Copy + PartialEq, N: Copy + PartialEq>(
    vertices: &mut Vec<mesh::Vertex<P, U, N>>,
    faces: &Vec<Face>,
    uvs: &Vec<U>,
    normals: &Vec<N>,
    Ghost(n): Ghost<nat>,
) -> (tris: Vec<mesh::Face>)
    requires
        n <= old(vertices)@.len(),
        faces_ok(faces@.map_values(|f: Face| f.face_i@), n, uvs@.len(), normals@.len()),
    ensures
        tris@.len() == triangle_count(faces@.map_values(|f: Face| f.face_i@)),
        fanned(tris@, faces@.map_values(|f: Face| f.face_i@), final(vertices)@.len()),
        forall|i: int|
            0 <= i < old(vertices)@.len() ==> (#[trigger] final(vertices)@[i]).data == old(
                vertices,
            )@[i].data,
        (U::obeys_eq_spec() && N::obeys_eq_spec()) ==> ({
            let (vs, ts) = visit_faces(
                old(vertices)@,
                faces@.map_values(|f: Face| f.face_i@),
                uvs@,
                normals@,
            );
            final(vertices)@ == vs && tris@.map_values(|f: mesh::Face| f.indices@) == ts
        }),
        final(vertices)@.len() >= old(vertices)@.len(),
{
    let ghost fs = faces@.map_values(|f: Face| f.face_i@);
    let ghost v0 = vertices@;
    let ghost mut firsts: Seq<(usize, usize, usize)> = Seq::empty();
    let mut tris: Vec<mesh::Face> = Vec::new();
    let mut j: usize = 0;
    while j < faces.len()
        invariant
            fs == faces@.map_values(|f: Face| f.face_i@),
            faces_ok(fs, n, uvs@.len(), normals@.len()),
            j <= faces@.len(),
            n <= v0.len() <= vertices@.len(),
            tris@.len() == triangle_count(fs.take(j as int)),
            firsts.len() == j,
            firsts_in_range(firsts, vertices@.len() as nat),
            tris@.map_values(|f: mesh::Face| f.indices@) == fans(fs.take(j as int), firsts),
            forall|i: int| 0 <= i < v0.len() ==> (#[trigger] vertices@[i]).data == v0[i].data,
            (U::obeys_eq_spec() && N::obeys_eq_spec()) ==> (vertices@, tris@.map_values(
                |f: mesh::Face| f.indices@,
            )) == visit_faces(
                v0,
                fs.take(j as int),
                uvs@,
                normals@,
            ),
        decreases faces.len() - j,
    {
        let fis = &faces[j].face_i;
        let ghost fj = fs[j as int];
        assert(fis@ == fj);
        assert(fj.len() >= 3);
        let ghost va = vertices@;
        let i0 = visit_corner_exec(vertices, fis[0], uvs, normals);
        let i1 = visit_corner_exec(vertices, fis[1], uvs, normals);
        let i2 = visit_corner_exec(vertices, fis[2], uvs, normals);
        let ghost idx = fj.map_values(|f: FaceIndex| f.vert_i).update(0, i0).update(1, i1).update(2, i2);
        assert((U::obeys_eq_spec() && N::obeys_eq_spec()) ==> visit_face(va, fj, uvs@, normals@) == (
            vertices@,
            idx,
        ));
        let ghost tris_before = tris@.map_values(|f: mesh::Face| f.indices@);
        let ghost len_before = tris@.len();
        let mut t: usize = 2;
        while t < fis.len()
            invariant
                2 <= t <= fis@.len(),
                fis@ == fj,
                fj.len() >= 3,
                idx == fj.map_values(|f: FaceIndex| f.vert_i).update(0, i0).update(1, i1).update(2, i2),
                tris@.map_values(|f: mesh::Face| f.indices@) == tris_before + fan(idx).take(t - 2),
                tris@.len() == len_before + (t - 2),
            decreases fis.len() - t,
        {
            let b = corner_index(fis, i0, i1, i2, t - 1);
            let c = corner_index(fis, i0, i1, i2, t);
            let face = mesh::Face { indices: [i0, b, c] };
            assert(face.indices@ =~= seq![i0, b, c]);
            let ghost before = tris@;
            tris.push(face);
            proof {
                assert(tris@.map_values(|f: mesh::Face| f.indices@) =~= before.map_values(
                    |f: mesh::Face| f.indices@,
                ).push(seq![i0, b, c]));
                assert(fan(idx).take(t - 1) =~= fan(idx).take(t - 2).push(seq![idx[0], b, c]));
                assert(tris@.map_values(|f: mesh::Face| f.indices@) =~= tris_before + fan(idx).take(
                    t - 1,
                ));
            }
            t += 1;
        }
        proof {
            assert(fan(idx).take(fj.len() - 2) =~= fan(idx));
            assert(fs.take(j + 1).drop_last() =~= fs.take(j as int));
            assert(fs.take(j + 1).last() == fj);
            assert(triangle_count(fs.take(j + 1)) == triangle_count(fs.take(j as int)) + (fj.len() - 2));
            let old_firsts = firsts;
            firsts = firsts.push((i0, i1, i2));
            assert(firsts.drop_last() =~= old_firsts);
            assert(corner_indices(fj, (i0, i1, i2)) == idx);
            assert(fans(fs.take(j + 1), firsts) == fans(fs.take(j as int), old_firsts) + fan(idx));
            assert forall|q: int| 0 <= q < firsts.len() implies 1 <= (#[trigger] firsts[q]).0
                <= vertices@.len() && 1 <= firsts[q].1 <= vertices@.len() && 1 <= firsts[q].2
                <= vertices@.len() by {
                if q < j {
                    assert(firsts[q] == old_firsts[q]);
                }
            }
        }
        j += 1;
    }
    proof {
        assert(fs.take(faces@.len() as int) =~= fs);
        assert(firsts_in_range(firsts, vertices@.len() as nat));
    }
    tris
}

/// Visiting the groups `gs` (the face lists of each) in order: the vertices
/// after, and the triangles of each group.
pub open spec fn visit_groups<P, U: PartialEq, N: PartialEq>(
    verts: Seq<mesh::Vertex<P, U, N>>,
    gs: Seq<Seq<Seq<FaceIndex>>>,
    uvs: Seq<U>,
    normals: Seq<N>,
) -> (Seq<mesh::Vertex<P, U, N>>, Seq<Seq<Seq<usize>>>)
    decreases gs.len(),
{
    if gs.len() == 0 {
        (verts, Seq::empty())
    } else {
        let (v1, done) = visit_groups(verts, gs.drop_last(), uvs, normals);
        let (v2, tris) = visit_faces(v1, gs.last(), uvs, normals);
        (v2, done.push(tris))
    }
}

/// One list of triangles per group.
proof fn lemma_visit_groups_len<P, U: PartialEq, N: PartialEq>(
    verts: Seq<mesh::Vertex<P, U, N>>,
    gs: Seq<Seq<Seq<FaceIndex>>>,
    uvs: Seq<U>,
    normals: Seq<N>,
)
    ensures
        visit_groups(verts, gs, uvs, normals).1.len() == gs.len(),
    decreases gs.len(),
{
    if gs.len() > 0 {
        lemma_visit_groups_len(verts, gs.drop_last(), uvs, normals);
    }
}

/// The vertices as read, without texture coordinates or normals yet.
pub open spec fn initial_vertices<P, U, N>(ps: Seq<P>) -> Seq<mesh::Vertex<P, U, N>> {
    ps.map_values(|p: P| mesh::Vertex { data: p, uv: None, normal: None })
}

/// The groups of a builder, the current one last.
pub open spec fn all_groups<P, U, N>(m: MeshModel<P, U, N>) -> Seq<SubmeshModel> {
    m.submeshes.push(m.current)
}

/// A builder whose faces can all be turned into triangles.
pub open spec fn buildable<P, U, N>(m: MeshModel<P, U, N>) -> bool {
    forall|s: int|
        0 <= s < all_groups(m).len() ==> faces_ok(
            (#[trigger] all_groups(m)[s]).faces,
            m.vertices.len(),
            m.uvs.len(),
            m.normals.len(),
        )
}

/// What `build_mesh` makes of a builder: its vertices and each group's
/// triangles after the faces have been visited.
pub open spec fn built<P, U: PartialEq, N: PartialEq>(m: MeshModel<P, U, N>) -> (
    Seq<mesh::Vertex<P, U, N>>,
    Seq<Seq<Seq<usize>>>,
) {
    visit_groups(
        initial_vertices(m.vertices),
        all_groups(m).map_values(|g: SubmeshModel| g.faces),
        m.uvs,
        m.normals,
    )
}

fn clone_name(name: &Option<String>) -> (r: Option<String>)
    ensures
        name_view(r) == name_view(*name),
{
    match name {
        Some(s) => Some(s.clone()),
        None => None,
    }
}

impl<P: Copy, U: Copy + PartialEq, N: Copy + PartialEq> MeshBuilder<P, U, N> {
    /// Finishes the mesh: the current group becomes the last one, every
    /// face's first three corners are visited (see `visit_corner`), and every
    /// face is cut into a fan of triangles around its first corner. Vertex
    /// indices in the triangles count from 1. Which vertices are the same is
    /// decided by the `==` of the texture coordinate and normal types: where
    /// that `==` follows its specification, the vertices and triangles are
    /// exactly those of `built`; for any `==`, the mesh keeps its name and
    /// groups, the parsed vertices come first and in order, each group's
    /// faces are cut into fans (`fanned`) whose first three corners name
    /// vertices of the mesh, and where every corner names a parsed vertex,
    /// so does every triangle index.
    pub fn build_mesh(self) -> (r: Result<mesh::Mesh<P, U, N>, ParserError>)
        requires
            buildable(self@),
        ensures
            r matches Ok(m) && {
                let gs = all_groups(self@);
                &&& name_view(m.name) == self@.name
                &&& m.vertices@.len() >= self@.vertices.len()
                &&& forall|i: int|
                    0 <= i < self@.vertices.len() ==> (#[trigger] m.vertices@[i]).data
                        == self@.vertices[i]
                &&& m.submeshes@.len() == gs.len()
                &&& forall|s: int|
                    0 <= s < gs.len() ==> name_view((#[trigger] m.submeshes@[s]).name) == gs[s].name
                        && m.submeshes@[s].faces@.len() == triangle_count(gs[s].faces) && fanned(
                        m.submeshes@[s].faces@,
                        gs[s].faces,
                        m.vertices@.len(),
                    )
                &&& (forall|s: int|
                    0 <= s < gs.len() ==> corners_name_vertices(
                        #[trigger] gs[s].faces,
                        self@.vertices.len(),
                    )) ==> forall|s: int|
                    0 <= s < gs.len() ==> indices_in_range(
                        (#[trigger] m.submeshes@[s]).faces@.map_values(|f: mesh::Face| f.indices@),
                        m.vertices@.len(),
                    )
            },
            (U::obeys_eq_spec() && N::obeys_eq_spec()) ==> (r matches Ok(m) && {
                let gs = all_groups(self@);
                let (vs, tris) = built(self@);
                &&& m.vertices@ == vs
                &&& forall|s: int|
                    0 <= s < gs.len() ==> (#[trigger] m.submeshes@[s]).faces@.map_values(
                        |f: mesh::Face| f.indices@,
                    ) == tris[s]
            }),
    {
        let ghost model = self@;
        let MeshBuilder { mesh, curr_submesh } = self;
        let Mesh { name, submeshes, vertices: parsed, uvs, normals } = mesh;
        let mut groups = submeshes;
        groups.push(curr_submesh);
        let ghost gs = all_groups(model);
        let ghost gfs = gs.map_values(|g: SubmeshModel| g.faces);
        assert(groups@.map_values(|g: Submesh| g@) =~= gs);
        let mut vertices: Vec<mesh::Vertex<P, U, N>> = Vec::new();
        let mut i: usize = 0;
        while i < parsed.len()
            invariant
                i <= parsed@.len(),
                vertices@ == initial_vertices::<P, U, N>(parsed@.take(i as int)),
            decreases parsed.len() - i,
        {
            vertices.push(mesh::Vertex { data: parsed[i], uv: None, normal: None });
            assert(initial_vertices::<P, U, N>(parsed@.take(i + 1)) =~= initial_vertices::<P, U, N>(
                parsed@.take(i as int),
            ).push(mesh::Vertex { data: parsed[i as int], uv: None, normal: None }));
            i += 1;
        }
        assert(parsed@.take(parsed@.len() as int) =~= parsed@);
        let ghost v0 = vertices@;
        let mut out: Vec<mesh::Submesh> = Vec::new();
        let mut s: usize = 0;
        while s < groups.len()
            invariant
                buildable(model),
                gs == all_groups(model),
                gfs == gs.map_values(|g: SubmeshModel| g.faces),
                groups@.map_values(|g: Submesh| g@) == gs,
                uvs@ == model.uvs,
                normals@ == model.normals,
                v0.len() == model.vertices.len(),
                s <= groups@.len(),
                out@.len() == s,
                v0.len() <= vertices@.len(),
                forall|k: int|
                    0 <= k < s ==> name_view((#[trigger] out@[k]).name) == gs[k].name
                        && out@[k].faces@.len() == triangle_count(gfs[k]) && fanned(
                        out@[k].faces@,
                        gfs[k],
                        vertices@.len(),
                    ),
                forall|i: int| 0 <= i < v0.len() ==> (#[trigger] vertices@[i]).data == v0[i].data,
                (U::obeys_eq_spec() && N::obeys_eq_spec()) ==> vertices@ == visit_groups(
                    v0,
                    gfs.take(s as int),
                    uvs@,
                    normals@,
                ).0,
                (U::obeys_eq_spec() && N::obeys_eq_spec()) ==> forall|k: int|
                    0 <= k < s ==> (#[trigger] out@[k]).faces@.map_values(|f: mesh::Face| f.indices@)
                        == visit_groups(v0, gfs.take(s as int), uvs@, normals@).1[k],
            decreases groups.len() - s,
        {
            let ghost vb = vertices@;
            let ghost prev = visit_groups(v0, gfs.take(s as int), uvs@, normals@);
            assert(groups@[s as int]@ == gs[s as int]);
            assert(groups@[s as int].faces@.map_values(|f: Face| f.face_i@) == gfs[s as int]);
            let faces = visit_faces_exec(
                &mut vertices,
                &groups[s].faces,
                &uvs,
                &normals,
                Ghost(v0.len()),
            );
            let name = clone_name(&groups[s].name);
            let ghost out_before = out@;
            out.push(mesh::Submesh { name, faces });
            proof {
                assert(gfs.take(s + 1).drop_last() =~= gfs.take(s as int));
                assert(gfs.take(s + 1).last() == gfs[s as int]);
                let next = visit_groups(v0, gfs.take(s + 1), uvs@, normals@);
                lemma_visit_groups_len(v0, gfs.take(s as int), uvs@, normals@);
                assert forall|k: int| 0 <= k < s + 1 implies name_view((#[trigger] out@[k]).name)
                    == gs[k].name && out@[k].faces@.len() == triangle_count(gfs[k]) && fanned(
                    out@[k].faces@,
                    gfs[k],
                    vertices@.len(),
                ) by {
                    if k < s {
                        assert(out@[k] == out_before[k]);
                        lemma_fanned_grows(out_before[k].faces@, gfs[k], vb.len(), vertices@.len());
                    }
                }
                if U::obeys_eq_spec() && N::obeys_eq_spec() {
                    assert(next.1 == prev.1.push(visit_faces(vb, gfs[s as int], uvs@, normals@).1));
                    assert forall|k: int| 0 <= k < s + 1 implies (#[trigger] out@[k]).faces@.map_values(
                        |f: mesh::Face| f.indices@,
                    ) == next.1[k] by {
                        if k < s {
                            assert(next.1[k] == prev.1[k]);
                        }
                    }
                }
            }
            s += 1;
        }
        proof {
            assert(gfs.take(groups@.len() as int) =~= gfs);
            assert forall|i: int| 0 <= i < model.vertices.len() implies (#[trigger] vertices@[i]).data
                == model.vertices[i] by {
                assert(v0[i].data == parsed@[i]);
            }
            if forall|q: int|
                0 <= q < gs.len() ==> corners_name_vertices(
                    #[trigger] gs[q].faces,
                    model.vertices.len(),
                ) {
                assert forall|q: int| 0 <= q < gs.len() implies indices_in_range(
                    (#[trigger] out@[q]).faces@.map_values(|f: mesh::Face| f.indices@),
                    vertices@.len() as nat,
                ) by {
                    let fq = gs[q].faces;
                    assert(gfs[q] == fq);
                    assert(fanned(out@[q].faces@, fq, vertices@.len() as nat));
                    let firsts = choose|firsts: Seq<(usize, usize, usize)>|
                        firsts.len() == fq.len() && #[trigger] firsts_in_range(
                            firsts,
                            vertices@.len() as nat,
                        ) && out@[q].faces@.map_values(|f: mesh::Face| f.indices@) == fans(fq, firsts);
                    assert(faces_ok(fq, model.vertices.len(), model.uvs.len(), model.normals.len()));
                    assert forall|j: int| 0 <= j < fq.len() implies (#[trigger] fq[j]).len() >= 3 by {
                    }
                    assert(corners_name_vertices(fq, model.vertices.len()));
                    lemma_fans_in_range(fq, firsts, model.vertices.len(), vertices@.len() as nat);
                }
            }
        }
        Ok(mesh::Mesh { name, vertices, submeshes: out })
    }
}

/// A line split at its first space into the token before it and the rest.
pub open spec fn splits_at_space(line: Seq<char>, token: Seq<char>, value: Seq<char>) -> bool {
    token + seq![' '] + value == line && !token.contains(' ')
}

/// What reading one line does: a line without a space is skipped; any other
/// is read as its token and rest (see `token_effect`).
pub open spec fn line_effect<P, U, N, FV, FU, FN>(
    m0: MeshModel<P, U, N>,
    m1: MeshModel<P, U, N>,
    line: Seq<char>,
    parse_vertex: FV,
    parse_uv: FU,
    parse_normal: FN,
    r: Result<(), ParserError>,
) -> bool where
    FV: Fn(&str) -> Result<P, ParseFloatError>,
    FU: Fn(&str) -> Result<U, ParseFloatError>,
    FN: Fn(&str) -> Result<N, ParseFloatError>,
 {
    if !line.contains(' ') {
        r is Ok && m1 == m0
    } else {
        exists|t: Seq<char>, v: Seq<char>|
            #[trigger] splits_at_space(line, t, v) && token_effect(
                m0,
                m1,
                t,
                v,
                parse_vertex,
                parse_uv,
                parse_normal,
                r,
            )
    }
}

/// No line uses a material (`usemtl`), which reading does not support.
pub open spec fn no_material_use(lines: Seq<Seq<char>>) -> bool {
    forall|i: int, t: Seq<char>, v: Seq<char>|
        0 <= i < lines.len() && #[trigger] splits_at_space(lines[i], t, v) ==> t != "usemtl"@
}

/// A builder with nothing in it.
pub open spec fn is_empty_builder<P, U, N>(m: MeshModel<P, U, N>) -> bool {
    &&& m.name is None
    &&& m.submeshes.len() == 0
    &&& m.current.name is None
    &&& m.current.faces.len() == 0
    &&& m.vertices.len() == 0
    &&& m.uvs.len() == 0
    &&& m.normals.len() == 0
}

/// `states` are the builder before each line and after the last: each line
/// was read successfully.
pub open spec fn reads_lines<P, U, N, FV, FU, FN>(
    states: Seq<MeshModel<P, U, N>>,
    lines: Seq<Seq<char>>,
    parse_vertex: FV,
    parse_uv: FU,
    parse_normal: FN,
) -> bool where
    FV: Fn(&str) -> Result<P, ParseFloatError>,
    FU: Fn(&str) -> Result<U, ParseFloatError>,
    FN: Fn(&str) -> Result<N, ParseFloatError>,
 {
    &&& states.len() == lines.len() + 1
    &&& forall|i: int|
        0 <= i < lines.len() ==> line_effect(
            #[trigger] states[i],
            states[i + 1],
            lines[i],
            parse_vertex,
            parse_uv,
            parse_normal,
            Ok(()),
        )
}

/// Reads the lines of a `.obj` file into a new builder, in order, stopping at
/// the first line that cannot be read.
pub fn parse<P, U, N, FV, FU, FN>(
    lines: &Vec<String>,
    parse_vertex: FV,
    parse_uv: FU,
    parse_normal: FN,
) -> (r: Result<MeshBuilder<P, U, N>, ParserError>) where
    FV: Fn(&str) -> Result<P, ParseFloatError>,
    FU: Fn(&str) -> Result<U, ParseFloatError>,
    FN: Fn(&str) -> Result<N, ParseFloatError>,

    requires
        forall|s: &str| #[trigger] parse_vertex.requires((s,)),
        forall|s: &str| #[trigger] parse_uv.requires((s,)),
        forall|s: &str| #[trigger] parse_normal.requires((s,)),
        no_material_use(lines@.map_values(|l: String| l@)),
    ensures
        ({
            let ls = lines@.map_values(|l: String| l@);
            match r {
                Ok(b) => exists|states: Seq<MeshModel<P, U, N>>|
                    #[trigger] reads_lines(states, ls, parse_vertex, parse_uv, parse_normal)
                        && is_empty_builder(states[0]) && states.last() == b@,
                Err(e) => exists|k: int, states: Seq<MeshModel<P, U, N>>|
                    0 <= k < ls.len() && #[trigger] reads_lines(
                        states,
                        ls.take(k),
                        parse_vertex,
                        parse_uv,
                        parse_normal,
                    ) && is_empty_builder(states[0]) && exists|m: MeshModel<P, U, N>|
                        #[trigger] line_effect(
                            states.last(),
                            m,
                            ls[k],
                            parse_vertex,
                            parse_uv,
                            parse_normal,
                            Err::<(), ParserError>(e),
                        ),
            }
        }),
{
    let ghost ls = lines@.map_values(|l: String| l@);
    let mut builder: MeshBuilder<P, U, N> = MeshBuilder::new();
    let ghost mut states: Seq<MeshModel<P, U, N>> = seq![builder@];
    let mut i: usize = 0;
    while i < lines.len()
        invariant
            ls == lines@.map_values(|l: String| l@),
            no_material_use(ls),
            forall|s: &str| #[trigger] parse_vertex.requires((s,)),
            forall|s: &str| #[trigger] parse_uv.requires((s,)),
            forall|s: &str| #[trigger] parse_normal.requires((s,)),
            i <= lines@.len(),
            reads_lines(states, ls.take(i as int), parse_vertex, parse_uv, parse_normal),
            is_empty_builder(states[0]),
            states.last() == builder@,
        decreases lines.len() - i,
    {
        let line = lines[i].as_str();
        assert(line@ == ls[i as int]);
        let ghost before = builder@;
        match split_once_at(line, ' ') {
            Some((token, value)) => {
                proof {
                    assert(splits_at_space(ls[i as int], token@, value@));
                    if token@ == "usemtl"@ {
                        assert(!no_material_use(ls));
                    }
                }
                let r = parse_token(token, value, &mut builder, &parse_vertex, &parse_uv, &parse_normal);
                match r {
                    Ok(()) => {},
                    Err(e) => {
                        proof {
                            assert(ls[i as int].contains(' ')) by {
                                assert(ls[i as int][token@.len() as int] == ' ');
                            }
                            assert(token_effect(
                                before,
                                builder@,
                                token@,
                                value@,
                                parse_vertex,
                                parse_uv,
                                parse_normal,
                                Err::<(), ParserError>(e),
                            ));
                            assert(line_effect(
                                states.last(),
                                builder@,
                                ls[i as int],
                                parse_vertex,
                                parse_uv,
                                parse_normal,
                                Err::<(), ParserError>(e),
                            ));
                        }
                        return Err(e);
                    },
                }
                proof {
                    assert(ls[i as int].contains(' ')) by {
                        assert(ls[i as int][token@.len() as int] == ' ');
                    }
                    assert(line_effect(
                        before,
                        builder@,
                        ls[i as int],
                        parse_vertex,
                        parse_uv,
                        parse_normal,
                        Ok::<(), ParserError>(()),
                    ));
                }
            },
            None => {},
        }
        proof {
            let old_states = states;
            states = states.push(builder@);
            assert(ls.take(i + 1).drop_last() =~= ls.take(i as int));
            assert forall|j: int| 0 <= j < i + 1 implies line_effect(
                #[trigger] states[j],
                states[j + 1],
                ls.take(i + 1)[j],
                parse_vertex,
                parse_uv,
                parse_normal,
                Ok::<(), ParserError>(()),
            ) by {
                if j < i {
                    assert(states[j] == old_states[j] && states[j + 1] == old_states[j + 1]);
                    assert(ls.take(i + 1)[j] == ls.take(i as int)[j]);
                }
            }
        }
        i += 1;
    }
    proof {
        assert(ls.take(lines@.len() as int) =~= ls);
    }
    Ok(builder)
}

} // verus!

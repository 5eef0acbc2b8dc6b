//! The mesh text format: `v x y z` vertex lines and `f i1 i2 ... ik` face
//! lines, read into a triangulated mesh with a 16-bit index buffer.

use vstd::prelude::*;
use vstd::string::StringSliceAdditionalSpecFns;

use crate::numbers::{check_float, is_float_literal, parse_u16, u16_value};
use crate::text::{byte_views, lines, lines_from, split_words, words};

verus! {

/// The largest number of vertices that a mesh holds: its indices are 16-bit.
pub const MAX_VERTICES: usize = 65535;

/// What is wrong with a malformed vertex or face line.
#[derive(Debug, Clone, Copy, PartialEq, Eq, Structural)]
pub enum FormatErrorKind {
    /// A vertex line with fewer than three coordinates.
    MissingCoordinate,
    /// A vertex line with more than three coordinates.
    ExtraCoordinate,
    /// A vertex coordinate that is not a floating-point number.
    InvalidCoordinate,
    /// A face index that is not an integer from 0 to 65535.
    InvalidIndex,
    /// A face index of 0; indices count from 1.
    ZeroIndex,
    /// A face with fewer than three indices.
    TooFewIndices,
}

/// A malformed line: its number, counting from 1, and what is wrong with it.
#[derive(Debug, Clone, Copy, PartialEq, Eq, Structural)]
pub struct FormatError {
    pub line: usize,
    pub kind: FormatErrorKind,
}

/// Why a mesh text was not read.
#[derive(Debug, Clone, Copy, PartialEq, Eq, Structural)]
pub enum ObjError {
    /// A vertex or face line is malformed.
    Format(FormatError),
    /// The text holds more vertices than a 16-bit index can address.
    Capacity,
}

impl FormatErrorKind {
    /// A short description for diagnostics.
    pub fn description(&self) -> &'static str {
        match self {
            FormatErrorKind::MissingCoordinate => "invalid vertex format: fewer than 3 coordinates",
            FormatErrorKind::ExtraCoordinate => "a vertex must have exactly 3 coordinates",
            FormatErrorKind::InvalidCoordinate => "invalid vertex coordinate",
            FormatErrorKind::InvalidIndex => "invalid vertex index",
            FormatErrorKind::ZeroIndex => "invalid vertex index (0)",
            FormatErrorKind::TooFewIndices => "a face must have at least 3 indices",
        }
    }
}

/// The three coordinate words of a vertex line, each the text of a
/// floating-point number.
pub struct VertexText {
    pub x: Vec<u8>,
    pub y: Vec<u8>,
    pub z: Vec<u8>,
}

impl View for VertexText {
    type V = Seq<Seq<u8>>;

    open spec fn view(&self) -> Seq<Seq<u8>> {
        seq![self.x@, self.y@, self.z@]
    }
}

/// A triangle: three 0-based vertex indices.
pub struct Face {
    pub indices: Vec<u16>,
}

impl View for Face {
    type V = Seq<u16>;

    open spec fn view(&self) -> Seq<u16> {
        self.indices@
    }
}

/// What a mesh text describes: the coordinate words of each vertex, in
/// order, and the triangles, in the order in which they were emitted.
pub struct MeshModel {
    pub vertices: Seq<Seq<Seq<u8>>>,
    pub faces: Seq<Seq<u16>>,
}

/// A mesh read from text, with its index buffer: the indices of all
/// triangles, in order.
pub struct Mesh {
    pub vertices: Vec<VertexText>,
    pub faces: Vec<Face>,
    pub indices: Vec<u16>,
}

impl View for Mesh {
    type V = MeshModel;

    open spec fn view(&self) -> MeshModel {
        MeshModel {
            vertices: self.vertices@.map_values(|v: VertexText| v@),
            faces: self.faces@.map_values(|f: Face| f@),
        }
    }
}

impl Mesh {
    /// At most `MAX_VERTICES` vertices, every face a triangle, and the
    /// index buffer the concatenation of the faces.
    pub open spec fn wf(&self) -> bool {
        &&& self.vertices@.len() <= MAX_VERTICES
        &&& forall|k: int| 0 <= k < self.faces@.len() ==> (#[trigger] self.faces@[k])@.len() == 3
        &&& self.indices@ == self@.faces.flatten()
    }

    /// The number of vertices.
    pub fn vertex_count(&self) -> (r: usize)
        ensures
            r == self@.vertices.len(),
    {
        self.vertices.len()
    }

    /// The number of entries of the index buffer.
    pub fn index_count(&self) -> (r: usize)
        requires
            self.wf(),
        ensures
            r == 3 * self@.faces.len(),
    {
        proof {
            lemma_flatten_triangles(self@.faces);
        }
        self.indices.len()
    }
}

/// A mesh with no vertices and no faces.
pub open spec fn empty_model() -> MeshModel {
    MeshModel { vertices: seq![], faces: seq![] }
}

/// The coordinates of a vertex line, from the words after its tag.
pub open spec fn vertex_fields(t: Seq<Seq<u8>>) -> Result<Seq<Seq<u8>>, FormatErrorKind> {
    if t.len() < 3 {
        Err(FormatErrorKind::MissingCoordinate)
    } else if t.len() > 3 {
        Err(FormatErrorKind::ExtraCoordinate)
    } else if !is_float_literal(t[0]) || !is_float_literal(t[1]) || !is_float_literal(t[2]) {
        Err(FormatErrorKind::InvalidCoordinate)
    } else {
        Ok(t)
    }
}

/// The 1-based indices of a face line, from the words after its tag; the
/// first word that is not a positive 16-bit integer decides the error.
pub open spec fn face_values(t: Seq<Seq<u8>>) -> Result<Seq<u16>, FormatErrorKind>
    decreases t.len(),
{
    if t.len() == 0 {
        Ok(seq![])
    } else {
        match u16_value(t[0]) {
            None => Err(FormatErrorKind::InvalidIndex),
            Some(v) => if v == 0 {
                Err(FormatErrorKind::ZeroIndex)
            } else {
                match face_values(t.drop_first()) {
                    Ok(r) => Ok(seq![v] + r),
                    Err(k) => Err(k),
                }
            },
        }
    }
}

/// Fan triangulation of a polygon given by 1-based indices, with 0-based
/// results: `(i1, i2, i3), (i1, i3, i4), ..., (i1, ik-1, ik)`.
pub open spec fn fan(ix: Seq<u16>) -> Seq<Seq<u16>> {
    Seq::new(
        (ix.len() - 2) as nat,
        |j: int| seq![(ix[0] - 1) as u16, (ix[j + 1] - 1) as u16, (ix[j + 2] - 1) as u16],
    )
}

/// The triangles of a face line, from the words after its tag.
pub open spec fn face_triangles(t: Seq<Seq<u8>>) -> Result<Seq<Seq<u16>>, FormatErrorKind> {
    match face_values(t) {
        Err(k) => Err(k),
        Ok(ix) => if ix.len() < 3 {
            Err(FormatErrorKind::TooFewIndices)
        } else {
            Ok(fan(ix))
        },
    }
}

pub open spec fn format_error(number: int, kind: FormatErrorKind) -> ObjError {
    ObjError::Format(FormatError { line: number as usize, kind })
}

/// `m` after reading line `number` (counting from 1). A line whose first
/// word is `v` adds a vertex, one whose first word is `f` adds triangles,
/// and any other line changes nothing.
pub open spec fn read_line(m: MeshModel, line: Seq<u8>, number: int) -> Result<MeshModel, ObjError> {
    let w = words(line);
    if w.len() > 0 && w[0] == seq![118u8] {
        match vertex_fields(w.drop_first()) {
            Err(k) => Err(format_error(number, k)),
            Ok(c) => if m.vertices.len() >= MAX_VERTICES {
                Err(ObjError::Capacity)
            } else {
                Ok(MeshModel { vertices: m.vertices.push(c), faces: m.faces })
            },
        }
    } else if w.len() > 0 && w[0] == seq![102u8] {
        match face_triangles(w.drop_first()) {
            Err(k) => Err(format_error(number, k)),
            Ok(tris) => Ok(MeshModel { vertices: m.vertices, faces: m.faces + tris }),
        }
    } else {
        Ok(m)
    }
}

/// The mesh that the lines `ls` describe, or the error of the first line
/// that cannot be read.
pub open spec fn read_lines(ls: Seq<Seq<u8>>) -> Result<MeshModel, ObjError>
    decreases ls.len(),
{
    if ls.len() == 0 {
        Ok(empty_model())
    } else {
        match read_lines(ls.drop_last()) {
            Err(e) => Err(e),
            Ok(m) => read_line(m, ls.last(), ls.len() as int),
        }
    }
}

/// The mesh that the text `s` describes.
pub open spec fn mesh_of(s: Seq<u8>) -> Result<MeshModel, ObjError> {
    read_lines(lines(s))
}

proof fn lemma_flatten_triangles(faces: Seq<Seq<u16>>)
    requires
        forall|k: int| 0 <= k < faces.len() ==> (#[trigger] faces[k]).len() == 3,
    ensures
        faces.flatten().len() == 3 * faces.len(),
    decreases faces.len(),
{
    if faces.len() > 0 {
        lemma_flatten_triangles(faces.drop_first());
    }
}

/// Once a line fails, the lines after it do not matter.
proof fn lemma_error_stays(a: Seq<Seq<u8>>, b: Seq<Seq<u8>>, e: ObjError)
    requires
        read_lines(a) == Err::<MeshModel, ObjError>(e),
    ensures
        read_lines(a + b) == Err::<MeshModel, ObjError>(e),
    decreases b.len(),
{
    if b.len() == 0 {
        assert(a + b =~= a);
    } else {
        lemma_error_stays(a, b.drop_last(), e);
        assert((a + b).drop_last() =~= a + b.drop_last());
    }
}

/// The 1-based indices that the words `w[1..]` of a face line give.
fn read_face_values(w: &Vec<Vec<u8>>) -> (r: Result<Vec<u16>, FormatErrorKind>)
    requires
        w@.len() >= 1,
    ensures
        match r {
            Ok(v) => face_values(byte_views(w@).drop_first()) == Ok::<Seq<u16>, FormatErrorKind>(v@)
                && forall|k: int| 0 <= k < v@.len() ==> #[trigger] v@[k] >= 1,
            Err(k) => face_values(byte_views(w@).drop_first()) == Err::<Seq<u16>, FormatErrorKind>(k),
        },
{
    let ghost t = byte_views(w@).drop_first();
    let mut vals: Vec<u16> = Vec::new();
    let mut i: usize = 1;
    proof {
        assert(t.skip(0) =~= t);
        match face_values(t) {
            Ok(r) => assert(vals@ + r =~= r),
            Err(k) => {},
        }
    }
    while i < w.len()
        invariant
            1 <= i <= w@.len(),
            t == byte_views(w@).drop_first(),
            forall|k: int| 0 <= k < vals@.len() ==> #[trigger] vals@[k] >= 1,
            match face_values(t.skip(i - 1)) {
                Ok(r) => face_values(t) == Ok::<Seq<u16>, FormatErrorKind>(vals@ + r),
                Err(k) => face_values(t) == Err::<Seq<u16>, FormatErrorKind>(k),
            },
        decreases w@.len() - i,
    {
        let ghost rest = t.skip(i - 1);
        assert(rest[0] == w@[i as int]@);
        assert(rest.drop_first() =~= t.skip(i as int));
        let word = w[i].as_slice();
        assert(word@.subrange(0, word@.len() as int) =~= rest[0]);
        match parse_u16(word, 0, word.len()) {
            None => {
                return Err(FormatErrorKind::InvalidIndex);
            },
            Some(v) => {
                if v == 0 {
                    return Err(FormatErrorKind::ZeroIndex);
                }
                let ghost before = vals@;
                vals.push(v);
                proof {
                    match face_values(t.skip(i as int)) {
                        Ok(r) => {
                            assert(before + (seq![v] + r) =~= vals@ + r);
                        },
                        Err(k) => {},
                    }
                }
            },
        }
        i += 1;
    }
    assert(t.skip(i - 1).len() == 0);
    assert(vals@ + seq![] =~= vals@);
    Ok(vals)
}

/// Adds the fan triangles of the polygon with 1-based indices `ix` to the
/// mesh and its index buffer.
fn add_fan(mesh: &mut Mesh, ix: &Vec<u16>)
    requires
        old(mesh).wf(),
        ix@.len() >= 3,
        forall|k: int| 0 <= k < ix@.len() ==> #[trigger] ix@[k] >= 1,
    ensures
        final(mesh).wf(),
        final(mesh)@ == (MeshModel { vertices: old(mesh)@.vertices, faces: old(mesh)@.faces + fan(ix@) }),
{
    let ghost start = mesh@;
    let ghost tris = fan(ix@);
    let mut j: usize = 2;
    while j < ix.len()
        invariant
            2 <= j <= ix@.len(),
            forall|k: int| 0 <= k < ix@.len() ==> #[trigger] ix@[k] >= 1,
            tris == fan(ix@),
            mesh.wf(),
            mesh@.vertices == start.vertices,
            mesh@.faces == start.faces + tris.take(j - 2),
        decreases ix@.len() - j,
    {
        let a = ix[0] - 1;
        let b = ix[j - 1] - 1;
        let c = ix[j] - 1;
        let mut tri: Vec<u16> = Vec::new();
        tri.push(a);
        tri.push(b);
        tri.push(c);
        let ghost faces_before = mesh@.faces;
        let ghost indices_before = mesh.indices@;
        assert(tri@ =~= tris[j - 2]);
        mesh.faces.push(Face { indices: tri });
        mesh.indices.push(a);
        mesh.indices.push(b);
        mesh.indices.push(c);
        proof {
            assert(mesh@.faces =~= faces_before.push(tri@));
            faces_before.lemma_flatten_push(tri@);
            assert(mesh.indices@ =~= indices_before + tri@);
            assert(tris.take(j - 1) =~= tris.take(j - 2).push(tris[j - 2]));
            assert(mesh@.faces =~= start.faces + tris.take(j - 1));
            assert(mesh@.vertices =~= start.vertices);
        }
        j += 1;
    }
    assert(tris.take(j - 2) =~= tris);
}

/// Reads line `number` (counting from 1), the bytes `s[lo..hi]`, into the
/// mesh.
fn read_line_into(mesh: &mut Mesh, s: &[u8], lo: usize, hi: usize, number: usize) -> (r: Result<(), ObjError>)
    requires
        lo <= hi <= s@.len(),
        old(mesh).wf(),
    ensures
        match r {
            Ok(()) => final(mesh).wf() && read_line(old(mesh)@, s@.subrange(lo as int, hi as int), number as int)
                == Ok::<MeshModel, ObjError>(final(mesh)@),
            Err(e) => read_line(old(mesh)@, s@.subrange(lo as int, hi as int), number as int) == Err::<
                MeshModel,
                ObjError,
            >(e),
        },
{
    let w = split_words(s, lo, hi);
    let ghost wv = byte_views(w@);
    let ghost t = wv.drop_first();
    let is_vertex = w.len() > 0 && w[0].len() == 1 && w[0][0] == 118u8;
    let is_face = w.len() > 0 && w[0].len() == 1 && w[0][0] == 102u8;
    proof {
        if wv.len() > 0 {
            assert(wv[0] == w@[0]@);
            if wv[0].len() == 1 {
                assert(wv[0] =~= seq![wv[0][0]]);
            }
        }
    }
    if is_vertex {
        assert(wv[0] == seq![118u8]);
        if w.len() < 4 {
            return Err(ObjError::Format(FormatError { line: number, kind: FormatErrorKind::MissingCoordinate }));
        }
        if w.len() > 4 {
            return Err(ObjError::Format(FormatError { line: number, kind: FormatErrorKind::ExtraCoordinate }));
        }
        let wx = w[1].as_slice();
        let wy = w[2].as_slice();
        let wz = w[3].as_slice();
        assert(wx@.subrange(0, wx@.len() as int) =~= t[0]);
        assert(wy@.subrange(0, wy@.len() as int) =~= t[1]);
        assert(wz@.subrange(0, wz@.len() as int) =~= t[2]);
        if !(check_float(wx, 0, wx.len()) && check_float(wy, 0, wy.len()) && check_float(wz, 0, wz.len())) {
            return Err(ObjError::Format(FormatError { line: number, kind: FormatErrorKind::InvalidCoordinate }));
        }
        if mesh.vertices.len() >= MAX_VERTICES {
            return Err(ObjError::Capacity);
        }
        let x = crate::text::copy_range(wx, 0, wx.len());
        let y = crate::text::copy_range(wy, 0, wy.len());
        let z = crate::text::copy_range(wz, 0, wz.len());
        let v = VertexText { x, y, z };
        assert(v@ =~= t);
        let ghost before = mesh@.vertices;
        mesh.vertices.push(v);
        assert(mesh@.vertices =~= before.push(t));
        Ok(())
    } else if is_face {
        assert(wv[0] == seq![102u8]);
        assert(!(wv[0] == seq![118u8])) by {
            assert(wv[0][0] != seq![118u8][0]);
        }
        match read_face_values(&w) {
            Err(k) => Err(ObjError::Format(FormatError { line: number, kind: k })),
            Ok(ix) => {
                if ix.len() < 3 {
                    return Err(ObjError::Format(FormatError { line: number, kind: FormatErrorKind::TooFewIndices }));
                }
                add_fan(mesh, &ix);
                Ok(())
            },
        }
    } else {
        assert(!(wv.len() > 0 && wv[0] == seq![118u8])) by {
            if wv.len() > 0 && wv[0] == seq![118u8] {
                assert(wv[0].len() == 1 && wv[0][0] == 118u8);
            }
        }
        assert(!(wv.len() > 0 && wv[0] == seq![102u8])) by {
            if wv.len() > 0 && wv[0] == seq![102u8] {
                assert(wv[0].len() == 1 && wv[0][0] == 102u8);
            }
        }
        Ok(())
    }
}

/// Reads a mesh from the bytes of its text. Reading stops at the first line
/// that cannot be read, and its error is returned.
pub fn parse_obj_bytes(s: &[u8]) -> (r: Result<Mesh, ObjError>)
    ensures
        match r {
            Ok(m) => m.wf() && mesh_of(s@) == Ok::<MeshModel, ObjError>(m@),
            Err(e) => mesh_of(s@) == Err::<MeshModel, ObjError>(e),
        },
{
    let mut mesh = Mesh { vertices: Vec::new(), faces: Vec::new(), indices: Vec::new() };
    assert(mesh@ == empty_model()) by {
        assert(mesh@.vertices =~= seq![]);
        assert(mesh@.faces =~= seq![]);
    }
    assert(mesh.indices@ =~= mesh@.faces.flatten());
    let n = s.len();
    let mut start: usize = 0;
    let mut i: usize = 0;
    let mut number: usize = 0;
    let ghost mut done: Seq<Seq<u8>> = seq![];
    assert(done + lines_from(s@, 0, 0) =~= lines(s@));
    while i < n
        invariant
            n == s@.len(),
            start <= i <= n,
            number == done.len(),
            number <= start,
            done + lines_from(s@, start as int, i as int) == lines(s@),
            mesh.wf(),
            read_lines(done) == Ok::<MeshModel, ObjError>(mesh@),
        decreases n - i,
    {
        if s[i] == 10u8 {
            let ghost line = s@.subrange(start as int, i as int);
            let ghost before = mesh@;
            let ghost next = done.push(line);
            assert(next.drop_last() =~= done);
            let res = read_line_into(&mut mesh, s, start, i, number + 1);
            proof {
                assert(lines_from(s@, start as int, i as int) == seq![line] + lines_from(
                    s@,
                    i + 1,
                    i + 1,
                ));
                assert(done + (seq![line] + lines_from(s@, i + 1, i + 1)) =~= next + lines_from(
                    s@,
                    i + 1,
                    i + 1,
                ));
            }
            match res {
                Err(e) => {
                    proof {
                        lemma_error_stays(next, lines_from(s@, i + 1, i + 1), e);
                    }
                    return Err(e);
                },
                Ok(()) => {},
            }
            proof {
                done = next;
            }
            number += 1;
            i += 1;
            start = i;
        } else {
            i += 1;
        }
    }
    if start < n {
        let ghost line = s@.subrange(start as int, n as int);
        let ghost next = done.push(line);
        assert(next.drop_last() =~= done);
        assert(lines(s@) =~= next);
        let res = read_line_into(&mut mesh, s, start, n, number + 1);
        match res {
            Err(e) => {
                return Err(e);
            },
            Ok(()) => {},
        }
    } else {
        assert(lines(s@) =~= done);
    }
    Ok(mesh)
}

/// Reads a mesh from its text. Reading stops at the first line that cannot
/// be read, and its error is returned.
pub fn parse_obj(text: &str) -> (r: Result<Mesh, ObjError>)
    ensures
        match r {
            Ok(m) => m.wf() && mesh_of(text.spec_bytes()) == Ok::<MeshModel, ObjError>(m@),
            Err(e) => mesh_of(text.spec_bytes()) == Err::<MeshModel, ObjError>(e),
        },
{
    parse_obj_bytes(text.as_bytes())
}

proof fn lemma_face_values_len(t: Seq<Seq<u8>>)
    ensures
        face_values(t) is Ok ==> face_values(t)->Ok_0.len() == t.len(),
    decreases t.len(),
{
    if t.len() > 0 {
        lemma_face_values_len(t.drop_first());
    }
}

proof fn lemma_face_values_zero(t: Seq<Seq<u8>>, k: int)
    requires
        0 <= k < t.len(),
        u16_value(t[k]) == Some(0u16),
    ensures
        face_values(t) is Err,
    decreases t.len(),
{
    if k > 0 {
        assert(t.drop_first()[k - 1] == t[k]);
        lemma_face_values_zero(t.drop_first(), k - 1);
    }
}

/// The prefix of lines before line `i` either fails or reads to some mesh.
proof fn lemma_read_lines_prefix(ls: Seq<Seq<u8>>, i: int)
    requires
        0 <= i < ls.len(),
        forall|m: MeshModel| #[trigger] read_line(m, ls[i], i + 1) is Err,
    ensures
        read_lines(ls) is Err,
    decreases ls.len(),
{
    if i == ls.len() - 1 {
        match read_lines(ls.drop_last()) {
            Err(e) => {},
            Ok(m) => {
                assert(read_line(m, ls[i], i + 1) is Err);
            },
        }
    } else {
        assert(ls.drop_last()[i] == ls[i]);
        lemma_read_lines_prefix(ls.drop_last(), i);
    }
}

/// A line that cannot be read whatever came before it makes the whole text
/// fail.
pub proof fn lemma_bad_line_fails_text(s: Seq<u8>, i: int)
    requires
        0 <= i < lines(s).len(),
        forall|m: MeshModel| #[trigger] read_line(m, lines(s)[i], i + 1) is Err,
    ensures
        mesh_of(s) is Err,
{
    lemma_read_lines_prefix(lines(s), i);
}

/// A face line with an index of 0 is rejected with a format error.
pub proof fn lemma_zero_index_rejected(m: MeshModel, line: Seq<u8>, number: int, k: int)
    requires
        words(line).len() > 0,
        words(line)[0] == seq![102u8],
        1 <= k < words(line).len(),
        u16_value(words(line)[k]) == Some(0u16),
    ensures
        read_line(m, line, number) is Err,
        read_line(m, line, number)->Err_0 is Format,
{
    let w = words(line);
    assert(w.drop_first()[k - 1] == w[k]);
    lemma_face_values_zero(w.drop_first(), k - 1);
    assert(w[0][0] != seq![118u8][0]);
}

/// A face line with fewer than three indices is rejected with a format
/// error.
pub proof fn lemma_short_face_rejected(m: MeshModel, line: Seq<u8>, number: int)
    requires
        words(line).len() > 0,
        words(line)[0] == seq![102u8],
        words(line).len() < 4,
    ensures
        read_line(m, line, number) is Err,
        read_line(m, line, number)->Err_0 is Format,
{
    let w = words(line);
    lemma_face_values_len(w.drop_first());
    assert(w[0][0] != seq![118u8][0]);
}

/// A vertex line without exactly three coordinates is rejected with a
/// format error.
pub proof fn lemma_vertex_arity_rejected(m: MeshModel, line: Seq<u8>, number: int)
    requires
        words(line).len() > 0,
        words(line)[0] == seq![118u8],
        words(line).len() != 4,
    ensures
        read_line(m, line, number) is Err,
        read_line(m, line, number)->Err_0 is Format,
{
}

proof fn lemma_read_lines_bounded(ls: Seq<Seq<u8>>)
    ensures
        read_lines(ls) is Ok ==> read_lines(ls)->Ok_0.vertices.len() <= MAX_VERTICES,
    decreases ls.len(),
{
    if ls.len() > 0 {
        lemma_read_lines_bounded(ls.drop_last());
    }
}

/// A text that is read holds at most `MAX_VERTICES` vertices: a vertex
/// beyond them is an error, never dropped or wrapped.
pub proof fn lemma_vertex_ceiling(s: Seq<u8>)
    ensures
        mesh_of(s) is Ok ==> mesh_of(s)->Ok_0.vertices.len() <= MAX_VERTICES,
{
    lemma_read_lines_bounded(lines(s));
}

/// A vertex line that is well formed is rejected for capacity exactly when
/// the mesh already holds `MAX_VERTICES` vertices.
pub proof fn lemma_capacity_rejected(m: MeshModel, line: Seq<u8>, number: int)
    requires
        words(line).len() > 0,
        words(line)[0] == seq![118u8],
        vertex_fields(words(line).drop_first()) is Ok,
    ensures
        (read_line(m, line, number) == Err::<MeshModel, ObjError>(ObjError::Capacity)) <==> m.vertices.len()
            >= MAX_VERTICES,
{
}

/// Fan triangulation of a polygon with `k >= 3` positive 1-based indices
/// gives `k - 2` triangles of three 0-based indices each; triangle `j` is
/// the polygon's first vertex with its vertices `j + 1` and `j + 2`.
pub proof fn lemma_fan_shape(ix: Seq<u16>)
    requires
        ix.len() >= 3,
        forall|k: int| 0 <= k < ix.len() ==> #[trigger] ix[k] >= 1,
    ensures
        fan(ix).len() == ix.len() - 2,
        forall|j: int|
            0 <= j < fan(ix).len() ==> {
                &&& (#[trigger] fan(ix)[j]).len() == 3
                &&& fan(ix)[j][0] + 1 == ix[0]
                &&& fan(ix)[j][1] + 1 == ix[j + 1]
                &&& fan(ix)[j][2] + 1 == ix[j + 2]
            },
{
    assert forall|j: int| 0 <= j < fan(ix).len() implies {
        &&& (#[trigger] fan(ix)[j]).len() == 3
        &&& fan(ix)[j][0] + 1 == ix[0]
        &&& fan(ix)[j][1] + 1 == ix[j + 1]
        &&& fan(ix)[j][2] + 1 == ix[j + 2]
    } by {
        assert(ix[0] >= 1 && ix[j + 1] >= 1 && ix[j + 2] >= 1);
    }
}

/// A text with a face line that holds an index of 0 is rejected.
pub proof fn lemma_zero_index_fails_text(s: Seq<u8>, i: int, k: int)
    requires
        0 <= i < lines(s).len(),
        words(lines(s)[i]).len() > 0,
        words(lines(s)[i])[0] == seq![102u8],
        1 <= k < words(lines(s)[i]).len(),
        u16_value(words(lines(s)[i])[k]) == Some(0u16),
    ensures
        mesh_of(s) is Err,
{
    assert forall|m: MeshModel| #[trigger] read_line(m, lines(s)[i], i + 1) is Err by {
        lemma_zero_index_rejected(m, lines(s)[i], i + 1, k);
    }
    lemma_bad_line_fails_text(s, i);
}

/// A text with a face line of fewer than three indices is rejected.
pub proof fn lemma_short_face_fails_text(s: Seq<u8>, i: int)
    requires
        0 <= i < lines(s).len(),
        words(lines(s)[i]).len() > 0,
        words(lines(s)[i])[0] == seq![102u8],
        words(lines(s)[i]).len() < 4,
    ensures
        mesh_of(s) is Err,
{
    assert forall|m: MeshModel| #[trigger] read_line(m, lines(s)[i], i + 1) is Err by {
        lemma_short_face_rejected(m, lines(s)[i], i + 1);
    }
    lemma_bad_line_fails_text(s, i);
}

/// A text with a vertex line of other than three coordinates is rejected.
pub proof fn lemma_vertex_arity_fails_text(s: Seq<u8>, i: int)
    requires
        0 <= i < lines(s).len(),
        words(lines(s)[i]).len() > 0,
        words(lines(s)[i])[0] == seq![118u8],
        words(lines(s)[i]).len() != 4,
    ensures
        mesh_of(s) is Err,
{
    assert forall|m: MeshModel| #[trigger] read_line(m, lines(s)[i], i + 1) is Err by {
        lemma_vertex_arity_rejected(m, lines(s)[i], i + 1);
    }
    lemma_bad_line_fails_text(s, i);
}

} // verus!

//! The icosahedron and its refinement, as faces over a table of vertices.

use vstd::prelude::*;

verus! {

/// How the position of a vertex is obtained.
#[derive(Debug, Clone, Copy, PartialEq, Eq, Structural)]
pub enum VertexSource {
    /// One of the points the caller supplies, by its number.
    Given(usize),
    /// The midpoint of two earlier vertices of the table, pushed out onto the unit sphere.
    Midpoint(usize, usize),
}

/// A triangle: three vertices of a table, in winding order.
#[derive(Debug, Clone, Copy)]
pub struct IcosahedronFace {
    pub vertices: [usize; 3],
}

/// The vertices of a triangulation: for each, how its position is obtained. Whoever
/// holds the positions computes them entry by entry, in the table's order.
pub struct VertexTable {
    sources: Vec<VertexSource>,
}

impl View for VertexTable {
    type V = Seq<VertexSource>;

    closed spec fn view(&self) -> Seq<VertexSource> {
        self.sources@
    }
}

/// Whether every midpoint among `sources` is taken between two earlier entries.
pub open spec fn well_founded(sources: Seq<VertexSource>) -> bool {
    forall|i: int|
        0 <= i < sources.len() ==> match #[trigger] sources[i] {
            VertexSource::Given(_) => true,
            VertexSource::Midpoint(a, b) => a < i && b < i,
        }
}

impl VertexTable {
    /// Every midpoint is taken between two earlier entries.
    pub open spec fn wf(&self) -> bool {
        well_founded(self@)
    }

    /// The table of the first `n` given points: entry `i` is the point number `i`.
    pub fn with_given(n: usize) -> (t: VertexTable)
        ensures
            t@.len() == n,
            forall|i: int| 0 <= i < n ==> #[trigger] t@[i] == VertexSource::Given(i as usize),
            t.wf(),
    {
        let mut sources: Vec<VertexSource> = Vec::new();
        let mut i: usize = 0;
        while i < n
            invariant
                i <= n,
                sources@.len() == i,
                forall|j: int| 0 <= j < i ==> #[trigger] sources@[j] == VertexSource::Given(j as usize),
            decreases n - i,
        {
            sources.push(VertexSource::Given(i));
            i = i + 1;
        }
        VertexTable { sources }
    }

    /// The number of vertices.
    pub fn len(&self) -> (n: usize)
        ensures
            n == self@.len(),
    {
        self.sources.len()
    }

    /// How vertex `i` is obtained.
    pub fn source(&self, i: usize) -> (s: VertexSource)
        requires
            i < self@.len(),
        ensures
            s == self@[i as int],
    {
        self.sources[i]
    }

    /// Adds the midpoint of the vertices `a` and `b` and returns its place in the table.
    pub fn add_midpoint(&mut self, a: usize, b: usize) -> (m: usize)
        requires
            old(self).wf(),
            a < old(self)@.len(),
            b < old(self)@.len(),
        ensures
            m == old(self)@.len(),
            final(self)@ == old(self)@.push(VertexSource::Midpoint(a, b)),
            final(self).wf(),
    {
        let m = self.sources.len();
        self.sources.push(VertexSource::Midpoint(a, b));
        m
    }
}

/// Four to the power `d`.
pub open spec fn pow4(d: nat) -> nat
    decreases d,
{
    if d == 0 {
        1
    } else {
        4 * pow4((d - 1) as nat)
    }
}

/// The triangle over the vertices `a`, `b`, `c`.
pub open spec fn face_of(a: usize, b: usize, c: usize) -> IcosahedronFace {
    IcosahedronFace { vertices: [a, b, c] }
}

/// What refining `f` to the given depth adds to a table that holds `base` vertices,
/// and the triangles that come of it. One step takes the midpoints of the edges
/// `0-1`, `1-2`, `2-0` as three new vertices and parts the triangle in four: the three
/// corners, then the middle, each wound as `f` is; each part is then refined in turn.
#[verifier::opaque]
pub open spec fn spec_subdivide(f: IcosahedronFace, depth: nat, base: int) -> (
    Seq<VertexSource>,
    Seq<IcosahedronFace>,
)
    decreases depth,
{
    if depth == 0 {
        (Seq::empty(), seq![f])
    } else {
        let d = (depth - 1) as nat;
        let step = pow4(d) - 1;
        let m1 = base as usize;
        let m2 = (base + 1) as usize;
        let m3 = (base + 2) as usize;
        let c1 = spec_subdivide(face_of(f.vertices[0], m1, m3), d, base + 3);
        let c2 = spec_subdivide(face_of(m1, f.vertices[1], m2), d, base + 3 + step);
        let c3 = spec_subdivide(face_of(m3, m2, f.vertices[2]), d, base + 3 + 2 * step);
        let c4 = spec_subdivide(face_of(m1, m2, m3), d, base + 3 + 3 * step);
        (
            seq![
                VertexSource::Midpoint(f.vertices[0], f.vertices[1]),
                VertexSource::Midpoint(f.vertices[1], f.vertices[2]),
                VertexSource::Midpoint(f.vertices[2], f.vertices[0]),
            ] + c1.0 + c2.0 + c3.0 + c4.0,
            c1.1 + c2.1 + c3.1 + c4.1,
        )
    }
}

/// At depth 0 a triangle is left as it is, and the table too.
pub proof fn lemma_subdivide_base(f: IcosahedronFace, base: int)
    ensures
        spec_subdivide(f, 0, base) == (Seq::<VertexSource>::empty(), seq![f]),
{
    reveal(spec_subdivide);
}

/// One step of refinement: three midpoints, then the four parts refined in turn.
pub proof fn lemma_subdivide_step(f: IcosahedronFace, depth: nat, base: int)
    requires
        depth > 0,
    ensures
        ({
            let d = (depth - 1) as nat;
            let step = pow4(d) - 1;
            let m1 = base as usize;
            let m2 = (base + 1) as usize;
            let m3 = (base + 2) as usize;
            let c1 = spec_subdivide(face_of(f.vertices[0], m1, m3), d, base + 3);
            let c2 = spec_subdivide(face_of(m1, f.vertices[1], m2), d, base + 3 + step);
            let c3 = spec_subdivide(face_of(m3, m2, f.vertices[2]), d, base + 3 + 2 * step);
            let c4 = spec_subdivide(face_of(m1, m2, m3), d, base + 3 + 3 * step);
            spec_subdivide(f, depth, base) == (
                seq![
                    VertexSource::Midpoint(f.vertices[0], f.vertices[1]),
                    VertexSource::Midpoint(f.vertices[1], f.vertices[2]),
                    VertexSource::Midpoint(f.vertices[2], f.vertices[0]),
                ] + c1.0 + c2.0 + c3.0 + c4.0,
                c1.1 + c2.1 + c3.1 + c4.1,
            )
        }),
{
    reveal(spec_subdivide);
}

/// Refining a triangle to depth `d` gives `4^d` triangles and adds `4^d - 1` vertices.
pub proof fn lemma_subdivide_fan_out(f: IcosahedronFace, depth: nat, base: int)
    ensures
        spec_subdivide(f, depth, base).1.len() == pow4(depth),
        spec_subdivide(f, depth, base).0.len() == pow4(depth) - 1,
    decreases depth,
{
    if depth > 0 {
        let d = (depth - 1) as nat;
        let step = pow4(d) - 1;
        let m1 = base as usize;
        let m2 = (base + 1) as usize;
        let m3 = (base + 2) as usize;
        lemma_subdivide_fan_out(face_of(f.vertices[0], m1, m3), d, base + 3);
        lemma_subdivide_fan_out(face_of(m1, f.vertices[1], m2), d, base + 3 + step);
        lemma_subdivide_fan_out(face_of(m3, m2, f.vertices[2]), d, base + 3 + 2 * step);
        lemma_subdivide_fan_out(face_of(m1, m2, m3), d, base + 3 + 3 * step);
        lemma_subdivide_step(f, depth, base);
    } else {
        lemma_subdivide_base(f, base);
    }
}

impl IcosahedronFace {
    /// Whether all three vertices are entries of a table of length `n`.
    pub open spec fn within(&self, n: int) -> bool {
        self.vertices[0] < n && self.vertices[1] < n && self.vertices[2] < n
    }

    /// The triangle over three vertices of a table.
    pub fn new(v1: usize, v2: usize, v3: usize) -> (f: IcosahedronFace)
        ensures
            f == face_of(v1, v2, v3),
            f.vertices[0] == v1,
            f.vertices[1] == v2,
            f.vertices[2] == v3,
    {
        IcosahedronFace { vertices: [v1, v2, v3] }
    }

    /// Refines the triangle `depth` times, each step parting every triangle in four
    /// over the midpoints of its edges. The new vertices are added to `table`; the
    /// triangles come back in the order corner, corner, corner, middle, depth first.
    pub fn subdivide(&self, depth: i32, table: &mut VertexTable) -> (faces: Vec<IcosahedronFace>)
        requires
            depth >= 0,
            old(table).wf(),
            self.within(old(table)@.len() as int),
        ensures
            final(table).wf(),
            final(table)@ == old(table)@ + spec_subdivide(
                *self,
                depth as nat,
                old(table)@.len() as int,
            ).0,
            faces@ == spec_subdivide(*self, depth as nat, old(table)@.len() as int).1,
            faces@.len() == pow4(depth as nat),
            final(table)@.len() == old(table)@.len() + pow4(depth as nat) - 1,
            forall|i: int|
                0 <= i < faces@.len() ==> (#[trigger] faces@[i]).within(final(table)@.len() as int),
        decreases depth,
    {
        let ghost base = table@.len() as int;
        let ghost before = table@;
        proof {
            lemma_subdivide_fan_out(*self, depth as nat, base);
        }
        if depth == 0 {
            let mut faces: Vec<IcosahedronFace> = Vec::new();
            faces.push(*self);
            proof {
                lemma_subdivide_base(*self, base);
                assert(table@ =~= before + Seq::<VertexSource>::empty());
                assert(faces@ =~= seq![*self]);
            }
            return faces;
        }
        let v0 = self.vertices[0];
        let v1 = self.vertices[1];
        let v2 = self.vertices[2];
        let m1 = table.add_midpoint(v0, v1);
        let m2 = table.add_midpoint(v1, v2);
        let m3 = table.add_midpoint(v2, v0);
        let f1 = IcosahedronFace::new(v0, m1, m3);
        let f2 = IcosahedronFace::new(m1, v1, m2);
        let f3 = IcosahedronFace::new(m3, m2, v2);
        let f4 = IcosahedronFace::new(m1, m2, m3);
        let ghost d = (depth - 1) as nat;
        let ghost step = pow4(d) - 1;
        let ghost mids = seq![
            VertexSource::Midpoint(v0, v1),
            VertexSource::Midpoint(v1, v2),
            VertexSource::Midpoint(v2, v0),
        ];
        let ghost c1 = spec_subdivide(f1, d, base + 3);
        let ghost c2 = spec_subdivide(f2, d, base + 3 + step);
        let ghost c3 = spec_subdivide(f3, d, base + 3 + 2 * step);
        let ghost c4 = spec_subdivide(f4, d, base + 3 + 3 * step);
        proof {
            lemma_subdivide_fan_out(f1, d, base + 3);
            lemma_subdivide_fan_out(f2, d, base + 3 + step);
            lemma_subdivide_fan_out(f3, d, base + 3 + 2 * step);
            lemma_subdivide_fan_out(f4, d, base + 3 + 3 * step);
            lemma_subdivide_step(*self, depth as nat, base);
            assert(table@ =~= before + mids);
        }
        let mut faces = f1.subdivide(depth - 1, table);
        assert(table@ =~= before + mids + c1.0);
        let mut part = f2.subdivide(depth - 1, table);
        assert(table@ =~= before + mids + c1.0 + c2.0);
        faces.append(&mut part);
        let mut part = f3.subdivide(depth - 1, table);
        assert(table@ =~= before + mids + c1.0 + c2.0 + c3.0);
        faces.append(&mut part);
        let mut part = f4.subdivide(depth - 1, table);
        faces.append(&mut part);
        proof {
            assert(table@ =~= before + (mids + c1.0 + c2.0 + c3.0 + c4.0));
            assert(faces@ =~= c1.1 + c2.1 + c3.1 + c4.1);
        }
        faces
    }
}

/// The number of corners of the icosahedron.
pub const BASE_VERTICES: usize = 12;

/// The twenty faces of the icosahedron over its twelve corners: five round the
/// corner 0, the five below them, five round the corner 3, and the five that join
/// the two halves.
pub open spec fn base_faces() -> Seq<IcosahedronFace> {
    seq![
        face_of(0, 4, 8),
        face_of(0, 8, 10),
        face_of(0, 10, 5),
        face_of(0, 5, 1),
        face_of(0, 1, 4),
        face_of(4, 1, 9),
        face_of(8, 4, 6),
        face_of(10, 8, 2),
        face_of(5, 10, 7),
        face_of(1, 5, 11),
        face_of(3, 6, 9),
        face_of(3, 9, 11),
        face_of(3, 11, 7),
        face_of(3, 7, 2),
        face_of(3, 2, 6),
        face_of(9, 6, 4),
        face_of(6, 2, 8),
        face_of(2, 7, 10),
        face_of(7, 11, 5),
        face_of(11, 9, 1),
    ]
}

/// Whether the side from vertex `a` to vertex `b` is one of the three of `f`, taken
/// the way `f` is wound.
pub open spec fn has_side(f: IcosahedronFace, a: int, b: int) -> bool {
    ||| (f.vertices[0] == a && f.vertices[1] == b)
    ||| (f.vertices[1] == a && f.vertices[2] == b)
    ||| (f.vertices[2] == a && f.vertices[0] == b)
}

/// Whether `v` is a corner of `f`.
pub open spec fn has_corner(f: IcosahedronFace, v: int) -> bool {
    f.vertices[0] == v || f.vertices[1] == v || f.vertices[2] == v
}

/// How many of the first `n` of `faces` have the side from `a` to `b`.
pub open spec fn side_count(faces: Seq<IcosahedronFace>, a: int, b: int, n: nat) -> nat
    decreases n,
{
    if n == 0 {
        0
    } else {
        side_count(faces, a, b, (n - 1) as nat) + if has_side(faces[n - 1], a, b) {
            1nat
        } else {
            0nat
        }
    }
}

/// How many of the first `n` of `faces` have the corner `v`.
pub open spec fn corner_count(faces: Seq<IcosahedronFace>, v: int, n: nat) -> nat
    decreases n,
{
    if n == 0 {
        0
    } else {
        corner_count(faces, v, (n - 1) as nat) + if has_corner(faces[n - 1], v) {
            1nat
        } else {
            0nat
        }
    }
}

/// Five faces of the icosahedron meet at each corner.
pub proof fn lemma_five_faces_at_each_corner(v: int)
    requires
        0 <= v < 12,
    ensures
        corner_count(base_faces(), v, 20) == 5,
{
    reveal_with_fuel(corner_count, 21);
}

/// The faces of the icosahedron close a surface and are all wound the same way
/// round: no side is taken twice the same way, and each side that one face takes
/// one way, one face takes the other way.
#[verifier::rlimit(100)]
pub proof fn lemma_icosahedron_closed(a: int, b: int)
    ensures
        side_count(base_faces(), a, b, 20) <= 1,
        side_count(base_faces(), a, b, 20) == side_count(base_faces(), b, a, 20),
{
    if a == 0 {
        assert(side_count(base_faces(), 0, b, 20) <= 1 && side_count(base_faces(), 0, b, 20)
            == side_count(base_faces(), b, 0, 20)) by {
            reveal_with_fuel(side_count, 21);
        }
    } else if a == 1 {
        assert(side_count(base_faces(), 1, b, 20) <= 1 && side_count(base_faces(), 1, b, 20)
            == side_count(base_faces(), b, 1, 20)) by {
            reveal_with_fuel(side_count, 21);
        }
    } else if a == 2 {
        assert(side_count(base_faces(), 2, b, 20) <= 1 && side_count(base_faces(), 2, b, 20)
            == side_count(base_faces(), b, 2, 20)) by {
            reveal_with_fuel(side_count, 21);
        }
    } else if a == 3 {
        assert(side_count(base_faces(), 3, b, 20) <= 1 && side_count(base_faces(), 3, b, 20)
            == side_count(base_faces(), b, 3, 20)) by {
            reveal_with_fuel(side_count, 21);
        }
    } else if a == 4 {
        assert(side_count(base_faces(), 4, b, 20) <= 1 && side_count(base_faces(), 4, b, 20)
            == side_count(base_faces(), b, 4, 20)) by {
            reveal_with_fuel(side_count, 21);
        }
    } else if a == 5 {
        assert(side_count(base_faces(), 5, b, 20) <= 1 && side_count(base_faces(), 5, b, 20)
            == side_count(base_faces(), b, 5, 20)) by {
            reveal_with_fuel(side_count, 21);
        }
    } else if a == 6 {
        assert(side_count(base_faces(), 6, b, 20) <= 1 && side_count(base_faces(), 6, b, 20)
            == side_count(base_faces(), b, 6, 20)) by {
            reveal_with_fuel(side_count, 21);
        }
    } else if a == 7 {
        assert(side_count(base_faces(), 7, b, 20) <= 1 && side_count(base_faces(), 7, b, 20)
            == side_count(base_faces(), b, 7, 20)) by {
            reveal_with_fuel(side_count, 21);
        }
    } else if a == 8 {
        assert(side_count(base_faces(), 8, b, 20) <= 1 && side_count(base_faces(), 8, b, 20)
            == side_count(base_faces(), b, 8, 20)) by {
            reveal_with_fuel(side_count, 21);
        }
    } else if a == 9 {
        assert(side_count(base_faces(), 9, b, 20) <= 1 && side_count(base_faces(), 9, b, 20)
            == side_count(base_faces(), b, 9, 20)) by {
            reveal_with_fuel(side_count, 21);
        }
    } else if a == 10 {
        assert(side_count(base_faces(), 10, b, 20) <= 1 && side_count(base_faces(), 10, b, 20)
            == side_count(base_faces(), b, 10, 20)) by {
            reveal_with_fuel(side_count, 21);
        }
    } else if a == 11 {
        assert(side_count(base_faces(), 11, b, 20) <= 1 && side_count(base_faces(), 11, b, 20)
            == side_count(base_faces(), b, 11, 20)) by {
            reveal_with_fuel(side_count, 21);
        }
    } else {
        assert(side_count(base_faces(), a, b, 20) == 0 && side_count(base_faces(), b, a, 20) == 0) by {
            reveal_with_fuel(side_count, 21);
        }
    }
}

/// The twenty faces of the icosahedron, each over three of its twelve corners.
pub fn generate_icosahedron() -> (faces: Vec<IcosahedronFace>)
    ensures
        faces@ == base_faces(),
        faces@.len() == 20,
        forall|i: int| 0 <= i < 20 ==> (#[trigger] faces@[i]).within(BASE_VERTICES as int),
{
    let mut faces: Vec<IcosahedronFace> = Vec::new();
    faces.push(IcosahedronFace::new(0, 4, 8));
    faces.push(IcosahedronFace::new(0, 8, 10));
    faces.push(IcosahedronFace::new(0, 10, 5));
    faces.push(IcosahedronFace::new(0, 5, 1));
    faces.push(IcosahedronFace::new(0, 1, 4));
    faces.push(IcosahedronFace::new(4, 1, 9));
    faces.push(IcosahedronFace::new(8, 4, 6));
    faces.push(IcosahedronFace::new(10, 8, 2));
    faces.push(IcosahedronFace::new(5, 10, 7));
    faces.push(IcosahedronFace::new(1, 5, 11));
    faces.push(IcosahedronFace::new(3, 6, 9));
    faces.push(IcosahedronFace::new(3, 9, 11));
    faces.push(IcosahedronFace::new(3, 11, 7));
    faces.push(IcosahedronFace::new(3, 7, 2));
    faces.push(IcosahedronFace::new(3, 2, 6));
    faces.push(IcosahedronFace::new(9, 6, 4));
    faces.push(IcosahedronFace::new(6, 2, 8));
    faces.push(IcosahedronFace::new(2, 7, 10));
    faces.push(IcosahedronFace::new(7, 11, 5));
    faces.push(IcosahedronFace::new(11, 9, 1));
    assert(faces@ =~= base_faces());
    faces
}

/// What refining each of `faces` in turn, to the given depth, adds to a table that
/// holds `base` vertices, and the triangles that come of it, face after face.
pub open spec fn spec_subdivide_all(faces: Seq<IcosahedronFace>, depth: nat, base: int) -> (
    Seq<VertexSource>,
    Seq<IcosahedronFace>,
)
    decreases faces.len(),
{
    if faces.len() == 0 {
        (Seq::empty(), Seq::empty())
    } else {
        let front = spec_subdivide_all(faces.drop_last(), depth, base);
        let last = spec_subdivide(faces.last(), depth, base + front.0.len());
        (front.0 + last.0, front.1 + last.1)
    }
}

/// Refining `n` triangles to depth `d` gives `n * 4^d` triangles and adds
/// `n * (4^d - 1)` vertices.
pub proof fn lemma_subdivide_all_fan_out(faces: Seq<IcosahedronFace>, depth: nat, base: int)
    ensures
        spec_subdivide_all(faces, depth, base).1.len() == faces.len() * pow4(depth),
        spec_subdivide_all(faces, depth, base).0.len() == faces.len() * (pow4(depth) - 1),
    decreases faces.len(),
{
    let p = pow4(depth) as int;
    if faces.len() > 0 {
        let front = spec_subdivide_all(faces.drop_last(), depth, base);
        lemma_subdivide_all_fan_out(faces.drop_last(), depth, base);
        lemma_subdivide_fan_out(faces.last(), depth, base + front.0.len());
        let n = faces.len() as int;
        assert((n - 1) * p + p == n * p) by (nonlinear_arith);
        assert((n - 1) * (p - 1) + (p - 1) == n * (p - 1)) by (nonlinear_arith);
    } else {
        assert(0 * p == 0 && 0 * (p - 1) == 0) by (nonlinear_arith);
    }
}

/// Refines each of `faces` to the given depth, adding the new vertices to `table`;
/// the triangles of the first face come first.
pub fn subdivide_all(faces: &Vec<IcosahedronFace>, depth: i32, table: &mut VertexTable) -> (out:
    Vec<IcosahedronFace>)
    requires
        depth >= 0,
        old(table).wf(),
        forall|i: int| 0 <= i < faces@.len() ==> (#[trigger] faces@[i]).within(old(table)@.len() as int),
    ensures
        final(table).wf(),
        final(table)@ == old(table)@ + spec_subdivide_all(
            faces@,
            depth as nat,
            old(table)@.len() as int,
        ).0,
        out@ == spec_subdivide_all(faces@, depth as nat, old(table)@.len() as int).1,
        out@.len() == faces@.len() * pow4(depth as nat),
        forall|i: int| 0 <= i < out@.len() ==> (#[trigger] out@[i]).within(final(table)@.len() as int),
{
    let ghost base = table@.len() as int;
    let ghost before = table@;
    let mut out: Vec<IcosahedronFace> = Vec::new();
    let mut i: usize = 0;
    assert(faces@.take(0) =~= Seq::<IcosahedronFace>::empty());
    assert(table@ =~= before + Seq::<VertexSource>::empty());
    while i < faces.len()
        invariant
            depth >= 0,
            i <= faces@.len(),
            table.wf(),
            base == before.len(),
            table@ == before + spec_subdivide_all(faces@.take(i as int), depth as nat, base).0,
            out@ == spec_subdivide_all(faces@.take(i as int), depth as nat, base).1,
            forall|j: int| 0 <= j < faces@.len() ==> (#[trigger] faces@[j]).within(base),
            forall|j: int| 0 <= j < out@.len() ==> (#[trigger] out@[j]).within(table@.len() as int),
        decreases faces@.len() - i,
    {
        let ghost front = spec_subdivide_all(faces@.take(i as int), depth as nat, base);
        let ghost last = spec_subdivide(faces@[i as int], depth as nat, base + front.0.len());
        proof {
            assert(faces@.take(i + 1).drop_last() =~= faces@.take(i as int));
            assert(faces@.take(i + 1).last() == faces@[i as int]);
            assert(faces@[i as int].within(base));
        }
        let mut part = faces[i].subdivide(depth, table);
        out.append(&mut part);
        proof {
            assert(table@ =~= before + (front.0 + last.0));
        }
        i = i + 1;
    }
    proof {
        assert(faces@.take(faces@.len() as int) =~= faces@);
        lemma_subdivide_all_fan_out(faces@, depth as nat, base);
    }
    out
}

} // verus!

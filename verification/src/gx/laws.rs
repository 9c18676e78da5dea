//! What the commands of the geometry stream mean.

use vstd::prelude::*;
use crate::bytes;
use crate::gx;
use crate::gx::{Completed, Coord, EngineModel, GxModel, GxOp, Mat4, MtxTarget, Retain, Row};

verus! {

/// Whether a triangle goes from `a` to `b` along one of its sides.
pub open spec fn has_side(t: (usize, usize, usize), a: int, b: int) -> bool {
    ||| t.0 == a && t.1 == b
    ||| t.1 == a && t.2 == b
    ||| t.2 == a && t.0 == b
}

/// A quad is covered by two triangles that go round as it does: each of its four
/// sides is a side of exactly one of them, in that direction, and a diagonal is a
/// side of both, once in each direction. The corners of a separate quad are its
/// four vertices in order; a strip brings its corners in pairs, the two of a pair
/// on opposite sides of the strip.
pub proof fn law_quads_are_covered_by_two_triangles(prim: u32, n: int, odd: bool)
    requires
        prim == 1 && n == 4 || prim == 3 && 4 <= n < 1000 && n % 2 == 0,
    ensures
        ({
            let c0 = n - 4;
            let c1 = n - 3;
            let c2 = if prim == 1 {
                n - 2
            } else {
                n - 1
            };
            let c3 = if prim == 1 {
                n - 1
            } else {
                n - 2
            };
            match gx::completed(prim, n, odd) {
                Completed::Two(a, b, c, d, e, f) => {
                    let s = (a, b, c);
                    let t = (d, e, f);
                    &&& has_side(s, c0, c1) != has_side(t, c0, c1)
                    &&& has_side(s, c1, c2) != has_side(t, c1, c2)
                    &&& has_side(s, c2, c3) != has_side(t, c2, c3)
                    &&& has_side(s, c3, c0) != has_side(t, c3, c0)
                    &&& has_side(s, c2, c0) && has_side(t, c0, c2)
                },
                _ => false,
            }
        }),
{
}

/// A triangle is drawn for every three vertices, in their order, and nothing stays
/// collected; before the third and the fourth vertex nothing is drawn.
pub proof fn law_separate_primitives_start_over(e: EngineModel, x: Coord, y: Coord, z: Coord)
    requires
        e.wf(),
        e.prim == 0 || e.prim == 1,
    ensures
        ({
            let full = if e.prim == 0 {
                3int
            } else {
                4
            };
            let next = e.with_vertex(x, y, z);
            match next.ops.last() {
                GxOp::Vertex { x: vx, y: vy, z: vz, done, retain, attr, tex, pal } => {
                    &&& vx == x && vy == y && vz == z
                    &&& attr == e.poly_attr_active && tex == e.teximage && pal == e.pltt_base
                    &&& e.vert_count + 1 < full ==> done == Completed::Zero && retain
                        == Retain::All && next.vert_count == e.vert_count + 1
                    &&& e.vert_count + 1 == full ==> done != Completed::Zero && retain
                        == Retain::Nothing && next.vert_count == 0
                    &&& e.prim == 0 && e.vert_count == 2 ==> (done matches Completed::One(a, b, c)
                        && has_side((a, b, c), 0, 1) && has_side((a, b, c), 1, 2))
                },
                _ => false,
            }
        }),
{
}

/// Neighbouring triangles of a strip have a side in common, which they go along in
/// opposite directions, so that all face the same way. The first one goes round in
/// the order of its vertices.
pub proof fn law_strip_triangles_face_the_same_way(
    e: EngineModel,
    w: u32,
    x: Coord,
    y: Coord,
    z: Coord,
)
    requires
        e.wf(),
        e.prim == 2,
        2 <= e.vert_count < 128,
        w % 4 == 2,
    ensures
        ({
            let one = e.with_vertex(x, y, z);
            let two = one.with_vertex(x, y, z);
            let n = e.vert_count as int;
            match (one.ops.last(), two.ops.last()) {
                (GxOp::Vertex { done: f, .. }, GxOp::Vertex { done: g, .. }) => {
                    match (f, g) {
                        (Completed::One(a, b, c), Completed::One(i, j, k)) => {
                            let s = (a, b, c);
                            let t = (i, j, k);
                            &&& has_side(s, n - 1, n) != has_side(s, n, n - 1)
                            &&& has_side(t, n - 1, n) != has_side(t, n, n - 1)
                            &&& has_side(s, n - 1, n) == has_side(t, n, n - 1)
                            &&& !e.strip_odd ==> has_side(s, n - 2, n - 1)
                            &&& e.strip_odd ==> has_side(s, n - 1, n - 2)
                        },
                        _ => false,
                    }
                },
                _ => false,
            }
        }),
        !e.begun(w).strip_odd && e.begun(w).vert_count == 0 && e.begun(w).prim == 2,
{
}

proof fn lemma_halves(x: int, y: int, v: u32)
    requires
        -0x8000 <= x < 0x8000,
        -0x8000 <= y < 0x8000,
        v == x % 0x1_0000 + 0x1_0000 * (y % 0x1_0000),
    ensures
        gx::signed16(v) == x,
        gx::signed16(v / 0x1_0000) == y,
{
    let a = x % 0x1_0000;
    let b = y % 0x1_0000;
    assert(v as int / 0x1_0000 == b && v as int % 0x1_0000 == a);
    assert(a == x || a == x + 0x1_0000);
    assert(b == y || b == y + 0x1_0000);
}

proof fn lemma_tens(x: int, y: int, z: int, l: int, w: u32)
    requires
        -0x200 <= x < 0x200,
        -0x200 <= y < 0x200,
        -0x200 <= z < 0x200,
        0 <= l < 4,
        w == x % 0x400 + 0x400 * (y % 0x400) + 0x10_0000 * (z % 0x400) + 0x4000_0000 * l,
    ensures
        gx::signed10(w) == x,
        gx::signed10(w / 0x400) == y,
        gx::signed10(w / 0x10_0000) == z,
        w / 0x4000_0000 == l,
{
    let a = x % 0x400;
    let b = y % 0x400;
    let c = z % 0x400;
    let h = c + 0x400 * l;
    let g = b + 0x400 * h;
    assert(w == a + 0x400 * g);
    assert(w as int / 0x400 == g && w as int % 0x400 == a);
    assert(g / 0x400 == h && g % 0x400 == b);
    assert(w as int / 0x10_0000 == h);
    assert(h / 0x400 == l && h % 0x400 == c);
    assert(w as int / 0x4000_0000 == l);
    assert(a == x || a == x + 0x400);
    assert(b == y || b == y + 0x400);
    assert(c == z || c == z + 0x400);
}

/// Vertices of 16 bits: the coordinates that were packed come out, in units of
/// 1/4096. The forms with two coordinates leave the third as it was.
pub proof fn law_packed_vertices_come_out(e: EngineModel, x: int, y: int, z: int, v: u32, w: u32)
    requires
        -0x8000 <= x < 0x8000,
        -0x8000 <= y < 0x8000,
        -0x8000 <= z < 0x8000,
        v == x % 0x1_0000 + 0x1_0000 * (y % 0x1_0000),
        w == z % 0x1_0000,
    ensures
        position(e.executed(0x23, seq![v, w])) == (
            Coord::Fixed(x as i32),
            Coord::Fixed(y as i32),
            Coord::Fixed(z as i32),
        ),
        position(e.executed(0x25, seq![v])) == (
            Coord::Fixed(x as i32),
            Coord::Fixed(y as i32),
            Coord::Keep,
        ),
        position(e.executed(0x26, seq![v])) == (
            Coord::Fixed(x as i32),
            Coord::Keep,
            Coord::Fixed(y as i32),
        ),
        position(e.executed(0x27, seq![v])) == (
            Coord::Keep,
            Coord::Fixed(x as i32),
            Coord::Fixed(y as i32),
        ),
        e.executed(0x22, seq![v]).ops.last() matches GxOp::TexCoord { s, t, .. } && s == x && t
            == y,
{
    lemma_halves(x, y, v);
    lemma_halves(z, 0, w);
}

/// Position of the vertex that was issued last.
pub open spec fn position(e: EngineModel) -> (Coord, Coord, Coord) {
    match e.ops.last() {
        GxOp::Vertex { x, y, z, .. } => (x, y, z),
        _ => (Coord::Keep, Coord::Keep, Coord::Keep),
    }
}

/// Triples of 10 bits: the components that were packed come out, as coordinates in
/// units of 1/64, as differences, as a normal and as the direction of a light.
pub proof fn law_packed_triples_come_out(e: EngineModel, x: int, y: int, z: int, l: int, w: u32)
    requires
        -0x200 <= x < 0x200,
        -0x200 <= y < 0x200,
        -0x200 <= z < 0x200,
        0 <= l < 4,
        w == x % 0x400 + 0x400 * (y % 0x400) + 0x10_0000 * (z % 0x400) + 0x4000_0000 * l,
    ensures
        position(e.executed(0x24, seq![w])) == (
            Coord::Fixed((x * 4096 / 64) as i32),
            Coord::Fixed((y * 4096 / 64) as i32),
            Coord::Fixed((z * 4096 / 64) as i32),
        ),
        position(e.executed(0x28, seq![w])) == (
            Coord::Delta(x as i32),
            Coord::Delta(y as i32),
            Coord::Delta(z as i32),
        ),
        e.executed(0x21, seq![w]).ops.last() matches GxOp::Normal { nx, ny, nz, lights, .. } && nx
            == x && ny == y && nz == z && lights == e.poly_attr_active % 16,
        e.executed(0x32, seq![w]).ops.last() matches GxOp::LightVector { light, lx, ly, lz }
            && light == l && lx == x && ly == y && lz == z,
{
    lemma_tens(x, y, z, l, w);
}

/// Entry of a matrix.
pub open spec fn entry(m: Mat4, r: int, c: int) -> int {
    let row = if r == 0 {
        m.r0
    } else if r == 1 {
        m.r1
    } else if r == 2 {
        m.r2
    } else {
        m.r3
    };
    (if c == 0 {
        row.x
    } else if c == 1 {
        row.y
    } else if c == 2 {
        row.z
    } else {
        row.w
    }) as int
}

/// Matrix of the load or product that was issued last.
pub open spec fn matrix(e: EngineModel) -> Mat4 {
    match e.ops.last() {
        GxOp::Load { m, .. } => m,
        GxOp::Multiply { m, .. } => m,
        _ => Mat4 {
            r0: Row { x: 0, y: 0, z: 0, w: 0 },
            r1: Row { x: 0, y: 0, z: 0, w: 0 },
            r2: Row { x: 0, y: 0, z: 0, w: 0 },
            r3: Row { x: 0, y: 0, z: 0, w: 0 },
        },
    }
}

/// Matrices arrive row by row: sixteen parameters fill four columns, twelve the
/// first three columns, nine the upper left corner; what is not given is as in the
/// identity. Scales stand on the diagonal and translations in the last row.
pub proof fn law_matrices_arrive_row_by_row(e: EngineModel, p: Seq<u32>, r: int, c: int, v: int)
    requires
        0 <= r < 4,
        0 <= c < 4,
        -0x8000_0000 <= v < 0x8000_0000,
        p.len() == 16,
    ensures
        p[4 * r + c] == v % 0x1_0000_0000 ==> entry(matrix(e.executed(0x16, p)), r, c) == v
            && entry(matrix(e.executed(0x18, p)), r, c) == v,
        c < 3 && p[3 * r + c] == v % 0x1_0000_0000 ==> entry(
            matrix(e.executed(0x17, p.take(12))),
            r,
            c,
        ) == v && entry(matrix(e.executed(0x19, p.take(12))), r, c) == v,
        c < 3 && r < 3 && p[3 * r + c] == v % 0x1_0000_0000 ==> entry(
            matrix(e.executed(0x1A, p.take(9))),
            r,
            c,
        ) == v,
        c == 3 && r < 3 ==> entry(matrix(e.executed(0x17, p.take(12))), r, c) == 0 && entry(
            matrix(e.executed(0x19, p.take(12))),
            r,
            c,
        ) == 0 && entry(matrix(e.executed(0x1A, p.take(9))), r, c) == 0,
        r == 3 && c < 3 ==> entry(matrix(e.executed(0x1A, p.take(9))), r, c) == 0,
        r == 3 && c == 3 ==> entry(matrix(e.executed(0x17, p.take(12))), r, c) == 4096 && entry(
            matrix(e.executed(0x1A, p.take(9))),
            r,
            c,
        ) == 4096 && entry(matrix(e.executed(0x19, p.take(12))), r, c) == 4096,
        r == c && r < 3 && p[r] == v % 0x1_0000_0000 ==> entry(
            matrix(e.executed(0x1B, p.take(3))),
            r,
            c,
        ) == v,
        r != c || r == 3 ==> entry(matrix(e.executed(0x1B, p.take(3))), r, c) == (if r == c {
            4096int
        } else {
            0
        }),
        r == 3 && c < 3 && p[c] == v % 0x1_0000_0000 ==> entry(
            matrix(e.executed(0x1C, p.take(3))),
            r,
            c,
        ) == v,
        r < 3 || c == 3 ==> entry(matrix(e.executed(0x1C, p.take(3))), r, c) == (if r == c {
            4096int
        } else {
            0
        }),
{
}

/// The matrix mode selects what matrix commands work on: projection, position,
/// position together with the vector matrix, or texture. Scales leave the vector
/// matrix alone.
pub proof fn law_mode_selects_the_matrix(e: EngineModel, w: u32, p: Seq<u32>)
    ensures
        ({
            let s = e.executed(0x10, seq![w]);
            let t = if w % 4 == 0 {
                MtxTarget::Projection
            } else if w % 4 == 3 {
                MtxTarget::Texture
            } else {
                MtxTarget::Position
            };
            &&& s.ops == e.ops
            &&& (s.executed(0x15, p).ops.last() matches GxOp::Identity { target } && target == t)
            &&& (s.executed(0x16, p).ops.last() matches GxOp::Load { target, with_vector, .. }
                && target == t && with_vector == (w % 4 == 2))
            &&& (s.executed(0x18, p).ops.last() matches GxOp::Multiply { target, with_vector, .. }
                && target == t && with_vector == (w % 4 == 2))
            &&& (s.executed(0x1C, p).ops.last() matches GxOp::Multiply { target, with_vector, .. }
                && target == t && with_vector == (w % 4 == 2))
            &&& (s.executed(0x1B, p).ops.last() matches GxOp::Multiply { target, with_vector, .. }
                && target == t && !with_vector)
        }),
{
}

/// What a push saves, a pop of one brings back: from the same place of the same
/// stack, with the pointer where it was.
pub proof fn law_pop_undoes_push(e: EngineModel)
    requires
        e.stack_ptr < 63,
    ensures
        ({
            let s = e.executed(0x11, Seq::empty());
            let t = s.executed(0x12, seq![1u32]);
            &&& t.stack_ptr == e.stack_ptr
            &&& match (s.ops.last(), t.ops.last()) {
                (
                    GxOp::Save { target: a, slot: i },
                    GxOp::Restore { target: b, slot: j },
                ) => a == b && i == j && i < 32,
                _ => false,
            }
        }),
{
}

/// Pushes one after the other save in places one after the other.
pub proof fn law_pushes_go_up(e: EngineModel)
    requires
        e.stack_ptr < 31,
        e.mtx_mode == 1 || e.mtx_mode == 2,
    ensures
        ({
            let s = e.executed(0x11, Seq::empty());
            let t = s.executed(0x11, Seq::empty());
            match (s.ops.last(), t.ops.last()) {
                (GxOp::Save { slot: i, .. }, GxOp::Save { slot: j, .. }) => i == e.stack_ptr && j
                    == i + 1,
                _ => false,
            }
        }),
{
}

/// Moving the stack pointer down and up again by the same count leaves it, and so
/// do a store and a restore that name the same place.
pub proof fn law_stack_places_are_named_alike(e: EngineModel, k: int, down: u32, up: u32, w: u32)
    requires
        1 <= k <= 31,
        k <= e.stack_ptr <= 63,
        e.mtx_mode == 1 || e.mtx_mode == 2,
        down == k,
        up == 64 - k,
    ensures
        e.executed(0x12, seq![down]).stack_ptr == e.stack_ptr - k,
        e.executed(0x12, seq![down]).executed(0x12, seq![up]).stack_ptr == e.stack_ptr,
        match (e.executed(0x13, seq![w]).ops.last(), e.executed(0x14, seq![w]).ops.last()) {
            (
                GxOp::Save { target: a, slot: i },
                GxOp::Restore { target: b, slot: j },
            ) => a == b && i == j && i == w % 32,
            _ => false,
        },
{
}

proof fn lemma_light(c: int, l: int, w: u32)
    requires
        0 <= c < 0x8000,
        0 <= l < 4,
        w == c + 0x4000_0000 * l,
    ensures
        w % 0x8000 == c,
        w / 0x4000_0000 == l,
{
}

/// A color made of red, green and blue comes out as those five bits each, red
/// lowest, and a light color goes to the light that was named.
pub proof fn law_colors_come_out(e: EngineModel, r: int, g: int, b: int, l: int, w: u32)
    requires
        0 <= r < 32,
        0 <= g < 32,
        0 <= b < 32,
        0 <= l < 4,
        w == r + 32 * g + 1024 * b + 0x4000_0000 * l,
    ensures
        e.executed(0x20, seq![w]).ops.last() matches GxOp::Color(c) && c == r + 32 * g + 1024 * b,
        e.executed(0x33, seq![w]).ops.last() matches GxOp::LightColor { light, color } && light == l
            && color == r + 32 * g + 1024 * b,
{
    lemma_light(r + 32 * g + 1024 * b, l, w);
}

/// The corners of the viewport come out: left, bottom, right, top.
pub proof fn law_viewport_corners_come_out(
    e: EngineModel,
    x1: int,
    y1: int,
    x2: int,
    y2: int,
    w: u32,
)
    requires
        0 <= x1 < 256,
        0 <= y1 < 256,
        0 <= x2 < 256,
        0 <= y2 < 256,
        w == x1 + 0x100 * y1 + 0x1_0000 * x2 + 0x100_0000 * y2,
    ensures
        e.executed(0x60, seq![w]).viewport == (x1 as u32, y1 as u32, x2 as u32, y2 as u32),
{
    bytes::law_compose_then_split(x1 as u8, y1 as u8, x2 as u8, y2 as u8);
    assert(w == bytes::le32(x1 as u8, y1 as u8, x2 as u8, y2 as u8));
}

/// Attributes take effect with the next primitive, texture and palette with the
/// next vertex.
pub proof fn law_attributes_wait_for_the_next_primitive(
    e: EngineModel,
    attr: u32,
    tex: u32,
    pal: u32,
    prim: u32,
    p: Seq<u32>,
)
    ensures
        ({
            let s = e.executed(0x29, seq![attr]).executed(0x2A, seq![tex]).executed(
                0x2B,
                seq![pal],
            );
            let before = s.executed(0x23, p).ops.last();
            let after = s.executed(0x40, seq![prim]).executed(0x23, p).ops.last();
            &&& (before matches GxOp::Vertex { attr: a, tex: t, pal: q, .. } && a
                == e.poly_attr_active && t == tex && q == pal % 0x2000)
            &&& (after matches GxOp::Vertex { attr: a, tex: t, pal: q, .. } && a == attr && t == tex
                && q == pal % 0x2000)
        }),
{
}

/// Four commands packed into a word run from the low byte up: with commands that
/// take no parameters, as if each had been sent by itself.
#[verifier::rlimit(40)]
#[verifier::spinoff_prover]
pub proof fn law_packed_commands_run_low_byte_first(g: GxModel, a: u8, b: u8, c: u8, d: u8, w: u32)
    requires
        g.fifo_params_left == 0,
        g.fifo_cmds.len() == 0,
        a != 0 && gx::spec_param_count(a) == Some(0u32),
        b != 0 && gx::spec_param_count(b) == Some(0u32),
        c != 0 && gx::spec_param_count(c) == Some(0u32),
        d != 0 && gx::spec_param_count(d) == Some(0u32),
        w == a + 0x100 * b + 0x1_0000 * c + 0x100_0000 * d,
    ensures
        g.with_fifo_word(w).engine == g.engine.executed(a, Seq::empty()).executed(
            b,
            Seq::empty(),
        ).executed(c, Seq::empty()).executed(d, Seq::empty()),
{
    bytes::law_compose_then_split(a, b, c, d);
    assert(w == bytes::le32(a, b, c, d));
    reveal_with_fuel(gx::packed_cmds, 5);
    assert(gx::packed_cmds(w, 0) =~= seq![a, b, c, d]);
    let s = GxModel {
        fifo_cmds: g.fifo_cmds + gx::packed_cmds(w, 0),
        unknown_cmds: gx::wrapped_plus(g.unknown_cmds, gx::packed_unknown(w, 0)),
        ..g
    };
    assert(s.fifo_cmds =~= seq![a, b, c, d]);
    assert(s.fifo_cmds =~= seq![a] + seq![b, c, d]);
    lemma_runs(s, a, seq![b, c, d]);
    let s1 = GxModel { fifo_cmds: seq![b, c, d], ..s }.committed(a, Seq::empty());
    assert(s1.fifo_cmds =~= seq![b] + seq![c, d]);
    lemma_runs(s1, b, seq![c, d]);
    let s2 = GxModel { fifo_cmds: seq![c, d], ..s1 }.committed(b, Seq::empty());
    assert(s2.fifo_cmds =~= seq![c] + seq![d]);
    lemma_runs(s2, c, seq![d]);
    let s3 = GxModel { fifo_cmds: seq![d], ..s2 }.committed(c, Seq::empty());
    assert(s3.fifo_cmds =~= seq![d] + Seq::<u8>::empty());
    lemma_runs(s3, d, Seq::empty());
}

proof fn lemma_runs(s: GxModel, a: u8, rest: Seq<u8>)
    requires
        gx::spec_param_count(a) == Some(0u32),
        s.fifo_cmds == seq![a] + rest,
    ensures
        s.fifo_advanced() == (GxModel { fifo_cmds: rest, ..s }).committed(
            a,
            Seq::empty(),
        ).fifo_advanced(),
{
    assert(s.fifo_cmds.subrange(1, s.fifo_cmds.len() as int) =~= rest);
}

/// State after several words written to the packed window.
pub open spec fn window_words(g: GxModel, ws: Seq<u32>) -> GxModel
    decreases ws.len(),
{
    if ws.len() == 0 {
        g
    } else {
        window_words(g, ws.drop_last()).with_fifo_word(ws.last())
    }
}

/// Between the commands of a packed word stand the parameters of each, in order: a
/// command with its parameters through the window does what it does through its port.
pub proof fn law_window_and_port_agree(g: GxModel, cmd: u8, ws: Seq<u32>)
    requires
        g.fifo_params_left == 0,
        g.fifo_cmds.len() == 0,
        g.port_params_left == 0,
        gx::spec_param_count(cmd) is Some,
        cmd != 0,
        ws.len() == gx::spec_param_count(cmd)->0,
        0 < ws.len() <= 16,
    ensures
        window_words(g.with_fifo_word(cmd as u32), ws).engine == gx::port_words(g, cmd, ws).engine,
        gx::port_words(g, cmd, ws).engine == g.engine.executed(cmd, ws),
{
    let need = gx::spec_param_count(cmd)->0;
    gx::law_port_group_executes_once(g, cmd, ws, need);
    bytes::law_compose_then_split(cmd, 0, 0, 0);
    assert(cmd as u32 == bytes::le32(cmd, 0, 0, 0));
    reveal_with_fuel(gx::packed_cmds, 5);
    assert(gx::packed_cmds(cmd as u32, 0) =~= seq![cmd]);
    let o = g.with_fifo_word(cmd as u32);
    assert((g.fifo_cmds + gx::packed_cmds(cmd as u32, 0)) =~= seq![cmd]);
    assert(o.fifo_cmds == seq![cmd] && o.fifo_params_left == need && o.fifo_params == Seq::<
        u32,
    >::empty() && o.engine == g.engine);
    let rest = ws.drop_last();
    lemma_window_collects(o, rest, need);
    let p = window_words(o, rest);
    assert(rest.push(ws.last()) =~= ws);
    let q = GxModel {
        fifo_cmds: p.fifo_cmds.subrange(1, 1),
        fifo_params: Seq::empty(),
        fifo_params_left: 0,
        ..p
    };
    assert(q.fifo_cmds =~= Seq::empty());
    assert(q.committed(cmd, ws).fifo_advanced().engine == q.engine.executed(cmd, ws));
}

proof fn lemma_window_collects(o: GxModel, ws: Seq<u32>, need: u32)
    requires
        o.fifo_params_left == need,
        o.fifo_params.len() == 0,
        ws.len() < need <= 16,
    ensures
        window_words(o, ws) == (GxModel {
            fifo_params: ws,
            fifo_params_left: (need - ws.len()) as u32,
            ..o
        }),
    decreases ws.len(),
{
    if ws.len() == 0 {
        assert(o.fifo_params =~= ws);
    } else {
        lemma_window_collects(o, ws.drop_last(), need);
        assert(ws.drop_last().push(ws.last()) =~= ws);
    }
}

} // verus!

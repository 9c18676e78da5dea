//! Geometry command stream: decoding of packed and port-written commands, the
//! integer state of the geometry engine, primitive assembly and texel fetches.
//!
//! Matrix products, lighting and rasterization are floating-point work. The
//! engine here turns each command into a `GxOp` that carries everything such a
//! back end needs, already decoded.

use vstd::prelude::*;
use crate::bytes;

pub mod laws;

verus! {

/// Decoded commands kept in the trace.
pub const TRACE_CAP: usize = 768;

/// Triangles accepted per frame.
pub const TRI_CAP: usize = 16384;

/// Parameter words kept per command.
pub const PARAM_CAP: usize = 16;

/// Texture and palette pairs kept.
pub const TEX_PAIR_CAP: usize = 64;

/// Pixels of the three-dimensional layer.
pub const FB_PIXELS: usize = 49152;

/// One, in the fixed-point format of the command stream.
pub const FX_ONE: i32 = 4096;

/// Parameter words of a command, none for a byte that is no command.
pub open spec fn spec_param_count(cmd: u8) -> Option<u32> {
    if cmd == 0x00 || cmd == 0x11 || cmd == 0x15 || cmd == 0x41 {
        Some(0)
    } else if cmd == 0x16 || cmd == 0x18 {
        Some(16)
    } else if cmd == 0x17 || cmd == 0x19 {
        Some(12)
    } else if cmd == 0x1A {
        Some(9)
    } else if cmd == 0x1B || cmd == 0x1C || cmd == 0x70 {
        Some(3)
    } else if cmd == 0x23 || cmd == 0x71 {
        Some(2)
    } else if cmd == 0x34 {
        Some(32)
    } else if cmd == 0x10 || 0x12 <= cmd <= 0x14 || 0x20 <= cmd <= 0x2B || 0x30 <= cmd <= 0x33
        || cmd == 0x40 || cmd == 0x50 || cmd == 0x60 || cmd == 0x72 {
        Some(1)
    } else {
        None
    }
}

/// Parameter words of a command, none for a byte that is no command.
pub fn param_count(cmd: u8) -> (n: Option<u32>)
    ensures
        n == spec_param_count(cmd),
        n is Some ==> n->0 <= 32,
{
    match cmd {
        0x00 => Some(0),
        0x10 => Some(1),
        0x11 => Some(0),
        0x12 => Some(1),
        0x13 => Some(1),
        0x14 => Some(1),
        0x15 => Some(0),
        0x16 => Some(16),
        0x17 => Some(12),
        0x18 => Some(16),
        0x19 => Some(12),
        0x1A => Some(9),
        0x1B => Some(3),
        0x1C => Some(3),
        0x20 => Some(1),
        0x21 => Some(1),
        0x22 => Some(1),
        0x23 => Some(2),
        0x24 => Some(1),
        0x25 => Some(1),
        0x26 => Some(1),
        0x27 => Some(1),
        0x28 => Some(1),
        0x29 => Some(1),
        0x2A => Some(1),
        0x2B => Some(1),
        0x30 => Some(1),
        0x31 => Some(1),
        0x32 => Some(1),
        0x33 => Some(1),
        0x34 => Some(32),
        0x40 => Some(1),
        0x41 => Some(0),
        0x50 => Some(1),
        0x60 => Some(1),
        0x70 => Some(3),
        0x71 => Some(2),
        0x72 => Some(1),
        _ => None,
    }
}

/// Name of a command, a question mark for a byte that is no command.
pub open spec fn spec_cmd_name(cmd: u8) -> Seq<char> {
    if cmd == 0x00 {
        "NOP"@
    } else if cmd == 0x10 {
        "MTX_MODE"@
    } else if cmd == 0x11 {
        "MTX_PUSH"@
    } else if cmd == 0x12 {
        "MTX_POP"@
    } else if cmd == 0x13 {
        "MTX_STORE"@
    } else if cmd == 0x14 {
        "MTX_RESTORE"@
    } else if cmd == 0x15 {
        "MTX_IDENTITY"@
    } else if cmd == 0x16 {
        "MTX_LOAD_4x4"@
    } else if cmd == 0x17 {
        "MTX_LOAD_4x3"@
    } else if cmd == 0x18 {
        "MTX_MULT_4x4"@
    } else if cmd == 0x19 {
        "MTX_MULT_4x3"@
    } else if cmd == 0x1A {
        "MTX_MULT_3x3"@
    } else if cmd == 0x1B {
        "MTX_SCALE"@
    } else if cmd == 0x1C {
        "MTX_TRANS"@
    } else if cmd == 0x20 {
        "COLOR"@
    } else if cmd == 0x21 {
        "NORMAL"@
    } else if cmd == 0x22 {
        "TEXCOORD"@
    } else if cmd == 0x23 {
        "VTX_16"@
    } else if cmd == 0x24 {
        "VTX_10"@
    } else if cmd == 0x25 {
        "VTX_XY"@
    } else if cmd == 0x26 {
        "VTX_XZ"@
    } else if cmd == 0x27 {
        "VTX_YZ"@
    } else if cmd == 0x28 {
        "VTX_DIFF"@
    } else if cmd == 0x29 {
        "POLYGON_ATTR"@
    } else if cmd == 0x2A {
        "TEXIMAGE_PARAM"@
    } else if cmd == 0x2B {
        "PLTT_BASE"@
    } else if cmd == 0x30 {
        "DIF_AMB"@
    } else if cmd == 0x31 {
        "SPE_EMI"@
    } else if cmd == 0x32 {
        "LIGHT_VECTOR"@
    } else if cmd == 0x33 {
        "LIGHT_COLOR"@
    } else if cmd == 0x34 {
        "SHININESS"@
    } else if cmd == 0x40 {
        "BEGIN_VTXS"@
    } else if cmd == 0x41 {
        "END_VTXS"@
    } else if cmd == 0x50 {
        "SWAP_BUFFERS"@
    } else if cmd == 0x60 {
        "VIEWPORT"@
    } else if cmd == 0x70 {
        "BOX_TEST"@
    } else if cmd == 0x71 {
        "POS_TEST"@
    } else if cmd == 0x72 {
        "VEC_TEST"@
    } else {
        "?"@
    }
}

/// Name of a command, a question mark for a byte that is no command.
pub fn cmd_name(cmd: u8) -> (s: &'static str)
    ensures
        s@ == spec_cmd_name(cmd),
{
    match cmd {
        0x00 => "NOP",
        0x10 => "MTX_MODE",
        0x11 => "MTX_PUSH",
        0x12 => "MTX_POP",
        0x13 => "MTX_STORE",
        0x14 => "MTX_RESTORE",
        0x15 => "MTX_IDENTITY",
        0x16 => "MTX_LOAD_4x4",
        0x17 => "MTX_LOAD_4x3",
        0x18 => "MTX_MULT_4x4",
        0x19 => "MTX_MULT_4x3",
        0x1A => "MTX_MULT_3x3",
        0x1B => "MTX_SCALE",
        0x1C => "MTX_TRANS",
        0x20 => "COLOR",
        0x21 => "NORMAL",
        0x22 => "TEXCOORD",
        0x23 => "VTX_16",
        0x24 => "VTX_10",
        0x25 => "VTX_XY",
        0x26 => "VTX_XZ",
        0x27 => "VTX_YZ",
        0x28 => "VTX_DIFF",
        0x29 => "POLYGON_ATTR",
        0x2A => "TEXIMAGE_PARAM",
        0x2B => "PLTT_BASE",
        0x30 => "DIF_AMB",
        0x31 => "SPE_EMI",
        0x32 => "LIGHT_VECTOR",
        0x33 => "LIGHT_COLOR",
        0x34 => "SHININESS",
        0x40 => "BEGIN_VTXS",
        0x41 => "END_VTXS",
        0x50 => "SWAP_BUFFERS",
        0x60 => "VIEWPORT",
        0x70 => "BOX_TEST",
        0x71 => "POS_TEST",
        0x72 => "VEC_TEST",
        _ => "?",
    }
}

/// Which matrix an operation works on.
#[derive(Clone, Copy, Debug, PartialEq, Eq, Structural)]
pub enum MtxTarget {
    Projection,
    Position,
    Texture,
}

/// One row of a matrix in fixed point.
#[derive(Clone, Copy, Debug, PartialEq, Eq, Structural)]
pub struct Row {
    pub x: i32,
    pub y: i32,
    pub z: i32,
    pub w: i32,
}

/// A matrix in fixed point, by rows.
#[derive(Clone, Copy, Debug, PartialEq, Eq, Structural)]
pub struct Mat4 {
    pub r0: Row,
    pub r1: Row,
    pub r2: Row,
    pub r3: Row,
}

/// A vertex component: given in fixed point, kept from the last vertex, or
/// added to it.
#[derive(Clone, Copy, Debug, PartialEq, Eq, Structural)]
pub enum Coord {
    Fixed(i32),
    Keep,
    Delta(i32),
}

/// What happens to the collected vertices after an arrival.
#[derive(Clone, Copy, Debug, PartialEq, Eq, Structural)]
pub enum Retain {
    All,
    Nothing,
    LastTwo,
}

/// Triangles that a vertex arrival completes, as indices into the collected
/// vertices.
#[derive(Clone, Copy, Debug, PartialEq, Eq, Structural)]
pub enum Completed {
    Zero,
    One(usize, usize, usize),
    Two(usize, usize, usize, usize, usize, usize),
}

/// One decoded operation for the floating-point back end.
#[derive(Clone, Copy, Debug, PartialEq, Eq, Structural)]
pub enum GxOp {
    /// Store the target matrix in a slot (position: with the vector matrix).
    Save { target: MtxTarget, slot: usize },
    /// Load the target matrix from a slot (position: with the vector matrix).
    Restore { target: MtxTarget, slot: usize },
    Identity { target: MtxTarget },
    Load { target: MtxTarget, with_vector: bool, m: Mat4 },
    Multiply { target: MtxTarget, with_vector: bool, m: Mat4 },
    Color(u16),
    /// Vertex lighting for a normal in units of 1/512.
    Normal { nx: i32, ny: i32, nz: i32, dif_amb: u32, spe_emi: u32, lights: u32 },
    LightVector { light: usize, lx: i32, ly: i32, lz: i32 },
    LightColor { light: usize, color: u16 },
    /// Texture coordinate in sixteenths of a texel.
    TexCoord { s: i32, t: i32, transformed: bool },
    Begin,
    Vertex {
        x: Coord,
        y: Coord,
        z: Coord,
        done: Completed,
        retain: Retain,
        attr: u32,
        tex: u32,
        pal: u32,
    },
    Swap { wbuffer: bool, x1: u32, y1: u32, x2: u32, y2: u32, clear: u16, raster: bool },
    /// The last swapped frame becomes the visible layer.
    Present,
}

/// Two's-complement value of a word.
pub open spec fn signed32(w: u32) -> i32 {
    (if w >= 0x8000_0000 {
        w - 0x1_0000_0000
    } else {
        w as int
    }) as i32
}

/// Two's-complement value of the low half of a word.
pub open spec fn signed16(w: u32) -> i32 {
    let h = w as int % 0x1_0000;
    (if h >= 0x8000 {
        h - 0x1_0000
    } else {
        h
    }) as i32
}

/// Two's-complement value of the low ten bits of a word.
pub open spec fn signed10(w: u32) -> i32 {
    let h = w as int % 0x400;
    (if h >= 0x200 {
        h - 0x400
    } else {
        h
    }) as i32
}

fn to_signed32(w: u32) -> (v: i32)
    ensures
        v == signed32(w),
{
    if w >= 0x8000_0000 {
        (w as i64 - 0x1_0000_0000) as i32
    } else {
        w as i32
    }
}

fn to_signed16(w: u32) -> (v: i32)
    ensures
        v == signed16(w),
        -0x8000 <= v < 0x8000,
{
    let h: i32 = (w % 0x1_0000) as i32;
    if h >= 0x8000 {
        h - 0x1_0000
    } else {
        h
    }
}

fn to_signed10(w: u32) -> (v: i32)
    ensures
        v == signed10(w),
        -0x200 <= v < 0x200,
{
    let h: i32 = (w % 0x400) as i32;
    if h >= 0x200 {
        h - 0x400
    } else {
        h
    }
}

/// Parameter `i`, or a default where the command carried fewer.
pub open spec fn param_or(p: Seq<u32>, i: int, default: u32) -> u32 {
    if i < p.len() {
        p[i]
    } else {
        default
    }
}

fn param(p: &Vec<u32>, i: usize, default: u32) -> (w: u32)
    ensures
        w == param_or(p@, i as int, default),
{
    if i < p.len() {
        p[i]
    } else {
        default
    }
}

/// Fixed-point parameter `i`, or a default.
pub open spec fn fixed_or(p: Seq<u32>, i: int, default: i32) -> i32 {
    if i < p.len() {
        signed32(p[i])
    } else {
        default
    }
}

fn fixed(p: &Vec<u32>, i: usize, default: i32) -> (v: i32)
    ensures
        v == fixed_or(p@, i as int, default),
{
    if i < p.len() {
        to_signed32(p[i])
    } else {
        default
    }
}

/// Matrix of sixteen parameters, four to a row.
pub open spec fn mat_4x4(p: Seq<u32>) -> Mat4 {
    Mat4 {
        r0: Row {
            x: fixed_or(p, 0, FX_ONE),
            y: fixed_or(p, 1, 0),
            z: fixed_or(p, 2, 0),
            w: fixed_or(p, 3, 0),
        },
        r1: Row {
            x: fixed_or(p, 4, 0),
            y: fixed_or(p, 5, FX_ONE),
            z: fixed_or(p, 6, 0),
            w: fixed_or(p, 7, 0),
        },
        r2: Row {
            x: fixed_or(p, 8, 0),
            y: fixed_or(p, 9, 0),
            z: fixed_or(p, 10, FX_ONE),
            w: fixed_or(p, 11, 0),
        },
        r3: Row {
            x: fixed_or(p, 12, 0),
            y: fixed_or(p, 13, 0),
            z: fixed_or(p, 14, 0),
            w: fixed_or(p, 15, FX_ONE),
        },
    }
}

/// Matrix of twelve parameters, three to a row; the last column is that of the
/// identity.
pub open spec fn mat_4x3(p: Seq<u32>) -> Mat4 {
    Mat4 {
        r0: Row {
            x: fixed_or(p, 0, FX_ONE),
            y: fixed_or(p, 1, 0),
            z: fixed_or(p, 2, 0),
            w: 0,
        },
        r1: Row {
            x: fixed_or(p, 3, 0),
            y: fixed_or(p, 4, FX_ONE),
            z: fixed_or(p, 5, 0),
            w: 0,
        },
        r2: Row {
            x: fixed_or(p, 6, 0),
            y: fixed_or(p, 7, 0),
            z: fixed_or(p, 8, FX_ONE),
            w: 0,
        },
        r3: Row {
            x: fixed_or(p, 9, 0),
            y: fixed_or(p, 10, 0),
            z: fixed_or(p, 11, 0),
            w: FX_ONE,
        },
    }
}

/// Matrix of nine parameters: the upper left three by three.
pub open spec fn mat_3x3(p: Seq<u32>) -> Mat4 {
    Mat4 { r3: Row { x: 0, y: 0, z: 0, w: FX_ONE }, ..mat_4x3(p) }
}

/// Scaling by three parameters.
pub open spec fn mat_scale(p: Seq<u32>) -> Mat4 {
    Mat4 {
        r0: Row { x: fixed_or(p, 0, FX_ONE), y: 0, z: 0, w: 0 },
        r1: Row { x: 0, y: fixed_or(p, 1, FX_ONE), z: 0, w: 0 },
        r2: Row { x: 0, y: 0, z: fixed_or(p, 2, FX_ONE), w: 0 },
        r3: Row { x: 0, y: 0, z: 0, w: FX_ONE },
    }
}

/// Translation by three parameters.
pub open spec fn mat_translate(p: Seq<u32>) -> Mat4 {
    Mat4 {
        r0: Row { x: FX_ONE, y: 0, z: 0, w: 0 },
        r1: Row { x: 0, y: FX_ONE, z: 0, w: 0 },
        r2: Row { x: 0, y: 0, z: FX_ONE, w: 0 },
        r3: Row { x: fixed_or(p, 0, 0), y: fixed_or(p, 1, 0), z: fixed_or(p, 2, 0), w: FX_ONE },
    }
}

fn read_4x4(p: &Vec<u32>) -> (m: Mat4)
    ensures
        m == mat_4x4(p@),
{
    Mat4 {
        r0: Row { x: fixed(p, 0, FX_ONE), y: fixed(p, 1, 0), z: fixed(p, 2, 0), w: fixed(p, 3, 0) },
        r1: Row { x: fixed(p, 4, 0), y: fixed(p, 5, FX_ONE), z: fixed(p, 6, 0), w: fixed(p, 7, 0) },
        r2: Row {
            x: fixed(p, 8, 0),
            y: fixed(p, 9, 0),
            z: fixed(p, 10, FX_ONE),
            w: fixed(p, 11, 0),
        },
        r3: Row {
            x: fixed(p, 12, 0),
            y: fixed(p, 13, 0),
            z: fixed(p, 14, 0),
            w: fixed(p, 15, FX_ONE),
        },
    }
}

fn read_4x3(p: &Vec<u32>) -> (m: Mat4)
    ensures
        m == mat_4x3(p@),
{
    Mat4 {
        r0: Row { x: fixed(p, 0, FX_ONE), y: fixed(p, 1, 0), z: fixed(p, 2, 0), w: 0 },
        r1: Row { x: fixed(p, 3, 0), y: fixed(p, 4, FX_ONE), z: fixed(p, 5, 0), w: 0 },
        r2: Row { x: fixed(p, 6, 0), y: fixed(p, 7, 0), z: fixed(p, 8, FX_ONE), w: 0 },
        r3: Row { x: fixed(p, 9, 0), y: fixed(p, 10, 0), z: fixed(p, 11, 0), w: FX_ONE },
    }
}

fn read_3x3(p: &Vec<u32>) -> (m: Mat4)
    ensures
        m == mat_3x3(p@),
{
    let mut m: Mat4 = read_4x3(p);
    m.r3 = Row { x: 0, y: 0, z: 0, w: FX_ONE };
    m
}

fn read_scale(p: &Vec<u32>) -> (m: Mat4)
    ensures
        m == mat_scale(p@),
{
    Mat4 {
        r0: Row { x: fixed(p, 0, FX_ONE), y: 0, z: 0, w: 0 },
        r1: Row { x: 0, y: fixed(p, 1, FX_ONE), z: 0, w: 0 },
        r2: Row { x: 0, y: 0, z: fixed(p, 2, FX_ONE), w: 0 },
        r3: Row { x: 0, y: 0, z: 0, w: FX_ONE },
    }
}

fn read_translate(p: &Vec<u32>) -> (m: Mat4)
    ensures
        m == mat_translate(p@),
{
    Mat4 {
        r0: Row { x: FX_ONE, y: 0, z: 0, w: 0 },
        r1: Row { x: 0, y: FX_ONE, z: 0, w: 0 },
        r2: Row { x: 0, y: 0, z: FX_ONE, w: 0 },
        r3: Row { x: fixed(p, 0, 0), y: fixed(p, 1, 0), z: fixed(p, 2, 0), w: FX_ONE },
    }
}

/// Triangles completed when the collected vertices reach `n` in number.
/// Triangles and quads start over when complete; strips reuse the last two
/// vertices, a triangle strip turning its winding with every triangle.
pub open spec fn completed(prim: u32, n: int, odd: bool) -> Completed {
    if prim == 0 && n == 3 {
        Completed::One(0, 1, 2)
    } else if prim == 1 && n == 4 {
        Completed::Two(0, 1, 2, 0, 2, 3)
    } else if prim == 2 && n >= 3 {
        if odd {
            Completed::One((n - 2) as usize, (n - 3) as usize, (n - 1) as usize)
        } else {
            Completed::One((n - 3) as usize, (n - 2) as usize, (n - 1) as usize)
        }
    } else if prim == 3 && n >= 4 && n % 2 == 0 {
        Completed::Two(
            (n - 4) as usize,
            (n - 3) as usize,
            (n - 1) as usize,
            (n - 4) as usize,
            (n - 1) as usize,
            (n - 2) as usize,
        )
    } else {
        Completed::Zero
    }
}

/// What stays collected after the arrival that made them `n`.
pub open spec fn retained(prim: u32, n: int) -> Retain {
    if prim == 0 && n == 3 || prim == 1 && n == 4 {
        Retain::Nothing
    } else if n > 128 && (prim == 2 || prim == 3 && n % 2 == 0) {
        Retain::LastTwo
    } else {
        Retain::All
    }
}

/// Number of vertices left.
pub open spec fn left_after(prim: u32, n: int) -> int {
    match retained(prim, n) {
        Retain::Nothing => 0,
        Retain::LastTwo => 2,
        Retain::All => n,
    }
}

/// Mathematical state of the engine.
pub struct EngineModel {
    pub mtx_mode: u32,
    pub stack_ptr: usize,
    pub prim: u32,
    pub strip_odd: bool,
    pub vert_count: usize,
    pub teximage: u32,
    pub pltt_base: u32,
    pub swap_pending: bool,
    pub unpresented: bool,
    pub swap_count: u32,
    pub wbuffer: bool,
    pub viewport: (u32, u32, u32, u32),
    pub dif_amb: u32,
    pub spe_emi: u32,
    pub poly_attr: u32,
    pub poly_attr_active: u32,
    pub clear_px: u16,
    pub tex_pairs: Seq<(u32, u32)>,
    pub zero_scale_count: u32,
    pub clipmtx: Seq<u32>,
    pub vecmtx: Seq<u32>,
    pub fb: Seq<u16>,
    pub ops: Seq<GxOp>,
    pub frame_tris: usize,
    pub tris_dropped: u32,
    pub max_tris_per_frame: usize,
    pub last_frame_tris: usize,
    pub last_culled: u32,
    pub attr_mode: Seq<u32>,
    pub attr_cull: Seq<u32>,
    pub fmt_tris: Seq<u32>,
}

impl EngineModel {
    pub open spec fn wf(self) -> bool {
        &&& self.prim < 4
        &&& self.stack_ptr <= 63
        &&& self.prim == 0 ==> self.vert_count < 3
        &&& self.prim == 1 ==> self.vert_count < 4
        &&& self.prim == 2 ==> self.vert_count <= 128
        &&& self.prim == 3 ==> self.vert_count <= 129
        &&& self.pltt_base < 0x2000
        &&& self.clipmtx.len() == 16
        &&& self.vecmtx.len() == 9
        &&& self.fb.len() == FB_PIXELS
        &&& self.attr_mode.len() == 4
        &&& self.attr_cull.len() == 4
        &&& self.fmt_tris.len() == 8
    }

    pub open spec fn fresh() -> EngineModel {
        EngineModel {
            mtx_mode: 0,
            stack_ptr: 0,
            prim: 0,
            strip_odd: false,
            vert_count: 0,
            teximage: 0,
            pltt_base: 0,
            swap_pending: false,
            unpresented: false,
            swap_count: 0,
            wbuffer: false,
            viewport: (0, 0, 255, 191),
            dif_amb: 0,
            spe_emi: 0,
            poly_attr: 0,
            poly_attr_active: 0,
            clear_px: 0,
            tex_pairs: Seq::empty(),
            zero_scale_count: 0,
            clipmtx: Seq::new(16, |i: int| 0u32),
            vecmtx: Seq::new(9, |i: int| 0u32),
            fb: Seq::new(FB_PIXELS as nat, |i: int| 0u16),
            ops: Seq::empty(),
            frame_tris: 0,
            tris_dropped: 0,
            max_tris_per_frame: 0,
            last_frame_tris: 0,
            last_culled: 0,
            attr_mode: Seq::new(4, |i: int| 0u32),
            attr_cull: Seq::new(4, |i: int| 0u32),
            fmt_tris: Seq::new(8, |i: int| 0u32),
        }
    }

    /// Matrix that the current mode works on.
    pub open spec fn target(self) -> MtxTarget {
        if self.mtx_mode == 0 {
            MtxTarget::Projection
        } else if self.mtx_mode == 3 {
            MtxTarget::Texture
        } else {
            MtxTarget::Position
        }
    }

    /// Whether the current mode carries the vector matrix along.
    pub open spec fn with_vector(self) -> bool {
        self.mtx_mode == 2
    }

    pub open spec fn issue(self, op: GxOp) -> EngineModel {
        EngineModel { ops: self.ops.push(op), ..self }
    }

    /// Slot that the stack pointer names; the projection and texture stacks
    /// have one.
    pub open spec fn top_slot(self) -> usize {
        if self.target() == MtxTarget::Position {
            (self.stack_ptr % 32) as usize
        } else {
            0
        }
    }

    /// Slot named by a parameter.
    pub open spec fn named_slot(self, w: u32) -> usize {
        if self.target() == MtxTarget::Position {
            (w % 32) as usize
        } else {
            0
        }
    }

    /// State after a push: store, then move the pointer up.
    pub open spec fn pushed(self) -> EngineModel {
        let s = self.issue(GxOp::Save { target: self.target(), slot: self.top_slot() });
        if self.target() == MtxTarget::Position && self.stack_ptr < 63 {
            EngineModel { stack_ptr: (self.stack_ptr + 1) as usize, ..s }
        } else {
            s
        }
    }

    /// Pointer after popping by a signed six-bit count, kept within 0 and 63.
    pub open spec fn popped_ptr(self, w: u32) -> usize {
        let h = w as int % 64;
        let n = if h >= 32 {
            h - 64
        } else {
            h
        };
        let p = self.stack_ptr - n;
        (if p < 0 {
            0
        } else if p > 63 {
            63
        } else {
            p
        }) as usize
    }

    /// State after a pop: move the pointer, then load.
    pub open spec fn popped(self, w: u32) -> EngineModel {
        if self.target() == MtxTarget::Position {
            let s = EngineModel { stack_ptr: self.popped_ptr(w), ..self };
            s.issue(GxOp::Restore { target: s.target(), slot: s.top_slot() })
        } else {
            self.issue(GxOp::Restore { target: self.target(), slot: 0 })
        }
    }

    pub open spec fn loaded(self, m: Mat4) -> EngineModel {
        self.issue(GxOp::Load { target: self.target(), with_vector: self.with_vector(), m })
    }

    pub open spec fn multiplied(self, m: Mat4, with_vector: bool) -> EngineModel {
        self.issue(GxOp::Multiply { target: self.target(), with_vector, m })
    }

    /// State after a vertex arrives.
    pub open spec fn with_vertex(self, x: Coord, y: Coord, z: Coord) -> EngineModel {
        let n = self.vert_count + 1;
        let s = self.issue(
            GxOp::Vertex {
                x,
                y,
                z,
                done: completed(self.prim, n, self.strip_odd),
                retain: retained(self.prim, n),
                attr: self.poly_attr_active,
                tex: self.teximage,
                pal: self.pltt_base,
            },
        );
        EngineModel {
            vert_count: left_after(self.prim, n) as usize,
            strip_odd: self.strip_odd != (self.prim == 2 && n >= 3),
            ..s
        }
    }

    /// State after a primitive begins: the attributes latch and the collection
    /// starts over.
    pub open spec fn begun(self, w: u32) -> EngineModel {
        let s = EngineModel {
            prim: w % 4,
            poly_attr_active: self.poly_attr,
            tex_pairs: if self.teximage != 0 && self.tex_pairs.len() < TEX_PAIR_CAP
                && !self.tex_pairs.contains((self.teximage, self.pltt_base)) {
                self.tex_pairs.push((self.teximage, self.pltt_base))
            } else {
                self.tex_pairs
            },
            vert_count: 0,
            strip_odd: false,
            ..self
        };
        s.issue(GxOp::Begin)
    }

    /// State after one command with its parameters.
    pub open spec fn executed(self, cmd: u8, p: Seq<u32>) -> EngineModel {
        let w = param_or(p, 0, 0);
        if cmd == 0x10 {
            EngineModel { mtx_mode: w % 4, ..self }
        } else if cmd == 0x11 {
            self.pushed()
        } else if cmd == 0x12 {
            self.popped(param_or(p, 0, 1))
        } else if cmd == 0x13 {
            self.issue(GxOp::Save { target: self.target(), slot: self.named_slot(w) })
        } else if cmd == 0x14 {
            self.issue(GxOp::Restore { target: self.target(), slot: self.named_slot(w) })
        } else if cmd == 0x15 {
            self.issue(GxOp::Identity { target: self.target() })
        } else if cmd == 0x16 {
            self.loaded(mat_4x4(p))
        } else if cmd == 0x17 {
            self.loaded(mat_4x3(p))
        } else if cmd == 0x18 {
            self.multiplied(mat_4x4(p), self.with_vector())
        } else if cmd == 0x19 {
            self.multiplied(mat_4x3(p), self.with_vector())
        } else if cmd == 0x1A {
            self.multiplied(mat_3x3(p), self.with_vector())
        } else if cmd == 0x1B {
            let s = if p.len() >= 3 && p[0] == 0 && p[1] == 0 && p[2] == 0 {
                EngineModel { zero_scale_count: self.zero_scale_count.wrapping_add(1), ..self }
            } else {
                self
            };
            s.multiplied(mat_scale(p), false)
        } else if cmd == 0x1C {
            self.multiplied(mat_translate(p), self.with_vector())
        } else if cmd == 0x20 {
            self.issue(GxOp::Color((w % 0x8000) as u16))
        } else if cmd == 0x21 {
            self.issue(
                GxOp::Normal {
                    nx: signed10(w),
                    ny: signed10(w / 0x400),
                    nz: signed10(w / 0x10_0000),
                    dif_amb: self.dif_amb,
                    spe_emi: self.spe_emi,
                    lights: self.poly_attr_active % 16,
                },
            )
        } else if cmd == 0x22 {
            self.issue(
                GxOp::TexCoord {
                    s: signed16(w),
                    t: signed16(w / 0x1_0000),
                    transformed: self.teximage / 0x4000_0000 == 1,
                },
            )
        } else if cmd == 0x23 {
            self.with_vertex(
                Coord::Fixed(signed16(w)),
                Coord::Fixed(signed16(w / 0x1_0000)),
                Coord::Fixed(signed16(param_or(p, 1, 0))),
            )
        } else if cmd == 0x24 {
            self.with_vertex(
                Coord::Fixed((signed10(w) * 64) as i32),
                Coord::Fixed((signed10(w / 0x400) * 64) as i32),
                Coord::Fixed((signed10(w / 0x10_0000) * 64) as i32),
            )
        } else if cmd == 0x25 {
            self.with_vertex(
                Coord::Fixed(signed16(w)),
                Coord::Fixed(signed16(w / 0x1_0000)),
                Coord::Keep,
            )
        } else if cmd == 0x26 {
            self.with_vertex(
                Coord::Fixed(signed16(w)),
                Coord::Keep,
                Coord::Fixed(signed16(w / 0x1_0000)),
            )
        } else if cmd == 0x27 {
            self.with_vertex(
                Coord::Keep,
                Coord::Fixed(signed16(w)),
                Coord::Fixed(signed16(w / 0x1_0000)),
            )
        } else if cmd == 0x28 {
            self.with_vertex(
                Coord::Delta(signed10(w)),
                Coord::Delta(signed10(w / 0x400)),
                Coord::Delta(signed10(w / 0x10_0000)),
            )
        } else if cmd == 0x29 {
            EngineModel { poly_attr: w, ..self }
        } else if cmd == 0x2A {
            EngineModel { teximage: w, ..self }
        } else if cmd == 0x2B {
            EngineModel { pltt_base: w % 0x2000, ..self }
        } else if cmd == 0x30 {
            let s = EngineModel { dif_amb: w, ..self };
            if w / 0x8000 % 2 == 1 {
                s.issue(GxOp::Color((w % 0x8000) as u16))
            } else {
                s
            }
        } else if cmd == 0x31 {
            EngineModel { spe_emi: w, ..self }
        } else if cmd == 0x32 {
            self.issue(
                GxOp::LightVector {
                    light: (w / 0x4000_0000) as usize,
                    lx: signed10(w),
                    ly: signed10(w / 0x400),
                    lz: signed10(w / 0x10_0000),
                },
            )
        } else if cmd == 0x33 {
            self.issue(
                GxOp::LightColor {
                    light: (w / 0x4000_0000) as usize,
                    color: (w % 0x8000) as u16,
                },
            )
        } else if cmd == 0x40 {
            self.begun(w)
        } else if cmd == 0x50 {
            EngineModel { wbuffer: w / 2 % 2 == 1, swap_pending: true, ..self }
        } else if cmd == 0x60 {
            EngineModel {
                viewport: (
                    bytes::byte_of(w, 0) as u32,
                    bytes::byte_of(w, 1) as u32,
                    bytes::byte_of(w, 2) as u32,
                    bytes::byte_of(w, 3) as u32,
                ),
                ..self
            }
        } else {
            self
        }
    }

    /// State after a pending swap is handed to the back end.
    pub open spec fn swapped(self, raster: bool) -> EngineModel {
        let s = EngineModel {
            swap_pending: false,
            unpresented: true,
            swap_count: self.swap_count.wrapping_add(1),
            ..self
        };
        s.issue(
            GxOp::Swap {
                wbuffer: self.wbuffer,
                x1: self.viewport.0,
                y1: self.viewport.1,
                x2: self.viewport.2,
                y2: self.viewport.3,
                clear: self.clear_px,
                raster,
            },
        )
    }

    /// State after the frame boundary: a new frame is presented.
    pub open spec fn presented(self) -> EngineModel {
        if self.unpresented {
            EngineModel { unpresented: false, ..self }.issue(GxOp::Present)
        } else {
            self
        }
    }

    /// Whether a polygon attribute draws the face that a triangle shows: bit 6
    /// draws back faces, bit 7 front faces.
    pub open spec fn draws_face(attr: u32, front: bool) -> bool {
        let cull = attr / 64 % 4;
        if cull == 0 {
            false
        } else if cull == 1 {
            !front
        } else if cull == 2 {
            front
        } else {
            true
        }
    }

    /// State after a triangle is submitted.
    pub open spec fn submitted(self, attr: u32, tex: u32, drawn: bool) -> EngineModel {
        if self.frame_tris >= TRI_CAP {
            EngineModel { tris_dropped: self.tris_dropped.wrapping_add(1), ..self }
        } else {
            let mode = attr as int / 16 % 4;
            let cull = attr as int / 64 % 4;
            let fmt = tex as int / 0x400_0000 % 8;
            let s = EngineModel {
                attr_mode: self.attr_mode.update(mode, self.attr_mode[mode].wrapping_add(1)),
                attr_cull: self.attr_cull.update(cull, self.attr_cull[cull].wrapping_add(1)),
                fmt_tris: self.fmt_tris.update(fmt, self.fmt_tris[fmt].wrapping_add(1)),
                ..self
            };
            if drawn {
                EngineModel { frame_tris: (self.frame_tris + 1) as usize, ..s }
            } else {
                EngineModel { last_culled: self.last_culled.wrapping_add(1), ..s }
            }
        }
    }

    /// State after the frame's triangles have been taken for rasterization.
    pub open spec fn frame_taken(self) -> EngineModel {
        EngineModel {
            max_tris_per_frame: if self.frame_tris > self.max_tris_per_frame {
                self.frame_tris
            } else {
                self.max_tris_per_frame
            },
            last_frame_tris: self.frame_tris,
            frame_tris: 0,
            ..self
        }
    }
}

/// Integer state of the geometry engine.
pub struct Gx3d {
    pub mtx_mode: u32,
    pub stack_ptr: usize,
    pub prim: u32,
    pub strip_odd: bool,
    pub vert_count: usize,
    pub teximage: u32,
    pub pltt_base: u32,
    /// A swap command waits to be handed on.
    pub swap_pending: bool,
    /// A swapped frame waits to be presented.
    pub unpresented: bool,
    pub swap_count: u32,
    pub wbuffer: bool,
    pub viewport: (u32, u32, u32, u32),
    pub dif_amb: u32,
    pub spe_emi: u32,
    pub poly_attr: u32,
    pub poly_attr_active: u32,
    /// Fill value of the layer; bit 15 marks it opaque.
    pub clear_px: u16,
    /// Texture and palette pairs seen when a primitive began.
    pub tex_pairs: Vec<(u32, u32)>,
    /// Scalings by zero in all three directions.
    pub zero_scale_count: u32,
    /// Result registers of the clip and vector matrices.
    pub clipmtx: [u32; 16],
    pub vecmtx: [u32; 9],
    /// The rendered layer; bit 15 marks an opaque pixel.
    pub fb: Vec<u16>,
    /// Operations not yet taken by the back end.
    pub ops: Vec<GxOp>,
    pub frame_tris: usize,
    pub tris_dropped: u32,
    pub max_tris_per_frame: usize,
    pub last_frame_tris: usize,
    pub last_culled: u32,
    /// Triangles per polygon mode, per culling field and per texture format.
    pub attr_mode: [u32; 4],
    pub attr_cull: [u32; 4],
    pub fmt_tris: [u32; 8],
}

impl View for Gx3d {
    type V = EngineModel;

    open spec fn view(&self) -> EngineModel {
        EngineModel {
            mtx_mode: self.mtx_mode,
            stack_ptr: self.stack_ptr,
            prim: self.prim,
            strip_odd: self.strip_odd,
            vert_count: self.vert_count,
            teximage: self.teximage,
            pltt_base: self.pltt_base,
            swap_pending: self.swap_pending,
            unpresented: self.unpresented,
            swap_count: self.swap_count,
            wbuffer: self.wbuffer,
            viewport: self.viewport,
            dif_amb: self.dif_amb,
            spe_emi: self.spe_emi,
            poly_attr: self.poly_attr,
            poly_attr_active: self.poly_attr_active,
            clear_px: self.clear_px,
            tex_pairs: self.tex_pairs@,
            zero_scale_count: self.zero_scale_count,
            clipmtx: self.clipmtx@,
            vecmtx: self.vecmtx@,
            fb: self.fb@,
            ops: self.ops@,
            frame_tris: self.frame_tris,
            tris_dropped: self.tris_dropped,
            max_tris_per_frame: self.max_tris_per_frame,
            last_frame_tris: self.last_frame_tris,
            last_culled: self.last_culled,
            attr_mode: self.attr_mode@,
            attr_cull: self.attr_cull@,
            fmt_tris: self.fmt_tris@,
        }
    }
}

impl Default for Gx3d {
    fn default() -> (r: Self)
        ensures
            r@ == EngineModel::fresh(),
            r@.wf(),
    {
        let r = Gx3d {
            mtx_mode: 0,
            stack_ptr: 0,
            prim: 0,
            strip_odd: false,
            vert_count: 0,
            teximage: 0,
            pltt_base: 0,
            swap_pending: false,
            unpresented: false,
            swap_count: 0,
            wbuffer: false,
            viewport: (0, 0, 255, 191),
            dif_amb: 0,
            spe_emi: 0,
            poly_attr: 0,
            poly_attr_active: 0,
            clear_px: 0,
            tex_pairs: Vec::new(),
            zero_scale_count: 0,
            clipmtx: [0u32; 16],
            vecmtx: [0u32; 9],
            fb: vec![0u16; FB_PIXELS],
            ops: Vec::new(),
            frame_tris: 0,
            tris_dropped: 0,
            max_tris_per_frame: 0,
            last_frame_tris: 0,
            last_culled: 0,
            attr_mode: [0u32; 4],
            attr_cull: [0u32; 4],
            fmt_tris: [0u32; 8],
        };
        assert(r@.clipmtx =~= EngineModel::fresh().clipmtx);
        assert(r@.vecmtx =~= EngineModel::fresh().vecmtx);
        assert(r@.fb =~= EngineModel::fresh().fb);
        assert(r@.attr_mode =~= EngineModel::fresh().attr_mode);
        assert(r@.attr_cull =~= EngineModel::fresh().attr_cull);
        assert(r@.fmt_tris =~= EngineModel::fresh().fmt_tris);
        r
    }
}

impl Gx3d {
    fn target(&self) -> (t: MtxTarget)
        ensures
            t == self@.target(),
    {
        if self.mtx_mode == 0 {
            MtxTarget::Projection
        } else if self.mtx_mode == 3 {
            MtxTarget::Texture
        } else {
            MtxTarget::Position
        }
    }

    fn issue(&mut self, op: GxOp)
        ensures
            final(self)@ == old(self)@.issue(op),
    {
        self.ops.push(op);
    }

    fn top_slot(&self) -> (n: usize)
        ensures
            n == self@.top_slot(),
    {
        if self.target() == MtxTarget::Position {
            self.stack_ptr % 32
        } else {
            0
        }
    }

    fn named_slot(&self, w: u32) -> (n: usize)
        ensures
            n == self@.named_slot(w),
    {
        if self.target() == MtxTarget::Position {
            (w % 32) as usize
        } else {
            0
        }
    }

    fn push(&mut self)
        requires
            old(self)@.wf(),
        ensures
            final(self)@ == old(self)@.pushed(),
            final(self)@.wf(),
    {
        let target: MtxTarget = self.target();
        let slot: usize = self.top_slot();
        self.issue(GxOp::Save { target, slot });
        if target == MtxTarget::Position && self.stack_ptr < 63 {
            self.stack_ptr = self.stack_ptr + 1;
        }
    }

    fn pop(&mut self, w: u32)
        requires
            old(self)@.wf(),
        ensures
            final(self)@ == old(self)@.popped(w),
            final(self)@.wf(),
    {
        let target: MtxTarget = self.target();
        if target == MtxTarget::Position {
            let h: i32 = (w % 64) as i32;
            let n: i32 = if h >= 32 { h - 64 } else { h };
            let p: i32 = self.stack_ptr as i32 - n;
            self.stack_ptr = if p < 0 {
                0
            } else if p > 63 {
                63
            } else {
                p as usize
            };
            let slot: usize = self.top_slot();
            self.issue(GxOp::Restore { target, slot });
        } else {
            self.issue(GxOp::Restore { target, slot: 0 });
        }
    }

    fn vertex(&mut self, x: Coord, y: Coord, z: Coord)
        requires
            old(self)@.wf(),
        ensures
            final(self)@ == old(self)@.with_vertex(x, y, z),
            final(self)@.wf(),
    {
        let n: usize = self.vert_count + 1;
        let mut done: Completed = Completed::Zero;
        let mut retain: Retain = Retain::All;
        let odd: bool = self.strip_odd;
        if self.prim == 0 {
            if n == 3 {
                done = Completed::One(0, 1, 2);
                retain = Retain::Nothing;
            }
        } else if self.prim == 1 {
            if n == 4 {
                done = Completed::Two(0, 1, 2, 0, 2, 3);
                retain = Retain::Nothing;
            }
        } else if self.prim == 2 {
            if n >= 3 {
                done = if odd {
                    Completed::One(n - 2, n - 3, n - 1)
                } else {
                    Completed::One(n - 3, n - 2, n - 1)
                };
                self.strip_odd = !odd;
                if n > 128 {
                    retain = Retain::LastTwo;
                }
            }
        } else if n >= 4 && n % 2 == 0 {
            done = Completed::Two(n - 4, n - 3, n - 1, n - 4, n - 1, n - 2);
            if n > 128 {
                retain = Retain::LastTwo;
            }
        }
        let attr: u32 = self.poly_attr_active;
        let tex: u32 = self.teximage;
        let pal: u32 = self.pltt_base;
        self.issue(GxOp::Vertex { x, y, z, done, retain, attr, tex, pal });
        self.vert_count = match retain {
            Retain::Nothing => 0,
            Retain::LastTwo => 2,
            Retain::All => n,
        };
    }

    fn knows_pair(&self) -> (b: bool)
        ensures
            b == self@.tex_pairs.contains((self@.teximage, self@.pltt_base)),
    {
        let mut i: usize = 0;
        while i < self.tex_pairs.len()
            invariant
                0 <= i <= self.tex_pairs@.len(),
                forall|k: int|
                    0 <= k < i ==> #[trigger] self.tex_pairs@[k] != (self.teximage, self.pltt_base),
            decreases self.tex_pairs@.len() - i,
        {
            let (tex, pal) = self.tex_pairs[i];
            if tex == self.teximage && pal == self.pltt_base {
                assert(self@.tex_pairs[i as int] == (self@.teximage, self@.pltt_base));
                return true;
            }
            i = i + 1;
        }
        false
    }

    fn begin(&mut self, w: u32)
        requires
            old(self)@.wf(),
        ensures
            final(self)@ == old(self)@.begun(w),
            final(self)@.wf(),
    {
        self.prim = w % 4;
        self.poly_attr_active = self.poly_attr;
        if self.teximage != 0 && self.tex_pairs.len() < TEX_PAIR_CAP && !self.knows_pair() {
            self.tex_pairs.push((self.teximage, self.pltt_base));
        }
        self.vert_count = 0;
        self.strip_odd = false;
        self.issue(GxOp::Begin);
    }

    fn exec_matrix(&mut self, cmd: u8, p: &Vec<u32>)
        requires
            old(self)@.wf(),
            0x10 <= cmd <= 0x1C,
        ensures
            final(self)@ == old(self)@.executed(cmd, p@),
            final(self)@.wf(),
    {
        let w: u32 = param(p, 0, 0);
        let target: MtxTarget = self.target();
        let with_vector: bool = self.mtx_mode == 2;
        match cmd {
            0x10 => {
                self.mtx_mode = w % 4;
            },
            0x11 => self.push(),
            0x12 => self.pop(param(p, 0, 1)),
            0x13 => {
                let slot: usize = self.named_slot(w);
                self.issue(GxOp::Save { target, slot });
            },
            0x14 => {
                let slot: usize = self.named_slot(w);
                self.issue(GxOp::Restore { target, slot });
            },
            0x15 => self.issue(GxOp::Identity { target }),
            0x16 => self.issue(GxOp::Load { target, with_vector, m: read_4x4(p) }),
            0x17 => self.issue(GxOp::Load { target, with_vector, m: read_4x3(p) }),
            0x18 => self.issue(GxOp::Multiply { target, with_vector, m: read_4x4(p) }),
            0x19 => self.issue(GxOp::Multiply { target, with_vector, m: read_4x3(p) }),
            0x1A => self.issue(GxOp::Multiply { target, with_vector, m: read_3x3(p) }),
            0x1B => {
                if p.len() >= 3 && p[0] == 0 && p[1] == 0 && p[2] == 0 {
                    self.zero_scale_count = self.zero_scale_count.wrapping_add(1);
                }
                self.issue(GxOp::Multiply { target, with_vector: false, m: read_scale(p) });
            },
            _ => self.issue(GxOp::Multiply { target, with_vector, m: read_translate(p) }),
        }
    }

    fn exec_vertex(&mut self, cmd: u8, p: &Vec<u32>)
        requires
            old(self)@.wf(),
            0x23 <= cmd <= 0x28,
        ensures
            final(self)@ == old(self)@.executed(cmd, p@),
            final(self)@.wf(),
    {
        let w: u32 = param(p, 0, 0);
        if cmd == 0x24 || cmd == 0x28 {
            let a: i32 = to_signed10(w);
            let b: i32 = to_signed10(w / 0x400);
            let c: i32 = to_signed10(w / 0x10_0000);
            if cmd == 0x24 {
                self.vertex(Coord::Fixed(a * 64), Coord::Fixed(b * 64), Coord::Fixed(c * 64));
            } else {
                self.vertex(Coord::Delta(a), Coord::Delta(b), Coord::Delta(c));
            }
        } else {
            let a: i32 = to_signed16(w);
            let b: i32 = to_signed16(w / 0x1_0000);
            if cmd == 0x23 {
                let c: i32 = to_signed16(param(p, 1, 0));
                self.vertex(Coord::Fixed(a), Coord::Fixed(b), Coord::Fixed(c));
            } else if cmd == 0x25 {
                self.vertex(Coord::Fixed(a), Coord::Fixed(b), Coord::Keep);
            } else if cmd == 0x26 {
                self.vertex(Coord::Fixed(a), Coord::Keep, Coord::Fixed(b));
            } else {
                self.vertex(Coord::Keep, Coord::Fixed(a), Coord::Fixed(b));
            }
        }
    }

    /// Executes one command: updates the registers and issues the operation
    /// that the back end performs.
    pub fn exec(&mut self, cmd: u8, p: &Vec<u32>)
        requires
            old(self)@.wf(),
        ensures
            final(self)@ == old(self)@.executed(cmd, p@),
            final(self)@.wf(),
    {
        if cmd >= 0x10 && cmd <= 0x1C {
            self.exec_matrix(cmd, p);
            return;
        }
        if cmd >= 0x23 && cmd <= 0x28 {
            self.exec_vertex(cmd, p);
            return;
        }
        let w: u32 = param(p, 0, 0);
        match cmd {
            0x20 => self.issue(GxOp::Color((w % 0x8000) as u16)),
            0x21 => {
                let op: GxOp = GxOp::Normal {
                    nx: to_signed10(w),
                    ny: to_signed10(w / 0x400),
                    nz: to_signed10(w / 0x10_0000),
                    dif_amb: self.dif_amb,
                    spe_emi: self.spe_emi,
                    lights: self.poly_attr_active % 16,
                };
                self.issue(op);
            },
            0x22 => {
                let op: GxOp = GxOp::TexCoord {
                    s: to_signed16(w),
                    t: to_signed16(w / 0x1_0000),
                    transformed: self.teximage / 0x4000_0000 == 1,
                };
                self.issue(op);
            },
            0x29 => {
                self.poly_attr = w;
            },
            0x2A => {
                self.teximage = w;
            },
            0x2B => {
                self.pltt_base = w % 0x2000;
            },
            0x30 => {
                self.dif_amb = w;
                if w / 0x8000 % 2 == 1 {
                    self.issue(GxOp::Color((w % 0x8000) as u16));
                }
            },
            0x31 => {
                self.spe_emi = w;
            },
            0x32 => {
                let op: GxOp = GxOp::LightVector {
                    light: (w / 0x4000_0000) as usize,
                    lx: to_signed10(w),
                    ly: to_signed10(w / 0x400),
                    lz: to_signed10(w / 0x10_0000),
                };
                self.issue(op);
            },
            0x33 => {
                let op: GxOp = GxOp::LightColor {
                    light: (w / 0x4000_0000) as usize,
                    color: (w % 0x8000) as u16,
                };
                self.issue(op);
            },
            0x40 => self.begin(w),
            0x50 => {
                self.wbuffer = w / 2 % 2 == 1;
                self.swap_pending = true;
            },
            0x60 => {
                self.viewport = (
                    bytes::get_byte(w, 0) as u32,
                    bytes::get_byte(w, 1) as u32,
                    bytes::get_byte(w, 2) as u32,
                    bytes::get_byte(w, 3) as u32,
                );
            },
            _ => {},
        }
    }

    /// Hands a pending swap to the back end.
    pub fn swap_buffers(&mut self, raster: bool)
        requires
            old(self)@.wf(),
        ensures
            final(self)@ == old(self)@.swapped(raster),
            final(self)@.wf(),
    {
        let op: GxOp = GxOp::Swap {
            wbuffer: self.wbuffer,
            x1: self.viewport.0,
            y1: self.viewport.1,
            x2: self.viewport.2,
            y2: self.viewport.3,
            clear: self.clear_px,
            raster,
        };
        self.swap_pending = false;
        self.unpresented = true;
        self.swap_count = self.swap_count.wrapping_add(1);
        self.issue(op);
    }

    /// Presents the last swapped frame, if there is a new one. The display calls
    /// this at the frame boundary, so a layer never changes while it is scanned
    /// out.
    pub fn present(&mut self)
        requires
            old(self)@.wf(),
        ensures
            final(self)@ == old(self)@.presented(),
            final(self)@.wf(),
    {
        if self.unpresented {
            self.unpresented = false;
            self.issue(GxOp::Present);
        }
    }

    /// Decides whether a completed triangle enters the frame, `front` saying
    /// which face it shows. With culling off every face is drawn.
    pub fn submit_triangle(&mut self, attr: u32, tex: u32, front: bool, cull_off: bool) -> (b: bool)
        requires
            old(self)@.wf(),
        ensures
            b == (old(self)@.frame_tris < TRI_CAP && (cull_off || EngineModel::draws_face(
                attr,
                front,
            ))),
            final(self)@ == old(self)@.submitted(
                attr,
                tex,
                cull_off || EngineModel::draws_face(attr, front),
            ),
            final(self)@.wf(),
    {
        if self.frame_tris >= TRI_CAP {
            self.tris_dropped = self.tris_dropped.wrapping_add(1);
            return false;
        }
        let mode: usize = (attr / 16 % 4) as usize;
        let cull: usize = (attr / 64 % 4) as usize;
        let fmt: usize = (tex / 0x400_0000 % 8) as usize;
        self.attr_mode[mode] = self.attr_mode[mode].wrapping_add(1);
        self.attr_cull[cull] = self.attr_cull[cull].wrapping_add(1);
        self.fmt_tris[fmt] = self.fmt_tris[fmt].wrapping_add(1);
        let face: bool = match cull {
            0 => false,
            1 => !front,
            2 => front,
            _ => true,
        };
        if cull_off || face {
            self.frame_tris = self.frame_tris + 1;
            true
        } else {
            self.last_culled = self.last_culled.wrapping_add(1);
            false
        }
    }

    /// Closes the frame: its triangles go to rasterization.
    pub fn take_frame(&mut self)
        requires
            old(self)@.wf(),
        ensures
            final(self)@ == old(self)@.frame_taken(),
            final(self)@.wf(),
    {
        if self.frame_tris > self.max_tris_per_frame {
            self.max_tris_per_frame = self.frame_tris;
        }
        self.last_frame_tris = self.frame_tris;
        self.frame_tris = 0;
    }

    /// Takes every operation issued so far.
    pub fn take_ops(&mut self) -> (ops: Vec<GxOp>)
        requires
            old(self)@.wf(),
        ensures
            ops@ == old(self)@.ops,
            final(self)@ == (EngineModel { ops: Seq::empty(), ..old(self)@ }),
            final(self)@.wf(),
    {
        let mut ops: Vec<GxOp> = Vec::new();
        std::mem::swap(&mut ops, &mut self.ops);
        ops
    }

    /// Word `i` of the clip matrix result.
    pub fn clipmtx_word(&self, i: usize) -> (w: u32)
        requires
            i < 16,
        ensures
            w == self@.clipmtx[i as int],
    {
        self.clipmtx[i]
    }

    /// Word `i` of the vector matrix result.
    pub fn vecmtx_word(&self, i: usize) -> (w: u32)
        requires
            i < 9,
        ensures
            w == self@.vecmtx[i as int],
    {
        self.vecmtx[i]
    }

    /// Sets the clear value from the clear-color register: transparent for
    /// alpha zero.
    pub fn set_clear_color(&mut self, val: u32)
        requires
            old(self)@.wf(),
        ensures
            final(self)@ == (EngineModel { clear_px: clear_color(val), ..old(self)@ }),
            final(self)@.wf(),
    {
        self.clear_px = if val / 0x1_0000 % 32 != 0 {
            (val % 0x8000) as u16 + 0x8000
        } else {
            0
        };
    }
}

/// Clear value for a clear-color register: the color, opaque, unless alpha is
/// zero.
pub open spec fn clear_color(val: u32) -> u16 {
    if val / 0x1_0000 % 32 != 0 {
        (val % 0x8000 + 0x8000) as u16
    } else {
        0
    }
}

/// Mathematical state of the decoder.
pub struct GxModel {
    pub histo: Seq<u32>,
    pub unknown_cmds: u32,
    pub tex_fmt_histo: Seq<u32>,
    pub begin_histo: Seq<u32>,
    pub trace: Seq<(u8, Seq<u32>)>,
    pub trace_on: bool,
    pub engine: EngineModel,
    pub fifo_cmds: Seq<u8>,
    pub fifo_params_left: u32,
    pub fifo_params: Seq<u32>,
    pub port_cmd: u8,
    pub port_params_left: u32,
    pub port_params: Seq<u32>,
}

/// `s` with entry `i` counted up.
pub open spec fn bumped(s: Seq<u32>, i: int) -> Seq<u32> {
    s.update(i, s[i].wrapping_add(1))
}

/// Parameters with one more word, none beyond the sixteenth.
pub open spec fn with_param(p: Seq<u32>, w: u32) -> Seq<u32> {
    if p.len() < PARAM_CAP {
        p.push(w)
    } else {
        p
    }
}

/// Commands of a packed word among bytes `from..4`, low byte first; zero bytes
/// are filler and bytes that are no command are skipped.
pub open spec fn packed_cmds(val: u32, from: int) -> Seq<u8>
    decreases 4 - from,
{
    if from >= 4 {
        Seq::empty()
    } else {
        let b = bytes::byte_of(val, from);
        if b != 0 && spec_param_count(b) is Some {
            seq![b] + packed_cmds(val, from + 1)
        } else {
            packed_cmds(val, from + 1)
        }
    }
}

/// How many of bytes `from..4` are neither filler nor a command.
pub open spec fn packed_unknown(val: u32, from: int) -> int
    decreases 4 - from,
{
    if from >= 4 {
        0
    } else {
        let b = bytes::byte_of(val, from);
        packed_unknown(val, from + 1) + (if b != 0 && spec_param_count(b) is None {
            1int
        } else {
            0
        })
    }
}

/// Sum of the first `n` counts.
pub open spec fn count_sum(s: Seq<u32>, n: int) -> int
    decreases n,
{
    if n <= 0 {
        0
    } else {
        count_sum(s, n - 1) + s[n - 1]
    }
}

impl GxModel {
    pub open spec fn wf(self) -> bool {
        &&& self.histo.len() == 128
        &&& self.tex_fmt_histo.len() == 8
        &&& self.begin_histo.len() == 4
        &&& self.engine.wf()
        &&& self.fifo_params_left > 0 ==> self.fifo_cmds.len() > 0
    }

    pub open spec fn fresh() -> GxModel {
        GxModel {
            histo: Seq::new(128, |i: int| 0u32),
            unknown_cmds: 0,
            tex_fmt_histo: Seq::new(8, |i: int| 0u32),
            begin_histo: Seq::new(4, |i: int| 0u32),
            trace: Seq::empty(),
            trace_on: true,
            engine: EngineModel::fresh(),
            fifo_cmds: Seq::empty(),
            fifo_params_left: 0,
            fifo_params: Seq::empty(),
            port_cmd: 0,
            port_params_left: 0,
            port_params: Seq::empty(),
        }
    }

    /// State after a command with its parameters is complete.
    pub open spec fn committed(self, cmd: u8, p: Seq<u32>) -> GxModel {
        let w = param_or(p, 0, 0);
        GxModel {
            histo: bumped(self.histo, cmd as int % 128),
            tex_fmt_histo: if cmd == 0x2A {
                bumped(self.tex_fmt_histo, w as int / 0x400_0000 % 8)
            } else {
                self.tex_fmt_histo
            },
            begin_histo: if cmd == 0x40 {
                bumped(self.begin_histo, w as int % 4)
            } else {
                self.begin_histo
            },
            trace: if self.trace_on && self.trace.len() < TRACE_CAP {
                self.trace.push((cmd, p))
            } else {
                self.trace
            },
            engine: self.engine.executed(cmd, p),
            ..self
        }
    }

    /// State once every leading command without parameters has run and the
    /// first that needs some waits for them.
    pub open spec fn fifo_advanced(self) -> GxModel
        decreases self.fifo_cmds.len(),
    {
        if self.fifo_cmds.len() == 0 {
            GxModel { fifo_params_left: 0, ..self }
        } else {
            let cmd = self.fifo_cmds[0];
            let need = match spec_param_count(cmd) {
                Some(n) => n,
                None => 0,
            };
            if need == 0 {
                let s = GxModel {
                    fifo_cmds: self.fifo_cmds.subrange(1, self.fifo_cmds.len() as int),
                    ..self
                };
                s.committed(cmd, Seq::empty()).fifo_advanced()
            } else {
                GxModel { fifo_params_left: need, fifo_params: Seq::empty(), ..self }
            }
        }
    }

    /// State after a word written to the packed window: the next parameter of
    /// the waiting command, or up to four new commands.
    pub open spec fn with_fifo_word(self, val: u32) -> GxModel {
        if self.fifo_params_left > 0 {
            let s = GxModel {
                fifo_params: with_param(self.fifo_params, val),
                fifo_params_left: (self.fifo_params_left - 1) as u32,
                ..self
            };
            if s.fifo_params_left == 0 {
                GxModel {
                    fifo_cmds: s.fifo_cmds.subrange(1, s.fifo_cmds.len() as int),
                    fifo_params: Seq::empty(),
                    ..s
                }.committed(s.fifo_cmds[0], s.fifo_params).fifo_advanced()
            } else {
                s
            }
        } else if val == 0 {
            self.committed(0, Seq::empty())
        } else {
            GxModel {
                fifo_cmds: self.fifo_cmds + packed_cmds(val, 0),
                unknown_cmds: wrapped_plus(self.unknown_cmds, packed_unknown(val, 0)),
                ..self
            }.fifo_advanced()
        }
    }

    /// State after a word written to a command port. Each write carries one
    /// parameter; another command in between abandons the group.
    pub open spec fn with_port_word(self, cmd: u8, val: u32) -> GxModel {
        match spec_param_count(cmd) {
            None => GxModel { unknown_cmds: self.unknown_cmds.wrapping_add(1), ..self },
            Some(need) => if need == 0 {
                self.committed(cmd, Seq::empty())
            } else {
                let s = if self.port_params_left > 0 && self.port_cmd == cmd {
                    GxModel {
                        port_params: with_param(self.port_params, val),
                        port_params_left: (self.port_params_left - 1) as u32,
                        ..self
                    }
                } else {
                    GxModel {
                        port_cmd: cmd,
                        port_params: seq![val],
                        port_params_left: (need - 1) as u32,
                        ..self
                    }
                };
                if s.port_params_left == 0 {
                    GxModel { port_params: Seq::empty(), ..s }.committed(cmd, s.port_params)
                } else {
                    s
                }
            },
        }
    }
}

/// `a + n` wrapped into a word.
pub open spec fn wrapped_plus(a: u32, n: int) -> u32 {
    ((a + n) % 0x1_0000_0000) as u32
}

/// Decoder of the two command inputs.
pub struct GxDecoder {
    /// Commands seen, by command byte.
    pub histo: [u32; 128],
    /// Bytes on the packed input, and ports, that are no command.
    pub unknown_cmds: u32,
    /// Texture formats selected.
    pub tex_fmt_histo: [u32; 8],
    /// Primitive types begun.
    pub begin_histo: [u32; 4],
    /// First commands decoded while `trace_on`, with their parameters.
    pub trace: Vec<(u8, Vec<u32>)>,
    pub trace_on: bool,
    pub engine: Gx3d,
    pub fifo_cmds: Vec<u8>,
    pub fifo_params_left: u32,
    pub fifo_params: Vec<u32>,
    pub port_cmd: u8,
    pub port_params_left: u32,
    pub port_params: Vec<u32>,
}

/// Contents of a trace.
pub open spec fn trace_view(t: Seq<(u8, Vec<u32>)>) -> Seq<(u8, Seq<u32>)> {
    Seq::new(t.len(), |i: int| (t[i].0, t[i].1@))
}

impl View for GxDecoder {
    type V = GxModel;

    open spec fn view(&self) -> GxModel {
        GxModel {
            histo: self.histo@,
            unknown_cmds: self.unknown_cmds,
            tex_fmt_histo: self.tex_fmt_histo@,
            begin_histo: self.begin_histo@,
            trace: trace_view(self.trace@),
            trace_on: self.trace_on,
            engine: self.engine@,
            fifo_cmds: self.fifo_cmds@,
            fifo_params_left: self.fifo_params_left,
            fifo_params: self.fifo_params@,
            port_cmd: self.port_cmd,
            port_params_left: self.port_params_left,
            port_params: self.port_params@,
        }
    }
}

impl Default for GxDecoder {
    fn default() -> (r: Self)
        ensures
            r@ == GxModel::fresh(),
    {
        GxDecoder::new()
    }
}

impl GxDecoder {
    pub fn new() -> (r: Self)
        ensures
            r@ == GxModel::fresh(),
            r@.wf(),
    {
        let r = GxDecoder {
            histo: [0u32; 128],
            unknown_cmds: 0,
            tex_fmt_histo: [0u32; 8],
            begin_histo: [0u32; 4],
            trace: Vec::new(),
            trace_on: true,
            engine: Gx3d::default(),
            fifo_cmds: Vec::new(),
            fifo_params_left: 0,
            fifo_params: Vec::new(),
            port_cmd: 0,
            port_params_left: 0,
            port_params: Vec::new(),
        };
        assert(r@.histo =~= GxModel::fresh().histo);
        assert(r@.tex_fmt_histo =~= GxModel::fresh().tex_fmt_histo);
        assert(r@.begin_histo =~= GxModel::fresh().begin_histo);
        assert(r@.trace =~= GxModel::fresh().trace);
        r
    }

    /// Texture parameters last selected.
    pub fn teximage(&self) -> (w: u32)
        ensures
            w == self@.engine.teximage,
    {
        self.engine.teximage
    }

    /// Scalings by zero seen.
    pub fn zero_scale_count(&self) -> (n: u32)
        ensures
            n == self@.engine.zero_scale_count,
    {
        self.engine.zero_scale_count
    }

    /// Whether a swap waits to be handed on.
    pub fn swap_pending(&self) -> (b: bool)
        ensures
            b == self@.engine.swap_pending,
    {
        self.engine.swap_pending
    }

    /// Hands a pending swap to the back end.
    pub fn swap_buffers(&mut self, raster: bool)
        requires
            old(self)@.wf(),
        ensures
            final(self)@ == (GxModel { engine: old(self)@.engine.swapped(raster), ..old(self)@ }),
            final(self)@.wf(),
    {
        self.engine.swap_buffers(raster);
    }

    /// Presents the last swapped frame, if there is a new one.
    pub fn present(&mut self)
        requires
            old(self)@.wf(),
        ensures
            final(self)@ == (GxModel { engine: old(self)@.engine.presented(), ..old(self)@ }),
            final(self)@.wf(),
    {
        self.engine.present();
    }

    /// Sets the clear value from the clear-color register.
    pub fn set_clear_color(&mut self, val: u32)
        requires
            old(self)@.wf(),
        ensures
            final(self)@ == (GxModel {
                engine: EngineModel { clear_px: clear_color(val), ..old(self)@.engine },
                ..old(self)@
            }),
            final(self)@.wf(),
    {
        self.engine.set_clear_color(val);
    }

    /// Word `i` of the clip matrix result.
    pub fn clipmtx_word(&self, i: usize) -> (w: u32)
        requires
            i < 16,
        ensures
            w == self@.engine.clipmtx[i as int],
    {
        self.engine.clipmtx_word(i)
    }

    /// Word `i` of the vector matrix result.
    pub fn vecmtx_word(&self, i: usize) -> (w: u32)
        requires
            i < 9,
        ensures
            w == self@.engine.vecmtx[i as int],
    {
        self.engine.vecmtx_word(i)
    }

    /// Pixel `i` of the rendered layer.
    pub fn layer_pixel(&self, i: usize) -> (p: u16)
        requires
            self@.wf(),
            i < FB_PIXELS,
        ensures
            p == self@.engine.fb[i as int],
    {
        self.engine.fb[i]
    }

    /// Commands seen altogether.
    pub fn total(&self) -> (n: u64)
        ensures
            n == count_sum(self@.histo, 128),
    {
        let mut n: u64 = 0;
        let mut i: usize = 0;
        while i < 128
            invariant
                0 <= i <= 128,
                n == count_sum(self@.histo, i as int),
                n <= 0xFFFF_FFFF * i,
            decreases 128 - i,
        {
            n = n + self.histo[i] as u64;
            i = i + 1;
        }
        n
    }

    fn commit(&mut self, cmd: u8, params: Vec<u32>)
        requires
            old(self)@.wf(),
        ensures
            final(self)@ == old(self)@.committed(cmd, params@),
            old(self)@.fifo_params_left == 0 ==> final(self)@.wf(),
            final(self)@.engine.wf(),
    {
        let ghost t0 = self.trace@;
        let h: usize = (cmd % 128) as usize;
        self.histo[h] = self.histo[h].wrapping_add(1);
        let w: u32 = param(&params, 0, 0);
        if cmd == 0x2A {
            let f: usize = (w / 0x400_0000 % 8) as usize;
            self.tex_fmt_histo[f] = self.tex_fmt_histo[f].wrapping_add(1);
        } else if cmd == 0x40 {
            let b: usize = (w % 4) as usize;
            self.begin_histo[b] = self.begin_histo[b].wrapping_add(1);
        }
        if self.trace_on && self.trace.len() < TRACE_CAP {
            self.trace.push((cmd, bytes::copied(&params)));
            assert(trace_view(self.trace@) =~= trace_view(t0).push((cmd, params@)));
        }
        self.engine.exec(cmd, &params);
    }

    fn fifo_advance(&mut self)
        requires
            old(self)@.engine.wf(),
            old(self)@.histo.len() == 128,
            old(self)@.tex_fmt_histo.len() == 8,
            old(self)@.begin_histo.len() == 4,
            old(self)@.fifo_params_left == 0,
        ensures
            final(self)@ == old(self)@.fifo_advanced(),
            final(self)@.wf(),
        decreases old(self)@.fifo_cmds.len(),
    {
        if self.fifo_cmds.len() == 0 {
            return;
        }
        let cmd: u8 = self.fifo_cmds[0];
        let need: u32 = match param_count(cmd) {
            Some(n) => n,
            None => 0,
        };
        if need == 0 {
            let ghost c0 = self.fifo_cmds@;
            let _done: u8 = self.fifo_cmds.remove(0);
            assert(self.fifo_cmds@ =~= c0.subrange(1, c0.len() as int));
            let none: Vec<u32> = Vec::new();
            self.commit(cmd, none);
            self.fifo_advance();
        } else {
            self.fifo_params_left = need;
            self.fifo_params = Vec::new();
        }
    }

    /// A word written to the packed window.
    pub fn push_fifo_word(&mut self, val: u32)
        requires
            old(self)@.wf(),
        ensures
            final(self)@ == old(self)@.with_fifo_word(val),
            final(self)@.wf(),
    {
        if self.fifo_params_left > 0 {
            if self.fifo_params.len() < PARAM_CAP {
                self.fifo_params.push(val);
            }
            self.fifo_params_left = self.fifo_params_left - 1;
            if self.fifo_params_left == 0 {
                let ghost c0 = self.fifo_cmds@;
                let cmd: u8 = self.fifo_cmds.remove(0);
                assert(self.fifo_cmds@ =~= c0.subrange(1, c0.len() as int));
                let mut params: Vec<u32> = Vec::new();
                std::mem::swap(&mut params, &mut self.fifo_params);
                self.commit(cmd, params);
                self.fifo_advance();
            }
            return;
        }
        if val == 0 {
            let none: Vec<u32> = Vec::new();
            self.commit(0x00, none);
            return;
        }
        let ghost g0 = self@;
        let mut i: u32 = 0;
        proof {
            lemma_unknown_bounds(val, 0);
        }
        while i < 4
            invariant
                0 <= i <= 4,
                g0 == old(self)@,
                g0.wf(),
                g0.fifo_params_left == 0,
                self@ == (GxModel {
                    fifo_cmds: self@.fifo_cmds,
                    unknown_cmds: self@.unknown_cmds,
                    ..g0
                }),
                g0.fifo_cmds + packed_cmds(val, 0) == self@.fifo_cmds + packed_cmds(val, i as int),
                wrapped_plus(g0.unknown_cmds, packed_unknown(val, 0)) == wrapped_plus(
                    self@.unknown_cmds,
                    packed_unknown(val, i as int),
                ),
            decreases 4 - i,
        {
            let cmd: u8 = bytes::get_byte(val, i);
            let ghost before = self@;
            if cmd != 0 {
                if param_count(cmd).is_none() {
                    self.unknown_cmds = self.unknown_cmds.wrapping_add(1);
                } else {
                    self.fifo_cmds.push(cmd);
                    assert(before.fifo_cmds + packed_cmds(val, i as int) =~= self@.fifo_cmds
                        + packed_cmds(val, i + 1));
                }
            }
            i = i + 1;
        }
        assert(self@.fifo_cmds + packed_cmds(val, 4) =~= self@.fifo_cmds);
        self.fifo_advance();
    }

    /// A word written to a command port.
    pub fn push_port_word(&mut self, cmd: u8, val: u32)
        requires
            old(self)@.wf(),
        ensures
            final(self)@ == old(self)@.with_port_word(cmd, val),
            final(self)@.wf(),
    {
        let need: u32 = match param_count(cmd) {
            Some(n) => n,
            None => {
                self.unknown_cmds = self.unknown_cmds.wrapping_add(1);
                return;
            },
        };
        if need == 0 {
            let none: Vec<u32> = Vec::new();
            self.commit(cmd, none);
            return;
        }
        if self.port_params_left > 0 && self.port_cmd == cmd {
            if self.port_params.len() < PARAM_CAP {
                self.port_params.push(val);
            }
            self.port_params_left = self.port_params_left - 1;
        } else {
            self.port_cmd = cmd;
            self.port_params = vec![val];
            assert(self.port_params@ =~= seq![val]);
            self.port_params_left = need - 1;
        }
        if self.port_params_left == 0 {
            let mut params: Vec<u32> = Vec::new();
            std::mem::swap(&mut params, &mut self.port_params);
            self.commit(cmd, params);
        }
    }
}

proof fn lemma_unknown_bounds(val: u32, from: int)
    requires
        0 <= from <= 4,
    ensures
        0 <= packed_unknown(val, from) <= 4 - from,
    decreases 4 - from,
{
    if from < 4 {
        lemma_unknown_bounds(val, from + 1);
    }
}

/// Every triangle that a vertex arrival completes names collected vertices,
/// and three different ones.
pub proof fn law_triangles_name_collected_vertices(e: EngineModel)
    requires
        e.wf(),
    ensures
        ({
            let n = e.vert_count + 1;
            match completed(e.prim, n, e.strip_odd) {
                Completed::Zero => true,
                Completed::One(a, b, c) => a < n && b < n && c < n && a != b && b != c && a != c,
                Completed::Two(a, b, c, d, f, g) => a < n && b < n && c < n && d < n && f < n && g
                    < n && a != b && b != c && a != c && d != f && f != g && d != g,
            }
        }),
{
}

/// A strip keeps its last two vertices when it is shortened, so the next
/// triangle is made of the same three vertices as if it had not been.
pub proof fn law_shortened_strip_continues(prim: u32, n: int, odd: bool)
    requires
        prim == 2,
        n > 128,
        n < 1000,
    ensures
        retained(prim, n) == Retain::LastTwo,
        ({
            let long = completed(prim, n + 1, odd);
            let short = completed(prim, 3, odd);
            &&& long is One && short is One
            &&& long->One_0 - short->One_0 == n - 2
            &&& long->One_1 - short->One_1 == n - 2
            &&& long->One_2 - short->One_2 == n - 2
        }),
{
}

/// State after several words written to one port.
pub open spec fn port_words(g: GxModel, cmd: u8, ws: Seq<u32>) -> GxModel
    decreases ws.len(),
{
    if ws.len() == 0 {
        g
    } else {
        port_words(g, cmd, ws.drop_last()).with_port_word(cmd, ws.last())
    }
}

proof fn lemma_port_group_grows(g: GxModel, cmd: u8, ws: Seq<u32>, need: u32)
    requires
        g.port_params_left == 0,
        spec_param_count(cmd) == Some(need),
        0 < ws.len() < need,
        ws.len() <= PARAM_CAP,
    ensures
        port_words(g, cmd, ws) == (GxModel {
            port_cmd: cmd,
            port_params: ws,
            port_params_left: (need - ws.len()) as u32,
            ..g
        }),
    decreases ws.len(),
{
    let rest = ws.drop_last();
    if rest.len() == 0 {
        assert(port_words(g, cmd, rest) == g);
        assert(seq![ws.last()] =~= ws);
    } else {
        lemma_port_group_grows(g, cmd, rest, need);
        assert(rest.push(ws.last()) =~= ws);
    }
}

/// Writing a command's parameters to its port, one word each, executes that
/// command once with exactly those parameters in order.
pub proof fn law_port_group_executes_once(g: GxModel, cmd: u8, ws: Seq<u32>, need: u32)
    requires
        g.port_params_left == 0,
        spec_param_count(cmd) == Some(need),
        0 < need <= PARAM_CAP,
        ws.len() == need,
    ensures
        port_words(g, cmd, ws) == (GxModel {
            port_cmd: cmd,
            port_params: Seq::empty(),
            port_params_left: 0,
            ..g
        }).committed(cmd, ws),
{
    let rest = ws.drop_last();
    if rest.len() == 0 {
        assert(port_words(g, cmd, rest) == g);
        assert(seq![ws.last()] =~= ws);
    } else {
        lemma_port_group_grows(g, cmd, rest, need);
        assert(rest.push(ws.last()) =~= ws);
    }
}

/// A word of four zero bytes is one no-operation and queues nothing.
pub proof fn law_zero_word_is_a_nop(g: GxModel)
    requires
        g.fifo_params_left == 0,
    ensures
        g.with_fifo_word(0).fifo_cmds == g.fifo_cmds,
        g.with_fifo_word(0).histo == bumped(g.histo, 0),
        g.with_fifo_word(0).engine == g.engine,
{
}

impl EngineModel {
    /// Engine that resumes from a saved one; the counters are not saved.
    pub open spec fn resumed(self, saved: EngineModel) -> EngineModel {
        EngineModel {
            tex_pairs: self.tex_pairs,
            zero_scale_count: self.zero_scale_count,
            tris_dropped: self.tris_dropped,
            max_tris_per_frame: self.max_tris_per_frame,
            last_frame_tris: self.last_frame_tris,
            last_culled: self.last_culled,
            attr_mode: self.attr_mode,
            attr_cull: self.attr_cull,
            fmt_tris: self.fmt_tris,
            ..saved
        }
    }
}

impl Gx3d {
    /// Takes the state of a saved engine over, with the operations that its back
    /// end had not taken.
    pub fn resume_from(&mut self, saved: &Gx3d)
        ensures
            final(self)@ == old(self)@.resumed(saved@),
    {
        self.mtx_mode = saved.mtx_mode;
        self.stack_ptr = saved.stack_ptr;
        self.prim = saved.prim;
        self.strip_odd = saved.strip_odd;
        self.vert_count = saved.vert_count;
        self.teximage = saved.teximage;
        self.pltt_base = saved.pltt_base;
        self.swap_pending = saved.swap_pending;
        self.unpresented = saved.unpresented;
        self.swap_count = saved.swap_count;
        self.wbuffer = saved.wbuffer;
        self.viewport = saved.viewport;
        self.dif_amb = saved.dif_amb;
        self.spe_emi = saved.spe_emi;
        self.poly_attr = saved.poly_attr;
        self.poly_attr_active = saved.poly_attr_active;
        self.clear_px = saved.clear_px;
        self.clipmtx = saved.clipmtx;
        self.vecmtx = saved.vecmtx;
        self.fb = bytes::copied(&saved.fb);
        self.ops = bytes::copied(&saved.ops);
        self.frame_tris = saved.frame_tris;
    }
}

impl GxModel {
    /// Decoder that resumes from a saved one; the counters and the trace are not
    /// saved.
    pub open spec fn resumed(self, saved: GxModel) -> GxModel {
        GxModel {
            histo: self.histo,
            unknown_cmds: self.unknown_cmds,
            tex_fmt_histo: self.tex_fmt_histo,
            begin_histo: self.begin_histo,
            trace: self.trace,
            trace_on: self.trace_on,
            engine: self.engine.resumed(saved.engine),
            ..saved
        }
    }
}

impl GxDecoder {
    /// Takes the state of a saved decoder over, with the parameters it was
    /// collecting.
    pub fn resume_from(&mut self, saved: &GxDecoder)
        ensures
            final(self)@ == old(self)@.resumed(saved@),
    {
        self.engine.resume_from(&saved.engine);
        self.fifo_cmds = bytes::copied(&saved.fifo_cmds);
        self.fifo_params_left = saved.fifo_params_left;
        self.fifo_params = bytes::copied(&saved.fifo_params);
        self.port_cmd = saved.port_cmd;
        self.port_params_left = saved.port_params_left;
        self.port_params = bytes::copied(&saved.port_params);
    }
}

/// Opacity in a polygon's attributes, 1 to 31. Zero would be a wireframe, which is
/// drawn opaque.
pub open spec fn spec_polygon_alpha(attr: u32) -> u16 {
    if attr / 0x1_0000 % 32 == 0 {
        31
    } else {
        (attr / 0x1_0000 % 32) as u16
    }
}

/// Opacity of a polygon.
pub fn polygon_alpha(attr: u32) -> (a: u16)
    ensures
        a == spec_polygon_alpha(attr),
        1 <= a <= 31,
{
    let a: u16 = (attr / 0x1_0000 % 32) as u16;
    if a == 0 {
        31
    } else {
        a
    }
}

/// Pixels from a viewport's first to its last coordinate, both included, modulo
/// 256.
pub open spec fn viewport_side(first: u32, last: u32) -> int {
    (last - first) % 256 + 1
}

/// Width or height of a viewport.
pub fn viewport_extent(first: u32, last: u32) -> (n: u32)
    ensures
        n == viewport_side(first, last),
        1 <= n <= 256,
{
    last.wrapping_sub(first) % 256 + 1
}

/// A byte has a parameter count exactly where it has a name, and no command takes
/// more than 32 parameters.
pub proof fn law_commands_have_names_and_counts(cmd: u8)
    ensures
        spec_param_count(cmd) is Some <==> spec_cmd_name(cmd) != "?"@,
        spec_param_count(cmd) is Some ==> spec_param_count(cmd)->0 <= 32,
{
    reveal_strlit("?");
    reveal_strlit("NOP");
    reveal_strlit("MTX_MODE");
    reveal_strlit("MTX_PUSH");
    reveal_strlit("MTX_POP");
    reveal_strlit("MTX_STORE");
    reveal_strlit("MTX_RESTORE");
    reveal_strlit("MTX_IDENTITY");
    reveal_strlit("MTX_LOAD_4x4");
    reveal_strlit("MTX_LOAD_4x3");
    reveal_strlit("MTX_MULT_4x4");
    reveal_strlit("MTX_MULT_4x3");
    reveal_strlit("MTX_MULT_3x3");
    reveal_strlit("MTX_SCALE");
    reveal_strlit("MTX_TRANS");
    reveal_strlit("COLOR");
    reveal_strlit("NORMAL");
    reveal_strlit("TEXCOORD");
    reveal_strlit("VTX_16");
    reveal_strlit("VTX_10");
    reveal_strlit("VTX_XY");
    reveal_strlit("VTX_XZ");
    reveal_strlit("VTX_YZ");
    reveal_strlit("VTX_DIFF");
    reveal_strlit("POLYGON_ATTR");
    reveal_strlit("TEXIMAGE_PARAM");
    reveal_strlit("PLTT_BASE");
    reveal_strlit("DIF_AMB");
    reveal_strlit("SPE_EMI");
    reveal_strlit("LIGHT_VECTOR");
    reveal_strlit("LIGHT_COLOR");
    reveal_strlit("SHININESS");
    reveal_strlit("BEGIN_VTXS");
    reveal_strlit("END_VTXS");
    reveal_strlit("SWAP_BUFFERS");
    reveal_strlit("VIEWPORT");
    reveal_strlit("BOX_TEST");
    reveal_strlit("POS_TEST");
    reveal_strlit("VEC_TEST");
    assert("?"@.len() == 1);
    assert(spec_param_count(cmd) is Some ==> spec_cmd_name(cmd).len() > 1);
}

/// The swapped and the presented frame, as far as they are still to be
/// rasterized.
pub struct FrameQueue<F> {
    /// The frame that was swapped last.
    pub back: Option<F>,
    /// The frame that was presented last.
    pub front: Option<F>,
}

impl<F> FrameQueue<F> {
    pub open spec fn after_swap(self, frame: F, raster: bool) -> FrameQueue<F> {
        FrameQueue {
            back: if raster {
                None
            } else {
                Some(frame)
            },
            ..self
        }
    }

    pub open spec fn after_present(self) -> FrameQueue<F> {
        FrameQueue { back: None, front: self.back }
    }

    pub open spec fn after_draw(self) -> FrameQueue<F> {
        FrameQueue { front: None, ..self }
    }

    pub fn new() -> (r: Self)
        ensures
            r == (FrameQueue::<F> { back: None, front: None }),
    {
        FrameQueue { back: None, front: None }
    }

    /// A frame was swapped. It comes back if it is to be rasterized into the
    /// back buffer now.
    pub fn swap(&mut self, frame: F, raster: bool) -> (now: Option<F>)
        ensures
            *final(self) == old(self).after_swap(frame, raster),
            now == (if raster {
                Some(frame)
            } else {
                None
            }),
    {
        if raster {
            self.back = None;
            Some(frame)
        } else {
            self.back = Some(frame);
            None
        }
    }

    /// The swapped frame is presented. The result says whether the buffers change
    /// places; a frame that is still to be rasterized moves to the front instead.
    pub fn present(&mut self) -> (exchange: bool)
        ensures
            *final(self) == old(self).after_present(),
            exchange == (old(self).back is None),
    {
        self.front = self.back.take();
        self.front.is_none()
    }

    /// A visible line is next. The result is the frame to rasterize into the
    /// front buffer for it, if there is one.
    pub fn take_front(&mut self) -> (job: Option<F>)
        ensures
            *final(self) == old(self).after_draw(),
            job == old(self).front,
    {
        self.front.take()
    }
}

/// The queue, with the frames that the two buffers hold.
pub struct Screens<F> {
    pub queue: FrameQueue<F>,
    pub back: F,
    pub front: F,
}

impl<F> Screens<F> {
    /// The frame that a visible line shows.
    pub open spec fn shown(self) -> F {
        match self.queue.front {
            Some(f) => f,
            None => self.front,
        }
    }

    pub open spec fn swapped(self, frame: F, raster: bool) -> Screens<F> {
        Screens {
            queue: self.queue.after_swap(frame, raster),
            back: if raster {
                frame
            } else {
                self.back
            },
            ..self
        }
    }

    pub open spec fn presented(self) -> Screens<F> {
        let queue = self.queue.after_present();
        if self.queue.back is None {
            Screens { queue, back: self.front, front: self.back }
        } else {
            Screens { queue, ..self }
        }
    }

    pub open spec fn drawn(self) -> Screens<F> {
        Screens { queue: self.queue.after_draw(), front: self.shown(), ..self }
    }
}

/// Putting rasterization off does not change what is seen: a swap alone changes
/// nothing, and once it is presented its frame is shown, whenever it is
/// rasterized.
pub proof fn law_deferred_frames_show_alike<F>(s: Screens<F>, frame: F, raster: bool)
    ensures
        s.swapped(frame, raster).shown() == s.shown(),
        s.swapped(frame, raster).presented().shown() == frame,
        s.drawn().shown() == s.shown(),
{
}

} // verus!

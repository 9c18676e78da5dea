//! The two-dimensional engines and their timing.

use vstd::prelude::*;
use crate::mmu::census::IrqState;
use crate::mmu::{MmuModel, NdsMmu};
use crate::gx::GxModel;

pub mod bg;
pub mod color;
pub mod laws;
pub mod line;
pub mod obj;
pub mod screens;

verus! {

/// Bus cycles of a scan line, and of its visible part.
pub const LINE_CYCLES: u32 = 2130;

pub const VISIBLE_CYCLES: u32 = 1536;

/// Lines of a frame, and visible ones.
pub const FRAME_LINES: u16 = 263;

pub const VISIBLE_LINES: u16 = 192;

/// Pixels of both screens.
pub const SCREEN_PIXELS: usize = 98304;

/// Color of the stylus mark.
pub const STYLUS_COLOR: u16 = 0x03FF;

/// Line to match in a display status: eight bits in its upper byte, the ninth in
/// bit 7.
pub open spec fn spec_vcount_setting(dispstat: u16) -> u16 {
    (dispstat as int / 0x100 + (dispstat as int / 0x80 % 2) * 0x100) as u16
}

/// Line to match in a display status.
pub fn vcount_setting(dispstat: u16) -> (v: u16)
    ensures
        v == spec_vcount_setting(dispstat),
{
    dispstat / 0x100 + (dispstat / 0x80 % 2) * 0x100
}

/// Low byte of a display status once the line ended: the blank flags.
pub open spec fn blank_flags(lo: u8, vcount: u16) -> u8 {
    let a = lo & 0xFD;
    if vcount == VISIBLE_LINES {
        a | 1
    } else if vcount == 0 {
        a & 0xFE
    } else {
        a
    }
}

/// Whether the line is the one to match.
pub open spec fn matches_line(lo: u8, hi: u8, vcount: u16) -> bool {
    vcount == hi + (lo as int / 0x80) * 0x100
}

/// Low byte of a display status at the start of a line.
pub open spec fn line_flags(lo: u8, hi: u8, vcount: u16) -> u8 {
    if matches_line(lo, hi, vcount) {
        blank_flags(lo, vcount) | 4
    } else {
        blank_flags(lo, vcount) & 0xFB
    }
}

/// Interrupts requested at the start of a line: vertical blank and line match,
/// each if enabled.
pub open spec fn line_irqs(iff: u32, lo: u8, hi: u8, vcount: u16) -> u32 {
    let a = if vcount == VISIBLE_LINES && lo / 8 % 2 == 1 {
        iff | 1
    } else {
        iff
    };
    if matches_line(lo, hi, vcount) && lo / 32 % 2 == 1 {
        a | 4
    } else {
        a
    }
}

/// What one step of the display brought about.
#[derive(Clone, Copy, Debug, PartialEq, Eq, Structural)]
pub enum PpuEvent {
    /// Nothing was due.
    Idle,
    /// A line's visible part ended.
    HBlank,
    /// A line began.
    Line(u16),
}

/// Display timing.
#[derive(Clone, Copy, Debug, PartialEq, Eq, Structural)]
pub struct NdsPpu {
    /// Cycles into the current line.
    pub cycle_accumulator: u32,
    pub frame_completed: bool,
    pub frame_count: u32,
}

impl MmuModel {
    /// Line that the display is on.
    pub open spec fn vcount(self) -> u16 {
        crate::bytes::le16(self.io9[6], self.io9[7])
    }

    /// Whether the first processor's status shows the horizontal blank.
    pub open spec fn in_hblank(self) -> bool {
        self.io9[4] / 2 % 2 == 1
    }

    /// After the visible part of a line ended.
    pub open spec fn hblank_entered(self) -> MmuModel {
        let lo9 = self.io9[4];
        let lo7 = self.io7[4];
        MmuModel {
            io9: self.io9.update(4, (lo9 - lo9 % 4 + 2 + lo9 % 2) as u8),
            io7: self.io7.update(4, (lo7 - lo7 % 4 + 2 + lo7 % 2) as u8),
            irq: IrqState {
                arm9_if: if lo9 / 16 % 2 == 1 {
                    self.irq.arm9_if | 2
                } else {
                    self.irq.arm9_if
                },
                arm7_if: if lo7 / 16 % 2 == 1 {
                    self.irq.arm7_if | 2
                } else {
                    self.irq.arm7_if
                },
                ..self.irq
            },
            ..self
        }
    }

    /// After a line began. The frame boundary also presents the 3D layer.
    pub open spec fn line_entered(self, vcount: u16) -> MmuModel {
        let m = self.with_vcount(vcount);
        let a = MmuModel {
            io9: m.io9.update(4, line_flags(m.io9[4], m.io9[5], vcount)),
            io7: m.io7.update(4, line_flags(m.io7[4], m.io7[5], vcount)),
            irq: IrqState {
                arm9_if: line_irqs(m.irq.arm9_if, m.io9[4], m.io9[5], vcount),
                arm7_if: line_irqs(m.irq.arm7_if, m.io7[4], m.io7[5], vcount),
                ..m.irq
            },
            ..m
        };
        if vcount == VISIBLE_LINES {
            MmuModel {
                has_3d: false,
                gx: GxModel { engine: a.gx.engine.presented(), ..a.gx },
                ..a
            }
        } else {
            a
        }
    }
}

impl NdsPpu {
    pub open spec fn fresh() -> NdsPpu {
        NdsPpu { cycle_accumulator: 0, frame_completed: false, frame_count: 0 }
    }

    /// What the next step does.
    pub open spec fn next_event(self, m: MmuModel) -> PpuEvent {
        if !m.in_hblank() && self.cycle_accumulator >= VISIBLE_CYCLES {
            PpuEvent::HBlank
        } else if self.cycle_accumulator >= LINE_CYCLES {
            PpuEvent::Line((m.vcount().wrapping_add(1) % FRAME_LINES) as u16)
        } else {
            PpuEvent::Idle
        }
    }

    /// Timing state after the next step.
    pub open spec fn stepped(self, m: MmuModel) -> NdsPpu {
        match self.next_event(m) {
            PpuEvent::Line(v) => NdsPpu {
                cycle_accumulator: (self.cycle_accumulator - LINE_CYCLES) as u32,
                frame_completed: self.frame_completed || v == VISIBLE_LINES,
                frame_count: if v == VISIBLE_LINES {
                    self.frame_count.wrapping_add(1)
                } else {
                    self.frame_count
                },
            },
            _ => self,
        }
    }

    /// Memory system after the next step.
    pub open spec fn mmu_stepped(self, m: MmuModel) -> MmuModel {
        match self.next_event(m) {
            PpuEvent::HBlank => m.hblank_entered(),
            PpuEvent::Line(v) => m.line_entered(v),
            PpuEvent::Idle => m,
        }
    }

    /// Timing, memory system and picture after every step that is due.
    pub open spec fn ran(self, m: MmuModel, video: Seq<u16>, render: bool) -> (
        NdsPpu,
        MmuModel,
        Seq<u16>,
    )
        decreases self.cycle_accumulator,
            if m.in_hblank() {
                0nat
            } else {
                1nat
            },
    {
        let p = self.stepped(m);
        let n = self.mmu_stepped(m);
        match self.next_event(m) {
            PpuEvent::Idle => (self, m, video),
            PpuEvent::HBlank => {
                if n.in_hblank() {
                    p.ran(n, video, render)
                } else {
                    (p, n, video)
                }
            },
            PpuEvent::Line(v) => p.ran(
                n,
                if render {
                    scanned(n, video, v)
                } else {
                    video
                },
                render,
            ),
        }
    }

    pub fn new() -> (r: Self)
        ensures
            r == NdsPpu::fresh(),
    {
        NdsPpu { cycle_accumulator: 0, frame_completed: false, frame_count: 0 }
    }

    pub fn reset(&mut self)
        ensures
            *final(self) == NdsPpu::fresh(),
    {
        self.cycle_accumulator = 0;
        self.frame_completed = false;
        self.frame_count = 0;
    }

    /// Performs the next step that is due and tells what it was. The caller
    /// renders a visible line that began, once the 3D layer is up to date.
    pub fn step(&mut self, mmu: &mut NdsMmu) -> (e: PpuEvent)
        requires
            old(mmu)@.wf(),
        ensures
            e == old(self).next_event(old(mmu)@),
            *final(self) == old(self).stepped(old(mmu)@),
            final(mmu)@ == old(self).mmu_stepped(old(mmu)@),
            final(mmu)@.wf(),
    {
        let hblank: bool = mmu.arm9_io[4] / 2 % 2 == 1;
        if !hblank && self.cycle_accumulator >= VISIBLE_CYCLES {
            NdsPpu::enter_hblank(mmu);
            return PpuEvent::HBlank;
        }
        if self.cycle_accumulator < LINE_CYCLES {
            return PpuEvent::Idle;
        }
        self.cycle_accumulator = self.cycle_accumulator - LINE_CYCLES;
        let cur: u16 = crate::bytes::halfword(mmu.arm9_io[6], mmu.arm9_io[7]);
        let vcount: u16 = cur.wrapping_add(1) % FRAME_LINES;
        if vcount == VISIBLE_LINES {
            self.frame_completed = true;
            self.frame_count = self.frame_count.wrapping_add(1);
        }
        NdsPpu::enter_line(mmu, vcount);
        PpuEvent::Line(vcount)
    }

    fn enter_hblank(mmu: &mut NdsMmu)
        requires
            old(mmu)@.wf(),
        ensures
            final(mmu)@ == old(mmu)@.hblank_entered(),
            final(mmu)@.wf(),
    {
        let lo9: u8 = mmu.arm9_io[4];
        let lo7: u8 = mmu.arm7_io[4];
        if lo9 / 16 % 2 == 1 {
            mmu.irq.arm9_if = mmu.irq.arm9_if | 2;
        }
        if lo7 / 16 % 2 == 1 {
            mmu.irq.arm7_if = mmu.irq.arm7_if | 2;
        }
        mmu.arm9_io[4] = lo9 - lo9 % 4 + 2 + lo9 % 2;
        mmu.arm7_io[4] = lo7 - lo7 % 4 + 2 + lo7 % 2;
    }

    fn flags(lo: u8, hi: u8, vcount: u16) -> (f: u8)
        ensures
            f == line_flags(lo, hi, vcount),
    {
        let a: u8 = lo & 0xFD;
        let b: u8 = if vcount == VISIBLE_LINES {
            a | 1
        } else if vcount == 0 {
            a & 0xFE
        } else {
            a
        };
        if vcount == vcount_setting(crate::bytes::halfword(lo, hi)) {
            b | 4
        } else {
            b & 0xFB
        }
    }

    fn irqs(iff: u32, lo: u8, hi: u8, vcount: u16) -> (r: u32)
        ensures
            r == line_irqs(iff, lo, hi, vcount),
    {
        let a: u32 = if vcount == VISIBLE_LINES && lo / 8 % 2 == 1 {
            iff | 1
        } else {
            iff
        };
        if vcount == vcount_setting(crate::bytes::halfword(lo, hi)) && lo / 32 % 2 == 1 {
            a | 4
        } else {
            a
        }
    }

    fn enter_line(mmu: &mut NdsMmu, vcount: u16)
        requires
            old(mmu)@.wf(),
        ensures
            final(mmu)@ == old(mmu)@.line_entered(vcount),
            final(mmu)@.wf(),
    {
        mmu.set_vcount(vcount);
        let (lo9, hi9): (u8, u8) = (mmu.arm9_io[4], mmu.arm9_io[5]);
        let (lo7, hi7): (u8, u8) = (mmu.arm7_io[4], mmu.arm7_io[5]);
        mmu.irq.arm9_if = NdsPpu::irqs(mmu.irq.arm9_if, lo9, hi9, vcount);
        mmu.irq.arm7_if = NdsPpu::irqs(mmu.irq.arm7_if, lo7, hi7, vcount);
        mmu.arm9_io[4] = NdsPpu::flags(lo9, hi9, vcount);
        mmu.arm7_io[4] = NdsPpu::flags(lo7, hi7, vcount);
        if vcount == VISIBLE_LINES {
            mmu.has_3d_activity = false;
            mmu.gx.present();
        }
    }

    /// Advances the display by bus cycles. `render_pixels` governs the picture
    /// only.
    pub fn tick(&mut self, cycles: u32, mmu: &mut NdsMmu, video: &mut Vec<u16>, render_pixels: bool)
        requires
            old(mmu)@.wf(),
            old(video)@.len() >= SCREEN_PIXELS,
            old(self).cycle_accumulator + cycles <= u32::MAX,
        ensures
            (*final(self), final(mmu)@, final(video)@) == old(self).advanced(cycles).ran(
                old(mmu)@,
                old(video)@,
                render_pixels,
            ),
            final(mmu)@.wf(),
            final(video)@.len() == old(video)@.len(),
    {
        self.cycle_accumulator = self.cycle_accumulator + cycles;
        loop
            invariant_except_break
                self.ran(mmu@, video@, render_pixels) == old(self).advanced(cycles).ran(
                    old(mmu)@,
                    old(video)@,
                    render_pixels,
                ),
            invariant
                mmu@.wf(),
                video@.len() == old(video)@.len(),
                video@.len() >= SCREEN_PIXELS,
            ensures
                (*self, mmu@, video@) == old(self).advanced(cycles).ran(
                    old(mmu)@,
                    old(video)@,
                    render_pixels,
                ),
            decreases
                self.cycle_accumulator,
                if mmu@.in_hblank() {
                    0nat
                } else {
                    1nat
                },
        {
            proof {
                lemma_hblank_flag(mmu@);
            }
            match self.step(mmu) {
                PpuEvent::Idle => {
                    break;
                },
                PpuEvent::HBlank => {},
                PpuEvent::Line(v) => {
                    if render_pixels {
                        self.render_scanline(v, mmu, video);
                    }
                },
            }
        }
    }

    /// With cycles added.
    pub open spec fn advanced(self, cycles: u32) -> NdsPpu {
        NdsPpu { cycle_accumulator: (self.cycle_accumulator + cycles) as u32, ..self }
    }

    /// Renders one visible line of both screens.
    pub fn render_scanline(&self, ly: u16, mmu: &NdsMmu, video: &mut Vec<u16>)
        requires
            mmu@.wf(),
            old(video)@.len() >= SCREEN_PIXELS,
        ensures
            final(video)@ == scanned(mmu@, old(video)@, ly),
    {
        if ly >= VISIBLE_LINES {
            return;
        }
        let line_a: [u16; 256] = line::render_engine_line(false, ly, mmu);
        let line_b: [u16; 256] = line::render_engine_line(true, ly, mmu);
        let a_on_top: bool = mmu.arm9_io[0x305] >= 0x80;
        let top: usize = ly as usize * 256;
        let bottom: usize = (192 + ly as usize) * 256;
        let ghost v0 = video@;
        let mut x: usize = 0;
        while x < 256
            invariant
                0 <= x <= 256,
                top == ly * 256,
                bottom == (192 + ly) * 256,
                ly < 192,
                video@.len() == v0.len(),
                v0.len() >= SCREEN_PIXELS,
                a_on_top == (mmu@.io9[0x305] >= 0x80),
                forall|k: int|
                    0 <= k < 256 ==> #[trigger] line_a@[k] == line::engine_pixel(
                        mmu@,
                        false,
                        ly,
                        k,
                    ),
                forall|k: int|
                    0 <= k < 256 ==> #[trigger] line_b@[k] == line::engine_pixel(
                        mmu@,
                        true,
                        ly,
                        k,
                    ),
                forall|i: int|
                    0 <= i < v0.len() ==> #[trigger] video@[i] == (if top <= i < top + x {
                        line::engine_pixel(mmu@, !a_on_top, ly, i - top)
                    } else if bottom <= i < bottom + x {
                        line::engine_pixel(mmu@, a_on_top, ly, i - bottom)
                    } else {
                        v0[i]
                    }),
            decreases 256 - x,
        {
            let a: u16 = line_a[x];
            let b: u16 = line_b[x];
            video[top + x] = if a_on_top {
                a
            } else {
                b
            };
            video[bottom + x] = if a_on_top {
                b
            } else {
                a
            };
            x = x + 1;
        }
        if mmu.buttons.nds_touch_pressed {
            let tx: usize = mmu.buttons.nds_touch_x as usize;
            let ty: usize = mmu.buttons.nds_touch_y as usize;
            if (ly as usize == ty || ly as usize == ty + 1) && ty < 192 && tx < 256 {
                video[bottom + tx] = STYLUS_COLOR;
                if tx + 1 < 256 {
                    video[bottom + tx + 1] = STYLUS_COLOR;
                }
            }
        }
        assert(video@ =~= scanned(mmu@, v0, ly));
    }

    /// Blends two colors, weighted in sixteenths.
    pub fn alpha_blend(top: u16, under: u16, eva: u32, evb: u32) -> (r: u16)
        requires
            eva <= 0x3FF_FFFF,
            evb <= 0x3FF_FFFF,
        ensures
            r == color::blended(top, under, eva as int, evb as int),
    {
        color::blend(top, under, eva, evb)
    }
}

/// Whether the stylus mark covers a pixel of the lower screen.
pub open spec fn stylus_at(m: MmuModel, ly: u16, x: int) -> bool {
    let tx = m.buttons.nds_touch_x;
    let ty = m.buttons.nds_touch_y;
    m.buttons.nds_touch_pressed && (ly == ty || ly == ty + 1) && ty < 192 && tx < 256 && (x == tx
        || x == tx + 1)
}

/// The picture with a line rendered: one engine's on the upper screen, the
/// other's on the lower, as the power control says, and the stylus mark.
pub open spec fn scanned(m: MmuModel, video: Seq<u16>, ly: u16) -> Seq<u16> {
    let a_on_top = m.io9[0x305] >= 0x80;
    let top = ly * 256;
    let bottom = (192 + ly) * 256;
    if ly >= VISIBLE_LINES {
        video
    } else {
        Seq::new(
            video.len(),
            |i: int|
                if top <= i < top + 256 {
                    line::engine_pixel(m, !a_on_top, ly, i - top)
                } else if bottom <= i < bottom + 256 {
                    if stylus_at(m, ly, i - bottom) {
                        STYLUS_COLOR
                    } else {
                        line::engine_pixel(m, a_on_top, ly, i - bottom)
                    }
                } else {
                    video[i]
                },
        )
    }
}

/// Entering the blank sets its flag.
proof fn lemma_hblank_flag(m: MmuModel)
    requires
        m.io9.len() > 4,
    ensures
        m.hblank_entered().in_hblank(),
{
}

/// How the caller slices time does not matter: advancing by `a` cycles and then
/// by `b` is advancing by both at once, in timing, memory system and picture.
pub proof fn law_display_is_independent_of_slicing(
    p: NdsPpu,
    m: MmuModel,
    video: Seq<u16>,
    render: bool,
    b: u32,
)
    requires
        m.io9.len() > 7,
        m.io7.len() > 7,
        p.cycle_accumulator + b <= u32::MAX,
    ensures
        ({
            let once = p.ran(m, video, render);
            once.0.advanced(b).ran(once.1, once.2, render) == p.advanced(b).ran(m, video, render)
        }),
    decreases
        p.cycle_accumulator,
        if m.in_hblank() {
            0nat
        } else {
            1nat
        },
{
    let q = p.advanced(b);
    let n = p.mmu_stepped(m);
    match p.next_event(m) {
        PpuEvent::Idle => {},
        PpuEvent::HBlank => {
            lemma_hblank_flag(m);
            assert(q.next_event(m) == PpuEvent::HBlank);
            law_display_is_independent_of_slicing(p.stepped(m), n, video, render, b);
        },
        PpuEvent::Line(v) => {
            assert(q.next_event(m) == PpuEvent::Line(v));
            assert(q.stepped(m) == p.stepped(m).advanced(b));
            let next = if render {
                scanned(n, video, v)
            } else {
                video
            };
            law_display_is_independent_of_slicing(p.stepped(m), n, next, render, b);
        },
    }
}

/// Leaving the picture out changes nothing else: counters, flags, interrupts and
/// frame boundaries are the same.
pub proof fn law_rendering_does_not_affect_timing(
    p: NdsPpu,
    m: MmuModel,
    a: Seq<u16>,
    b: Seq<u16>,
)
    requires
        m.io9.len() > 7,
        m.io7.len() > 7,
    ensures
        p.ran(m, a, true).0 == p.ran(m, b, false).0,
        p.ran(m, a, true).1 == p.ran(m, b, false).1,
    decreases
        p.cycle_accumulator,
        if m.in_hblank() {
            0nat
        } else {
            1nat
        },
{
    let n = p.mmu_stepped(m);
    match p.next_event(m) {
        PpuEvent::Idle => {},
        PpuEvent::HBlank => {
            lemma_hblank_flag(m);
            law_rendering_does_not_affect_timing(p.stepped(m), n, a, b);
        },
        PpuEvent::Line(v) => {
            law_rendering_does_not_affect_timing(p.stepped(m), n, scanned(n, a, v), b);
        },
    }
}

impl NdsPpu {
    /// Takes the timing of a saved display over.
    pub fn resume_from(&mut self, saved: &NdsPpu)
        ensures
            *final(self) == *saved,
    {
        *self = *saved;
    }
}

} // verus!

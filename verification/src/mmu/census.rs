//! Cursors and counters of the DMA channels, and the interrupt registers.

use vstd::prelude::*;

verus! {

/// Interrupt registers of both processors: enable, request, master enable.
#[derive(Clone, Copy, Debug, PartialEq, Eq, Structural)]
pub struct IrqState {
    pub arm9_ie: u32,
    pub arm9_if: u32,
    pub arm9_ime: u32,
    pub arm7_ie: u32,
    pub arm7_if: u32,
    pub arm7_ime: u32,
}

impl IrqState {
    pub open spec fn clear() -> IrqState {
        IrqState { arm9_ie: 0, arm9_if: 0, arm9_ime: 0, arm7_ie: 0, arm7_if: 0, arm7_ime: 0 }
    }

    pub fn new() -> (r: Self)
        ensures
            r == IrqState::clear(),
    {
        IrqState { arm9_ie: 0, arm9_if: 0, arm9_ime: 0, arm7_ie: 0, arm7_if: 0, arm7_ime: 0 }
    }

    /// With interrupts requested of the first processor.
    pub open spec fn raised9(self, mask: u32) -> IrqState {
        IrqState { arm9_if: self.arm9_if | mask, ..self }
    }

    /// With interrupts requested of the second processor.
    pub open spec fn raised7(self, mask: u32) -> IrqState {
        IrqState { arm7_if: self.arm7_if | mask, ..self }
    }

    pub fn raise9(&mut self, mask: u32)
        ensures
            *final(self) == old(self).raised9(mask),
    {
        self.arm9_if = self.arm9_if | mask;
    }

    pub fn raise7(&mut self, mask: u32)
        ensures
            *final(self) == old(self).raised7(mask),
    {
        self.arm7_if = self.arm7_if | mask;
    }
}

/// Counters of one processor's channels, by start timing.
pub struct CountsModel {
    pub armed: Seq<u32>,
    pub fired: Seq<u32>,
    pub units: Seq<u64>,
    pub max_count: u32,
}

impl CountsModel {
    pub open spec fn wf(self) -> bool {
        self.armed.len() == 8 && self.fired.len() == 8 && self.units.len() == 8
    }

    pub open spec fn fresh() -> CountsModel {
        CountsModel {
            armed: Seq::new(8, |i: int| 0u32),
            fired: Seq::new(8, |i: int| 0u32),
            units: Seq::new(8, |i: int| 0u64),
            max_count: 0,
        }
    }

    /// After a channel was armed for a transfer.
    pub open spec fn armed_once(self, timing: int, requested: u32) -> CountsModel {
        CountsModel {
            armed: self.armed.update(timing, self.armed[timing].wrapping_add(1)),
            max_count: if requested > self.max_count {
                requested
            } else {
                self.max_count
            },
            ..self
        }
    }

    /// After a transfer ran.
    pub open spec fn fired_once(self, timing: int, n: u32) -> CountsModel {
        CountsModel {
            fired: self.fired.update(timing, self.fired[timing].wrapping_add(1)),
            units: self.units.update(timing, self.units[timing].wrapping_add(n as u64)),
            ..self
        }
    }
}

/// Counters of one processor's channels.
pub struct DmaCounts {
    pub armed: [u32; 8],
    pub fired: [u32; 8],
    pub units: [u64; 8],
    pub max_count: u32,
}

impl View for DmaCounts {
    type V = CountsModel;

    open spec fn view(&self) -> CountsModel {
        CountsModel {
            armed: self.armed@,
            fired: self.fired@,
            units: self.units@,
            max_count: self.max_count,
        }
    }
}

impl DmaCounts {
    pub fn new() -> (r: Self)
        ensures
            r@ == CountsModel::fresh(),
            r@.wf(),
    {
        let r = DmaCounts { armed: [0u32; 8], fired: [0u32; 8], units: [0u64; 8], max_count: 0 };
        assert(r@.armed =~= CountsModel::fresh().armed);
        assert(r@.fired =~= CountsModel::fresh().fired);
        assert(r@.units =~= CountsModel::fresh().units);
        r
    }

    pub fn arm(&mut self, timing: usize, requested: u32)
        requires
            old(self)@.wf(),
            timing < 8,
        ensures
            final(self)@ == old(self)@.armed_once(timing as int, requested),
            final(self)@.wf(),
    {
        self.armed[timing] = self.armed[timing].wrapping_add(1);
        if requested > self.max_count {
            self.max_count = requested;
        }
    }

    pub fn fire(&mut self, timing: usize, n: u32)
        requires
            old(self)@.wf(),
            timing < 8,
        ensures
            final(self)@ == old(self)@.fired_once(timing as int, n),
            final(self)@.wf(),
    {
        self.fired[timing] = self.fired[timing].wrapping_add(1);
        self.units[timing] = self.units[timing].wrapping_add(n as u64);
    }
}

/// DMA cursors and counters.
pub struct DmaModel {
    pub dst: Seq<u32>,
    pub arm9: CountsModel,
    pub arm7: CountsModel,
    pub gx_transfers: u64,
    pub gx_words: u64,
}

impl DmaModel {
    pub open spec fn wf(self) -> bool {
        self.dst.len() == 4 && self.arm9.wf() && self.arm7.wf()
    }

    pub open spec fn fresh() -> DmaModel {
        DmaModel {
            dst: Seq::new(4, |i: int| 0u32),
            arm9: CountsModel::fresh(),
            arm7: CountsModel::fresh(),
            gx_transfers: 0,
            gx_words: 0,
        }
    }

    /// With the cursors at zero.
    pub open spec fn rewound(self) -> DmaModel {
        DmaModel { dst: Seq::new(4, |i: int| 0u32), ..self }
    }

    pub open spec fn with_dst(self, ch: int, dst: u32) -> DmaModel {
        DmaModel { dst: self.dst.update(ch, dst), ..self }
    }

    pub open spec fn armed(self, arm9: bool, timing: int, requested: u32) -> DmaModel {
        if arm9 {
            DmaModel { arm9: self.arm9.armed_once(timing, requested), ..self }
        } else {
            DmaModel { arm7: self.arm7.armed_once(timing, requested), ..self }
        }
    }

    /// After a transfer of `n` units; `gx` when it fed the geometry engine.
    pub open spec fn fired(self, arm9: bool, timing: int, n: u32, gx: bool) -> DmaModel {
        let s = if arm9 {
            DmaModel { arm9: self.arm9.fired_once(timing, n), ..self }
        } else {
            DmaModel { arm7: self.arm7.fired_once(timing, n), ..self }
        };
        if gx {
            DmaModel {
                gx_transfers: s.gx_transfers.wrapping_add(1),
                gx_words: s.gx_words.wrapping_add(n as u64),
                ..s
            }
        } else {
            s
        }
    }
}

/// DMA cursors and counters.
pub struct DmaState {
    /// Destination cursors of the first processor's channels: latched when a
    /// channel is enabled, and advancing across the blocks of one stream.
    pub dma9_internal_dst: [u32; 4],
    pub arm9: DmaCounts,
    pub arm7: DmaCounts,
    /// Transfers, and units, that fed the geometry engine.
    pub dma_gxfifo_transfers: u64,
    pub dma_gxfifo_words: u64,
}

impl View for DmaState {
    type V = DmaModel;

    open spec fn view(&self) -> DmaModel {
        DmaModel {
            dst: self.dma9_internal_dst@,
            arm9: self.arm9@,
            arm7: self.arm7@,
            gx_transfers: self.dma_gxfifo_transfers,
            gx_words: self.dma_gxfifo_words,
        }
    }
}

impl DmaState {
    pub fn new() -> (r: Self)
        ensures
            r@ == DmaModel::fresh(),
            r@.wf(),
    {
        let r = DmaState {
            dma9_internal_dst: [0u32; 4],
            arm9: DmaCounts::new(),
            arm7: DmaCounts::new(),
            dma_gxfifo_transfers: 0,
            dma_gxfifo_words: 0,
        };
        assert(r@.dst =~= DmaModel::fresh().dst);
        r
    }

    pub fn rewind(&mut self)
        ensures
            final(self)@ == old(self)@.rewound(),
    {
        self.dma9_internal_dst = [0u32; 4];
        assert(self@.dst =~= old(self)@.rewound().dst);
    }

    pub fn dst(&self, ch: usize) -> (d: u32)
        requires
            self@.wf(),
            ch < 4,
        ensures
            d == self@.dst[ch as int],
    {
        self.dma9_internal_dst[ch]
    }

    pub fn set_dst(&mut self, ch: usize, dst: u32)
        requires
            old(self)@.wf(),
            ch < 4,
        ensures
            final(self)@ == old(self)@.with_dst(ch as int, dst),
            final(self)@.wf(),
    {
        self.dma9_internal_dst[ch] = dst;
    }

    pub fn arm(&mut self, arm9: bool, timing: usize, requested: u32)
        requires
            old(self)@.wf(),
            timing < 8,
        ensures
            final(self)@ == old(self)@.armed(arm9, timing as int, requested),
            final(self)@.wf(),
    {
        if arm9 {
            self.arm9.arm(timing, requested);
        } else {
            self.arm7.arm(timing, requested);
        }
    }

    pub fn fire(&mut self, arm9: bool, timing: usize, n: u32, gx: bool)
        requires
            old(self)@.wf(),
            timing < 8,
        ensures
            final(self)@ == old(self)@.fired(arm9, timing as int, n, gx),
            final(self)@.wf(),
    {
        if arm9 {
            self.arm9.fire(timing, n);
        } else {
            self.arm7.fire(timing, n);
        }
        if gx {
            self.dma_gxfifo_transfers = self.dma_gxfifo_transfers.wrapping_add(1);
            self.dma_gxfifo_words = self.dma_gxfifo_words.wrapping_add(n as u64);
        }
    }
}

impl DmaModel {
    /// Channels that resume from saved ones; the counters are not saved.
    pub open spec fn resumed(self, saved: DmaModel) -> DmaModel {
        DmaModel { dst: saved.dst, ..self }
    }
}

impl DmaState {
    /// Takes the cursors of saved channels over.
    pub fn resume_from(&mut self, saved: &DmaState)
        ensures
            final(self)@ == old(self)@.resumed(saved@),
    {
        self.dma9_internal_dst = saved.dma9_internal_dst;
    }
}

} // verus!

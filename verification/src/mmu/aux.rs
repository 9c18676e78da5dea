//! Bookkeeping of the auxiliary serial bus between the cartridge's save chip
//! and the two processors, which share one physical register.

use vstd::prelude::*;

verus! {

/// Most entries kept of the bus logs.
pub const AUX_BUS_LOG_MAX: usize = 8192;

pub struct AuxModel {
    pub log: Seq<(u8, u8)>,
    pub bus_log: Seq<(u8, u8)>,
    pub io_log: Seq<(u8, u8)>,
    pub bus_dropped: u32,
    pub txn_core: Option<bool>,
    pub cross_deselects: u32,
    pub card7_writes: u32,
    pub block7_starts: u32,
}

/// One more, stopping at the top.
pub open spec fn one_more(n: u32) -> u32 {
    if n == u32::MAX {
        n
    } else {
        (n + 1) as u32
    }
}

/// Tag of a logged register write: the register's index, bit 6 when the second
/// processor owns the slot, bit 7 for a write of the first processor.
pub open spec fn write_tag(arm9: bool, slot7: bool, offset: u32) -> u8 {
    ((offset % 4) + (if slot7 {
        0x40int
    } else {
        0
    }) + (if arm9 {
        0x80int
    } else {
        0
    })) as u8
}

impl AuxModel {
    pub open spec fn fresh() -> AuxModel {
        AuxModel {
            log: Seq::empty(),
            bus_log: Seq::empty(),
            io_log: Seq::empty(),
            bus_dropped: 0,
            txn_core: None,
            cross_deselects: 0,
            card7_writes: 0,
            block7_starts: 0,
        }
    }

    /// After a register write was observed.
    pub open spec fn noted(self, arm9: bool, slot7: bool, offset: u32, val: u8) -> AuxModel {
        if self.bus_log.len() < AUX_BUS_LOG_MAX {
            AuxModel {
                bus_log: self.bus_log.push((write_tag(arm9, slot7, offset), val)),
                ..self
            }
        } else {
            AuxModel { bus_dropped: one_more(self.bus_dropped), ..self }
        }
    }

    /// After a byte was exchanged with the chip.
    pub open spec fn exchanged(self, arm9: bool, val: u8, out: u8) -> AuxModel {
        AuxModel {
            txn_core: Some(arm9),
            io_log: if self.io_log.len() < AUX_BUS_LOG_MAX {
                self.io_log.push((val, out))
            } else {
                self.io_log
            },
            ..self
        }
    }

    /// After chip-select was dropped; ending the other processor's transaction
    /// is counted.
    pub open spec fn ended(self, arm9: bool) -> AuxModel {
        AuxModel {
            cross_deselects: if self.txn_core == Some(!arm9) {
                one_more(self.cross_deselects)
            } else {
                self.cross_deselects
            },
            txn_core: None,
            ..self
        }
    }

    /// After an entry of the start-up log.
    pub open spec fn logged(self, dir: u8, val: u8) -> AuxModel {
        if self.log.len() < 64 {
            AuxModel { log: self.log.push((dir, val)), ..self }
        } else {
            self
        }
    }

    /// After the second processor wrote a cartridge block register.
    pub open spec fn card7(self, starts: bool) -> AuxModel {
        AuxModel {
            card7_writes: one_more(self.card7_writes),
            block7_starts: if starts {
                one_more(self.block7_starts)
            } else {
                self.block7_starts
            },
            ..self
        }
    }
}

/// Bookkeeping of the auxiliary serial bus.
pub struct AuxBus {
    /// Data-port traffic of the first processor at start-up: 0 writes, 1 reads.
    pub aux_log: Vec<(u8, u8)>,
    /// Every register write, tagged.
    pub aux_bus_log: Vec<(u8, u8)>,
    /// Every byte exchanged: written, returned.
    pub aux_io_log: Vec<(u8, u8)>,
    /// Entries that the full register log refused.
    pub aux_bus_dropped: u32,
    /// Processor that opened the transaction in flight, true for the first.
    pub aux_txn_core: Option<bool>,
    /// Transactions ended by the processor that did not open them.
    pub aux_cross_deselects: u32,
    /// Writes of the second processor to the cartridge block registers.
    pub aux7_card_writes: u32,
    pub aux7_block_starts: u32,
}

impl View for AuxBus {
    type V = AuxModel;

    open spec fn view(&self) -> AuxModel {
        AuxModel {
            log: self.aux_log@,
            bus_log: self.aux_bus_log@,
            io_log: self.aux_io_log@,
            bus_dropped: self.aux_bus_dropped,
            txn_core: self.aux_txn_core,
            cross_deselects: self.aux_cross_deselects,
            card7_writes: self.aux7_card_writes,
            block7_starts: self.aux7_block_starts,
        }
    }
}

impl AuxBus {
    pub fn new() -> (r: Self)
        ensures
            r@ == AuxModel::fresh(),
    {
        AuxBus {
            aux_log: Vec::new(),
            aux_bus_log: Vec::new(),
            aux_io_log: Vec::new(),
            aux_bus_dropped: 0,
            aux_txn_core: None,
            aux_cross_deselects: 0,
            aux7_card_writes: 0,
            aux7_block_starts: 0,
        }
    }

    pub fn note(&mut self, arm9: bool, slot7: bool, offset: u32, val: u8)
        ensures
            final(self)@ == old(self)@.noted(arm9, slot7, offset, val),
    {
        let index: u8 = (offset % 4) as u8;
        let owner: u8 = if slot7 {
            0x40
        } else {
            0
        };
        let core: u8 = if arm9 {
            0x80
        } else {
            0
        };
        if self.aux_bus_log.len() < AUX_BUS_LOG_MAX {
            self.aux_bus_log.push((index + owner + core, val));
        } else {
            self.aux_bus_dropped = self.aux_bus_dropped.saturating_add(1);
        }
    }

    pub fn exchange(&mut self, arm9: bool, val: u8, out: u8)
        ensures
            final(self)@ == old(self)@.exchanged(arm9, val, out),
    {
        self.aux_txn_core = Some(arm9);
        if self.aux_io_log.len() < AUX_BUS_LOG_MAX {
            self.aux_io_log.push((val, out));
        }
    }

    pub fn end(&mut self, arm9: bool)
        ensures
            final(self)@ == old(self)@.ended(arm9),
    {
        match self.aux_txn_core {
            Some(c) => {
                if c != arm9 {
                    self.aux_cross_deselects = self.aux_cross_deselects.saturating_add(1);
                }
            },
            None => {},
        }
        self.aux_txn_core = None;
    }

    pub fn log(&mut self, dir: u8, val: u8)
        ensures
            final(self)@ == old(self)@.logged(dir, val),
    {
        if self.aux_log.len() < 64 {
            self.aux_log.push((dir, val));
        }
    }

    pub fn card_write7(&mut self, starts: bool)
        ensures
            final(self)@ == old(self)@.card7(starts),
    {
        self.aux7_card_writes = self.aux7_card_writes.saturating_add(1);
        if starts {
            self.aux7_block_starts = self.aux7_block_starts.saturating_add(1);
        }
    }
}

/// A register write is either on record or counted as refused, so a truncated
/// log cannot pass for a quiet bus.
pub proof fn law_no_write_goes_unseen(a: AuxModel, arm9: bool, slot7: bool, offset: u32, val: u8)
    requires
        a.bus_dropped < u32::MAX,
    ensures
        a.noted(arm9, slot7, offset, val).bus_log.len() + a.noted(
            arm9,
            slot7,
            offset,
            val,
        ).bus_dropped == a.bus_log.len() + a.bus_dropped + 1,
{
}

impl AuxModel {
    /// Bus that resumes from a saved one. Only the owner of the transaction in
    /// flight is saved: without it, the other processor's next byte would join a
    /// foreign transaction.
    pub open spec fn resumed(self, saved: AuxModel) -> AuxModel {
        AuxModel { txn_core: saved.txn_core, ..self }
    }
}

impl AuxBus {
    /// Takes the state of a saved bus over.
    pub fn resume_from(&mut self, saved: &AuxBus)
        ensures
            final(self)@ == old(self)@.resumed(saved@),
    {
        self.aux_txn_core = saved.aux_txn_core;
    }
}

} // verus!

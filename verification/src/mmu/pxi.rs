//! Ports of the channel between the processors: registers, queues, and the
//! interrupts they raise.

use vstd::prelude::*;
use crate::ipc::FIFO_WORDS;
use crate::mmu::watch::ARG_BLOCK_BYTES;
use crate::mmu::{MmuModel, NdsMmu};

verus! {

/// Interrupt request: the other processor signalled.
pub const IRQ_IPC_SYNC: u32 = 0x1_0000;

/// Interrupt request: the other processor drained the send queue.
pub const IRQ_SEND_EMPTY: u32 = 0x2_0000;

/// Interrupt request: the receive queue is no longer empty.
pub const IRQ_RECEIVE_READY: u32 = 0x4_0000;

impl MmuModel {
    /// Argument block of the backup command channel, as the first processor
    /// sees it.
    pub open spec fn arg_block(self) -> Seq<u8> {
        Seq::new(
            ARG_BLOCK_BYTES as nat,
            |i: int| self.byte9(self.pxi.tag11_argptr.wrapping_add(i as u32)),
        )
    }

    /// After the first processor sent a word: lost while its queues are
    /// disabled, an error while the queue is full.
    pub open spec fn sent9(self, val: u32) -> MmuModel {
        let noted = self.pxi.sent9(val, self.arg_block());
        MmuModel {
            pxi: if self.ipc.enabled9() && self.ipc.fifo_9to7.len() >= FIFO_WORDS {
                noted.dropped9(val)
            } else {
                noted
            },
            ipc: self.ipc.with_send9(val),
            irq: if self.ipc.send9_wakes() {
                self.irq.raised7(IRQ_RECEIVE_READY)
            } else {
                self.irq
            },
            ..self
        }
    }

    /// After the second processor sent a word.
    pub open spec fn sent7(self, val: u32) -> MmuModel {
        MmuModel {
            pxi: self.pxi.sent7(val),
            ipc: self.ipc.with_send7(val),
            irq: if self.ipc.send7_wakes() {
                self.irq.raised9(IRQ_RECEIVE_READY)
            } else {
                self.irq
            },
            ..self
        }
    }

    /// After the first processor wrote its synchronization register.
    pub open spec fn sync9_written(self, val: u16) -> MmuModel {
        MmuModel {
            ipc_yield: true,
            ipc: self.ipc.with_sync9(val),
            irq: if val / 0x2000 % 2 == 1 && self.ipc.arm7_sync_irq_enable {
                self.irq.raised7(IRQ_IPC_SYNC)
            } else {
                self.irq
            },
            ..self
        }
    }

    pub open spec fn cnt9_written(self, val: u16) -> MmuModel {
        MmuModel { ipc: self.ipc.with_cnt9(val), ..self }
    }

    /// After the first processor took a word.
    pub open spec fn received9(self) -> MmuModel {
        MmuModel {
            ipc: self.ipc.with_receive9(),
            pxi: if self.ipc.ready9() {
                self.pxi.logged(3, self.ipc.received9())
            } else {
                self.pxi
            },
            irq: if self.ipc.receive9_wakes() {
                self.irq.raised7(IRQ_SEND_EMPTY)
            } else {
                self.irq
            },
            ..self
        }
    }

    /// After the second processor wrote its synchronization register.
    pub open spec fn sync7_written(self, val: u16) -> MmuModel {
        MmuModel {
            ipc_yield: true,
            ipc: self.ipc.with_sync7(val),
            irq: if val / 0x2000 % 2 == 1 && self.ipc.arm9_sync_irq_enable {
                self.irq.raised9(IRQ_IPC_SYNC)
            } else {
                self.irq
            },
            ..self
        }
    }

    pub open spec fn cnt7_written(self, val: u16) -> MmuModel {
        MmuModel { ipc: self.ipc.with_cnt7(val), ..self }
    }

    /// After the second processor took a word.
    pub open spec fn received7(self) -> MmuModel {
        MmuModel {
            ipc: self.ipc.with_receive7(),
            pxi: if self.ipc.ready7() {
                self.pxi.taken7(self.ipc.received7())
            } else {
                self.pxi
            },
            irq: if self.ipc.receive7_wakes() {
                self.irq.raised9(IRQ_SEND_EMPTY)
            } else {
                self.irq
            },
            ..self
        }
    }
}

impl NdsMmu {
    /// Synchronization register as the first processor reads it.
    pub fn read_ipcsync_arm9(&self) -> (v: u16)
        ensures
            v == self@.ipc.sync9(),
    {
        self.ipc.sync9()
    }

    /// Writes the first processor's synchronization register. The other
    /// processor gets the bus next, and an interrupt when bit 13 asks for one
    /// and it listens.
    pub fn write_ipcsync_arm9(&mut self, val: u16)
        requires
            old(self)@.wf(),
        ensures
            final(self)@ == old(self)@.sync9_written(val),
            final(self)@.wf(),
    {
        self.ipc_yield = true;
        self.ipc.set_sync9(val);
        if val / 0x2000 % 2 == 1 && self.ipc.arm7_sync_irq_enable {
            self.irq.raise7(IRQ_IPC_SYNC);
        }
    }

    /// Queue control register as the first processor reads it.
    pub fn read_ipc_fifo_cnt_arm9(&self) -> (v: u16)
        ensures
            v == self@.ipc.cnt9(),
    {
        self.ipc.cnt9()
    }

    /// Writes the first processor's queue control register.
    pub fn write_ipc_fifo_cnt_arm9(&mut self, val: u16)
        requires
            old(self)@.wf(),
        ensures
            final(self)@ == old(self)@.cnt9_written(val),
            final(self)@.wf(),
    {
        self.ipc.set_cnt9(val);
    }

    /// Takes a word sent to the first processor, zero when there is none.
    pub fn read_ipc_fifo_rx_arm9(&mut self) -> (v: u32)
        requires
            old(self)@.wf(),
        ensures
            v == old(self)@.ipc.received9(),
            final(self)@ == old(self)@.received9(),
            final(self)@.wf(),
    {
        let r: (u32, bool, bool) = self.ipc.receive9();
        if r.1 {
            self.pxi.log(3, r.0);
        }
        if r.2 {
            self.irq.raise7(IRQ_SEND_EMPTY);
        }
        r.0
    }

    /// Synchronization register as the second processor reads it.
    pub fn read_ipcsync_arm7(&self) -> (v: u16)
        ensures
            v == self@.ipc.sync7(),
    {
        self.ipc.sync7()
    }

    /// Writes the second processor's synchronization register. The other
    /// processor gets the bus next, and an interrupt when bit 13 asks for one
    /// and it listens.
    pub fn write_ipcsync_arm7(&mut self, val: u16)
        requires
            old(self)@.wf(),
        ensures
            final(self)@ == old(self)@.sync7_written(val),
            final(self)@.wf(),
    {
        self.ipc_yield = true;
        self.ipc.set_sync7(val);
        if val / 0x2000 % 2 == 1 && self.ipc.arm9_sync_irq_enable {
            self.irq.raise9(IRQ_IPC_SYNC);
        }
    }

    /// Queue control register as the second processor reads it.
    pub fn read_ipc_fifo_cnt_arm7(&self) -> (v: u16)
        ensures
            v == self@.ipc.cnt7(),
    {
        self.ipc.cnt7()
    }

    /// Writes the second processor's queue control register.
    pub fn write_ipc_fifo_cnt_arm7(&mut self, val: u16)
        requires
            old(self)@.wf(),
        ensures
            final(self)@ == old(self)@.cnt7_written(val),
            final(self)@.wf(),
    {
        self.ipc.set_cnt7(val);
    }

    /// Takes a word sent to the second processor, zero when there is none.
    pub fn read_ipc_fifo_rx_arm7(&mut self) -> (v: u32)
        requires
            old(self)@.wf(),
        ensures
            v == old(self)@.ipc.received7(),
            final(self)@ == old(self)@.received7(),
            final(self)@.wf(),
    {
        let r: (u32, bool, bool) = self.ipc.receive7();
        if r.1 {
            self.pxi.taken7(r.0);
        }
        if r.2 {
            self.irq.raise9(IRQ_SEND_EMPTY);
        }
        r.0
    }

    fn read_arg_block(&self) -> (buf: [u8; 96])
        requires
            self@.wf(),
        ensures
            buf@ == self@.arg_block(),
    {
        let base: u32 = self.pxi.argptr();
        let mut buf: [u8; 96] = [0u8; 96];
        let mut i: usize = 0;
        while i < ARG_BLOCK_BYTES
            invariant
                0 <= i <= ARG_BLOCK_BYTES,
                self@.wf(),
                base == self@.pxi.tag11_argptr,
                forall|k: int|
                    0 <= k < i ==> #[trigger] buf@[k] == self@.byte9(base.wrapping_add(k as u32)),
            decreases ARG_BLOCK_BYTES - i,
        {
            buf[i] = self.read_byte_arm9(base.wrapping_add(i as u32));
            i = i + 1;
        }
        assert(buf@ =~= self@.arg_block());
        buf
    }

    /// Sends a word from the first processor.
    pub fn write_ipc_fifo_tx_arm9(&mut self, val: u32)
        requires
            old(self)@.wf(),
        ensures
            final(self)@ == old(self)@.sent9(val),
            final(self)@.wf(),
    {
        let args: [u8; 96] = if self.pxi.wants_args(val) {
            self.read_arg_block()
        } else {
            [0u8; 96]
        };
        self.pxi.sent9(val, args);
        assert(self.pxi@ == old(self)@.pxi.sent9(val, old(self)@.arg_block()));
        if self.ipc.fifo_control_arm9 >= 0x8000 && self.ipc.fifo_9to7.len() >= FIFO_WORDS {
            self.pxi.dropped9(val);
        }
        if self.ipc.send9(val) {
            self.irq.raise7(IRQ_RECEIVE_READY);
        }
    }

    /// Sends a word from the second processor.
    pub fn write_ipc_fifo_tx_arm7(&mut self, val: u32)
        requires
            old(self)@.wf(),
        ensures
            final(self)@ == old(self)@.sent7(val),
            final(self)@.wf(),
    {
        self.pxi.sent7(val);
        if self.ipc.send7(val) {
            self.irq.raise9(IRQ_RECEIVE_READY);
        }
    }
}

/// A word that one processor sends is the next one that the other receives, and
/// the interrupt for it was raised if the receiver asked for one.
pub proof fn law_sent_word_arrives(m: MmuModel, val: u32)
    requires
        m.ipc.enabled9(),
        m.ipc.enabled7(),
        m.ipc.fifo_9to7.len() == 0,
    ensures
        m.sent9(val).ipc.received7() == val,
        m.sent9(val).received7().ipc.fifo_9to7 =~= m.ipc.fifo_9to7,
        (m.ipc.fifo_control_arm7 & 0x0400) != 0 ==> m.sent9(val).irq == m.irq.raised7(
            IRQ_RECEIVE_READY,
        ),
{
}

/// Signalling hands the bus over and never touches the queues.
pub proof fn law_signal_yields(m: MmuModel, val: u16)
    ensures
        m.sync9_written(val).ipc_yield,
        m.sync7_written(val).ipc_yield,
        m.sync9_written(val).ipc.fifo_9to7 == m.ipc.fifo_9to7,
        m.sync9_written(val).ipc.fifo_7to9 == m.ipc.fifo_7to9,
        m.sync7_written(val).ipc.fifo_9to7 == m.ipc.fifo_9to7,
        m.sync7_written(val).ipc.fifo_7to9 == m.ipc.fifo_7to9,
{
}

/// The signal nibbles cross over: what one processor puts out the other reads in, and
/// each reads back what it put out itself.
pub proof fn law_signals_cross_over(m: MmuModel, val: u16, n: int)
    requires
        val / 0x100 % 16 == n,
    ensures
        m.sync9_written(val).ipc.sync7() % 16 == n,
        m.sync9_written(val).ipc.sync9() / 0x100 % 16 == n,
        m.sync9_written(val).ipc.sync9() % 16 == m.ipc.sync9() % 16,
        m.sync7_written(val).ipc.sync9() % 16 == n,
        m.sync7_written(val).ipc.sync7() / 0x100 % 16 == n,
        m.sync7_written(val).ipc.sync7() % 16 == m.ipc.sync7() % 16,
{
    let a = m.sync9_written(val).ipc;
    let b = m.sync7_written(val).ipc;
    lemma_sync(a.arm7_to_arm9_sync, a.arm9_to_arm7_sync, a.arm9_sync_irq_enable, a.sync9());
    lemma_sync(a.arm9_to_arm7_sync, a.arm7_to_arm9_sync, a.arm7_sync_irq_enable, a.sync7());
    lemma_sync(b.arm7_to_arm9_sync, b.arm9_to_arm7_sync, b.arm9_sync_irq_enable, b.sync9());
    lemma_sync(b.arm9_to_arm7_sync, b.arm7_to_arm9_sync, b.arm7_sync_irq_enable, b.sync7());
    let s = m.ipc;
    lemma_sync(s.arm7_to_arm9_sync, s.arm9_to_arm7_sync, s.arm9_sync_irq_enable, s.sync9());
    lemma_sync(s.arm9_to_arm7_sync, s.arm7_to_arm9_sync, s.arm7_sync_irq_enable, s.sync7());
}

proof fn lemma_sync(a: u8, b: u8, e: bool, v: u16)
    requires
        v == (a as int % 16 + (b as int % 16) * 0x100 + (if e {
            0x4000int
        } else {
            0
        })) as u16,
    ensures
        v as int % 16 == a as int % 16,
        v as int / 0x100 % 16 == b as int % 16,
{
    let x = a as int % 16;
    let y = b as int % 16;
    assert(v as int / 0x100 == y + (if e {
        0x40int
    } else {
        0
    }));
}

/// A signal with bit 13 set interrupts the other processor if that one asked for it
/// with bit 14 of its own register; otherwise nobody.
pub proof fn law_signals_interrupt_the_other(m: MmuModel, mine: u16, theirs: u16)
    ensures
        ({
            let s = m.sync7_written(theirs);
            let r = s.sync9_written(mine);
            if mine / 0x2000 % 2 == 1 && theirs / 0x4000 % 2 == 1 {
                r.irq == s.irq.raised7(0x1_0000)
            } else {
                r.irq == s.irq
            }
        }),
        ({
            let s = m.sync9_written(theirs);
            let r = s.sync7_written(mine);
            if mine / 0x2000 % 2 == 1 && theirs / 0x4000 % 2 == 1 {
                r.irq == s.irq.raised9(0x1_0000)
            } else {
                r.irq == s.irq
            }
        }),
{
}

/// The queue flags: bits 0 and 1 say of the own send queue that it is empty or
/// full, bits 8 and 9 of the receive queue, which is the other's send queue.
pub proof fn law_queue_flags(m: MmuModel)
    ensures
        (m.ipc.cnt9() % 2 == 1) == (m.ipc.fifo_9to7.len() == 0),
        (m.ipc.cnt9() / 2 % 2 == 1) == (m.ipc.fifo_9to7.len() >= 16),
        (m.ipc.cnt9() / 0x100 % 2 == 1) == (m.ipc.fifo_7to9.len() == 0),
        (m.ipc.cnt9() / 0x200 % 2 == 1) == (m.ipc.fifo_7to9.len() >= 16),
        (m.ipc.cnt7() % 2 == 1) == (m.ipc.fifo_7to9.len() == 0),
        (m.ipc.cnt7() / 2 % 2 == 1) == (m.ipc.fifo_7to9.len() >= 16),
        (m.ipc.cnt7() / 0x100 % 2 == 1) == (m.ipc.fifo_9to7.len() == 0),
        (m.ipc.cnt7() / 0x200 % 2 == 1) == (m.ipc.fifo_9to7.len() >= 16),
{
    lemma_flag_bits(
        m.ipc.fifo_control_arm9,
        m.ipc.fifo_9to7.len() == 0,
        m.ipc.fifo_9to7.len() >= 16,
        m.ipc.fifo_7to9.len() == 0,
        m.ipc.fifo_7to9.len() >= 16,
    );
    lemma_flag_bits(
        m.ipc.fifo_control_arm7,
        m.ipc.fifo_7to9.len() == 0,
        m.ipc.fifo_7to9.len() >= 16,
        m.ipc.fifo_9to7.len() == 0,
        m.ipc.fifo_9to7.len() >= 16,
    );
}

proof fn lemma_flag_bits(c: u16, a: bool, b: bool, d: bool, e: bool)
    by (bit_vector)
    ensures
        ({
            let v = (c & 0xC404) | ((if a { 0x0001u16 } else { 0u16 }) | (if b { 0x0002u16 } else { 0u16 }) | (
            if d { 0x0100u16 } else { 0u16 }) | (if e { 0x0200u16 } else { 0u16 }));
            &&& (v % 2 == 1) == a
            &&& (v / 2 % 2 == 1) == b
            &&& (v / 0x100 % 2 == 1) == d
            &&& (v / 0x200 % 2 == 1) == e
        }),
{
}

/// The first word into an empty queue tells the receiver that there is one (bit 10 of
/// its control register asks for that), and taking the last word out tells the sender
/// that its queue is empty (bit 2). Words in between tell nobody.
pub proof fn law_queues_interrupt_at_their_ends(m: MmuModel, val: u32)
    requires
        m.ipc.enabled9(),
        m.ipc.enabled7(),
        m.ipc.fifo_9to7.len() < 16,
    ensures
        ({
            let r = m.sent9(val);
            if m.ipc.fifo_9to7.len() == 0 && m.ipc.fifo_control_arm7 & 0x400 != 0 {
                r.irq == m.irq.raised7(0x4_0000)
            } else {
                r.irq == m.irq
            }
        }),
        ({
            let r = m.received7();
            if m.ipc.fifo_9to7.len() == 1 && m.ipc.fifo_control_arm9 & 4 != 0 {
                r.irq == m.irq.raised9(0x2_0000)
            } else {
                r.irq == m.irq
            }
        }),
        ({
            let r = m.sent7(val);
            if m.ipc.fifo_7to9.len() == 0 && m.ipc.fifo_control_arm9 & 0x400 != 0 {
                r.irq == m.irq.raised9(0x4_0000)
            } else {
                r.irq == m.irq
            }
        }),
        ({
            let r = m.received9();
            if m.ipc.fifo_7to9.len() == 1 && m.ipc.fifo_control_arm7 & 4 != 0 {
                r.irq == m.irq.raised7(0x2_0000)
            } else {
                r.irq == m.irq
            }
        }),
{
}

} // verus!

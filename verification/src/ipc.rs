//! Inter-processor communication: a synchronization nibble each way and two
//! word queues.

use vstd::prelude::*;
use crate::bytes;

verus! {

/// Words that fit in one queue.
pub const FIFO_WORDS: usize = 16;

/// Mathematical state of the channel.
pub struct IpcModel {
    pub arm9_to_arm7_sync: u8,
    pub arm7_to_arm9_sync: u8,
    pub arm9_sync_irq_enable: bool,
    pub arm7_sync_irq_enable: bool,
    pub fifo_9to7: Seq<u32>,
    pub fifo_7to9: Seq<u32>,
    pub fifo_control_arm9: u16,
    pub fifo_control_arm7: u16,
}

/// Empty and full flags for a send queue and a receive queue of given lengths.
pub open spec fn queue_flags(send: int, receive: int) -> u16 {
    (if send == 0 {
        0x0001u16
    } else {
        0
    }) | (if send >= FIFO_WORDS {
        0x0002u16
    } else {
        0
    }) | (if receive == 0 {
        0x0100u16
    } else {
        0
    }) | (if receive >= FIFO_WORDS {
        0x0200u16
    } else {
        0
    })
}

fn flags_for(send: usize, receive: usize) -> (f: u16)
    ensures
        f == queue_flags(send as int, receive as int),
{
    let a: u16 = if send == 0 { 0x0001 } else { 0 };
    let b: u16 = if send >= FIFO_WORDS { 0x0002 } else { 0 };
    let c: u16 = if receive == 0 { 0x0100 } else { 0 };
    let d: u16 = if receive >= FIFO_WORDS { 0x0200 } else { 0 };
    a | b | c | d
}

impl IpcModel {
    /// Neither queue holds more words than it has room for.
    pub open spec fn wf(self) -> bool {
        &&& self.fifo_9to7.len() <= FIFO_WORDS
        &&& self.fifo_7to9.len() <= FIFO_WORDS
    }

    pub open spec fn fresh() -> IpcModel {
        IpcModel {
            arm9_to_arm7_sync: 0,
            arm7_to_arm9_sync: 0,
            arm9_sync_irq_enable: false,
            arm7_sync_irq_enable: false,
            fifo_9to7: Seq::empty(),
            fifo_7to9: Seq::empty(),
            fifo_control_arm9: 0,
            fifo_control_arm7: 0,
        }
    }

    /// Synchronization register as processor 9 reads it: what the other sent,
    /// what it sent itself, and its interrupt enable.
    pub open spec fn sync9(self) -> u16 {
        (self.arm7_to_arm9_sync as int % 16 + (self.arm9_to_arm7_sync as int % 16) * 0x100 + (
        if self.arm9_sync_irq_enable {
            0x4000int
        } else {
            0
        })) as u16
    }

    /// State after processor 9 writes its synchronization register.
    pub open spec fn with_sync9(self, val: u16) -> IpcModel {
        IpcModel {
            arm9_to_arm7_sync: (val / 0x100 % 16) as u8,
            arm9_sync_irq_enable: val / 0x4000 % 2 == 1,
            ..self
        }
    }

    /// FIFO control register as processor 9 reads it: its writable bits, and
    /// the empty and full flags of both queues.
    pub open spec fn cnt9(self) -> u16 {
        (self.fifo_control_arm9 & 0xC404) | queue_flags(
            self.fifo_9to7.len() as int,
            self.fifo_7to9.len() as int,
        )
    }

    /// State after processor 9 writes its FIFO control register. Bit 3 and a
    /// disable both empty the send queue, and only that one; bit 14 written as
    /// one and a disable both clear the error latch.
    pub open spec fn with_cnt9(self, val: u16) -> IpcModel {
        let off = val < 0x8000;
        let c = (self.fifo_control_arm9 & 0x7BFB) | (val & 0x8404);
        IpcModel {
            fifo_control_arm9: if val / 0x4000 % 2 == 1 || off {
                c & 0xBFFF
            } else {
                c
            },
            fifo_9to7: if val / 8 % 2 == 1 || off {
                Seq::empty()
            } else {
                self.fifo_9to7
            },
            ..self
        }
    }

    /// Whether processor 9 has its queues enabled.
    pub open spec fn enabled9(self) -> bool {
        self.fifo_control_arm9 >= 0x8000
    }

    /// State after processor 9 sends a word: lost while disabled, an error
    /// while full.
    pub open spec fn with_send9(self, val: u32) -> IpcModel {
        if !self.enabled9() {
            self
        } else if self.fifo_9to7.len() >= FIFO_WORDS {
            IpcModel { fifo_control_arm9: self.fifo_control_arm9 | 0x4000, ..self }
        } else {
            IpcModel { fifo_9to7: self.fifo_9to7.push(val), ..self }
        }
    }

    /// Whether that send wakes processor 7: its queue was empty and it asked
    /// for the interrupt.
    pub open spec fn send9_wakes(self) -> bool {
        self.enabled9() && self.fifo_9to7.len() == 0 && (self.fifo_control_arm7 & 0x0400) != 0
    }

    /// Whether processor 9 has a word to receive.
    pub open spec fn ready9(self) -> bool {
        self.enabled9() && self.fifo_7to9.len() > 0
    }

    /// Word that processor 9 receives, zero when there is none.
    pub open spec fn received9(self) -> u32 {
        if self.ready9() {
            self.fifo_7to9[0]
        } else {
            0
        }
    }

    /// State after processor 9 receives: the oldest word leaves; receiving
    /// from an empty queue is an error.
    pub open spec fn with_receive9(self) -> IpcModel {
        if !self.enabled9() {
            self
        } else if self.fifo_7to9.len() == 0 {
            IpcModel { fifo_control_arm9: self.fifo_control_arm9 | 0x4000, ..self }
        } else {
            IpcModel {
                fifo_7to9: self.fifo_7to9.subrange(1, self.fifo_7to9.len() as int),
                ..self
            }
        }
    }

    /// Whether that receive wakes processor 7: it drained its send queue and
    /// it asked for the interrupt.
    pub open spec fn receive9_wakes(self) -> bool {
        self.enabled9() && self.fifo_7to9.len() == 1 && (self.fifo_control_arm7 & 0x0004) != 0
    }

    /// Synchronization register as processor 7 reads it: what the other sent,
    /// what it sent itself, and its interrupt enable.
    pub open spec fn sync7(self) -> u16 {
        (self.arm9_to_arm7_sync as int % 16 + (self.arm7_to_arm9_sync as int % 16) * 0x100 + (
        if self.arm7_sync_irq_enable {
            0x4000int
        } else {
            0
        })) as u16
    }

    /// State after processor 7 writes its synchronization register.
    pub open spec fn with_sync7(self, val: u16) -> IpcModel {
        IpcModel {
            arm7_to_arm9_sync: (val / 0x100 % 16) as u8,
            arm7_sync_irq_enable: val / 0x4000 % 2 == 1,
            ..self
        }
    }

    /// FIFO control register as processor 7 reads it: its writable bits, and
    /// the empty and full flags of both queues.
    pub open spec fn cnt7(self) -> u16 {
        (self.fifo_control_arm7 & 0xC404) | queue_flags(
            self.fifo_7to9.len() as int,
            self.fifo_9to7.len() as int,
        )
    }

    /// State after processor 7 writes its FIFO control register. Bit 3 and a
    /// disable both empty the send queue, and only that one; bit 14 written as
    /// one and a disable both clear the error latch.
    pub open spec fn with_cnt7(self, val: u16) -> IpcModel {
        let off = val < 0x8000;
        let c = (self.fifo_control_arm7 & 0x7BFB) | (val & 0x8404);
        IpcModel {
            fifo_control_arm7: if val / 0x4000 % 2 == 1 || off {
                c & 0xBFFF
            } else {
                c
            },
            fifo_7to9: if val / 8 % 2 == 1 || off {
                Seq::empty()
            } else {
                self.fifo_7to9
            },
            ..self
        }
    }

    /// Whether processor 7 has its queues enabled.
    pub open spec fn enabled7(self) -> bool {
        self.fifo_control_arm7 >= 0x8000
    }

    /// State after processor 7 sends a word: lost while disabled, an error
    /// while full.
    pub open spec fn with_send7(self, val: u32) -> IpcModel {
        if !self.enabled7() {
            self
        } else if self.fifo_7to9.len() >= FIFO_WORDS {
            IpcModel { fifo_control_arm7: self.fifo_control_arm7 | 0x4000, ..self }
        } else {
            IpcModel { fifo_7to9: self.fifo_7to9.push(val), ..self }
        }
    }

    /// Whether that send wakes processor 9: its queue was empty and it asked
    /// for the interrupt.
    pub open spec fn send7_wakes(self) -> bool {
        self.enabled7() && self.fifo_7to9.len() == 0 && (self.fifo_control_arm9 & 0x0400) != 0
    }

    /// Whether processor 7 has a word to receive.
    pub open spec fn ready7(self) -> bool {
        self.enabled7() && self.fifo_9to7.len() > 0
    }

    /// Word that processor 7 receives, zero when there is none.
    pub open spec fn received7(self) -> u32 {
        if self.ready7() {
            self.fifo_9to7[0]
        } else {
            0
        }
    }

    /// State after processor 7 receives: the oldest word leaves; receiving
    /// from an empty queue is an error.
    pub open spec fn with_receive7(self) -> IpcModel {
        if !self.enabled7() {
            self
        } else if self.fifo_9to7.len() == 0 {
            IpcModel { fifo_control_arm7: self.fifo_control_arm7 | 0x4000, ..self }
        } else {
            IpcModel {
                fifo_9to7: self.fifo_9to7.subrange(1, self.fifo_9to7.len() as int),
                ..self
            }
        }
    }

    /// Whether that receive wakes processor 9: it drained its send queue and
    /// it asked for the interrupt.
    pub open spec fn receive7_wakes(self) -> bool {
        self.enabled7() && self.fifo_9to7.len() == 1 && (self.fifo_control_arm9 & 0x0004) != 0
    }
}

/// The channel between the processors.
#[derive(Clone, Debug)]
pub struct IpcState {
    pub arm9_to_arm7_sync: u8,
    pub arm7_to_arm9_sync: u8,
    pub arm9_sync_irq_enable: bool,
    pub arm7_sync_irq_enable: bool,
    pub fifo_9to7: Vec<u32>,
    pub fifo_7to9: Vec<u32>,
    pub fifo_control_arm9: u16,
    pub fifo_control_arm7: u16,
}

impl View for IpcState {
    type V = IpcModel;

    open spec fn view(&self) -> IpcModel {
        IpcModel {
            arm9_to_arm7_sync: self.arm9_to_arm7_sync,
            arm7_to_arm9_sync: self.arm7_to_arm9_sync,
            arm9_sync_irq_enable: self.arm9_sync_irq_enable,
            arm7_sync_irq_enable: self.arm7_sync_irq_enable,
            fifo_9to7: self.fifo_9to7@,
            fifo_7to9: self.fifo_7to9@,
            fifo_control_arm9: self.fifo_control_arm9,
            fifo_control_arm7: self.fifo_control_arm7,
        }
    }
}

impl Default for IpcState {
    fn default() -> (r: Self)
        ensures
            r@ == IpcModel::fresh(),
    {
        IpcState::new()
    }
}

impl IpcState {
    pub fn new() -> (r: Self)
        ensures
            r@ == IpcModel::fresh(),
            r@.wf(),
    {
        IpcState {
            arm9_to_arm7_sync: 0,
            arm7_to_arm9_sync: 0,
            arm9_sync_irq_enable: false,
            arm7_sync_irq_enable: false,
            fifo_9to7: Vec::with_capacity(FIFO_WORDS),
            fifo_7to9: Vec::with_capacity(FIFO_WORDS),
            fifo_control_arm9: 0,
            fifo_control_arm7: 0,
        }
    }

    pub fn sync9(&self) -> (v: u16)
        ensures
            v == self@.sync9(),
    {
        (self.arm7_to_arm9_sync % 16) as u16 + (self.arm9_to_arm7_sync % 16) as u16 * 0x100 + (
        if self.arm9_sync_irq_enable { 0x4000 } else { 0 })
    }

    pub fn set_sync9(&mut self, val: u16)
        ensures
            final(self)@ == old(self)@.with_sync9(val),
    {
        self.arm9_to_arm7_sync = (val / 0x100 % 16) as u8;
        self.arm9_sync_irq_enable = val / 0x4000 % 2 == 1;
    }

    pub fn cnt9(&self) -> (v: u16)
        ensures
            v == self@.cnt9(),
    {
        (self.fifo_control_arm9 & 0xC404) | flags_for(self.fifo_9to7.len(), self.fifo_7to9.len())
    }

    pub fn set_cnt9(&mut self, val: u16)
        ensures
            final(self)@ == old(self)@.with_cnt9(val),
    {
        let off: bool = val < 0x8000;
        self.fifo_control_arm9 = (self.fifo_control_arm9 & 0x7BFB) | (val & 0x8404);
        if val / 8 % 2 == 1 || off {
            self.fifo_9to7.clear();
        }
        if val / 0x4000 % 2 == 1 || off {
            self.fifo_control_arm9 = self.fifo_control_arm9 & 0xBFFF;
        }
    }

    /// Sends a word; tells whether processor 7 is to be interrupted.
    pub fn send9(&mut self, val: u32) -> (wakes: bool)
        ensures
            final(self)@ == old(self)@.with_send9(val),
            wakes == old(self)@.send9_wakes(),
    {
        if self.fifo_control_arm9 < 0x8000 {
            return false;
        }
        if self.fifo_9to7.len() >= FIFO_WORDS {
            self.fifo_control_arm9 = self.fifo_control_arm9 | 0x4000;
            return false;
        }
        let was_empty: bool = self.fifo_9to7.len() == 0;
        self.fifo_9to7.push(val);
        was_empty && (self.fifo_control_arm7 & 0x0400) != 0
    }

    /// Receives a word; tells whether there was one and whether processor 7
    /// is to be interrupted.
    pub fn receive9(&mut self) -> (r: (u32, bool, bool))
        ensures
            final(self)@ == old(self)@.with_receive9(),
            r.0 == old(self)@.received9(),
            r.1 == old(self)@.ready9(),
            r.2 == old(self)@.receive9_wakes(),
    {
        if self.fifo_control_arm9 < 0x8000 {
            return (0, false, false);
        }
        if self.fifo_7to9.len() == 0 {
            self.fifo_control_arm9 = self.fifo_control_arm9 | 0x4000;
            return (0, false, false);
        }
        let ghost q = self.fifo_7to9@;
        let val: u32 = self.fifo_7to9.remove(0);
        assert(self.fifo_7to9@ =~= q.subrange(1, q.len() as int));
        let drained: bool = self.fifo_7to9.len() == 0;
        (val, true, drained && (self.fifo_control_arm7 & 0x0004) != 0)
    }

    pub fn sync7(&self) -> (v: u16)
        ensures
            v == self@.sync7(),
    {
        (self.arm9_to_arm7_sync % 16) as u16 + (self.arm7_to_arm9_sync % 16) as u16 * 0x100 + (
        if self.arm7_sync_irq_enable { 0x4000 } else { 0 })
    }

    pub fn set_sync7(&mut self, val: u16)
        ensures
            final(self)@ == old(self)@.with_sync7(val),
    {
        self.arm7_to_arm9_sync = (val / 0x100 % 16) as u8;
        self.arm7_sync_irq_enable = val / 0x4000 % 2 == 1;
    }

    pub fn cnt7(&self) -> (v: u16)
        ensures
            v == self@.cnt7(),
    {
        (self.fifo_control_arm7 & 0xC404) | flags_for(self.fifo_7to9.len(), self.fifo_9to7.len())
    }

    pub fn set_cnt7(&mut self, val: u16)
        ensures
            final(self)@ == old(self)@.with_cnt7(val),
    {
        let off: bool = val < 0x8000;
        self.fifo_control_arm7 = (self.fifo_control_arm7 & 0x7BFB) | (val & 0x8404);
        if val / 8 % 2 == 1 || off {
            self.fifo_7to9.clear();
        }
        if val / 0x4000 % 2 == 1 || off {
            self.fifo_control_arm7 = self.fifo_control_arm7 & 0xBFFF;
        }
    }

    /// Sends a word; tells whether processor 9 is to be interrupted.
    pub fn send7(&mut self, val: u32) -> (wakes: bool)
        ensures
            final(self)@ == old(self)@.with_send7(val),
            wakes == old(self)@.send7_wakes(),
    {
        if self.fifo_control_arm7 < 0x8000 {
            return false;
        }
        if self.fifo_7to9.len() >= FIFO_WORDS {
            self.fifo_control_arm7 = self.fifo_control_arm7 | 0x4000;
            return false;
        }
        let was_empty: bool = self.fifo_7to9.len() == 0;
        self.fifo_7to9.push(val);
        was_empty && (self.fifo_control_arm9 & 0x0400) != 0
    }

    /// Receives a word; tells whether there was one and whether processor 9
    /// is to be interrupted.
    pub fn receive7(&mut self) -> (r: (u32, bool, bool))
        ensures
            final(self)@ == old(self)@.with_receive7(),
            r.0 == old(self)@.received7(),
            r.1 == old(self)@.ready7(),
            r.2 == old(self)@.receive7_wakes(),
    {
        if self.fifo_control_arm7 < 0x8000 {
            return (0, false, false);
        }
        if self.fifo_9to7.len() == 0 {
            self.fifo_control_arm7 = self.fifo_control_arm7 | 0x4000;
            return (0, false, false);
        }
        let ghost q = self.fifo_9to7@;
        let val: u32 = self.fifo_9to7.remove(0);
        assert(self.fifo_9to7@ =~= q.subrange(1, q.len() as int));
        let drained: bool = self.fifo_9to7.len() == 0;
        (val, true, drained && (self.fifo_control_arm9 & 0x0004) != 0)
    }
}

/// Words that processor 9 sends arrive at processor 7 in the order sent: a
/// send into a queue with room appends, a receive takes the front, and what is
/// behind keeps its order.
pub proof fn law_fifo_9to7_is_first_in_first_out(s: IpcModel, val: u32)
    requires
        s.enabled9(),
        s.enabled7(),
        s.fifo_9to7.len() < FIFO_WORDS,
    ensures
        s.with_send9(val).fifo_9to7 == s.fifo_9to7.push(val),
        s.fifo_9to7.len() == 0 ==> s.with_send9(val).received7() == val,
        s.fifo_9to7.len() > 0 ==> {
            &&& s.with_send9(val).received7() == s.received7()
            &&& s.with_send9(val).with_receive7().fifo_9to7
                == s.with_receive7().with_send9(val).fifo_9to7
        },
{
    if s.fifo_9to7.len() > 0 {
        assert(s.with_send9(val).with_receive7().fifo_9to7
            =~= s.with_receive7().with_send9(val).fifo_9to7);
    }
}

/// Processor 9 can neither empty nor shorten the other's send queue by
/// writing its own control register.
pub proof fn law_control_write_9_owns_one_queue(s: IpcModel, val: u16)
    ensures
        s.with_cnt9(val).fifo_7to9 == s.fifo_7to9,
        s.with_cnt9(val).fifo_control_arm7 == s.fifo_control_arm7,
{
}

/// A full queue refuses a word, keeps its contents and latches the error.
pub proof fn law_full_queue_9to7_latches_error(s: IpcModel, val: u32)
    requires
        s.enabled9(),
        s.fifo_9to7.len() >= FIFO_WORDS,
    ensures
        s.with_send9(val).fifo_9to7 == s.fifo_9to7,
        s.with_send9(val).fifo_control_arm9 & 0x4000 == 0x4000,
{
    let c = s.fifo_control_arm9;
    assert((c | 0x4000) & 0x4000 == 0x4000) by (bit_vector);
}

/// Words that processor 7 sends arrive at processor 9 in the order sent: a
/// send into a queue with room appends, a receive takes the front, and what is
/// behind keeps its order.
pub proof fn law_fifo_7to9_is_first_in_first_out(s: IpcModel, val: u32)
    requires
        s.enabled7(),
        s.enabled9(),
        s.fifo_7to9.len() < FIFO_WORDS,
    ensures
        s.with_send7(val).fifo_7to9 == s.fifo_7to9.push(val),
        s.fifo_7to9.len() == 0 ==> s.with_send7(val).received9() == val,
        s.fifo_7to9.len() > 0 ==> {
            &&& s.with_send7(val).received9() == s.received9()
            &&& s.with_send7(val).with_receive9().fifo_7to9
                == s.with_receive9().with_send7(val).fifo_7to9
        },
{
    if s.fifo_7to9.len() > 0 {
        assert(s.with_send7(val).with_receive9().fifo_7to9
            =~= s.with_receive9().with_send7(val).fifo_7to9);
    }
}

/// Processor 7 can neither empty nor shorten the other's send queue by
/// writing its own control register.
pub proof fn law_control_write_7_owns_one_queue(s: IpcModel, val: u16)
    ensures
        s.with_cnt7(val).fifo_9to7 == s.fifo_9to7,
        s.with_cnt7(val).fifo_control_arm9 == s.fifo_control_arm9,
{
}

/// A full queue refuses a word, keeps its contents and latches the error.
pub proof fn law_full_queue_7to9_latches_error(s: IpcModel, val: u32)
    requires
        s.enabled7(),
        s.fifo_7to9.len() >= FIFO_WORDS,
    ensures
        s.with_send7(val).fifo_7to9 == s.fifo_7to9,
        s.with_send7(val).fifo_control_arm7 & 0x4000 == 0x4000,
{
    let c = s.fifo_control_arm7;
    assert((c | 0x4000) & 0x4000 == 0x4000) by (bit_vector);
}

/// Sending and receiving, from either side, never overfill a queue.
pub proof fn law_queues_stay_within_capacity(s: IpcModel, val: u32, cnt: u16)
    requires
        s.wf(),
    ensures
        s.with_send9(val).wf(),
        s.with_send7(val).wf(),
        s.with_receive9().wf(),
        s.with_receive7().wf(),
        s.with_cnt9(cnt).wf(),
        s.with_cnt7(cnt).wf(),
{
}

impl IpcState {
    /// Takes the state of saved channels over.
    pub fn resume_from(&mut self, saved: &IpcState)
        ensures
            final(self)@ == saved@,
    {
        self.arm9_to_arm7_sync = saved.arm9_to_arm7_sync;
        self.arm7_to_arm9_sync = saved.arm7_to_arm9_sync;
        self.arm9_sync_irq_enable = saved.arm9_sync_irq_enable;
        self.arm7_sync_irq_enable = saved.arm7_sync_irq_enable;
        self.fifo_9to7 = bytes::copied(&saved.fifo_9to7);
        self.fifo_7to9 = bytes::copied(&saved.fifo_7to9);
        self.fifo_control_arm9 = saved.fifo_control_arm9;
        self.fifo_control_arm7 = saved.fifo_control_arm7;
    }
}

} // verus!

//! Bus adapters: how each processor's instructions see the memory system.
//!
//! A word load from an unaligned address fetches the aligned word and rotates
//! it; a word store ignores the low address bits. Transfers between devices use
//! the memory system directly and see plain words.

use vstd::prelude::*;
use crate::bytes;
use crate::mmu::MmuModel;
use crate::mmu::NdsMmu;
use crate::mmu::bytewise;
use crate::mmu::decode;
use crate::mmu::store;
use crate::mmu::memory::Spot;

verus! {

/// Receive port of the queue between the processors.
pub const PORT_RECEIVE: u32 = 0x0410_0000;

/// Data port of the cartridge.
pub const PORT_CARD: u32 = 0x0410_0010;

/// Send port of the queue between the processors.
pub const PORT_SEND: u32 = 0x0400_0188;

/// A word rotated right by `k` bytes.
#[verifier::opaque]
pub open spec fn rotated(w: u32, k: int) -> u32 {
    bytes::le32(
        bytes::byte_of(w, k % 4),
        bytes::byte_of(w, (k + 1) % 4),
        bytes::byte_of(w, (k + 2) % 4),
        bytes::byte_of(w, (k + 3) % 4),
    )
}

fn rotate_bytes(w: u32, k: u32) -> (r: u32)
    requires
        k < 4,
    ensures
        r == rotated(w, k as int),
{
    proof {
        reveal(rotated);
    }
    bytes::word(
        bytes::get_byte(w, k),
        bytes::get_byte(w, (k + 1) % 4),
        bytes::get_byte(w, (k + 2) % 4),
        bytes::get_byte(w, (k + 3) % 4),
    )
}

impl MmuModel {
    /// After a load of the first processor, which the load watch may see.
    pub open spec fn load_watched(self, addr: u32) -> MmuModel {
        if self.stores.tp_read_watch_on {
            self.read_noted(addr)
        } else {
            self
        }
    }

    /// Word that an instruction of the first processor loads.
    pub open spec fn bus_word9(self, addr: u32) -> u32 {
        let m = self.load_watched(addr);
        if addr == PORT_RECEIVE {
            m.ipc.received9()
        } else if addr == PORT_CARD {
            m.card_word()
        } else {
            rotated(m.word9((addr - addr % 4) as u32), addr as int % 4)
        }
    }

    pub open spec fn after_word9(self, addr: u32) -> MmuModel {
        let m = self.load_watched(addr);
        if addr == PORT_RECEIVE {
            m.received9()
        } else if addr == PORT_CARD {
            m.card_read()
        } else {
            m
        }
    }

    /// After the first `n` words from an address on were loaded one by one.
    pub open spec fn after_words9(self, addr: u32, n: nat) -> MmuModel
        decreases n,
    {
        if n == 0 {
            self
        } else {
            self.after_words9(addr, (n - 1) as nat).after_word9(
                addr.wrapping_add((4 * (n - 1)) as u32),
            )
        }
    }

    /// Word `i` of a block of `n` that an instruction of the first processor
    /// loads: taken from plain memory if the block lies together there, loaded
    /// after the words before it otherwise.
    pub open spec fn block_word9(self, addr: u32, n: nat, i: nat) -> u32 {
        match self.run9(addr, 4 * n as int) {
            Some(s) => self.ram.word(s.plus(4 * i as int)),
            None => self.after_words9(addr, i).bus_word9(addr.wrapping_add((4 * i) as u32)),
        }
    }

    pub open spec fn after_block9(self, addr: u32, n: nat) -> MmuModel {
        match self.run9(addr, 4 * n as int) {
            Some(s) => self,
            None => self.after_words9(addr, n),
        }
    }

    /// After a word store of an instruction of the first processor.
    pub open spec fn bus_stored9(self, addr: u32, val: u32) -> MmuModel {
        if addr == PORT_SEND {
            self.sent9(val)
        } else {
            self.wrote_word9((addr - addr % 4) as u32, val)
        }
    }

    /// After words were stored one by one from an address on.
    pub open spec fn words_stored9(self, addr: u32, vs: Seq<u32>) -> MmuModel
        decreases vs.len(),
    {
        if vs.len() == 0 {
            self
        } else {
            self.words_stored9(addr, vs.drop_last()).bus_stored9(
                addr.wrapping_add((4 * (vs.len() - 1)) as u32),
                vs.last(),
            )
        }
    }

    /// After a block store of an instruction of the first processor.
    pub open spec fn block_stored9(self, addr: u32, vs: Seq<u32>) -> MmuModel {
        let m = self.marked9(addr, 4 * vs.len() as int);
        match self.store_run9(addr, 4 * vs.len() as int) {
            Some(s) => MmuModel { ram: m.ram.with_words(s, vs), ..m },
            None => m.words_stored9(addr, vs),
        }
    }

    /// Word that an instruction of the second processor loads.
    pub open spec fn bus_word7(self, addr: u32) -> u32 {
        if addr == PORT_RECEIVE {
            self.ipc.received7()
        } else {
            rotated(self.word7((addr - addr % 4) as u32), addr as int % 4)
        }
    }

    pub open spec fn after_word7(self, addr: u32) -> MmuModel {
        if addr == PORT_RECEIVE {
            self.received7()
        } else {
            self
        }
    }

    pub open spec fn after_words7(self, addr: u32, n: nat) -> MmuModel
        decreases n,
    {
        if n == 0 {
            self
        } else {
            self.after_words7(addr, (n - 1) as nat).after_word7(
                addr.wrapping_add((4 * (n - 1)) as u32),
            )
        }
    }

    pub open spec fn block_word7(self, addr: u32, n: nat, i: nat) -> u32 {
        match self.run7(addr, 4 * n as int) {
            Some(s) => self.ram.word(s.plus(4 * i as int)),
            None => self.after_words7(addr, i).bus_word7(addr.wrapping_add((4 * i) as u32)),
        }
    }

    pub open spec fn after_block7(self, addr: u32, n: nat) -> MmuModel {
        match self.run7(addr, 4 * n as int) {
            Some(s) => self,
            None => self.after_words7(addr, n),
        }
    }

    pub open spec fn bus_stored7(self, addr: u32, val: u32) -> MmuModel {
        if addr == PORT_SEND {
            self.sent7(val)
        } else {
            self.wrote_word7((addr - addr % 4) as u32, val)
        }
    }

    pub open spec fn words_stored7(self, addr: u32, vs: Seq<u32>) -> MmuModel
        decreases vs.len(),
    {
        if vs.len() == 0 {
            self
        } else {
            self.words_stored7(addr, vs.drop_last()).bus_stored7(
                addr.wrapping_add((4 * (vs.len() - 1)) as u32),
                vs.last(),
            )
        }
    }

    pub open spec fn block_stored7(self, addr: u32, vs: Seq<u32>) -> MmuModel {
        let m = self.marked7(addr, 4 * vs.len() as int);
        match self.store_run7(addr, 4 * vs.len() as int) {
            Some(s) => MmuModel { ram: m.ram.with_words(s, vs), ..m },
            None => m.words_stored7(addr, vs),
        }
    }
}

/// The memory system as the first processor's instructions see it.
pub struct Arm9Bus<'a>(pub &'a mut NdsMmu);

impl<'a> Arm9Bus<'a> {
    /// Byte load.
    pub fn read_byte(&mut self, addr: u32) -> (v: u8)
        requires
            old(self).0@.wf(),
        ensures
            v == old(self).0@.load_watched(addr).byte9(addr),
            final(self).0@ == old(self).0@.load_watched(addr),
            final(self).0@.wf(),
            *final(final(self).0) == *final(old(self).0),
    {
        if self.0.stores.read_watch_on() {
            self.0.tp_note_read(addr);
        }
        self.0.read_byte_arm9(addr)
    }

    /// Halfword load.
    pub fn read_halfword(&mut self, addr: u32) -> (v: u16)
        requires
            old(self).0@.wf(),
        ensures
            v == old(self).0@.load_watched(addr).halfword9(addr),
            final(self).0@ == old(self).0@.load_watched(addr),
            final(self).0@.wf(),
            *final(final(self).0) == *final(old(self).0),
    {
        if self.0.stores.read_watch_on() {
            self.0.tp_note_read(addr);
        }
        self.0.read_halfword_arm9(addr)
    }

    /// Word load. The queue and the cartridge port deliver their next word.
    pub fn read_word(&mut self, addr: u32) -> (v: u32)
        requires
            old(self).0@.wf(),
        ensures
            v == old(self).0@.bus_word9(addr),
            final(self).0@ == old(self).0@.after_word9(addr),
            final(self).0@.wf(),
            *final(final(self).0) == *final(old(self).0),
    {
        if self.0.stores.read_watch_on() {
            self.0.tp_note_read(addr);
        }
        if addr == PORT_RECEIVE {
            self.0.read_ipc_fifo_rx_arm9()
        } else if addr == PORT_CARD {
            self.0.gamecard_read_data()
        } else {
            rotate_bytes(self.0.read_word_arm9(addr - addr % 4), addr % 4)
        }
    }

    /// Instruction fetch: no load of the program, so no port and no watch.
    pub fn fetch_word(&mut self, addr: u32) -> (v: u32)
        requires
            old(self).0@.wf(),
        ensures
            v == old(self).0@.word9(addr),
            final(self).0@ == old(self).0@,
            final(self).0@.wf(),
            *final(final(self).0) == *final(old(self).0),
    {
        self.0.read_word_arm9(addr)
    }

    /// Instruction fetch of the short encoding.
    pub fn fetch_halfword(&mut self, addr: u32) -> (v: u16)
        requires
            old(self).0@.wf(),
        ensures
            v == old(self).0@.halfword9(addr),
            final(self).0@ == old(self).0@,
            final(self).0@.wf(),
            *final(final(self).0) == *final(old(self).0),
    {
        self.0.read_halfword_arm9(addr)
    }

    /// Block load. A block that lies together in plain memory is decoded once.
    pub fn read_words(&mut self, addr: u32, out: &mut [u32])
        requires
            old(self).0@.wf(),
            old(out)@.len() <= 0x3FFF_FFFF,
        ensures
            final(out)@.len() == old(out)@.len(),
            forall|i: int|
                0 <= i < old(out)@.len() ==> #[trigger] final(out)@[i] == old(self).0@.block_word9(
                    addr,
                    old(out)@.len(),
                    i as nat,
                ),
            final(self).0@ == old(self).0@.after_block9(addr, old(out)@.len()),
            final(self).0@.wf(),
            *final(final(self).0) == *final(old(self).0),
    {
        let n: usize = out.len();
        let ghost m0 = self.0@;
        let mut i: usize = 0;
        match self.0.contiguous_arm9(addr, n as u32 * 4) {
            Some(s) => {
                while i < n
                    invariant
                        i <= n,
                        n == out@.len(),
                        n <= 0x3FFF_FFFF,
                        m0.wf(),
                        self.0@ == m0,
                        *final(self.0) == *final(old(self).0),
                        m0.run9(addr, 4 * n as int) == Some(s),
                        s.index() + 4 * n <= s.limit(),
                        forall|j: int|
                            0 <= j < i ==> #[trigger] out@[j] == m0.block_word9(
                                addr,
                                n as nat,
                                j as nat,
                            ),
                    decreases n - i,
                {
                    let w: u32 = self.0.ram.get_word(s.offset_by(4 * i));
                    out[i] = w;
                    i = i + 1;
                }
            },
            None => {
                while i < n
                    invariant
                        i <= n,
                        n == out@.len(),
                        n <= 0x3FFF_FFFF,
                        self.0@.wf(),
                        m0.run9(addr, 4 * n as int) is None,
                        self.0@ == m0.after_words9(addr, i as nat),
                        *final(self.0) == *final(old(self).0),
                        forall|j: int|
                            0 <= j < i ==> #[trigger] out@[j] == m0.block_word9(
                                addr,
                                n as nat,
                                j as nat,
                            ),
                    decreases n - i,
                {
                    let w: u32 = self.read_word(addr.wrapping_add(i as u32 * 4));
                    out[i] = w;
                    i = i + 1;
                }
            },
        }
    }

    /// Byte store.
    pub fn write_byte(&mut self, addr: u32, val: u8)
        requires
            old(self).0@.wf(),
        ensures
            final(self).0@ == old(self).0@.wrote_byte9(addr, val),
            final(self).0@.wf(),
            *final(final(self).0) == *final(old(self).0),
    {
        self.0.write_byte_arm9(addr, val);
    }

    /// Halfword store.
    pub fn write_halfword(&mut self, addr: u32, val: u16)
        requires
            old(self).0@.wf(),
        ensures
            final(self).0@ == old(self).0@.wrote_halfword9(addr, val),
            final(self).0@.wf(),
            *final(final(self).0) == *final(old(self).0),
    {
        self.0.write_halfword_arm9(addr, val);
    }

    /// Word store. The send port takes the whole word.
    pub fn write_word(&mut self, addr: u32, val: u32)
        requires
            old(self).0@.wf(),
        ensures
            final(self).0@ == old(self).0@.bus_stored9(addr, val),
            final(self).0@.wf(),
            *final(final(self).0) == *final(old(self).0),
    {
        if addr == PORT_SEND {
            self.0.write_ipc_fifo_tx_arm9(val);
        } else {
            self.0.write_word_arm9(addr - addr % 4, val);
        }
    }

    /// Block store. A block that lies together in plain memory, with no watch to
    /// see each byte, is decoded once.
    pub fn write_words(&mut self, addr: u32, vals: &[u32])
        requires
            old(self).0@.wf(),
            vals@.len() <= 0x3FFF_FFFF,
        ensures
            final(self).0@ == old(self).0@.block_stored9(addr, vals@),
            final(self).0@.wf(),
            *final(final(self).0) == *final(old(self).0),
    {
        let n: usize = vals.len();
        let ghost m0 = self.0@;
        let mut i: usize = 0;
        let r: Option<Spot> = self.0.contiguous_arm9_mut(addr, n as u32 * 4);
        let ghost m1 = self.0@;
        assert(vals@.take(0) =~= Seq::empty());
        match r {
            Some(s) => {
                while i < n
                    invariant
                        i <= n,
                        n == vals@.len(),
                        n <= 0x3FFF_FFFF,
                        self.0@.wf(),
                        self.0@ == (MmuModel {
                            ram: m1.ram.with_words(s, vals@.take(i as int)),
                            ..m1
                        }),
                        *final(self.0) == *final(old(self).0),
                        s.index() + 4 * n <= s.limit(),
                    decreases n - i,
                {
                    self.0.ram.put_word(s.offset_by(4 * i), vals[i]);
                    assert(vals@.take(i + 1).drop_last() =~= vals@.take(i as int));
                    i = i + 1;
                }
            },
            None => {
                while i < n
                    invariant
                        i <= n,
                        n == vals@.len(),
                        n <= 0x3FFF_FFFF,
                        self.0@.wf(),
                        self.0@ == m1.words_stored9(addr, vals@.take(i as int)),
                        *final(self.0) == *final(old(self).0),
                    decreases n - i,
                {
                    self.write_word(addr.wrapping_add(i as u32 * 4), vals[i]);
                    assert(vals@.take(i + 1).drop_last() =~= vals@.take(i as int));
                    i = i + 1;
                }
            },
        }
        assert(vals@.take(n as int) =~= vals@);
    }
}

/// The memory system as the second processor's instructions see it.
pub struct Arm7Bus<'a>(pub &'a mut NdsMmu);

impl<'a> Arm7Bus<'a> {
    /// Byte load.
    pub fn read_byte(&mut self, addr: u32) -> (v: u8)
        requires
            old(self).0@.wf(),
        ensures
            v == old(self).0@.byte7(addr),
            final(self).0@ == old(self).0@,
            final(self).0@.wf(),
            *final(final(self).0) == *final(old(self).0),
    {
        self.0.read_byte_arm7(addr)
    }

    /// Halfword load.
    pub fn read_halfword(&mut self, addr: u32) -> (v: u16)
        requires
            old(self).0@.wf(),
        ensures
            v == old(self).0@.halfword7(addr),
            final(self).0@ == old(self).0@,
            final(self).0@.wf(),
            *final(final(self).0) == *final(old(self).0),
    {
        self.0.read_halfword_arm7(addr)
    }

    /// Word load. The queue delivers its next word.
    pub fn read_word(&mut self, addr: u32) -> (v: u32)
        requires
            old(self).0@.wf(),
        ensures
            v == old(self).0@.bus_word7(addr),
            final(self).0@ == old(self).0@.after_word7(addr),
            final(self).0@.wf(),
            *final(final(self).0) == *final(old(self).0),
    {
        if addr == PORT_RECEIVE {
            self.0.read_ipc_fifo_rx_arm7()
        } else {
            rotate_bytes(self.0.read_word_arm7(addr - addr % 4), addr % 4)
        }
    }

    /// Instruction fetch: no load of the program, so no port and no watch.
    pub fn fetch_word(&mut self, addr: u32) -> (v: u32)
        requires
            old(self).0@.wf(),
        ensures
            v == old(self).0@.word7(addr),
            final(self).0@ == old(self).0@,
            final(self).0@.wf(),
            *final(final(self).0) == *final(old(self).0),
    {
        self.0.read_word_arm7(addr)
    }

    /// Instruction fetch of the short encoding.
    pub fn fetch_halfword(&mut self, addr: u32) -> (v: u16)
        requires
            old(self).0@.wf(),
        ensures
            v == old(self).0@.halfword7(addr),
            final(self).0@ == old(self).0@,
            final(self).0@.wf(),
            *final(final(self).0) == *final(old(self).0),
    {
        self.0.read_halfword_arm7(addr)
    }

    /// Block load. A block that lies together in plain memory is decoded once.
    pub fn read_words(&mut self, addr: u32, out: &mut [u32])
        requires
            old(self).0@.wf(),
            old(out)@.len() <= 0x3FFF_FFFF,
        ensures
            final(out)@.len() == old(out)@.len(),
            forall|i: int|
                0 <= i < old(out)@.len() ==> #[trigger] final(out)@[i] == old(self).0@.block_word7(
                    addr,
                    old(out)@.len(),
                    i as nat,
                ),
            final(self).0@ == old(self).0@.after_block7(addr, old(out)@.len()),
            final(self).0@.wf(),
            *final(final(self).0) == *final(old(self).0),
    {
        let n: usize = out.len();
        let ghost m0 = self.0@;
        let mut i: usize = 0;
        match self.0.contiguous_arm7(addr, n as u32 * 4) {
            Some(s) => {
                while i < n
                    invariant
                        i <= n,
                        n == out@.len(),
                        n <= 0x3FFF_FFFF,
                        m0.wf(),
                        self.0@ == m0,
                        *final(self.0) == *final(old(self).0),
                        m0.run7(addr, 4 * n as int) == Some(s),
                        s.index() + 4 * n <= s.limit(),
                        forall|j: int|
                            0 <= j < i ==> #[trigger] out@[j] == m0.block_word7(
                                addr,
                                n as nat,
                                j as nat,
                            ),
                    decreases n - i,
                {
                    let w: u32 = self.0.ram.get_word(s.offset_by(4 * i));
                    out[i] = w;
                    i = i + 1;
                }
            },
            None => {
                while i < n
                    invariant
                        i <= n,
                        n == out@.len(),
                        n <= 0x3FFF_FFFF,
                        self.0@.wf(),
                        m0.run7(addr, 4 * n as int) is None,
                        self.0@ == m0.after_words7(addr, i as nat),
                        *final(self.0) == *final(old(self).0),
                        forall|j: int|
                            0 <= j < i ==> #[trigger] out@[j] == m0.block_word7(
                                addr,
                                n as nat,
                                j as nat,
                            ),
                    decreases n - i,
                {
                    let w: u32 = self.read_word(addr.wrapping_add(i as u32 * 4));
                    out[i] = w;
                    i = i + 1;
                }
            },
        }
    }

    /// Byte store.
    pub fn write_byte(&mut self, addr: u32, val: u8)
        requires
            old(self).0@.wf(),
        ensures
            final(self).0@ == old(self).0@.wrote_byte7(addr, val),
            final(self).0@.wf(),
            *final(final(self).0) == *final(old(self).0),
    {
        self.0.write_byte_arm7(addr, val);
    }

    /// Halfword store.
    pub fn write_halfword(&mut self, addr: u32, val: u16)
        requires
            old(self).0@.wf(),
        ensures
            final(self).0@ == old(self).0@.wrote_halfword7(addr, val),
            final(self).0@.wf(),
            *final(final(self).0) == *final(old(self).0),
    {
        self.0.write_halfword_arm7(addr, val);
    }

    /// Word store. The send port takes the whole word.
    pub fn write_word(&mut self, addr: u32, val: u32)
        requires
            old(self).0@.wf(),
        ensures
            final(self).0@ == old(self).0@.bus_stored7(addr, val),
            final(self).0@.wf(),
            *final(final(self).0) == *final(old(self).0),
    {
        if addr == PORT_SEND {
            self.0.write_ipc_fifo_tx_arm7(val);
        } else {
            self.0.write_word_arm7(addr - addr % 4, val);
        }
    }

    /// Block store. A block that lies together in plain memory, with no watch to
    /// see each byte, is decoded once.
    pub fn write_words(&mut self, addr: u32, vals: &[u32])
        requires
            old(self).0@.wf(),
            vals@.len() <= 0x3FFF_FFFF,
        ensures
            final(self).0@ == old(self).0@.block_stored7(addr, vals@),
            final(self).0@.wf(),
            *final(final(self).0) == *final(old(self).0),
    {
        let n: usize = vals.len();
        let ghost m0 = self.0@;
        let mut i: usize = 0;
        let r: Option<Spot> = self.0.contiguous_arm7_mut(addr, n as u32 * 4);
        let ghost m1 = self.0@;
        assert(vals@.take(0) =~= Seq::empty());
        match r {
            Some(s) => {
                while i < n
                    invariant
                        i <= n,
                        n == vals@.len(),
                        n <= 0x3FFF_FFFF,
                        self.0@.wf(),
                        self.0@ == (MmuModel {
                            ram: m1.ram.with_words(s, vals@.take(i as int)),
                            ..m1
                        }),
                        *final(self.0) == *final(old(self).0),
                        s.index() + 4 * n <= s.limit(),
                    decreases n - i,
                {
                    self.0.ram.put_word(s.offset_by(4 * i), vals[i]);
                    assert(vals@.take(i + 1).drop_last() =~= vals@.take(i as int));
                    i = i + 1;
                }
            },
            None => {
                while i < n
                    invariant
                        i <= n,
                        n == vals@.len(),
                        n <= 0x3FFF_FFFF,
                        self.0@.wf(),
                        self.0@ == m1.words_stored7(addr, vals@.take(i as int)),
                        *final(self.0) == *final(old(self).0),
                    decreases n - i,
                {
                    self.write_word(addr.wrapping_add(i as u32 * 4), vals[i]);
                    assert(vals@.take(i + 1).drop_last() =~= vals@.take(i as int));
                    i = i + 1;
                }
            },
        }
        assert(vals@.take(n as int) =~= vals@);
    }
}

/// An aligned load delivers the word as it stands, at every address that is no
/// port.
pub proof fn law_aligned_load_is_not_rotated(m: MmuModel, addr: u32)
    requires
        addr % 4 == 0,
        addr != PORT_RECEIVE,
        addr != PORT_CARD,
        !m.stores.tp_read_watch_on,
    ensures
        m.bus_word9(addr) == m.word9(addr),
        m.bus_word7(addr) == m.word7(addr),
{
    lemma_unrotated(m.word9(addr));
    lemma_unrotated(m.word7(addr));
}

proof fn lemma_unrotated(w: u32)
    ensures
        rotated(w, 0) == w,
{
    reveal(rotated);
    bytes::law_split_then_compose(w);
}

/// Whether none of the `n` words from `addr` on is a port.
pub open spec fn portless(addr: u32, n: nat) -> bool {
    forall|i: int|
        0 <= i < n ==> {
            &&& #[trigger] addr.wrapping_add((4 * i) as u32) != PORT_RECEIVE
            &&& addr.wrapping_add((4 * i) as u32) != PORT_CARD
        }
}

/// Decoding a block once is no shortcut: it delivers what loading word by word
/// delivers, and neither has an effect.
pub proof fn law_block_load_is_word_loads_9(m: MmuModel, addr: u32, n: nat, i: nat)
    requires
        m.wf(),
        addr % 4 == 0,
        i < n,
        m.run9(addr, 4 * n as int) is Some,
        portless(addr, n),
        !m.stores.tp_read_watch_on,
    ensures
        m.block_word9(addr, n, i) == m.bus_word9(addr.wrapping_add((4 * i) as u32)),
        m.after_words9(addr, i) == m,
    decreases i,
{
    let a = addr.wrapping_add((4 * i) as u32);
    if i > 0 {
        law_block_load_is_word_loads_9(m, addr, n, (i - 1) as nat);
        let b = addr.wrapping_add((4 * (i - 1)) as u32);
        assert(b != PORT_RECEIVE && b != PORT_CARD);
    }
    assert(a != PORT_RECEIVE && a != PORT_CARD);
    lemma_word_of_run9(m, addr, n, i);
    law_aligned_load_is_not_rotated(m, a);
}

proof fn lemma_word_of_run9(m: MmuModel, addr: u32, n: nat, i: nat)
    requires
        addr % 4 == 0,
        i < n,
        m.run9(addr, 4 * n as int) is Some,
    ensures
        addr.wrapping_add((4 * i) as u32) % 4 == 0,
        m.word9(addr.wrapping_add((4 * i) as u32)) == m.ram.word(
            m.run9(addr, 4 * n as int)->0.plus(4 * i as int),
        ),
{
    let a = addr.wrapping_add((4 * i) as u32);
    let s = m.run9(addr, 4 * n as int)->0;
    let k = 4 * i as int;
    decode::law_run_is_consecutive_9(m, addr, 4 * n as int, k);
    decode::law_run_is_consecutive_9(m, addr, 4 * n as int, k + 1);
    decode::law_run_is_consecutive_9(m, addr, 4 * n as int, k + 2);
    decode::law_run_is_consecutive_9(m, addr, 4 * n as int, k + 3);
    decode::law_wide_loads_compose_bytes_9(m, a);
    assert(a.wrapping_add(1) == addr.wrapping_add((k + 1) as u32));
    assert(a.wrapping_add(2) == addr.wrapping_add((k + 2) as u32));
    assert(a.wrapping_add(3) == addr.wrapping_add((k + 3) as u32));
    assert(s.plus(k).plus(1) == s.plus(k + 1));
    assert(s.plus(k).plus(2) == s.plus(k + 2));
    assert(s.plus(k).plus(3) == s.plus(k + 3));
}

/// The same of the second processor.
pub proof fn law_block_load_is_word_loads_7(m: MmuModel, addr: u32, n: nat, i: nat)
    requires
        m.wf(),
        addr % 4 == 0,
        i < n,
        m.run7(addr, 4 * n as int) is Some,
    ensures
        m.block_word7(addr, n, i) == m.bus_word7(addr.wrapping_add((4 * i) as u32)),
        m.after_words7(addr, i) == m,
    decreases i,
{
    let a = addr.wrapping_add((4 * i) as u32);
    lemma_word_of_run7(m, addr, n, i);
    if i > 0 {
        law_block_load_is_word_loads_7(m, addr, n, (i - 1) as nat);
        lemma_word_of_run7(m, addr, n, (i - 1) as nat);
    }
    lemma_unrotated(m.word7(a));
}

proof fn lemma_run7_inside(m: MmuModel, addr: u32, n: int, k: int)
    requires
        0 <= k,
        k < n,
        m.run7(addr, n) is Some,
    ensures
        addr + k < 0x0400_0000,
        (m.run7(addr, n)->0) is Main || (m.run7(addr, n)->0) is Wram7,
        m.run7(addr, n)->0.index() + k < m.run7(addr, n)->0.limit(),
{
    reveal(MmuModel::run7);
}

proof fn lemma_word_of_run7(m: MmuModel, addr: u32, n: nat, i: nat)
    requires
        addr % 4 == 0,
        i < n,
        m.run7(addr, 4 * n as int) is Some,
    ensures
        addr.wrapping_add((4 * i) as u32) == addr + 4 * i,
        addr + 4 * i < 0x0400_0000,
        m.word7(addr.wrapping_add((4 * i) as u32)) == m.ram.word(
            m.run7(addr, 4 * n as int)->0.plus(4 * i as int),
        ),
{
    let a = addr.wrapping_add((4 * i) as u32);
    let s = m.run7(addr, 4 * n as int)->0;
    let k = 4 * i as int;
    lemma_run7_inside(m, addr, 4 * n as int, k + 3);
    assert(a == addr + k);
    decode::lemma_run7(m, addr, 4 * n as int, k);
    decode::lemma_run7(m, addr, 4 * n as int, k + 1);
    decode::lemma_run7(m, addr, 4 * n as int, k + 2);
    decode::lemma_run7(m, addr, 4 * n as int, k + 3);
    assert(a.wrapping_add(1) == addr.wrapping_add((k + 1) as u32));
    assert(a.wrapping_add(2) == addr.wrapping_add((k + 2) as u32));
    assert(a.wrapping_add(3) == addr.wrapping_add((k + 3) as u32));
    assert(s.plus(k).plus(1) == s.plus(k + 1));
    assert(s.plus(k).plus(2) == s.plus(k + 2));
    assert(s.plus(k).plus(3) == s.plus(k + 3));
    reveal(MmuModel::word7);
}

/// Whether none of the `n` words from `addr` on is in the register region.
pub open spec fn off_registers(addr: u32, n: nat) -> bool {
    forall|i: int|
        0 <= i < n ==> (#[trigger] addr.wrapping_add((4 * i) as u32)) / 0x100_0000 != 0x04
}

proof fn lemma_word_in_run9(m: MmuModel, p: MmuModel, addr: u32, n: nat, i: nat, v: u32)
    requires
        addr % 4 == 0,
        i < n,
        m.run9(addr, 4 * n as int) is Some,
        p.cp15 == m.cp15,
        p.wram_control == m.wram_control,
        addr.wrapping_add((4 * i) as u32) / 0x100_0000 != 0x04,
    ensures
        bytewise::same_hardware(
            MmuModel {
                ram: p.ram.with_word(m.run9(addr, 4 * n as int)->0.plus(4 * i as int), v),
                ..p
            },
            p.wrote_word9(addr.wrapping_add((4 * i) as u32), v),
        ),
{
    let run = store::runner(store::DMA_NESTING as nat);
    let a = addr.wrapping_add((4 * i) as u32);
    let s = m.run9(addr, 4 * n as int)->0;
    let k = 4 * i as int;
    let (b0, b1, b2, b3) = (
        bytes::byte_of(v, 0),
        bytes::byte_of(v, 1),
        bytes::byte_of(v, 2),
        bytes::byte_of(v, 3),
    );
    decode::law_run_is_consecutive_9(m, addr, 4 * n as int, 0);
    let p0 = p.byte9_with(a, b0, run);
    let p1 = p0.byte9_with(a.wrapping_add(1), b1, run);
    let p2 = p1.byte9_with(a.wrapping_add(2), b2, run);
    assert(a.wrapping_add(1) == addr.wrapping_add((k + 1) as u32));
    assert(a.wrapping_add(2) == addr.wrapping_add((k + 2) as u32));
    assert(a.wrapping_add(3) == addr.wrapping_add((k + 3) as u32));
    assert(s.plus(k).plus(1) == s.plus(k + 1));
    assert(s.plus(k).plus(2) == s.plus(k + 2));
    assert(s.plus(k).plus(3) == s.plus(k + 3));
    bytewise::lemma_run_byte9(m, p, addr, 4 * n as int, k, b0, run);
    bytewise::lemma_run_byte9(m, p0, addr, 4 * n as int, k + 1, b1, run);
    bytewise::lemma_run_byte9(m, p1, addr, 4 * n as int, k + 2, b2, run);
    bytewise::lemma_run_byte9(m, p2, addr, 4 * n as int, k + 3, b3, run);
    bytewise::law_word_store_is_byte_stores_9(p, a, v, 0);
}

proof fn lemma_words_in_run9(m: MmuModel, addr: u32, vs: Seq<u32>, n: nat)
    requires
        addr % 4 == 0,
        vs.len() <= n,
        m.run9(addr, 4 * n as int) is Some,
        off_registers(addr, n),
    ensures
        bytewise::same_hardware(
            MmuModel { ram: m.ram.with_words(m.run9(addr, 4 * n as int)->0, vs), ..m },
            m.words_stored9(addr, vs),
        ),
    decreases vs.len(),
{
    if vs.len() > 0 {
        let i = (vs.len() - 1) as nat;
        let a = addr.wrapping_add((4 * i) as u32);
        decode::law_run_is_consecutive_9(m, addr, 4 * n as int, 0);
        lemma_words_in_run9(m, addr, vs.drop_last(), n);
        let p = m.words_stored9(addr, vs.drop_last());
        lemma_word_in_run9(m, p, addr, n, i, vs.last());
        assert(a % 4 == 0);
        assert(a / 0x100_0000 != 0x04);
    }
}

/// A block store of the first processor to plain memory leaves the machine that
/// its word stores leave.
pub proof fn law_block_store_is_word_stores_9(m: MmuModel, addr: u32, vs: Seq<u32>)
    requires
        addr % 4 == 0,
        m.run9(addr, 4 * vs.len() as int) is Some,
        off_registers(addr, vs.len()),
    ensures
        bytewise::same_hardware(m.words_stored9(addr, vs), m.block_stored9(addr, vs)),
{
    lemma_words_in_run9(m, addr, vs, vs.len());
    reveal(MmuModel::store_run9);
    reveal(MmuModel::marked9);
    if m.store_run9(addr, 4 * vs.len() as int) is None {
        assert(m.marked9(addr, 4 * vs.len() as int) == m);
    }
}

proof fn lemma_word_in_run7(m: MmuModel, p: MmuModel, addr: u32, n: nat, i: nat, v: u32)
    requires
        addr % 4 == 0,
        i < n,
        m.run7(addr, 4 * n as int) is Some,
        p.cp15 == m.cp15,
        p.wram_control == m.wram_control,
        addr.wrapping_add((4 * i) as u32) / 0x100_0000 != 0x04,
    ensures
        bytewise::same_hardware(
            MmuModel {
                ram: p.ram.with_word(m.run7(addr, 4 * n as int)->0.plus(4 * i as int), v),
                ..p
            },
            p.wrote_word7(addr.wrapping_add((4 * i) as u32), v),
        ),
{
    let run = store::runner(store::DMA_NESTING as nat);
    let a = addr.wrapping_add((4 * i) as u32);
    let s = m.run7(addr, 4 * n as int)->0;
    let k = 4 * i as int;
    let (b0, b1, b2, b3) = (
        bytes::byte_of(v, 0),
        bytes::byte_of(v, 1),
        bytes::byte_of(v, 2),
        bytes::byte_of(v, 3),
    );
    lemma_run7_inside(m, addr, 4 * n as int, 4 * n - 1);
    let p0 = p.byte7_with(a, b0, run);
    let p1 = p0.byte7_with(a.wrapping_add(1), b1, run);
    let p2 = p1.byte7_with(a.wrapping_add(2), b2, run);
    assert(a.wrapping_add(1) == addr.wrapping_add((k + 1) as u32));
    assert(a.wrapping_add(2) == addr.wrapping_add((k + 2) as u32));
    assert(a.wrapping_add(3) == addr.wrapping_add((k + 3) as u32));
    assert(s.plus(k).plus(1) == s.plus(k + 1));
    assert(s.plus(k).plus(2) == s.plus(k + 2));
    assert(s.plus(k).plus(3) == s.plus(k + 3));
    bytewise::lemma_run_byte7(m, p, addr, 4 * n as int, k, b0, run);
    bytewise::lemma_run_byte7(m, p0, addr, 4 * n as int, k + 1, b1, run);
    bytewise::lemma_run_byte7(m, p1, addr, 4 * n as int, k + 2, b2, run);
    bytewise::lemma_run_byte7(m, p2, addr, 4 * n as int, k + 3, b3, run);
    bytewise::law_word_store_is_byte_stores_7(p, a, v, 0);
}

proof fn lemma_words_in_run7(m: MmuModel, addr: u32, vs: Seq<u32>, n: nat)
    requires
        addr % 4 == 0,
        vs.len() <= n,
        m.run7(addr, 4 * n as int) is Some,
        off_registers(addr, n),
    ensures
        bytewise::same_hardware(
            MmuModel { ram: m.ram.with_words(m.run7(addr, 4 * n as int)->0, vs), ..m },
            m.words_stored7(addr, vs),
        ),
    decreases vs.len(),
{
    if vs.len() > 0 {
        let i = (vs.len() - 1) as nat;
        let a = addr.wrapping_add((4 * i) as u32);
        lemma_run7_inside(m, addr, 4 * n as int, 4 * n - 1);
        lemma_words_in_run7(m, addr, vs.drop_last(), n);
        let p = m.words_stored7(addr, vs.drop_last());
        lemma_word_in_run7(m, p, addr, n, i, vs.last());
        assert(a % 4 == 0);
        assert(a / 0x100_0000 != 0x04);
    }
}

/// A block store of the second processor to plain memory leaves the machine that
/// its word stores leave.
pub proof fn law_block_store_is_word_stores_7(m: MmuModel, addr: u32, vs: Seq<u32>)
    requires
        addr % 4 == 0,
        m.run7(addr, 4 * vs.len() as int) is Some,
        off_registers(addr, vs.len()),
    ensures
        bytewise::same_hardware(m.words_stored7(addr, vs), m.block_stored7(addr, vs)),
{
    lemma_words_in_run7(m, addr, vs, vs.len());
    reveal(MmuModel::store_run7);
    reveal(MmuModel::marked7);
    if m.store_run7(addr, 4 * vs.len() as int) is None {
        assert(m.marked7(addr, 4 * vs.len() as int) == m);
    }
}

/// A word loaded from an address that is no multiple of four is the word around it,
/// turned so that the byte at the address comes lowest and the bytes before it
/// highest.
pub proof fn law_unaligned_loads_turn(m: MmuModel, addr: u32, j: int)
    requires
        addr != 0x0410_0000,
        addr != 0x0410_0010,
        !m.stores.tp_read_watch_on,
        0 <= j < 4,
    ensures
        bytes::byte_of(m.bus_word9(addr), j) == m.byte9(
            (addr - addr % 4 + (addr + j) % 4) as u32,
        ),
        bytes::byte_of(m.bus_word7(addr), j) == m.byte7(
            (addr - addr % 4 + (addr + j) % 4) as u32,
        ),
{
    let a = (addr - addr % 4) as u32;
    decode::law_wide_loads_compose_bytes_9(m, a);
    decode::law_wide_loads_compose_bytes_7(m, a);
    lemma_turned(m.byte9(a), m.byte9((a + 1) as u32), m.byte9((a + 2) as u32), m.byte9((a + 3) as u32), addr as int % 4);
    lemma_turned(m.byte7(a), m.byte7((a + 1) as u32), m.byte7((a + 2) as u32), m.byte7((a + 3) as u32), addr as int % 4);
    assert((addr + j) % 4 == (addr as int % 4 + j) % 4);
}

proof fn lemma_turned(b0: u8, b1: u8, b2: u8, b3: u8, k: int)
    requires
        0 <= k < 4,
    ensures
        ({
            let r = rotated(bytes::le32(b0, b1, b2, b3), k);
            &&& k == 0 ==> r == bytes::le32(b0, b1, b2, b3)
            &&& k == 1 ==> r == bytes::le32(b1, b2, b3, b0)
            &&& k == 2 ==> r == bytes::le32(b2, b3, b0, b1)
            &&& k == 3 ==> r == bytes::le32(b3, b0, b1, b2)
            &&& bytes::byte_of(r, 0) == (if k == 0 { b0 } else if k == 1 { b1 } else if k == 2 { b2 } else { b3 })
            &&& bytes::byte_of(r, 1) == (if k == 0 { b1 } else if k == 1 { b2 } else if k == 2 { b3 } else { b0 })
            &&& bytes::byte_of(r, 2) == (if k == 0 { b2 } else if k == 1 { b3 } else if k == 2 { b0 } else { b1 })
            &&& bytes::byte_of(r, 3) == (if k == 0 { b3 } else if k == 1 { b0 } else if k == 2 { b1 } else { b2 })
        }),
{
    reveal(rotated);
    bytes::law_compose_then_split(b0, b1, b2, b3);
    bytes::law_compose_then_split(b1, b2, b3, b0);
    bytes::law_compose_then_split(b2, b3, b0, b1);
    bytes::law_compose_then_split(b3, b0, b1, b2);
}

} // verus!

//! Wide stores against the byte stores that they stand for.

use vstd::prelude::*;
use crate::bytes;
use crate::mmu::decode;
use crate::mmu::store;
use crate::mmu::store::Runner;
use crate::mmu::watch;
use crate::mmu::MmuModel;

verus! {

/// Whether two machines differ at most in what was observed of their stores: the
/// watches, the page versions and the counters.
pub open spec fn same_hardware(a: MmuModel, b: MmuModel) -> bool {
    b == (MmuModel { stores: b.stores, code: b.code, census: b.census, ..a })
}

/// Observations do not decide what is loaded.
proof fn lemma_loads(a: MmuModel, b: MmuModel, x: u32)
    requires
        same_hardware(a, b),
    ensures
        a.byte9(x) == b.byte9(x),
        a.byte7(x) == b.byte7(x),
{
    reveal(MmuModel::spot9);
    reveal(MmuModel::spot7);
    reveal(MmuModel::byte9);
    reveal(MmuModel::byte7);
    reveal(MmuModel::io9_byte);
    reveal(MmuModel::io7_byte);
}

/// The first registers are plain storage.
proof fn lemma_first_registers(m: MmuModel, off: u32, val: u8)
    requires
        off <= 2,
    ensures
        m.io9_written(off, val) == m.io_stored(true, off, val),
        m.io7_written(off, val) == m.io_stored(false, off, val),
{
    reveal(MmuModel::io9_written);
    reveal(MmuModel::io7_written);
}

/// Byte stores treat machines that differ in observations alike, outside the
/// registers and in the three that a straddling word can reach.
proof fn lemma_byte9(a: MmuModel, b: MmuModel, addr: u32, val: u8, run: Runner)
    requires
        same_hardware(a, b),
        addr / 0x100_0000 != 0x04 || addr % 0x100_0000 <= 2,
    ensures
        same_hardware(a.byte9_with(addr, val, run), b.byte9_with(addr, val, run)),
{
    reveal(MmuModel::byte9_with);
    reveal(MmuModel::spot_stored);
    reveal(MmuModel::spot9);
    if addr % 0x100_0000 <= 2 {
        let p = MmuModel { stores: a.stores.byte_stored(true, addr, val), ..a };
        let q = MmuModel { stores: b.stores.byte_stored(true, addr, val), ..b };
        lemma_first_registers(p, addr % 0x100_0000, val);
        lemma_first_registers(q, addr % 0x100_0000, val);
    }
}

proof fn lemma_byte7(a: MmuModel, b: MmuModel, addr: u32, val: u8, run: Runner)
    requires
        same_hardware(a, b),
        addr / 0x100_0000 != 0x04 || addr % 0x100_0000 <= 2,
    ensures
        same_hardware(a.byte7_with(addr, val, run), b.byte7_with(addr, val, run)),
{
    reveal(MmuModel::byte7_with);
    reveal(MmuModel::spot_stored);
    reveal(MmuModel::spot7);
    if addr % 0x100_0000 <= 2 {
        let p = MmuModel { stores: a.stores.byte_stored(false, addr, val), ..a };
        let q = MmuModel { stores: b.stores.byte_stored(false, addr, val), ..b };
        lemma_first_registers(p, addr % 0x100_0000, val);
        lemma_first_registers(q, addr % 0x100_0000, val);
    }
}

/// A byte store to plain memory changes that byte of it.
proof fn lemma_plain9(m: MmuModel, addr: u32, val: u8, run: Runner)
    requires
        m.spot9(addr) is Some,
        m.spot9(addr)->0.writable(),
    ensures
        same_hardware(
            MmuModel { ram: m.ram.with_byte(m.spot9(addr)->0, val), ..m },
            m.byte9_with(addr, val, run),
        ),
{
    reveal(MmuModel::byte9_with);
    reveal(MmuModel::spot_stored);
    reveal(MmuModel::spot9);
}

proof fn lemma_plain7(m: MmuModel, addr: u32, val: u8, run: Runner)
    requires
        m.spot7(addr) is Some,
        m.spot7(addr)->0.writable(),
    ensures
        same_hardware(
            MmuModel { ram: m.ram.with_byte(m.spot7(addr)->0, val), ..m },
            m.byte7_with(addr, val, run),
        ),
{
    reveal(MmuModel::byte7_with);
    reveal(MmuModel::spot_stored);
    reveal(MmuModel::spot7);
}

/// Decoding depends on the mapping only.
proof fn lemma_decoding(a: MmuModel, b: MmuModel, addr: u32)
    requires
        a.cp15 == b.cp15,
        a.wram_control == b.wram_control,
    ensures
        a.spot9(addr) == b.spot9(addr),
        a.spot7(addr) == b.spot7(addr),
        forall|n: int| a.run9(addr, n) == #[trigger] b.run9(addr, n),
        forall|n: int| a.run7(addr, n) == #[trigger] b.run7(addr, n),
{
    reveal(MmuModel::spot9);
    reveal(MmuModel::spot7);
    reveal(MmuModel::run9);
    reveal(MmuModel::run7);
}

proof fn lemma_marked(m: MmuModel, addr: u32, n: int)
    ensures
        same_hardware(m, m.marked9(addr, n)),
        same_hardware(m, m.marked7(addr, n)),
{
    reveal(MmuModel::marked9);
    reveal(MmuModel::marked7);
}

/// Byte `k` of a run, stored by the first processor.
pub proof fn lemma_run_byte9(m: MmuModel, at: MmuModel, addr: u32, n: int, k: int, val: u8, run: Runner)
    requires
        0 <= k < n,
        m.run9(addr, n) is Some,
        at.cp15 == m.cp15,
        at.wram_control == m.wram_control,
    ensures
        same_hardware(
            MmuModel { ram: at.ram.with_byte(m.run9(addr, n)->0.plus(k), val), ..at },
            at.byte9_with(addr.wrapping_add(k as u32), val, run),
        ),
{
    let a = addr.wrapping_add(k as u32);
    decode::law_run_is_consecutive_9(m, addr, n, k);
    lemma_decoding(m, at, a);
    lemma_plain9(at, a, val, run);
}

pub proof fn lemma_run_byte7(m: MmuModel, at: MmuModel, addr: u32, n: int, k: int, val: u8, run: Runner)
    requires
        0 <= k < n,
        m.run7(addr, n) is Some,
        at.cp15 == m.cp15,
        at.wram_control == m.wram_control,
    ensures
        same_hardware(
            MmuModel { ram: at.ram.with_byte(m.run7(addr, n)->0.plus(k), val), ..at },
            at.byte7_with(addr.wrapping_add(k as u32), val, run),
        ),
{
    let a = addr.wrapping_add(k as u32);
    decode::lemma_run7(m, addr, n, k);
    assert(m.run7(addr, n)->0.writable()) by {
        reveal(MmuModel::run7);
    }
    lemma_decoding(m, at, a);
    lemma_plain7(at, a, val, run);
}

impl MmuModel {
    /// After the four bytes of a word were stored one by one.
    pub open spec fn word9_bytewise(self, addr: u32, val: u32) -> MmuModel {
        self.wrote_byte9(addr, bytes::byte_of(val, 0)).wrote_byte9(
            addr.wrapping_add(1),
            bytes::byte_of(val, 1),
        ).wrote_byte9(addr.wrapping_add(2), bytes::byte_of(val, 2)).wrote_byte9(
            addr.wrapping_add(3),
            bytes::byte_of(val, 3),
        )
    }

    pub open spec fn word7_bytewise(self, addr: u32, val: u32) -> MmuModel {
        self.wrote_byte7(addr, bytes::byte_of(val, 0)).wrote_byte7(
            addr.wrapping_add(1),
            bytes::byte_of(val, 1),
        ).wrote_byte7(addr.wrapping_add(2), bytes::byte_of(val, 2)).wrote_byte7(
            addr.wrapping_add(3),
            bytes::byte_of(val, 3),
        )
    }

    /// After the two bytes of a halfword were stored one by one.
    pub open spec fn halfword9_bytewise(self, addr: u32, val: u16) -> MmuModel {
        self.wrote_byte9(addr, bytes::lo(val)).wrote_byte9(addr.wrapping_add(1), bytes::hi(val))
    }

    pub open spec fn halfword7_bytewise(self, addr: u32, val: u16) -> MmuModel {
        self.wrote_byte7(addr, bytes::lo(val)).wrote_byte7(addr.wrapping_add(1), bytes::hi(val))
    }
}

/// A word store of the first processor outside the register region leaves the
/// machine as its four byte stores do, at every address, so that every byte load
/// of either processor delivers the same.
pub proof fn law_word_store_is_byte_stores_9(m: MmuModel, addr: u32, val: u32, x: u32)
    requires
        addr / 0x100_0000 != 0x04,
    ensures
        same_hardware(m.word9_bytewise(addr, val), m.wrote_word9(addr, val)),
        m.wrote_word9(addr, val).byte9(x) == m.word9_bytewise(addr, val).byte9(x),
        m.wrote_word9(addr, val).byte7(x) == m.word9_bytewise(addr, val).byte7(x),
{
    let run = store::runner(store::DMA_NESTING as nat);
    let (b0, b1, b2, b3) = (
        bytes::byte_of(val, 0),
        bytes::byte_of(val, 1),
        bytes::byte_of(val, 2),
        bytes::byte_of(val, 3),
    );
    let n = MmuModel { stores: m.stores.wide_stored9(addr, val), ..m };
    let k = n.marked9(addr, 4);
    lemma_marked(n, addr, 4);
    reveal(MmuModel::word9_with);
    reveal(MmuModel::plain_word9_with);
    reveal(MmuModel::store_run9);
    assert(addr.wrapping_add(0) == addr);
    let s0 = m.byte9_with(addr, b0, run);
    let s1 = s0.byte9_with(addr.wrapping_add(1), b1, run);
    let s2 = s1.byte9_with(addr.wrapping_add(2), b2, run);
    let s3 = s2.byte9_with(addr.wrapping_add(3), b3, run);
    match n.store_run9(addr, 4) {
        Some(s) => {
            lemma_decoding(m, n, addr);
            assert(n.run9(addr, 4) == m.run9(addr, 4));
            lemma_run_byte9(m, m, addr, 4, 0, b0, run);
            lemma_run_byte9(m, s0, addr, 4, 1, b1, run);
            lemma_run_byte9(m, s1, addr, 4, 2, b2, run);
            lemma_run_byte9(m, s2, addr, 4, 3, b3, run);
            assert(s.plus(0) == s);
            assert(s3.ram == m.ram.with_word(s, val));
        },
        None => {
            let t0 = k.byte9_with(addr, b0, run);
            let t1 = t0.byte9_with(addr.wrapping_add(1), b1, run);
            let t2 = t1.byte9_with(addr.wrapping_add(2), b2, run);
            lemma_byte9(m, k, addr, b0, run);
            lemma_byte9(s0, t0, addr.wrapping_add(1), b1, run);
            lemma_byte9(s1, t1, addr.wrapping_add(2), b2, run);
            lemma_byte9(s2, t2, addr.wrapping_add(3), b3, run);
        },
    }
    lemma_loads(s3, m.wrote_word9(addr, val), x);
}

/// The same of a halfword store.
pub proof fn law_halfword_store_is_byte_stores_9(m: MmuModel, addr: u32, val: u16, x: u32)
    requires
        addr / 0x100_0000 != 0x04,
    ensures
        same_hardware(m.halfword9_bytewise(addr, val), m.wrote_halfword9(addr, val)),
        m.wrote_halfword9(addr, val).byte9(x) == m.halfword9_bytewise(addr, val).byte9(x),
        m.wrote_halfword9(addr, val).byte7(x) == m.halfword9_bytewise(addr, val).byte7(x),
{
    let run = store::runner(store::DMA_NESTING as nat);
    let (b0, b1) = (bytes::lo(val), bytes::hi(val));
    let n = MmuModel { stores: m.stores.wide_stored9(addr, val as u32), ..m };
    let k = n.marked9(addr, 2);
    lemma_marked(n, addr, 2);
    reveal(MmuModel::halfword9_with);
    reveal(MmuModel::store_run9);
    assert(addr.wrapping_add(0) == addr);
    let s0 = m.byte9_with(addr, b0, run);
    let s1 = s0.byte9_with(addr.wrapping_add(1), b1, run);
    match n.store_run9(addr, 2) {
        Some(s) => {
            lemma_decoding(m, n, addr);
            assert(n.run9(addr, 2) == m.run9(addr, 2));
            lemma_run_byte9(m, m, addr, 2, 0, b0, run);
            lemma_run_byte9(m, s0, addr, 2, 1, b1, run);
            assert(s.plus(0) == s);
            assert(s1.ram == m.ram.with_halfword(s, val));
        },
        None => {
            let t0 = k.byte9_with(addr, b0, run);
            lemma_byte9(m, k, addr, b0, run);
            lemma_byte9(s0, t0, addr.wrapping_add(1), b1, run);
        },
    }
    lemma_loads(s1, m.wrote_halfword9(addr, val), x);
}

/// A word store of the second processor outside the register region leaves the
/// machine as its four byte stores do, at every address.
pub proof fn law_word_store_is_byte_stores_7(m: MmuModel, addr: u32, val: u32, x: u32)
    requires
        addr / 0x100_0000 != 0x04,
    ensures
        same_hardware(m.word7_bytewise(addr, val), m.wrote_word7(addr, val)),
        m.wrote_word7(addr, val).byte9(x) == m.word7_bytewise(addr, val).byte9(x),
        m.wrote_word7(addr, val).byte7(x) == m.word7_bytewise(addr, val).byte7(x),
{
    let run = store::runner(store::DMA_NESTING as nat);
    let (b0, b1, b2, b3) = (
        bytes::byte_of(val, 0),
        bytes::byte_of(val, 1),
        bytes::byte_of(val, 2),
        bytes::byte_of(val, 3),
    );
    reveal(MmuModel::word7_with);
    reveal(MmuModel::store_run7);
    let hit = watch::touch_sample((val % 0x1_0000) as u16) || watch::touch_sample(
        (val / 0x1_0000) as u16,
    );
    let n = MmuModel { stores: m.stores.wide_stored7(addr, val, hit), ..m };
    let k = n.marked7(addr, 4);
    lemma_marked(n, addr, 4);
    assert(addr.wrapping_add(0) == addr);
    let s0 = m.byte7_with(addr, b0, run);
    let s1 = s0.byte7_with(addr.wrapping_add(1), b1, run);
    let s2 = s1.byte7_with(addr.wrapping_add(2), b2, run);
    let s3 = s2.byte7_with(addr.wrapping_add(3), b3, run);
    match n.store_run7(addr, 4) {
        Some(s) => {
            lemma_decoding(m, n, addr);
            assert(n.run7(addr, 4) == m.run7(addr, 4));
            lemma_run_byte7(m, m, addr, 4, 0, b0, run);
            lemma_run_byte7(m, s0, addr, 4, 1, b1, run);
            lemma_run_byte7(m, s1, addr, 4, 2, b2, run);
            lemma_run_byte7(m, s2, addr, 4, 3, b3, run);
            assert(s.plus(0) == s);
            assert(s3.ram == m.ram.with_word(s, val));
        },
        None => {
            let t0 = k.byte7_with(addr, b0, run);
            let t1 = t0.byte7_with(addr.wrapping_add(1), b1, run);
            let t2 = t1.byte7_with(addr.wrapping_add(2), b2, run);
            lemma_byte7(m, k, addr, b0, run);
            lemma_byte7(s0, t0, addr.wrapping_add(1), b1, run);
            lemma_byte7(s1, t1, addr.wrapping_add(2), b2, run);
            lemma_byte7(s2, t2, addr.wrapping_add(3), b3, run);
        },
    }
    lemma_loads(s3, m.wrote_word7(addr, val), x);
}

/// The same of a halfword store.
pub proof fn law_halfword_store_is_byte_stores_7(m: MmuModel, addr: u32, val: u16, x: u32)
    requires
        addr / 0x100_0000 != 0x04,
    ensures
        same_hardware(m.halfword7_bytewise(addr, val), m.wrote_halfword7(addr, val)),
        m.wrote_halfword7(addr, val).byte9(x) == m.halfword7_bytewise(addr, val).byte9(x),
        m.wrote_halfword7(addr, val).byte7(x) == m.halfword7_bytewise(addr, val).byte7(x),
{
    let run = store::runner(store::DMA_NESTING as nat);
    let (b0, b1) = (bytes::lo(val), bytes::hi(val));
    reveal(MmuModel::halfword7_with);
    reveal(MmuModel::store_run7);
    let n = MmuModel {
        stores: m.stores.wide_stored7(addr, val as u32, watch::touch_sample(val)),
        ..m
    };
    let k = n.marked7(addr, 2);
    lemma_marked(n, addr, 2);
    assert(addr.wrapping_add(0) == addr);
    let s0 = m.byte7_with(addr, b0, run);
    let s1 = s0.byte7_with(addr.wrapping_add(1), b1, run);
    match n.store_run7(addr, 2) {
        Some(s) => {
            lemma_decoding(m, n, addr);
            assert(n.run7(addr, 2) == m.run7(addr, 2));
            lemma_run_byte7(m, m, addr, 2, 0, b0, run);
            lemma_run_byte7(m, s0, addr, 2, 1, b1, run);
            assert(s.plus(0) == s);
            assert(s1.ram == m.ram.with_halfword(s, val));
        },
        None => {
            let t0 = k.byte7_with(addr, b0, run);
            lemma_byte7(m, k, addr, b0, run);
            lemma_byte7(s0, t0, addr.wrapping_add(1), b1, run);
        },
    }
    lemma_loads(s1, m.wrote_halfword7(addr, val), x);
}

} // verus!

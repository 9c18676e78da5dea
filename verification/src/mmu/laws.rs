//! What holds of loads and stores together.

use vstd::prelude::*;
use crate::bytes;
use crate::mmu::code;
use crate::mmu::decode;
use crate::mmu::memory;
use crate::mmu::memory::Spot;
use crate::mmu::store;
use crate::mmu::store::{Runner, Start};
use crate::mmu::MmuModel;
use crate::tcm;

verus! {

pub proof fn lemma_spot9_in_range(m: MmuModel, addr: u32)
    ensures
        m.spot9(addr) is Some ==> m.spot9(addr)->0.index() < m.spot9(addr)->0.limit(),
        m.spot9(addr) is Some ==> 0 <= m.spot9(addr)->0.index(),
{
    reveal(MmuModel::spot9);
}

pub proof fn lemma_spot7_in_range(m: MmuModel, addr: u32)
    ensures
        m.spot7(addr) is Some ==> m.spot7(addr)->0.index() < m.spot7(addr)->0.limit(),
        m.spot7(addr) is Some ==> 0 <= m.spot7(addr)->0.index(),
{
    reveal(MmuModel::spot7);
}

/// Decoding depends on the mapping registers only.
proof fn lemma_spot9_frame(a: MmuModel, b: MmuModel, addr: u32)
    requires
        a.cp15 == b.cp15,
        a.wram_control == b.wram_control,
    ensures
        a.spot9(addr) == b.spot9(addr),
{
    reveal(MmuModel::spot9);
}

proof fn lemma_spot7_frame(a: MmuModel, b: MmuModel, addr: u32)
    requires
        a.wram_control == b.wram_control,
    ensures
        a.spot7(addr) == b.spot7(addr),
{
    reveal(MmuModel::spot7);
}

/// A store to plain memory, whatever transfers would do.
proof fn lemma_plain_store9(m: MmuModel, addr: u32, val: u8, run: Runner)
    requires
        m.spot9(addr) is Some,
    ensures
        m.byte9_with(addr, val, run) == (MmuModel {
            stores: m.stores.byte_stored(true, addr, val),
            ..m
        }).spot_stored(m.spot9(addr)->0, val),
{
    reveal(MmuModel::byte9_with);
    lemma_spot9_frame(
        m,
        MmuModel { stores: m.stores.byte_stored(true, addr, val), ..m },
        addr,
    );
}

proof fn lemma_plain_store7(m: MmuModel, addr: u32, val: u8, run: Runner)
    requires
        m.spot7(addr) is Some,
    ensures
        m.byte7_with(addr, val, run) == (MmuModel {
            stores: m.stores.byte_stored(false, addr, val),
            ..m
        }).spot_stored(m.spot7(addr)->0, val),
{
    reveal(MmuModel::byte7_with);
    lemma_spot7_frame(
        m,
        MmuModel { stores: m.stores.byte_stored(false, addr, val), ..m },
        addr,
    );
}

/// A byte that the first processor stores to plain memory reads back, by every
/// address that decodes to the same place, and no other place changes.
pub proof fn law_store_reads_back_9(m: MmuModel, addr: u32, other: u32, val: u8)
    requires
        m.wf(),
        m.spot9(addr) is Some,
        m.spot9(addr)->0.writable(),
        m.spot9(other) is Some,
    ensures
        m.wrote_byte9(addr, val).byte9(addr) == val,
        m.spot9(other) == m.spot9(addr) ==> m.wrote_byte9(addr, val).byte9(other) == val,
        m.spot9(other) != m.spot9(addr) ==> m.wrote_byte9(addr, val).byte9(other) == m.byte9(
            other,
        ),
{
    let r = m.wrote_byte9(addr, val);
    lemma_plain_store9(m, addr, val, store::runner(store::DMA_NESTING as nat));
    lemma_spot9_in_range(m, addr);
    lemma_spot9_in_range(m, other);
    reveal(MmuModel::spot_stored);
    reveal(MmuModel::byte9);
    lemma_spot9_frame(m, r, addr);
    lemma_spot9_frame(m, r, other);
    memory::law_memory_read_after_write(m.ram, m.spot9(addr)->0, m.spot9(other)->0, val);
}

/// The same of the second processor.
pub proof fn law_store_reads_back_7(m: MmuModel, addr: u32, other: u32, val: u8)
    requires
        m.wf(),
        m.spot7(addr) is Some,
        m.spot7(addr)->0.writable(),
        m.spot7(other) is Some,
    ensures
        m.wrote_byte7(addr, val).byte7(addr) == val,
        m.spot7(other) == m.spot7(addr) ==> m.wrote_byte7(addr, val).byte7(other) == val,
        m.spot7(other) != m.spot7(addr) ==> m.wrote_byte7(addr, val).byte7(other) == m.byte7(
            other,
        ),
{
    let r = m.wrote_byte7(addr, val);
    lemma_plain_store7(m, addr, val, store::runner(store::DMA_NESTING as nat));
    lemma_spot7_in_range(m, addr);
    lemma_spot7_in_range(m, other);
    reveal(MmuModel::spot_stored);
    reveal(MmuModel::byte7);
    lemma_spot7_frame(m, r, addr);
    lemma_spot7_frame(m, r, other);
    memory::law_memory_read_after_write(m.ram, m.spot7(addr)->0, m.spot7(other)->0, val);
}

/// Whether the first processor finds main memory at an address.
pub open spec fn is_main9(m: MmuModel, addr: u32) -> bool {
    &&& addr / 0x100_0000 == 0x02
    &&& !(0x0240_0000 <= addr < 0x0248_0000)
    &&& !m.cp15.in_itcm(addr)
    &&& !m.cp15.in_dtcm(addr)
}

/// Place in main memory of an address.
pub open spec fn main_spot(addr: u32) -> Spot {
    Spot::Main((addr % 0x40_0000) as usize)
}

/// The bytes of an aligned halfword or word are on the same side of the edges of
/// a region.
proof fn lemma_same_window(region: u32, addr: u32, n: int, k: u32)
    requires
        n == 2 || n == 4,
        addr as int % n == 0,
        k < n,
    ensures
        tcm::in_region(region, addr.wrapping_add(k)) == tcm::in_region(region, addr),
{
    let b = tcm::region_base(region);
    let d = addr.wrapping_sub(b);
    let size = tcm::region_size(region);
    assert(addr % 4 <= 3 - k);
    assert(b % 4096 == 0);
    assert(addr + k <= u32::MAX);
    if addr >= b {
        assert(d == addr - b);
    } else {
        assert(addr + k < b);
        assert(d == addr - b + 0x1_0000_0000);
    }
    assert(addr.wrapping_add(k).wrapping_sub(b) == d + k);
    assert(d as int / 4 == (d + k) / 4);
    assert(size as int == size as int / 4 * 4);
}

proof fn lemma_main_spot(m: MmuModel, addr: u32, n: int, k: u32)
    requires
        n == 2 || n == 4,
        addr as int % n == 0,
        k < n,
        is_main9(m, addr),
    ensures
        m.spot9(addr.wrapping_add(k)) == Some(main_spot(addr).plus(k as int)),
        addr % 0x40_0000 + n <= 0x40_0000,
{
    reveal(MmuModel::spot9);
    lemma_same_window(m.cp15.itcm_control, addr, n, k);
    lemma_same_window(m.cp15.dtcm_control, addr, n, k);
    let a = addr.wrapping_add(k);
    assert(a == addr + k);
    assert(a / 0x100_0000 == 0x02);
    assert(a as int % 0x40_0000 == addr as int % 0x40_0000 + k);
    assert((a as int % 0x100_0000) % 0x40_0000 == a as int % 0x40_0000);
}

proof fn lemma_main_byte(m: MmuModel, addr: u32, n: int, k: u32, val: u8, run: Runner)
    requires
        n == 2 || n == 4,
        addr as int % n == 0,
        k < n,
        is_main9(m, addr),
    ensures
        m.byte9_with(addr.wrapping_add(k), val, run).ram == m.ram.with_byte(
            main_spot(addr).plus(k as int),
            val,
        ),
        m.byte9_with(addr.wrapping_add(k), val, run).cp15 == m.cp15,
{
    lemma_main_spot(m, addr, n, k);
    lemma_plain_store9(m, addr.wrapping_add(k), val, run);
    reveal(MmuModel::spot_stored);
}

proof fn lemma_main_run(m: MmuModel, addr: u32, n: int)
    requires
        n == 2 || n == 4,
        is_main9(m, addr),
        m.run9(addr, n) is Some,
    ensures
        m.run9(addr, n)->0 == main_spot(addr),
{
    reveal(MmuModel::run9);
}

proof fn lemma_main_marked(m: MmuModel, addr: u32, n: int)
    ensures
        m.marked9(addr, n).ram == m.ram,
        m.marked9(addr, n).cp15 == m.cp15,
{
    reveal(MmuModel::marked9);
}

/// What an aligned word store does to main memory.
proof fn lemma_main_word(m: MmuModel, addr: u32, val: u32)
    requires
        addr % 4 == 0,
        is_main9(m, addr),
    ensures
        m.wrote_word9(addr, val).ram == m.ram.with_word(main_spot(addr), val),
        m.wrote_word9(addr, val).cp15 == m.cp15,
{
    let run = store::runner(store::DMA_NESTING as nat);
    reveal(MmuModel::word9_with);
    reveal(MmuModel::plain_word9_with);
    reveal(MmuModel::store_run9);
    let n = MmuModel { stores: m.stores.wide_stored9(addr, val), ..m };
    let k = n.marked9(addr, 4);
    lemma_main_marked(n, addr, 4);
    if n.store_run9(addr, 4) is Some {
        lemma_main_run(n, addr, 4);
    } else {
        let a = k.byte9_with(addr, bytes::byte_of(val, 0), run);
        let b = a.byte9_with(addr.wrapping_add(1), bytes::byte_of(val, 1), run);
        let c = b.byte9_with(addr.wrapping_add(2), bytes::byte_of(val, 2), run);
        assert(addr.wrapping_add(0) == addr);
        lemma_main_byte(k, addr, 4, 0, bytes::byte_of(val, 0), run);
        lemma_main_byte(a, addr, 4, 1, bytes::byte_of(val, 1), run);
        lemma_main_byte(b, addr, 4, 2, bytes::byte_of(val, 2), run);
        lemma_main_byte(c, addr, 4, 3, bytes::byte_of(val, 3), run);
    }
}

/// What an aligned halfword store does to main memory.
proof fn lemma_main_halfword(m: MmuModel, addr: u32, val: u16)
    requires
        addr % 2 == 0,
        is_main9(m, addr),
    ensures
        m.wrote_halfword9(addr, val).ram == m.ram.with_halfword(main_spot(addr), val),
        m.wrote_halfword9(addr, val).cp15 == m.cp15,
{
    let run = store::runner(store::DMA_NESTING as nat);
    reveal(MmuModel::halfword9_with);
    reveal(MmuModel::store_run9);
    let n = MmuModel { stores: m.stores.wide_stored9(addr, val as u32), ..m };
    let k = n.marked9(addr, 2);
    lemma_main_marked(n, addr, 2);
    if n.store_run9(addr, 2) is Some {
        lemma_main_run(n, addr, 2);
    } else {
        let a = k.byte9_with(addr, bytes::lo(val), run);
        assert(addr.wrapping_add(0) == addr);
        lemma_main_byte(k, addr, 2, 0, bytes::lo(val), run);
        lemma_main_byte(a, addr, 2, 1, bytes::hi(val), run);
    }
}

proof fn lemma_main_load(m: MmuModel, addr: u32)
    requires
        addr % 4 == 0,
        is_main9(m, addr),
    ensures
        m.word9(addr) == m.ram.word(main_spot(addr)),
{
    decode::law_wide_loads_compose_bytes_9(m, addr);
    assert(addr.wrapping_add(0) == addr);
    reveal(MmuModel::byte9);
    lemma_main_spot(m, addr, 4, 0);
    lemma_main_spot(m, addr, 4, 1);
    lemma_main_spot(m, addr, 4, 2);
    lemma_main_spot(m, addr, 4, 3);
}

/// A word that the first processor stores to main memory reads back, and no
/// other word of it changes.
pub proof fn law_word_reads_back(m: MmuModel, addr: u32, other: u32, val: u32)
    requires
        m.ram.wf(),
        addr % 4 == 0,
        other % 4 == 0,
        is_main9(m, addr),
        is_main9(m, other),
    ensures
        m.wrote_word9(addr, val).word9(addr) == val,
        main_spot(other) == main_spot(addr) ==> m.wrote_word9(addr, val).word9(other) == val,
        main_spot(other) != main_spot(addr) ==> m.wrote_word9(addr, val).word9(other) == m.word9(
            other,
        ),
{
    let r = m.wrote_word9(addr, val);
    lemma_main_word(m, addr, val);
    lemma_main_load(r, addr);
    lemma_main_load(r, other);
    lemma_main_load(m, other);
    bytes::law_split_then_compose(val);
    let i = (addr % 0x40_0000) as int;
    let j = (other % 0x40_0000) as int;
    assert(i % 4 == 0 && j % 4 == 0);
    assert(i + 4 <= 0x40_0000 && j + 4 <= 0x40_0000);
}

/// A halfword that the first processor stores to main memory leaves the words
/// alone that it is no part of.
pub proof fn law_halfword_leaves_other_words(m: MmuModel, addr: u32, other: u32, val: u16)
    requires
        m.ram.wf(),
        addr % 2 == 0,
        other % 4 == 0,
        is_main9(m, addr),
        is_main9(m, other),
        addr % 0x40_0000 / 4 != other % 0x40_0000 / 4,
    ensures
        m.wrote_halfword9(addr, val).word9(other) == m.word9(other),
{
    let r = m.wrote_halfword9(addr, val);
    lemma_main_halfword(m, addr, val);
    lemma_main_load(r, other);
    lemma_main_load(m, other);
}

/// Main memory is one memory: what either processor stores there, the other
/// loads.
pub proof fn law_main_memory_is_shared(m: MmuModel, off: u32, val: u8)
    requires
        m.wf(),
        off < 0x40_0000,
        !m.cp15.in_itcm((0x0200_0000 + off) as u32),
        !m.cp15.in_dtcm((0x0200_0000 + off) as u32),
    ensures
        m.wrote_byte9((0x0200_0000 + off) as u32, val).byte7((0x0200_0000 + off) as u32) == val,
        m.wrote_byte7((0x0200_0000 + off) as u32, val).byte9((0x0200_0000 + off) as u32) == val,
{
    let addr = (0x0200_0000 + off) as u32;
    let run = store::runner(store::DMA_NESTING as nat);
    assert(m.spot9(addr) == Some(Spot::Main(off as usize))) by {
        reveal(MmuModel::spot9);
    }
    assert(m.spot7(addr) == Some(Spot::Main(off as usize))) by {
        reveal(MmuModel::spot7);
    }
    lemma_plain_store9(m, addr, val, run);
    lemma_plain_store7(m, addr, val, run);
    reveal(MmuModel::spot_stored);
    reveal(MmuModel::byte9);
    reveal(MmuModel::byte7);
    lemma_spot9_frame(m, m.wrote_byte7(addr, val), addr);
    lemma_spot7_frame(m, m.wrote_byte9(addr, val), addr);
}

/// The start-up images cannot be stored to.
pub proof fn law_start_up_images_are_read_only(m: MmuModel, addr: u32, val: u8)
    requires
        m.spot9(addr) is Some,
        m.spot9(addr)->0 is Bios9,
    ensures
        m.wrote_byte9(addr, val).ram == m.ram,
{
    lemma_plain_store9(m, addr, val, store::runner(store::DMA_NESTING as nat));
    reveal(MmuModel::spot_stored);
}

/// Compiled code is found by the page that stores to its address move: while
/// tracking is on, a store moves the version of the page that the address
/// belongs to.
pub proof fn law_store_moves_its_code_page(m: MmuModel, addr: u32, val: u8)
    requires
        m.wf(),
        m.code.watch,
    ensures
        m.page9(addr) is Some && m.spot9(addr)->0.writable() ==> m.wrote_byte9(
            addr,
            val,
        ).code.version(m.page9(addr)->0) == m.code.version(m.page9(addr)->0).wrapping_add(1),
        m.page7(addr) is Some && m.spot7(addr)->0.writable() ==> m.wrote_byte7(
            addr,
            val,
        ).code.version(m.page7(addr)->0) == m.code.version(m.page7(addr)->0).wrapping_add(1),
{
    let run = store::runner(store::DMA_NESTING as nat);
    reveal(MmuModel::spot_stored);
    if m.page9(addr) is Some && m.spot9(addr)->0.writable() {
        lemma_plain_store9(m, addr, val, run);
        lemma_spot9_in_range(m, addr);
        code::law_store_moves_the_page_version(m.code, m.spot9(addr)->0, 0);
    }
    if m.page7(addr) is Some && m.spot7(addr)->0.writable() {
        lemma_plain_store7(m, addr, val, run);
        lemma_spot7_in_range(m, addr);
        code::law_store_moves_the_page_version(m.code, m.spot7(addr)->0, 0);
    }
}

/// A store that starts no transfer does not depend on how transfers are
/// performed, in particular not on how deep they may nest.
pub proof fn law_depth_only_concerns_transfers(
    m: MmuModel,
    addr: u32,
    val: u8,
    a: nat,
    b: nat,
)
    requires
        addr / 0x100_0000 != 4 || !(0xB0 <= addr % 0x100_0000 <= 0xDF || addr % 0x100_0000
            == 0x1A7) || val < 0x80,
    ensures
        m.byte9_with(addr, val, store::runner(a)) == m.byte9_with(addr, val, store::runner(b)),
        m.byte7_with(addr, val, store::runner(a)) == m.byte7_with(addr, val, store::runner(b)),
{
    reveal(MmuModel::byte9_with);
    reveal(MmuModel::byte7_with);
    reveal(MmuModel::dma_byte9_with);
}

/// A channel starts only when its enable bit rises: rewriting the control word of
/// an enabled channel stores it and starts nothing but a waiting cartridge block.
pub proof fn law_transfers_start_on_the_rising_edge(m: MmuModel, off: u32, val: u8, run: Runner)
    requires
        m.wf(),
        0xB0 <= off <= 0xDF,
        m.io9[off as int] >= 0x80,
        val >= 0x80,
    ensures
        m.dma_byte9_with(off, val, run) == run(m.io_stored(true, off, val), Start::Card),
{
    reveal(MmuModel::dma_byte9_with);
}

/// With no data block open, a waiting cartridge channel does nothing.
pub proof fn law_idle_slot_moves_nothing(m: MmuModel, d: nat)
    requires
        m.gamecard.bytes_left == 0 || m.gamecard.fill is Some,
    ensures
        store::runner(d)(m, Start::Card) == m,
{
    reveal(MmuModel::card_with);
}

/// A transfer whose timing waits for an event stays armed: it is counted and
/// moves nothing.
pub proof fn law_event_timed_transfers_stay_armed(m: MmuModel, arm9: bool, ch: int, run: Runner)
    requires
        m.dma_cnt(arm9, ch) >= 0x8000_0000,
        !store::dma_runs_now(arm9, store::dma_timing(m.dma_cnt(arm9, ch))),
    ensures
        m.dma_with(arm9, ch, run).io(arm9) == m.io(arm9),
        m.dma_with(arm9, ch, run).ram == m.ram,
        m.dma_with(arm9, ch, run).irq == m.irq,
{
    reveal(MmuModel::dma_with);
}

/// Whether the first processor sees main memory undisturbed: no coupled memory is
/// enabled and no watch is armed.
pub open spec fn plain_main(m: MmuModel) -> bool {
    &&& m.ram.main.len() == 0x40_0000
    &&& !m.cp15.itcm_on()
    &&& !m.cp15.dtcm_on()
    &&& !m.stores.armed()
}

pub proof fn lemma_word_moved(m: MmuModel, s: int, t: int, run: Runner)
    requires
        plain_main(m),
        0 <= s <= 0x3F_FFFC,
        0 <= t <= 0x3F_FFFC,
    ensures
        m.unit_with(true, true, (0x0200_0000 + s) as u32, (0x0200_0000 + t) as u32, run) == (
        MmuModel {
            ram: m.ram.with_word(Spot::Main(t as usize), m.ram.word(Spot::Main(s as usize))),
            code: m.code.touched(Spot::Main(t as usize), 4),
            ..m
        }),
{
    let src = (0x0200_0000 + s) as u32;
    let dst = (0x0200_0000 + t) as u32;
    let v = m.ram.word(Spot::Main(s as usize));
    assert(m.run9(src, 4) == Some(Spot::Main(s as usize)) && m.run9(dst, 4) == Some(
        Spot::Main(t as usize),
    )) by {
        reveal(MmuModel::run9);
    }
    assert(m.word9(src) == v) by {
        reveal(MmuModel::word9);
    }
    assert(m.stores.wide_stored9(dst, v) == m.stores);
    assert(m.plain_word9_with(dst, v, run) == (MmuModel {
        ram: m.ram.with_word(Spot::Main(t as usize), v),
        code: m.code.touched(Spot::Main(t as usize), 4),
        ..m
    })) by {
        reveal(MmuModel::plain_word9_with);
        reveal(MmuModel::store_run9);
        reveal(MmuModel::marked9);
    }
    assert(m.word9_with(dst, v, run) == m.plain_word9_with(dst, v, run)) by {
        reveal(MmuModel::word9_with);
    }
    reveal(MmuModel::unit_with);
}

pub proof fn lemma_copied_word(main: Seq<u8>, m: crate::mmu::memory::RamModel, s: int, t: int, k: int)
    requires
        m.main == main,
        main.len() == 0x40_0000,
        0 <= s <= 0x3F_FFFC,
        0 <= t <= 0x3F_FFFC,
        0 <= k < 0x40_0000,
    ensures
        m.with_word(Spot::Main(t as usize), m.word(Spot::Main(s as usize))).main[k] == (if t <= k
            < t + 4 {
            main[s + (k - t)]
        } else {
            main[k]
        }),
{
    bytes::law_compose_then_split(main[s], main[s + 1], main[s + 2], main[s + 3]);
}

/// An immediate transfer copies: moving `n` words upward between two parts of
/// main memory that do not overlap leaves the destination equal to the source,
/// and everything else in memory as it was. No other part of the machine takes
/// notice but code tracking.
pub proof fn law_transfer_copies_memory(
    m: MmuModel,
    cnt: u32,
    s: int,
    t: int,
    n: nat,
    k: int,
    run: Runner,
)
    requires
        plain_main(m),
        store::dma_wide(cnt),
        store::dma_src_ctl(cnt) == 0,
        store::dma_dst_ctl(cnt) == 0,
        0 <= s,
        0 <= t,
        s + 4 * n <= 0x40_0000,
        t + 4 * n <= 0x40_0000,
        s + 4 * n <= t || t + 4 * n <= s,
        0 <= k < 0x40_0000,
    ensures
        ({
            let r = m.units_with(
                true,
                cnt,
                (0x0200_0000 + s) as u32,
                (0x0200_0000 + t) as u32,
                n,
                run,
            );
            &&& r.ram.main.len() == m.ram.main.len()
            &&& r.ram.main[k] == (if t <= k < t + 4 * n {
                m.ram.main[s + (k - t)]
            } else {
                m.ram.main[k]
            })
            &&& r == (MmuModel {
                ram: (crate::mmu::memory::RamModel { main: r.ram.main, ..m.ram }),
                code: r.code,
                ..m
            })
        }),
    decreases n,
{
    if n > 0 {
        let src = (0x0200_0000 + s) as u32;
        let dst = (0x0200_0000 + t) as u32;
        lemma_word_moved(m, s, t, run);
        let one = m.unit_with(true, true, src, dst, run);
        assert(store::dma_next(src, 0, 4) == (0x0200_0000 + (s + 4)) as u32);
        assert(store::dma_next(dst, 0, 4) == (0x0200_0000 + (t + 4)) as u32);
        lemma_copied_word(m.ram.main, m.ram, s, t, k);
        law_transfer_copies_memory(one, cnt, s + 4, t + 4, (n - 1) as nat, k, run);
        if t + 4 <= k < t + 4 * n {
            lemma_copied_word(m.ram.main, m.ram, s, t, s + (k - t));
        }
    }
}

/// How transfers are performed where level `d` is left to `floor`.
pub open spec fn runner_over(d: nat, floor: Runner) -> Runner
    decreases d,
{
    if d == 0 {
        floor
    } else {
        |m: MmuModel, s: Start|
            match s {
                Start::Dma { arm9, ch } => m.dma_with(
                    arm9,
                    ch,
                    runner_over((d - 1) as nat, floor),
                ),
                Start::Card => m.card_with(runner_over((d - 1) as nat, floor)),
            }
    }
}

/// Whether a transfer and all that it starts end within `d` levels: nothing is
/// left to what lies beyond.
pub open spec fn ends_within(m: MmuModel, s: Start, d: nat) -> bool {
    forall|f: Runner, g: Runner|
        (#[trigger] runner_over(d, f))(m, s) == (#[trigger] runner_over(d, g))(m, s)
}

proof fn lemma_levels(d: nat, k: nat)
    ensures
        store::runner(d + k) == runner_over(d, store::runner(k)),
    decreases d,
{
    if d > 0 {
        lemma_levels((d - 1) as nat, k);
        assert((d - 1) as nat + k == (d + k - 1) as nat);
        assert(store::runner(d + k) =~= runner_over(d, store::runner(k)));
    }
}

/// How deep transfers may nest does not matter to one that ends: any allowance
/// of at least the levels that it takes gives the same.
pub proof fn law_allowance_does_not_matter(m: MmuModel, s: Start, d: nat, a: nat, b: nat)
    requires
        ends_within(m, s, d),
        a >= d,
        b >= d,
    ensures
        store::runner(a)(m, s) == store::runner(b)(m, s),
{
    lemma_levels(d, (a - d) as nat);
    lemma_levels(d, (b - d) as nat);
}

} // verus!

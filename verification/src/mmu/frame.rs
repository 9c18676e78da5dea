//! What no store reaches.

use vstd::prelude::*;
use crate::bytes;
use crate::gx::GxModel;
use crate::mmu::laws;
use crate::mmu::memory::Spot;
use crate::mmu::store;
use crate::mmu::store::{Runner, Start};
use crate::mmu::watch;
use crate::mmu::MmuModel;

verus! {

/// The parts of the machine that programs cannot change by storing: the
/// coprocessor registers, the cartridge, the start-up images and the buttons.
/// Memories also keep their sizes.
pub open spec fn same_machine(a: MmuModel, b: MmuModel) -> bool {
    &&& b.ram.wf() ==> a.ram.wf()
    &&& a.cp15 == b.cp15
    &&& a.rom == b.rom
    &&& a.buttons == b.buttons
    &&& a.ram.bios9 == b.ram.bios9
    &&& a.ram.bios7 == b.ram.bios7
}

/// Whether transfers leave those parts alone.
pub open spec fn harmless(run: Runner) -> bool {
    forall|m: MmuModel, s: Start| same_machine(#[trigger] run(m, s), m)
}

proof fn lemma_spot(m: MmuModel, s: Spot, val: u8)
    requires
        s.index() < s.limit(),
    ensures
        same_machine(m.spot_stored(s, val), m),
{
    reveal(MmuModel::spot_stored);
}

proof fn lemma_run9(m: MmuModel, addr: u32, n: int)
    ensures
        m.run9(addr, n) matches Some(s) ==> (s is Itcm || s is Dtcm || s is Main) && s.index() + n <= s.limit(),
        same_machine(m.marked9(addr, n), m),
        m.marked9(addr, n).ram == m.ram,
{
    reveal(MmuModel::run9);
    reveal(MmuModel::marked9);
}

proof fn lemma_run7(m: MmuModel, addr: u32, n: int)
    ensures
        m.run7(addr, n) matches Some(s) ==> (s is Main || s is Wram7) && s.index() + n <= s.limit(),
        same_machine(m.marked7(addr, n), m),
        m.marked7(addr, n).ram == m.ram,
{
    reveal(MmuModel::run7);
    reveal(MmuModel::marked7);
}

proof fn lemma_gx(m: MmuModel, g: GxModel)
    ensures
        same_machine(m.gx_fed(g), m),
{
    reveal(MmuModel::gx_fed);
}

proof fn lemma_card(m: MmuModel)
    ensures
        same_machine(m.card_started(), m),
        same_machine(m.card_read(), m),
{
    reveal(MmuModel::card_started);
    reveal(MmuModel::card_read);
}

proof fn lemma_aux(m: MmuModel, arm9: bool, off: u32, val: u8)
    ensures
        same_machine(m.aux_observed(arm9, off, val), m),
{
}

proof fn lemma_io9(m: MmuModel, off: u32, val: u8)
    ensures
        same_machine(m.io9_written(off, val), m),
{
    reveal(MmuModel::io9_written);
    lemma_aux(m, true, off, val);
}

proof fn lemma_io7(m: MmuModel, off: u32, val: u8)
    ensures
        same_machine(m.io7_written(off, val), m),
{
    reveal(MmuModel::io7_written);
    lemma_aux(m, false, off, val);
}

proof fn lemma_byte9(m: MmuModel, addr: u32, val: u8, run: Runner)
    requires
        harmless(run),
    ensures
        same_machine(m.byte9_with(addr, val, run), m),
{
    reveal(MmuModel::byte9_with);
    let n = MmuModel { stores: m.stores.byte_stored(true, addr, val), ..m };
    let off = addr % 0x100_0000;
    match n.spot9(addr) {
        Some(s) => {
            laws::lemma_spot9_in_range(n, addr);
            lemma_spot(n, s, val);
        },
        None => {
            lemma_io9(n, off, val);
            lemma_card(n.io_stored(true, off, val));
            reveal(MmuModel::dma_byte9_with);
        },
    }
}

proof fn lemma_halfword9(m: MmuModel, addr: u32, val: u16, run: Runner)
    requires
        harmless(run),
    ensures
        same_machine(m.halfword9_with(addr, val, run), m),
{
    reveal(MmuModel::halfword9_with);
    reveal(MmuModel::store_run9);
    let n = MmuModel { stores: m.stores.wide_stored9(addr, val as u32), ..m };
    let k = n.marked9(addr, 2);
    lemma_run9(n, addr, 2);
    if n.store_run9(addr, 2) is None {
        let a = k.byte9_with(addr, bytes::lo(val), run);
        lemma_byte9(k, addr, bytes::lo(val), run);
        lemma_byte9(a, addr.wrapping_add(1), bytes::hi(val), run);
    }
}

proof fn lemma_plain_word9(m: MmuModel, addr: u32, val: u32, run: Runner)
    requires
        harmless(run),
    ensures
        same_machine(m.plain_word9_with(addr, val, run), m),
{
    reveal(MmuModel::plain_word9_with);
    reveal(MmuModel::store_run9);
    if addr == 0x0400_01A0 {
        lemma_aux_word(m, true, val);
    } else {
        let k = m.marked9(addr, 4);
        lemma_run9(m, addr, 4);
        if m.store_run9(addr, 4) is None {
            let a = k.byte9_with(addr, bytes::byte_of(val, 0), run);
            let b = a.byte9_with(addr.wrapping_add(1), bytes::byte_of(val, 1), run);
            let c = b.byte9_with(addr.wrapping_add(2), bytes::byte_of(val, 2), run);
            lemma_byte9(k, addr, bytes::byte_of(val, 0), run);
            lemma_byte9(a, addr.wrapping_add(1), bytes::byte_of(val, 1), run);
            lemma_byte9(b, addr.wrapping_add(2), bytes::byte_of(val, 2), run);
            lemma_byte9(c, addr.wrapping_add(3), bytes::byte_of(val, 3), run);
        }
    }
}

proof fn lemma_aux_word(m: MmuModel, arm9: bool, val: u32)
    ensures
        same_machine(m.aux_word(arm9, val), m),
{
    reveal(MmuModel::aux_word);
    lemma_aux(m, arm9, 0x1A0, bytes::byte_of(val, 0));
    lemma_aux(
        m.aux_observed(arm9, 0x1A0, bytes::byte_of(val, 0)),
        arm9,
        0x1A1,
        bytes::byte_of(val, 1),
    );
}

proof fn lemma_word9(m: MmuModel, addr: u32, val: u32, run: Runner)
    requires
        harmless(run),
    ensures
        same_machine(m.word9_with(addr, val, run), m),
{
    reveal(MmuModel::word9_with);
    let n = MmuModel { stores: m.stores.wide_stored9(addr, val), ..m };
    if 0x0400_0400 <= addr < 0x0400_0440 {
        lemma_gx(n, n.gx.with_fifo_word(val));
    } else if 0x0400_0440 <= addr <= 0x0400_05C8 {
        lemma_gx(n, n.gx.with_port_word(((addr - 0x0400_0400) / 4) as u8, val));
    } else {
        lemma_plain_word9(n, addr, val, run);
        lemma_plain_word9(n.with_clear_color(val), addr, val, run);
    }
}

proof fn lemma_byte7(m: MmuModel, addr: u32, val: u8, run: Runner)
    requires
        harmless(run),
    ensures
        same_machine(m.byte7_with(addr, val, run), m),
{
    reveal(MmuModel::byte7_with);
    let n = MmuModel { stores: m.stores.byte_stored(false, addr, val), ..m };
    match n.spot7(addr) {
        Some(s) => {
            laws::lemma_spot7_in_range(n, addr);
            lemma_spot(n, s, val);
        },
        None => {
            lemma_io7(n, addr % 0x100_0000, val);
        },
    }
}

proof fn lemma_halfword7(m: MmuModel, addr: u32, val: u16, run: Runner)
    requires
        harmless(run),
    ensures
        same_machine(m.halfword7_with(addr, val, run), m),
{
    reveal(MmuModel::halfword7_with);
    reveal(MmuModel::store_run7);
    let n = MmuModel {
        stores: m.stores.wide_stored7(addr, val as u32, watch::touch_sample(val)),
        ..m
    };
    let k = n.marked7(addr, 2);
    lemma_run7(n, addr, 2);
    if n.store_run7(addr, 2) is None {
        let a = k.byte7_with(addr, bytes::lo(val), run);
        lemma_byte7(k, addr, bytes::lo(val), run);
        lemma_byte7(a, addr.wrapping_add(1), bytes::hi(val), run);
    }
}

proof fn lemma_word7(m: MmuModel, addr: u32, val: u32, run: Runner)
    requires
        harmless(run),
    ensures
        same_machine(m.word7_with(addr, val, run), m),
{
    reveal(MmuModel::word7_with);
    reveal(MmuModel::store_run7);
    let hit = watch::touch_sample((val % 0x1_0000) as u16) || watch::touch_sample(
        (val / 0x1_0000) as u16,
    );
    let n = MmuModel { stores: m.stores.wide_stored7(addr, val, hit), ..m };
    let k = n.marked7(addr, 4);
    lemma_aux_word(n, false, val);
    lemma_run7(n, addr, 4);
    if n.store_run7(addr, 4) is None {
        let a = k.byte7_with(addr, bytes::byte_of(val, 0), run);
        let b = a.byte7_with(addr.wrapping_add(1), bytes::byte_of(val, 1), run);
        let c = b.byte7_with(addr.wrapping_add(2), bytes::byte_of(val, 2), run);
        lemma_byte7(k, addr, bytes::byte_of(val, 0), run);
        lemma_byte7(a, addr.wrapping_add(1), bytes::byte_of(val, 1), run);
        lemma_byte7(b, addr.wrapping_add(2), bytes::byte_of(val, 2), run);
        lemma_byte7(c, addr.wrapping_add(3), bytes::byte_of(val, 3), run);
    }
}

proof fn lemma_units(
    m: MmuModel,
    arm9: bool,
    cnt: u32,
    src: u32,
    dst: u32,
    n: nat,
    run: Runner,
)
    requires
        harmless(run),
    ensures
        same_machine(m.units_with(arm9, cnt, src, dst, n, run), m),
    decreases n,
{
    if n > 0 {
        let wide = store::dma_wide(cnt);
        let u = m.unit_with(arm9, wide, src, dst, run);
        assert(same_machine(u, m)) by {
            reveal(MmuModel::unit_with);
            lemma_word9(m, dst, m.word9(src), run);
            lemma_halfword9(m, dst, m.halfword9(src), run);
            lemma_word7(m, dst, m.word7(src), run);
            lemma_halfword7(m, dst, m.halfword7(src), run);
        }
        let step = if wide {
            4u32
        } else {
            2u32
        };
        lemma_units(
            u,
            arm9,
            cnt,
            store::dma_next(src, store::dma_src_ctl(cnt), step),
            store::dma_next(dst, store::dma_dst_ctl(cnt), step),
            (n - 1) as nat,
            run,
        );
    }
}

proof fn lemma_done(m: MmuModel, arm9: bool, ch: int, cnt: u32)
    ensures
        same_machine(m.dma_done(arm9, ch, cnt), m),
{
    reveal(MmuModel::dma_done);
}

proof fn lemma_transferred(
    m: MmuModel,
    arm9: bool,
    ch: int,
    cnt: u32,
    sad: u32,
    dad: u32,
    run: Runner,
)
    requires
        harmless(run),
    ensures
        same_machine(m.transferred_with(arm9, ch, cnt, sad, dad, run), m),
{
    reveal(MmuModel::transferred_with);
    let n = store::dma_count(cnt, store::dma_limit(arm9, ch));
    let u = m.units_with(arm9, cnt, sad, dad, n as nat, run);
    let gx = 0x0400_0400 <= dad < 0x0400_0440;
    lemma_units(m, arm9, cnt, sad, dad, n as nat, run);
    lemma_done(
        MmuModel { dma: u.dma.fired(arm9, store::dma_timing(cnt), n, gx), ..u },
        arm9,
        ch,
        cnt,
    );
}

proof fn lemma_dma(m: MmuModel, arm9: bool, ch: int, run: Runner)
    requires
        harmless(run),
    ensures
        same_machine(m.dma_with(arm9, ch, run), m),
{
    reveal(MmuModel::dma_with);
    let b = store::dma_base(ch);
    let sad = store::io_word(m.io(arm9), b) % 0x1000_0000;
    let dad = store::io_word(m.io(arm9), b + 4) % 0x1000_0000;
    let cnt = m.dma_cnt(arm9, ch);
    let limit = store::dma_limit(arm9, ch);
    let a = MmuModel {
        dma: m.dma.armed(arm9, store::dma_timing(cnt), cnt % limit),
        ..m
    };
    lemma_transferred(a, arm9, ch, cnt, sad, dad, run);
}

proof fn lemma_pumped(m: MmuModel, sad: u32, ctl: int, dst: u32, guard: nat, run: Runner)
    requires
        harmless(run),
    ensures
        same_machine(m.pumped_with(sad, ctl, dst, guard, run).0, m),
    decreases guard,
{
    if m.gamecard.bytes_left != 0 && guard != 0 {
        let port = sad == store::CARD_PORT;
        let v = if port {
            m.card_word()
        } else {
            m.word9(sad)
        };
        let n = if port {
            m.card_read()
        } else {
            m
        };
        lemma_card(m);
        lemma_word9(n, dst, v, run);
        lemma_pumped(
            n.word9_with(dst, v, run),
            sad,
            ctl,
            store::dma_next(dst, ctl, 4),
            (guard - 1) as nat,
            run,
        );
    }
}

proof fn lemma_card_dma(m: MmuModel, run: Runner)
    requires
        harmless(run),
    ensures
        same_machine(m.card_with(run), m),
{
    reveal(MmuModel::card_with);
    match store::card_channel(m.io9, 0) {
        Some(ch) => {
            let cnt = m.dma_cnt(true, ch);
            let sad = store::io_word(m.io9, store::dma_base(ch)) % 0x1000_0000;
            let ctl = store::dma_dst_ctl(cnt);
            let guard = store::CARD_PUMP_WORDS as nat;
            let p = m.pumped_with(sad, ctl, m.dma.dst[ch], guard, run);
            let n = (store::CARD_PUMP_WORDS - p.2) as u32;
            lemma_pumped(m, sad, ctl, m.dma.dst[ch], guard, run);
            lemma_done(
                MmuModel { dma: p.0.dma.with_dst(ch, p.1).fired(true, 5, n, false), ..p.0 },
                true,
                ch,
                cnt,
            );
        },
        None => {},
    }
}

proof fn lemma_runner(d: nat)
    ensures
        harmless(store::runner(d)),
    decreases d,
{
    let run = store::runner(d);
    assert forall|m: MmuModel, s: Start| same_machine(#[trigger] run(m, s), m) by {
        assert(run(m, s) == m.started(s, d));
        if d > 0 {
            lemma_runner((d - 1) as nat);
            match s {
                Start::Dma { arm9, ch } => {
                    lemma_dma(m, arm9, ch, store::runner((d - 1) as nat));
                },
                Start::Card => {
                    lemma_card_dma(m, store::runner((d - 1) as nat));
                },
            }
        }
    }
}

/// No store of either processor, nor any transfer that one starts, changes the
/// coprocessor registers, the cartridge, the start-up images or the buttons.
pub proof fn law_stores_leave_the_machine(m: MmuModel, addr: u32, val: u32)
    ensures
        same_machine(m.wrote_byte9(addr, val as u8), m),
        same_machine(m.wrote_halfword9(addr, val as u16), m),
        same_machine(m.wrote_word9(addr, val), m),
        same_machine(m.wrote_byte7(addr, val as u8), m),
        same_machine(m.wrote_halfword7(addr, val as u16), m),
        same_machine(m.wrote_word7(addr, val), m),
{
    let run = store::runner(store::DMA_NESTING as nat);
    lemma_runner(store::DMA_NESTING as nat);
    lemma_byte9(m, addr, val as u8, run);
    lemma_halfword9(m, addr, val as u16, run);
    lemma_word9(m, addr, val, run);
    lemma_byte7(m, addr, val as u8, run);
    lemma_halfword7(m, addr, val as u16, run);
    lemma_word7(m, addr, val, run);
}

} // verus!

//! What transfers do to memory, from the registers to the bytes.

use vstd::prelude::*;
use crate::bytes;
use crate::mmu::laws;
use crate::mmu::memory::{RamModel, Spot};
use crate::mmu::store;
use crate::mmu::store::{Runner, Start};
use crate::mmu::MmuModel;

verus! {

/// Whether nothing but main memory and code tracking differs.
pub open spec fn only_main_differs(a: MmuModel, b: MmuModel) -> bool {
    &&& a.ram.main.len() == b.ram.main.len()
    &&& a == (MmuModel {
        ram: (RamModel { main: a.ram.main, ..b.ram }),
        code: a.code,
        ..b
    })
}

proof fn lemma_halfword_bytes(main: Seq<u8>, m: RamModel, s: int, t: int, k: int)
    requires
        m.main == main,
        main.len() == 0x40_0000,
        0 <= s <= 0x3F_FFFE,
        0 <= t <= 0x3F_FFFE,
        0 <= k < 0x40_0000,
    ensures
        m.with_halfword(Spot::Main(t as usize), m.halfword(Spot::Main(s as usize))).main[k] == (
        if t <= k < t + 2 {
            main[s + (k - t)]
        } else {
            main[k]
        }),
{
    bytes::law_halfword_round_trip(main[s], main[s + 1], 0);
}

proof fn lemma_halfword_moved9(m: MmuModel, s: int, t: int, run: Runner)
    requires
        laws::plain_main(m),
        0 <= s <= 0x3F_FFFE,
        0 <= t <= 0x3F_FFFE,
    ensures
        m.unit_with(true, false, (0x0200_0000 + s) as u32, (0x0200_0000 + t) as u32, run) == (
        MmuModel {
            ram: m.ram.with_halfword(Spot::Main(t as usize), m.ram.halfword(Spot::Main(s as usize))),
            code: m.code.touched(Spot::Main(t as usize), 2),
            ..m
        }),
{
    let src = (0x0200_0000 + s) as u32;
    let dst = (0x0200_0000 + t) as u32;
    let v = m.ram.halfword(Spot::Main(s as usize));
    assert(m.run9(src, 2) == Some(Spot::Main(s as usize)) && m.run9(dst, 2) == Some(
        Spot::Main(t as usize),
    )) by {
        reveal(MmuModel::run9);
    }
    assert(m.halfword9(src) == v) by {
        reveal(MmuModel::halfword9);
    }
    assert(m.stores.wide_stored9(dst, v as u32) == m.stores);
    reveal(MmuModel::halfword9_with);
    reveal(MmuModel::store_run9);
    reveal(MmuModel::marked9);
    reveal(MmuModel::unit_with);
}

proof fn lemma_byte7_of_main(m: MmuModel, s: int)
    requires
        0 <= s < 0x40_0000,
    ensures
        m.byte7((0x0200_0000 + s) as u32) == m.ram.main[s],
{
    reveal(MmuModel::byte7);
    reveal(MmuModel::spot7);
}

proof fn lemma_moved7(m: MmuModel, wide: bool, s: int, t: int, run: Runner)
    requires
        laws::plain_main(m),
        0 <= s,
        0 <= t,
        s + (if wide { 4int } else { 2 }) <= 0x40_0000,
        t + (if wide { 4int } else { 2 }) <= 0x40_0000,
    ensures
        m.unit_with(false, wide, (0x0200_0000 + s) as u32, (0x0200_0000 + t) as u32, run) == (
        MmuModel {
            ram: if wide {
                m.ram.with_word(Spot::Main(t as usize), m.ram.word(Spot::Main(s as usize)))
            } else {
                m.ram.with_halfword(Spot::Main(t as usize), m.ram.halfword(Spot::Main(s as usize)))
            },
            code: m.code.touched(
                Spot::Main(t as usize),
                if wide {
                    4
                } else {
                    2
                },
            ),
            ..m
        }),
{
    let src = (0x0200_0000 + s) as u32;
    let dst = (0x0200_0000 + t) as u32;
    lemma_byte7_of_main(m, s);
    lemma_byte7_of_main(m, s + 1);
    reveal(MmuModel::unit_with);
    reveal(MmuModel::store_run7);
    reveal(MmuModel::marked7);
    reveal(MmuModel::run7);
    if wide {
        lemma_byte7_of_main(m, s + 2);
        lemma_byte7_of_main(m, s + 3);
        assert(m.word7(src) == m.ram.word(Spot::Main(s as usize))) by {
            reveal(MmuModel::word7);
        }
        reveal(MmuModel::word7_with);
    } else {
        assert(m.halfword7(src) == m.ram.halfword(Spot::Main(s as usize))) by {
            reveal(MmuModel::halfword7);
        }
        reveal(MmuModel::halfword7_with);
    }
}

/// One unit moves `u` bytes.
proof fn lemma_unit(m: MmuModel, arm9: bool, u: int, s: int, t: int, run: Runner, k: int)
    requires
        laws::plain_main(m),
        u == 2 || u == 4,
        0 <= s <= 0x40_0000 - u,
        0 <= t <= 0x40_0000 - u,
        0 <= k < 0x40_0000,
    ensures
        ({
            let r = m.unit_with(
                arm9,
                u == 4,
                (0x0200_0000 + s) as u32,
                (0x0200_0000 + t) as u32,
                run,
            );
            &&& only_main_differs(r, m)
            &&& r.ram.main[k] == (if t <= k < t + u {
                m.ram.main[s + (k - t)]
            } else {
                m.ram.main[k]
            })
        }),
{
    if u == 4 {
        laws::lemma_copied_word(m.ram.main, m.ram, s, t, k);
    } else {
        lemma_halfword_bytes(m.ram.main, m.ram, s, t, k);
    }
    if !arm9 {
        lemma_moved7(m, u == 4, s, t, run);
    } else if u == 4 {
        laws::lemma_word_moved(m, s, t, run);
    } else {
        lemma_halfword_moved9(m, s, t, run);
    }
}

/// Several units between separate parts of main memory: byte `c` of unit `i` is
/// brought, and byte `k` outside the destination stays.
#[verifier::rlimit(40)]
#[verifier::spinoff_prover]
proof fn lemma_units(
    m: MmuModel,
    arm9: bool,
    cnt: u32,
    u: int,
    s: int,
    p: int,
    t: int,
    q: int,
    n: nat,
    a: int,
    z: int,
    b: int,
    y: int,
    i: int,
    c: int,
    k: int,
    run: Runner,
)
    requires
        laws::plain_main(m),
        u == (if cnt / 0x400_0000 % 2 == 1 {
            4int
        } else {
            2
        }),
        p == (if cnt / 0x80_0000 % 4 == 1 {
            -u
        } else if cnt / 0x80_0000 % 4 == 2 {
            0
        } else {
            u
        }),
        q == (if cnt / 0x20_0000 % 4 == 1 {
            -u
        } else if cnt / 0x20_0000 % 4 == 2 {
            0
        } else {
            u
        }),
        n > 0,
        0 <= a <= s <= z - u,
        a <= s + p * (n - 1) <= z - u,
        z <= 0x40_0000,
        0 <= b <= t <= y - u,
        b <= t + q * (n - 1) <= y - u,
        y <= 0x40_0000,
        z <= b || y <= a,
        0 <= i < n,
        0 <= c < u,
        0 <= k < 0x40_0000,
    ensures
        ({
            let r = m.units_with(
                arm9,
                cnt,
                (0x0200_0000 + s) as u32,
                (0x0200_0000 + t) as u32,
                n,
                run,
            );
            &&& only_main_differs(r, m)
            &&& q != 0 ==> r.ram.main[t + q * i + c] == m.ram.main[s + p * i + c]
            &&& q == 0 ==> r.ram.main[t + c] == m.ram.main[s + p * (n - 1) + c]
            &&& (k < t && k < t + q * (n - 1)) || (k >= t + u && k >= t + q * (n - 1) + u)
                ==> r.ram.main[k] == m.ram.main[k]
        }),
    decreases n,
{
    let src = (0x0200_0000 + s) as u32;
    let dst = (0x0200_0000 + t) as u32;
    let one = m.unit_with(arm9, u == 4, src, dst, run);
    lemma_unit(m, arm9, u, s, t, run, k);
    lemma_unit(m, arm9, u, s, t, run, t + c);
    lemma_unit(m, arm9, u, s, t, run, s + c);
    assert(store::dma_wide(cnt) == (u == 4));
    if n == 1 {
        assert(p * (n - 1) == 0 && q * (n - 1) == 0 && p * i == 0 && q * i == 0)
            by (nonlinear_arith)
            requires
                n == 1,
                i == 0,
        ;
        assert(m.units_with(arm9, cnt, src, dst, 1, run) == one) by {
            reveal_with_fuel(MmuModel::units_with, 2);
        }
    } else {
        let r = (n - 1) as nat;
        assert(p * (n - 1) == p + p * (r - 1) && q * (n - 1) == q + q * (r - 1))
            by (nonlinear_arith)
            requires
                r == n - 1,
        ;
        assert((p > 0 ==> p * (r - 1) >= 0) && (p < 0 ==> p * (r - 1) <= 0) && (q > 0 ==> q * (r - 1)
            >= 0) && (q < 0 ==> q * (r - 1) <= 0) && (p == 0 ==> p * (r - 1) == 0) && (q == 0 ==> q
            * (r - 1) == 0)) by (nonlinear_arith)
            requires
                r >= 1,
        ;
        assert(store::dma_next(src, store::dma_src_ctl(cnt), u as u32) == (0x0200_0000 + (s
            + p)) as u32);
        assert(store::dma_next(dst, store::dma_dst_ctl(cnt), u as u32) == (0x0200_0000 + (t
            + q)) as u32);
        let j = if i > 0 {
            i - 1
        } else {
            0
        };
        if i > 0 {
            assert(p * i == p + p * j && q * i == q + q * j) by (nonlinear_arith)
                requires
                    j == i - 1,
            ;
            assert((p >= 0 ==> 0 <= p * j <= p * (r - 1)) && (p <= 0 ==> p * (r - 1) <= p * j <= 0))
                by (nonlinear_arith)
                requires
                    0 <= j <= r - 1,
            ;
            lemma_unit(m, arm9, u, s, t, run, s + p * i + c);
        } else {
            assert(p * i == 0 && q * i == 0) by (nonlinear_arith)
                requires
                    i == 0,
            ;
        }
        lemma_unit(m, arm9, u, s, t, run, s + p * (n - 1) + c);
        lemma_units(one, arm9, cnt, u, s + p, p, t + q, q, r, a, z, b, y, j, c, k, run);
        lemma_units(one, arm9, cnt, u, s + p, p, t + q, q, r, a, z, b, y, j, c, t + c, run);
    }
}

/// A byte of a DMA register that ends no control word is only stored.
proof fn lemma_register_byte(m: MmuModel, off: u32, val: u8, d: nat)
    requires
        laws::plain_main(m),
        m.gamecard.bytes_left == 0,
        0xB0 <= off <= 0xDF,
        off != 0xBB && off != 0xC7 && off != 0xD3 && off != 0xDF,
    ensures
        m.byte9_with((0x0400_0000 + off) as u32, val, store::runner(d)) == m.io_stored(
            true,
            off,
            val,
        ),
{
    let s = m.io_stored(true, off, val);
    laws::law_idle_slot_moves_nothing(s, d);
    assert(m.spot9((0x0400_0000 + off) as u32) is None) by {
        reveal(MmuModel::spot9);
    }
    assert(m.stores.byte_stored(true, (0x0400_0000 + off) as u32, val) == m.stores);
    reveal(MmuModel::byte9_with);
    reveal(MmuModel::dma_byte9_with);
}

/// The machine that performs a transfer once its control word was written.
pub open spec fn loaded9(m: MmuModel, ch: int, cnt: u32) -> MmuModel {
    let o = 0xB8 + 12 * ch;
    let io = m.io9.update(o, bytes::byte_of(cnt, 0)).update(o + 1, bytes::byte_of(cnt, 1)).update(
        o + 2,
        bytes::byte_of(cnt, 2),
    ).update(o + 3, bytes::byte_of(cnt, 3));
    MmuModel {
        io9: io,
        dma: m.dma.with_dst(ch, store::io_word(io, 0xB4 + 12 * ch) % 0x1000_0000),
        ..m
    }
}

#[verifier::rlimit(40)]
#[verifier::spinoff_prover]
proof fn lemma_control_word9(m: MmuModel, ch: int, cnt: u32)
    requires
        laws::plain_main(m),
        m.io9.len() >= 0x100,
        m.gamecard.bytes_left == 0,
        0 <= ch < 4,
        m.io9[0xBB + 12 * ch] < 0x80,
        cnt >= 0x8000_0000,
        loaded9(m, ch, cnt).dma_with(true, ch, store::runner((store::DMA_NESTING - 1) as nat))
            .gamecard.bytes_left == 0,
    ensures
        m.wrote_word9((0x0400_00B8 + 12 * ch) as u32, cnt) == loaded9(m, ch, cnt).dma_with(
            true,
            ch,
            store::runner((store::DMA_NESTING - 1) as nat),
        ),
        m.io9.len() >= 0x100 ==> loaded9(m, ch, cnt).dma_cnt(true, ch) == cnt,
{
    let d = store::DMA_NESTING as nat;
    let run = store::runner(d);
    let addr = (0x0400_00B8 + 12 * ch) as u32;
    let o = (0xB8 + 12 * ch) as u32;
    let b0 = bytes::byte_of(cnt, 0);
    let b1 = bytes::byte_of(cnt, 1);
    let b2 = bytes::byte_of(cnt, 2);
    let b3 = bytes::byte_of(cnt, 3);
    bytes::law_split_then_compose(cnt);
    assert(b3 >= 0x80);
    assert(m.run9(addr, 4) is None) by {
        reveal(MmuModel::run9);
    }
    assert(m.stores.wide_stored9(addr, cnt) == m.stores);
    assert(m.store_run9(addr, 4) is None && m.marked9(addr, 4) == m) by {
        reveal(MmuModel::store_run9);
        reveal(MmuModel::marked9);
    }
    lemma_register_byte(m, o, b0, d);
    let m1 = m.io_stored(true, o, b0);
    lemma_register_byte(m1, (o + 1) as u32, b1, d);
    let m2 = m1.io_stored(true, (o + 1) as u32, b1);
    lemma_register_byte(m2, (o + 2) as u32, b2, d);
    let m3 = m2.io_stored(true, (o + 2) as u32, b2);
    let l = loaded9(m, ch, cnt);
    let e = l.dma_with(true, ch, store::runner((d - 1) as nat));
    assert(run(l, Start::Dma { arm9: true, ch }) == e);
    laws::law_idle_slot_moves_nothing(e, d);
    assert(m3.byte9_with((addr + 3) as u32, b3, run) == e) by {
        let at = (addr + 3) as u32;
        assert(m3.spot9(at) is None) by {
            reveal(MmuModel::spot9);
        }
        assert(m3.stores.byte_stored(true, at, b3) == m3.stores);
        assert(m3.io9[o + 3] == m.io9[0xBB + 12 * ch]);
        reveal(MmuModel::byte9_with);
        reveal(MmuModel::dma_byte9_with);
        assert(store::dma_channel((o + 3) as u32) == Some(ch));
    }
    assert(m.plain_word9_with(addr, cnt, run) == e) by {
        reveal(MmuModel::plain_word9_with);
    }
    reveal(MmuModel::word9_with);
}

/// Interrupt request of a channel: bit 8 for the first, one higher for each
/// further one.
pub open spec fn interrupt_of(ch: int) -> u32
    decreases ch,
{
    if ch <= 0 {
        0x100
    } else {
        (2 * interrupt_of(ch - 1)) as u32
    }
}

/// What a transfer changes besides what its units change.
proof fn lemma_transferred(
    m: MmuModel,
    arm9: bool,
    ch: int,
    cnt: u32,
    sad: u32,
    dad: u32,
    n: nat,
    run: Runner,
)
    requires
        0 <= ch < 4,
        n == store::dma_count(cnt, store::dma_limit(arm9, ch)),
        m.units_with(arm9, cnt, sad, dad, n, run).io(arm9).len() >= 0x100,
    ensures
        ({
            let e = m.transferred_with(arm9, ch, cnt, sad, dad, run);
            let r = m.units_with(arm9, cnt, sad, dad, n, run);
            &&& e.ram == r.ram
            &&& e.gx == r.gx
            &&& e.vram == r.vram
            &&& e.gamecard == r.gamecard
            &&& e.io(arm9)[0xBB + 12 * ch] < 0x80
            &&& cnt / 0x4000_0000 % 2 == 0 ==> e.irq == r.irq
            &&& cnt / 0x4000_0000 % 2 == 1 && arm9 ==> e.irq == r.irq.raised9(
                interrupt_of(ch),
            )
            &&& cnt / 0x4000_0000 % 2 == 1 && !arm9 ==> e.irq == r.irq.raised7(
                interrupt_of(ch),
            )
        }),
{
    reveal(MmuModel::transferred_with);
    reveal(MmuModel::dma_done);
    bytes::law_split_then_compose(cnt % 0x8000_0000);
    reveal_with_fuel(interrupt_of, 5);
}

proof fn lemma_started9(m: MmuModel, ch: int, cnt: u32, s: int, t: int)
    requires
        m.io9.len() >= 0x100,
        0 <= ch < 4,
        0 <= s < 0x40_0000,
        0 <= t < 0x40_0000,
        store::io_word(m.io9, 0xB0 + 12 * ch) == 0x0200_0000 + s,
        store::io_word(m.io9, 0xB4 + 12 * ch) == 0x0200_0000 + t,
        cnt >= 0x8000_0000,
        cnt / 0x800_0000 % 8 == 0 || cnt / 0x800_0000 % 8 == 7,
    ensures
        ({
            let l = loaded9(m, ch, cnt);
            let run = store::runner((store::DMA_NESTING - 1) as nat);
            let x = MmuModel {
                dma: l.dma.armed(true, store::dma_timing(cnt), cnt % 0x20_0000),
                ..l
            };
            l.dma_with(true, ch, run) == x.transferred_with(
                true,
                ch,
                cnt,
                (0x0200_0000 + s) as u32,
                (0x0200_0000 + t) as u32,
                run,
            )
        }),
{
    let l = loaded9(m, ch, cnt);
    bytes::law_split_then_compose(cnt);
    assert(l.dma_cnt(true, ch) == cnt);
    assert(store::io_word(l.io9, store::dma_base(ch)) == 0x0200_0000 + s);
    assert(store::io_word(l.io9, store::dma_base(ch) + 4) == 0x0200_0000 + t);
    reveal(MmuModel::dma_with);
}

/// Writing the control word of a channel whose source and destination lie in
/// separate parts of main memory moves as many units as the word counts, of four
/// bytes each where bit 26 is set and of two where it is not. Unit after unit the
/// source goes up, goes down (control 1 in bits 23 and 24) or stays (control 2),
/// and the destination likewise (bits 21 and 22): byte `c` of the `i`th unit comes
/// from the `i`th source. A fixed destination ends as the last source, and
/// everything outside the destination stays.
#[verifier::rlimit(60)]
#[verifier::spinoff_prover]
pub proof fn law_written_control_word_moves_units_9(
    m: MmuModel,
    ch: int,
    cnt: u32,
    u: int,
    s: int,
    p: int,
    t: int,
    q: int,
    n: nat,
    a: int,
    z: int,
    b: int,
    y: int,
    i: int,
    c: int,
    k: int,
)
    requires
        laws::plain_main(m),
        m.wf(),
        m.gamecard.bytes_left == 0,
        0 <= ch < 4,
        m.io9[0xBB + 12 * ch] < 0x80,
        bytes::le32(
            m.io9[0xB0 + 12 * ch],
            m.io9[0xB1 + 12 * ch],
            m.io9[0xB2 + 12 * ch],
            m.io9[0xB3 + 12 * ch],
        ) == 0x0200_0000 + s,
        bytes::le32(
            m.io9[0xB4 + 12 * ch],
            m.io9[0xB5 + 12 * ch],
            m.io9[0xB6 + 12 * ch],
            m.io9[0xB7 + 12 * ch],
        ) == 0x0200_0000 + t,
        cnt >= 0x8000_0000,
        cnt / 0x800_0000 % 8 == 0 || cnt / 0x800_0000 % 8 == 7,
        n == (if cnt % 0x20_0000 == 0 {
            0x20_0000
        } else {
            cnt % 0x20_0000
        }),
        u == (if cnt / 0x400_0000 % 2 == 1 {
            4int
        } else {
            2
        }),
        p == (if cnt / 0x80_0000 % 4 == 1 {
            -u
        } else if cnt / 0x80_0000 % 4 == 2 {
            0
        } else {
            u
        }),
        q == (if cnt / 0x20_0000 % 4 == 1 {
            -u
        } else if cnt / 0x20_0000 % 4 == 2 {
            0
        } else {
            u
        }),
        0 <= a <= s <= z - u,
        a <= s + p * (n - 1) <= z - u,
        z <= 0x40_0000,
        0 <= b <= t <= y - u,
        b <= t + q * (n - 1) <= y - u,
        y <= 0x40_0000,
        z <= b || y <= a,
        0 <= i < n,
        0 <= c < u,
        0 <= k < 0x40_0000,
    ensures
        ({
            let r = m.wrote_word9((0x0400_00B8 + 12 * ch) as u32, cnt);
            &&& q != 0 ==> r.ram.main[t + q * i + c] == m.ram.main[s + p * i + c]
            &&& q == 0 ==> r.ram.main[t + c] == m.ram.main[s + p * (n - 1) + c]
            &&& (k < t && k < t + q * (n - 1)) || (k >= t + u && k >= t + q * (n - 1) + u)
                ==> r.ram.main[k] == m.ram.main[k]
            &&& r.io9[0xBB + 12 * ch] < 0x80
            &&& r.gx == m.gx && r.vram == m.vram && r.gamecard == m.gamecard
            &&& cnt / 0x4000_0000 % 2 == 0 ==> r.irq == m.irq
            &&& cnt / 0x4000_0000 % 2 == 1 ==> r.irq == m.irq.raised9(interrupt_of(ch))
        }),
{
    let l = loaded9(m, ch, cnt);
    let run = store::runner((store::DMA_NESTING - 1) as nat);
    let x = MmuModel { dma: l.dma.armed(true, store::dma_timing(cnt), cnt % 0x20_0000), ..l };
    lemma_units(x, true, cnt, u, s, p, t, q, n, a, z, b, y, i, c, k, run);
    lemma_started9(m, ch, cnt, s, t);
    lemma_transferred(x, true, ch, cnt, (0x0200_0000 + s) as u32, (0x0200_0000 + t) as u32, n, run);
    lemma_control_word9(m, ch, cnt);
}

/// The machine that performs a transfer of the second processor once its control
/// word was written.
pub open spec fn loaded7(m: MmuModel, ch: int, cnt: u32) -> MmuModel {
    let o = 0xB8 + 12 * ch;
    let io = m.io7.update(o, bytes::byte_of(cnt, 0)).update(o + 1, bytes::byte_of(cnt, 1)).update(
        o + 2,
        bytes::byte_of(cnt, 2),
    ).update(o + 3, bytes::byte_of(cnt, 3));
    MmuModel { io7: io, ..m }
}

proof fn lemma_register_byte7(m: MmuModel, off: u32, val: u8, run: Runner)
    requires
        laws::plain_main(m),
        m.io7.len() >= 0x100,
        0xB0 <= off <= 0xDF,
    ensures
        ({
            let r = m.byte7_with((0x0400_0000 + off) as u32, val, run);
            let s = MmuModel { io7: m.io7.update(off as int, val), ..m };
            match store::dma_channel(off) {
                Some(ch) => r == (if val >= 0x80 && m.io7[off as int] < 0x80 {
                    run(s, Start::Dma { arm9: false, ch })
                } else {
                    s
                }),
                None => r == s,
            }
        }),
{
    assert(m.spot7((0x0400_0000 + off) as u32) is None) by {
        reveal(MmuModel::spot7);
    }
    assert(m.stores.byte_stored(false, (0x0400_0000 + off) as u32, val) == m.stores);
    reveal(MmuModel::byte7_with);
}

#[verifier::rlimit(40)]
#[verifier::spinoff_prover]
proof fn lemma_control_word7(m: MmuModel, ch: int, cnt: u32)
    requires
        laws::plain_main(m),
        m.io7.len() >= 0x100,
        0 <= ch < 4,
        m.io7[0xBB + 12 * ch] < 0x80,
        cnt >= 0x8000_0000,
    ensures
        m.wrote_word7((0x0400_00B8 + 12 * ch) as u32, cnt) == loaded7(m, ch, cnt).dma_with(
            false,
            ch,
            store::runner((store::DMA_NESTING - 1) as nat),
        ),
{
    let d = store::DMA_NESTING as nat;
    let run = store::runner(d);
    let addr = (0x0400_00B8 + 12 * ch) as u32;
    let o = (0xB8 + 12 * ch) as u32;
    let b0 = bytes::byte_of(cnt, 0);
    let b1 = bytes::byte_of(cnt, 1);
    let b2 = bytes::byte_of(cnt, 2);
    let b3 = bytes::byte_of(cnt, 3);
    bytes::law_split_then_compose(cnt);
    assert(b3 >= 0x80);
    assert(m.run7(addr, 4) is None) by {
        reveal(MmuModel::run7);
    }
    assert(m.store_run7(addr, 4) is None && m.marked7(addr, 4) == m) by {
        reveal(MmuModel::store_run7);
        reveal(MmuModel::marked7);
    }
    lemma_register_byte7(m, o, b0, run);
    let m1 = MmuModel { io7: m.io7.update(o as int, b0), ..m };
    lemma_register_byte7(m1, (o + 1) as u32, b1, run);
    let m2 = MmuModel { io7: m1.io7.update(o + 1, b1), ..m };
    lemma_register_byte7(m2, (o + 2) as u32, b2, run);
    let m3 = MmuModel { io7: m2.io7.update(o + 2, b2), ..m };
    lemma_register_byte7(m3, (o + 3) as u32, b3, run);
    assert(store::dma_channel((o + 3) as u32) == Some(ch));
    let l = loaded7(m, ch, cnt);
    assert(run(l, Start::Dma { arm9: false, ch }) == l.dma_with(
        false,
        ch,
        store::runner((d - 1) as nat),
    ));
    assert(m3.byte7_with((addr + 3) as u32, b3, run) == run(l, Start::Dma { arm9: false, ch }));
    reveal(MmuModel::word7_with);
}

proof fn lemma_started7(m: MmuModel, ch: int, cnt: u32, s: int, t: int)
    requires
        m.io7.len() >= 0x100,
        0 <= ch < 4,
        0 <= s < 0x40_0000,
        0 <= t < 0x40_0000,
        store::io_word(m.io7, 0xB0 + 12 * ch) == 0x0200_0000 + s,
        store::io_word(m.io7, 0xB4 + 12 * ch) == 0x0200_0000 + t,
        cnt >= 0x8000_0000,
        cnt / 0x800_0000 % 8 == 0,
    ensures
        ({
            let l = loaded7(m, ch, cnt);
            let run = store::runner((store::DMA_NESTING - 1) as nat);
            let x = MmuModel {
                dma: l.dma.armed(false, store::dma_timing(cnt), cnt % store::dma_limit(false, ch)),
                ..l
            };
            l.dma_with(false, ch, run) == x.transferred_with(
                false,
                ch,
                cnt,
                (0x0200_0000 + s) as u32,
                (0x0200_0000 + t) as u32,
                run,
            )
        }),
{
    let l = loaded7(m, ch, cnt);
    bytes::law_split_then_compose(cnt);
    assert(l.dma_cnt(false, ch) == cnt);
    assert(store::io_word(l.io7, store::dma_base(ch)) == 0x0200_0000 + s);
    assert(store::io_word(l.io7, store::dma_base(ch) + 4) == 0x0200_0000 + t);
    reveal(MmuModel::dma_with);
}

/// The same of the second processor, whose first three channels count to 0x4000
/// and whose last one counts to 0x10000.
#[verifier::rlimit(60)]
#[verifier::spinoff_prover]
pub proof fn law_written_control_word_moves_units_7(
    m: MmuModel,
    ch: int,
    cnt: u32,
    u: int,
    s: int,
    p: int,
    t: int,
    q: int,
    n: nat,
    a: int,
    z: int,
    b: int,
    y: int,
    i: int,
    c: int,
    k: int,
)
    requires
        laws::plain_main(m),
        m.wf(),
        0 <= ch < 4,
        m.io7[0xBB + 12 * ch] < 0x80,
        bytes::le32(
            m.io7[0xB0 + 12 * ch],
            m.io7[0xB1 + 12 * ch],
            m.io7[0xB2 + 12 * ch],
            m.io7[0xB3 + 12 * ch],
        ) == 0x0200_0000 + s,
        bytes::le32(
            m.io7[0xB4 + 12 * ch],
            m.io7[0xB5 + 12 * ch],
            m.io7[0xB6 + 12 * ch],
            m.io7[0xB7 + 12 * ch],
        ) == 0x0200_0000 + t,
        cnt >= 0x8000_0000,
        cnt / 0x800_0000 % 8 == 0,
        ch < 3 ==> n == (if cnt % 0x4000 == 0 {
            0x4000
        } else {
            cnt % 0x4000
        }),
        ch == 3 ==> n == (if cnt % 0x1_0000 == 0 {
            0x1_0000
        } else {
            cnt % 0x1_0000
        }),
        u == (if cnt / 0x400_0000 % 2 == 1 {
            4int
        } else {
            2
        }),
        p == (if cnt / 0x80_0000 % 4 == 1 {
            -u
        } else if cnt / 0x80_0000 % 4 == 2 {
            0
        } else {
            u
        }),
        q == (if cnt / 0x20_0000 % 4 == 1 {
            -u
        } else if cnt / 0x20_0000 % 4 == 2 {
            0
        } else {
            u
        }),
        0 <= a <= s <= z - u,
        a <= s + p * (n - 1) <= z - u,
        z <= 0x40_0000,
        0 <= b <= t <= y - u,
        b <= t + q * (n - 1) <= y - u,
        y <= 0x40_0000,
        z <= b || y <= a,
        0 <= i < n,
        0 <= c < u,
        0 <= k < 0x40_0000,
    ensures
        ({
            let r = m.wrote_word7((0x0400_00B8 + 12 * ch) as u32, cnt);
            &&& q != 0 ==> r.ram.main[t + q * i + c] == m.ram.main[s + p * i + c]
            &&& q == 0 ==> r.ram.main[t + c] == m.ram.main[s + p * (n - 1) + c]
            &&& (k < t && k < t + q * (n - 1)) || (k >= t + u && k >= t + q * (n - 1) + u)
                ==> r.ram.main[k] == m.ram.main[k]
            &&& r.io7[0xBB + 12 * ch] < 0x80
            &&& r.gx == m.gx && r.vram == m.vram && r.gamecard == m.gamecard
            &&& cnt / 0x4000_0000 % 2 == 0 ==> r.irq == m.irq
            &&& cnt / 0x4000_0000 % 2 == 1 ==> r.irq == m.irq.raised7(interrupt_of(ch))
        }),
{
    let l = loaded7(m, ch, cnt);
    let run = store::runner((store::DMA_NESTING - 1) as nat);
    let x = MmuModel {
        dma: l.dma.armed(false, store::dma_timing(cnt), cnt % store::dma_limit(false, ch)),
        ..l
    };
    lemma_units(x, false, cnt, u, s, p, t, q, n, a, z, b, y, i, c, k, run);
    lemma_started7(m, ch, cnt, s, t);
    lemma_transferred(x, false, ch, cnt, (0x0200_0000 + s) as u32, (0x0200_0000 + t) as u32, n, run);
    lemma_control_word7(m, ch, cnt);
}

/// The machine after words were stored to one address, one after the other.
pub open spec fn stored_words(m: MmuModel, addr: u32, words: Seq<u32>, run: Runner) -> MmuModel
    decreases words.len(),
{
    if words.len() == 0 {
        m
    } else {
        stored_words(
            m.word9_with(addr, words[0], run),
            addr,
            words.subrange(1, words.len() as int),
            run,
        )
    }
}

/// A list in main memory that is sent to the geometry queue with a fixed
/// destination arrives there word by word, in order, as if each word had been
/// stored to the port.
pub proof fn law_list_reaches_the_geometry_queue(
    m: MmuModel,
    cnt: u32,
    s: int,
    n: nat,
    run: Runner,
)
    requires
        laws::plain_main(m),
        cnt / 0x400_0000 % 2 == 1,
        cnt / 0x80_0000 % 4 == 0,
        cnt / 0x20_0000 % 4 == 2,
        0 <= s,
        s + 4 * n <= 0x40_0000,
    ensures
        m.units_with(true, cnt, (0x0200_0000 + s) as u32, 0x0400_0400, n, run) == stored_words(
            m,
            0x0400_0400,
            Seq::new(n, |i: int| m.word9((0x0200_0000 + s + 4 * i) as u32)),
            run,
        ),
    decreases n,
{
    let words = Seq::new(n, |i: int| m.word9((0x0200_0000 + s + 4 * i) as u32));
    if n > 0 {
        let src = (0x0200_0000 + s) as u32;
        let next = m.word9_with(0x0400_0400, m.word9(src), run);
        reveal(MmuModel::unit_with);
        assert(next.ram == m.ram && next.cp15 == m.cp15 && next.stores == m.stores) by {
            reveal(MmuModel::word9_with);
            reveal(MmuModel::gx_fed);
        }
        law_list_reaches_the_geometry_queue(next, cnt, s + 4, (n - 1) as nat, run);
        assert(store::dma_next(src, 0, 4) == (0x0200_0000 + (s + 4)) as u32);
        let rest = Seq::new((n - 1) as nat, |i: int| next.word9((0x0200_0000 + (s + 4) + 4 * i) as u32));
        assert forall|i: int| 0 <= i < n - 1 implies rest[i] == #[trigger] words.subrange(
            1,
            n as int,
        )[i] by {
            let at = (0x0200_0000 + s + 4 * (i + 1)) as u32;
            assert(m.run9(at, 4) is Some && next.run9(at, 4) == m.run9(at, 4)) by {
                reveal(MmuModel::run9);
            }
            assert(next.word9(at) == m.word9(at)) by {
                reveal(MmuModel::word9);
            }
        }
        assert(rest =~= words.subrange(1, n as int));
    }
}

} // verus!

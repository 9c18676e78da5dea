//! What the registers of the memory system hold.

use vstd::prelude::*;
use crate::bytes;
use crate::mmu::MmuModel;
use crate::mmu::regs;

verus! {

proof fn lemma_acknowledged(iff: u32, k: int, val: u8, j: int)
    requires
        0 <= k < 4,
        0 <= j < 4,
    ensures
        bytes::byte_of(regs::acknowledged(iff, k, val), j) == (if j == k {
            bytes::byte_of(iff, j) & !val
        } else {
            bytes::byte_of(iff, j)
        }),
{
    let r = regs::acknowledged(iff, k, val);
    let w = bytes::set_byte(0, k, val);
    let v = val as u32;
    if k == 0 {
        assert(w == v);
    } else if k == 1 {
        assert(w == v * 0x100);
    } else if k == 2 {
        assert(w == v * 0x1_0000);
    } else {
        assert(w == v * 0x100_0000);
    }
    assert(({
        let b = (iff & !w);
        let n = (!val) as u32;
        &&& w == v ==> b % 0x100 == (iff % 0x100) & n && b / 0x100 == iff / 0x100
        &&& w == v * 0x100 ==> b % 0x100 == iff % 0x100 && b / 0x100 % 0x100 == (iff / 0x100
            % 0x100) & n && b / 0x1_0000 == iff / 0x1_0000
        &&& w == v * 0x1_0000 ==> b % 0x1_0000 == iff % 0x1_0000 && b / 0x1_0000 % 0x100 == (iff
            / 0x1_0000 % 0x100) & n && b / 0x100_0000 == iff / 0x100_0000
        &&& w == v * 0x100_0000 ==> b % 0x100_0000 == iff % 0x100_0000 && b / 0x100_0000 == (iff
            / 0x100_0000) & n
    })) by (bit_vector)
        requires
            v == val as u32,
    ;
    lemma_narrowed(iff % 0x100, val);
    lemma_narrowed(iff / 0x100 % 0x100, val);
    lemma_narrowed(iff / 0x1_0000 % 0x100, val);
    lemma_narrowed(iff / 0x100_0000, val);
    lemma_lower_bytes(iff);
    lemma_lower_bytes(r);
}

proof fn lemma_narrowed(a: u32, val: u8)
    by (bit_vector)
    requires
        a < 0x100,
    ensures
        a & ((!val) as u32) < 0x100,
        (a as u8) & !val == (a & ((!val) as u32)) as u8,
{
}

proof fn lemma_lower_bytes(v: u32)
    ensures
        v / 0x1_0000 % 0x100 == v / 0x100 / 0x100 % 0x100,
        v / 0x100_0000 == v / 0x100 / 0x1_0000,
        v / 0x100_0000 == v / 0x1_0000 / 0x100,
        v % 0x1_0000 / 0x100 == v / 0x100 % 0x100,
        v % 0x1_0000 % 0x100 == v % 0x100,
        v % 0x100_0000 / 0x1_0000 == v / 0x1_0000 % 0x100,
        v % 0x100_0000 % 0x1_0000 == v % 0x1_0000,
{
}

/// Writing a one to a requested interrupt takes the request back; zeros and the
/// other bytes leave theirs. A geometry-queue condition that still holds requests
/// again.
pub proof fn law_requests_are_taken_back(m: MmuModel, k: int, val: u8, j: int)
    requires
        0 <= k < 4,
        0 <= j < 4,
    ensures
        ({
            let r = m.io7_written((0x214 + k) as u32, val);
            &&& r == (MmuModel { irq: r.irq, ..m })
            &&& r.irq.arm9_if == m.irq.arm9_if
            &&& bytes::byte_of(r.irq.arm7_if, j) == (if j == k {
                bytes::byte_of(m.irq.arm7_if, j) & !val
            } else {
                bytes::byte_of(m.irq.arm7_if, j)
            })
        }),
        m.io9[0x603] < 0x40 ==> ({
            let r = m.io9_written((0x214 + k) as u32, val);
            &&& r == (MmuModel { irq: r.irq, ..m })
            &&& r.irq.arm7_if == m.irq.arm7_if
            &&& bytes::byte_of(r.irq.arm9_if, j) == (if j == k {
                bytes::byte_of(m.irq.arm9_if, j) & !val
            } else {
                bytes::byte_of(m.irq.arm9_if, j)
            })
        }),
{
    reveal(MmuModel::io9_written);
    reveal(MmuModel::io7_written);
    lemma_acknowledged(m.irq.arm9_if, k, val, j);
    lemma_acknowledged(m.irq.arm7_if, k, val, j);
}

proof fn lemma_set(v: u32, k: int, b: u8)
    requires
        0 <= k < 4,
    ensures
        bytes::byte_of(bytes::set_byte(v, k, b), k) == b,
{
    bytes::law_split_then_compose(v);
    bytes::law_compose_then_split(
        if k == 0 {
            b
        } else {
            bytes::byte_of(v, 0)
        },
        if k == 1 {
            b
        } else {
            bytes::byte_of(v, 1)
        },
        if k == 2 {
            b
        } else {
            bytes::byte_of(v, 2)
        },
        if k == 3 {
            b
        } else {
            bytes::byte_of(v, 3)
        },
    );
}

/// The interrupt enables and the master enable read back as written, for each
/// processor its own.
pub proof fn law_interrupt_enables_read_back(m: MmuModel, k: int, val: u8)
    requires
        0 <= k < 4,
    ensures
        m.io9_written((0x210 + k) as u32, val).io9_byte((0x210 + k) as u32) == val,
        m.io9_written((0x208 + k) as u32, val).io9_byte((0x208 + k) as u32) == val,
        m.io7_written((0x210 + k) as u32, val).io7_byte((0x210 + k) as u32) == val,
        m.io7_written((0x208 + k) as u32, val).io7_byte((0x208 + k) as u32) == val,
        m.io9_written((0x210 + k) as u32, val).irq.arm7_ie == m.irq.arm7_ie,
        m.io7_written((0x210 + k) as u32, val).irq.arm9_ie == m.irq.arm9_ie,
{
    reveal(MmuModel::io9_written);
    reveal(MmuModel::io7_written);
    reveal(MmuModel::io9_byte);
    reveal(MmuModel::io7_byte);
    lemma_set(m.irq.arm9_ie, k, val);
    lemma_set(m.irq.arm9_ime, k, val);
    lemma_set(m.irq.arm7_ie, k, val);
    lemma_set(m.irq.arm7_ime, k, val);
}

/// The bank registers stand in a row, with the register of the shared memory
/// between the seventh and the eighth.
pub proof fn law_bank_registers(m: MmuModel, i: int, val: u8)
    requires
        m.wf(),
        0 <= i < 9,
    ensures
        ({
            let off = (0x240 + i + (if i >= 7 {
                1int
            } else {
                0
            })) as u32;
            let r = m.io9_written(off, val);
            &&& r.io9_byte(off) == val
            &&& r.vram.banks[i].control == val
            &&& r.vram.banks[i].data == m.vram.banks[i].data
            &&& r == (MmuModel { vram: r.vram, ..m })
            &&& forall|j: int| 0 <= j < 9 && j != i ==> #[trigger] r.vram.banks[j] == m.vram.banks[j]
        }),
        m.io9_written(0x247, val).wram_control == val,
{
    reveal(MmuModel::io9_written);
    reveal(MmuModel::io9_byte);
}

/// Each processor has timers of its own, four bytes each from 0x100 on.
pub proof fn law_timers_are_separate(m: MmuModel, off: u32, val: u8)
    requires
        off < 16,
    ensures
        m.io9_written((0x100 + off) as u32, val) == (MmuModel {
            timers9: m.timers9.with_byte(off, val),
            ..m
        }),
        m.io7_written((0x100 + off) as u32, val) == (MmuModel {
            timers7: m.timers7.with_byte(off, val),
            ..m
        }),
        m.io9_byte((0x100 + off) as u32) == m.timers9.byte(off),
        m.io7_byte((0x100 + off) as u32) == m.timers7.byte(off),
{
    reveal(MmuModel::io9_written);
    reveal(MmuModel::io7_written);
    reveal(MmuModel::io9_byte);
    reveal(MmuModel::io7_byte);
}

/// The reload value of a timer is set by its first two bytes, and starting the
/// timer loads it, not before.
pub proof fn law_starting_loads_the_counter(m: MmuModel, ch: int, v: int, c: u8)
    requires
        m.wf(),
        0 <= ch < 4,
        0 <= v < 0x1_0000,
        c >= 0x80,
        m.timers9.control[ch] & 0x80 == 0,
    ensures
        ({
            let a = m.timers9.with_byte((4 * ch) as u32, (v % 0x100) as u8).with_byte(
                (4 * ch + 1) as u32,
                (v / 0x100) as u8,
            );
            let b = a.with_byte((4 * ch + 2) as u32, c);
            &&& a.counter == m.timers9.counter
            &&& a.reload[ch] == v
            &&& b.counter[ch] == v && b.acc[ch] == 0
            &&& b.byte((4 * ch) as u32) == v % 0x100 && b.byte((4 * ch + 1) as u32) == v / 0x100
        }),
{
    assert((c & 0xC7) as u16 & 0x80 != 0) by (bit_vector)
        requires
            c >= 0x80u8,
    ;
    let t = m.timers9;
    let a = t.with_byte((4 * ch) as u32, (v % 0x100) as u8);
    assert(a.reload[ch] == t.reload[ch] - t.reload[ch] % 256 + v % 0x100);
    assert(a.reload[ch] % 256 == v % 0x100);
}

} // verus!

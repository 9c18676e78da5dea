//! The address spaces of the two processors.

use vstd::prelude::*;
use crate::mmu::MmuModel;
use crate::mmu::memory::Spot;
use crate::mmu::decode;

verus! {

/// What the first processor finds where no coupled memory lies over it: its start-up
/// image at both ends, main memory at 0x0200_0000 with copies every 4 MiB, the
/// palettes at 0x0500_0000 and the sprite attributes at 0x0700_0000.
pub proof fn law_map_of_the_first_processor(m: MmuModel, k: int, c: int)
    requires
        0 <= k,
        0 <= c,
    ensures
        ({
            let a = 0x0200_0000 + 0x40_0000 * c + k;
            k < 0x40_0000 && c < 4 && c != 1 && !m.cp15.in_itcm(a as u32) && !m.cp15.in_dtcm(
                a as u32,
            ) ==> m.spot9(a as u32) == Some(Spot::Main(k as usize))
        }),
        ({
            let a = 0x0500_0000 + 0x1000 * c + k;
            k < 0x1000 && c < 0x1000 && !m.cp15.in_itcm(a as u32) && !m.cp15.in_dtcm(a as u32)
                ==> m.spot9(a as u32) == Some(Spot::Palette(k as usize))
        }),
        ({
            let a = 0x0700_0000 + 0x800 * c + k;
            k < 0x800 && c < 0x2000 && !m.cp15.in_itcm(a as u32) && !m.cp15.in_dtcm(a as u32)
                ==> m.spot9(a as u32) == Some(Spot::Oam(k as usize))
        }),
        ({
            let a = 0xFF00_0000 + 0x4000 * c + k;
            k < 0x4000 && c < 0x400 && !m.cp15.in_itcm(a as u32) && !m.cp15.in_dtcm(a as u32)
                ==> m.spot9(a as u32) == Some(Spot::Bios9(k as usize))
        }),
{
    reveal(MmuModel::spot9);
}

/// What the second processor finds: its start-up image, main memory with its copies,
/// and from 0x0380_0000 on a memory of its own with copies every 64 KiB.
pub proof fn law_map_of_the_second_processor(m: MmuModel, k: int, c: int)
    requires
        0 <= k,
        0 <= c,
    ensures
        k < 0x4000 && c < 0x400 ==> m.spot7((0x4000 * c + k) as u32) == Some(
            Spot::Bios7(k as usize),
        ),
        k < 0x40_0000 && c < 4 ==> m.spot7((0x0200_0000 + 0x40_0000 * c + k) as u32) == Some(
            Spot::Main(k as usize),
        ),
        k < 0x1_0000 && c < 0x80 ==> m.spot7((0x0380_0000 + 0x1_0000 * c + k) as u32) == Some(
            Spot::Wram7(k as usize),
        ),
{
    reveal(MmuModel::spot7);
}

/// The coupled memories lie over everything else, the instruction memory over the
/// data memory, each from its base on and with copies of itself behind it.
pub proof fn law_coupled_memories_lie_on_top(m: MmuModel, a: u32, base: u32, k: int)
    requires
        0 <= k <= 0xFFFF_FFFF,
        a == base.wrapping_add(k as u32),
    ensures
        m.cp15.in_itcm(a) && base == m.cp15.itcm_control - m.cp15.itcm_control % 0x1000 ==> m.spot9(a)
            == Some(Spot::Itcm((k % 0x8000) as usize)),
        m.cp15.in_dtcm(a) && !m.cp15.in_itcm(a) && base == m.cp15.dtcm_control - m.cp15.dtcm_control
            % 0x1000 ==> m.spot9(a) == Some(Spot::Dtcm((k % 0x4000) as usize)),
{
    reveal(MmuModel::spot9);
}

/// The five windows of video memory: backgrounds of the first and the second engine,
/// sprites of the first and the second, and the banks in a row.
pub proof fn law_windows_of_video_memory(m: MmuModel, k: u32)
    requires
        !m.cp15.itcm_on(),
        !m.cp15.dtcm_on(),
        k < 0x20_0000,
    ensures
        m.byte9((0x0600_0000 + k) as u32) == m.vram.byte_at(m.vram.bg_a_slot(k)),
        m.byte9((0x0620_0000 + k) as u32) == m.vram.byte_at(m.vram.bg_b_slot(k)),
        m.byte9((0x0640_0000 + k) as u32) == m.vram.byte_at(m.vram.obj_a_slot(k)),
        m.byte9((0x0660_0000 + k) as u32) == m.vram.byte_at(m.vram.obj_b_slot(k)),
        k < 0xA_4000 ==> m.byte9((0x0680_0000 + k) as u32) == m.vram.byte_at(m.vram.lcdc_slot(k)),
        m.byte7((0x0600_0000 + k) as u32) == m.vram.byte_at(m.vram.arm7_slot(k)),
{
    reveal(MmuModel::byte9);
    reveal(MmuModel::byte7);
    reveal(MmuModel::spot9);
    reveal(MmuModel::spot7);
}

/// The shared memory, 256 KiB: the first processor has all of it, the upper half, the
/// lower half or nothing, and the second the rest; where that is nothing the second
/// finds its own memory instead.
pub proof fn law_shared_memory_is_divided(mode: int, k: int)
    requires
        0 <= mode < 4,
        0 <= k < 0x2_0000,
    ensures
        mode == 0 ==> decode::shared9_index(0, k) == Some(k as usize) && decode::shared9_index(
            0,
            0x2_0000 + k,
        ) == Some((0x2_0000 + k) as usize) && decode::shared7_spot(0, k) == Spot::Wram7(
            (k % 0x1_0000) as usize,
        ),
        mode == 1 ==> decode::shared9_index(1, 0x4_0000 + k) == Some((0x2_0000 + k) as usize)
            && decode::shared9_index(1, k) is None && decode::shared7_spot(1, k) == Spot::Shared(
            k as usize,
        ),
        mode == 2 ==> decode::shared9_index(2, k) == Some(k as usize) && decode::shared9_index(
            2,
            0x2_0000 + k,
        ) is None && decode::shared7_spot(2, k) == Spot::Shared((0x2_0000 + k) as usize),
        mode == 3 ==> decode::shared9_index(3, k) is None && decode::shared7_spot(3, k)
            == Spot::Shared(k as usize) && decode::shared7_spot(3, 0x2_0000 + k) == Spot::Shared(
            (0x2_0000 + k) as usize,
        ),
{
}

} // verus!

//! Where the banks appear.

use vstd::prelude::*;
use crate::vram::VramModel;

verus! {

/// Whether bank `i` alone is switched on, with a target and an offset field.
pub open spec fn alone(v: VramModel, i: int, target: int, ofs: int) -> bool {
    &&& v.banks[i].control == 0x80 + 8 * ofs + target
    &&& forall|j: int| 0 <= j < 9 && j != i ==> (#[trigger] v.banks[j]).control < 0x80
}

/// Whether a decoding gives byte `k` of bank `i`.
pub open spec fn finds(s: Option<(int, int)>, i: int, k: int) -> bool {
    s == Some((i, k))
}

/// Left to the processor, the banks stand one after the other, each in a place of
/// its own, whatever their offset fields.
pub proof fn law_banks_stand_in_a_row(v: VramModel, i: int, ofs: int, k: int)
    requires
        v.wf(),
        0 <= i < 9,
        0 <= ofs < 4,
        alone(v, i, 0, ofs),
        0 <= k < v.banks[i].data.len(),
    ensures
        i < 4 ==> finds(v.lcdc_slot((0x2_0000 * i + k) as u32), i, k),
        i == 4 ==> finds(v.lcdc_slot((0x8_0000 + k) as u32), i, k),
        i == 5 ==> finds(v.lcdc_slot((0x9_0000 + k) as u32), i, k),
        i == 6 ==> finds(v.lcdc_slot((0x9_4000 + k) as u32), i, k),
        i == 7 ==> finds(v.lcdc_slot((0x9_8000 + k) as u32), i, k),
        i == 8 ==> finds(v.lcdc_slot((0xA_0000 + k) as u32), i, k),
        i < 4 ==> v.banks[i].data.len() == 0x2_0000,
        i == 4 ==> v.banks[i].data.len() == 0x1_0000,
        i == 5 || i == 6 || i == 8 ==> v.banks[i].data.len() == 0x4000,
        i == 7 ==> v.banks[i].data.len() == 0x8000,
{
}

/// First byte of a bank in the first engine's spaces: the offset field moves the
/// large banks by their size, leaves the fifth in place, and moves the two small
/// ones by 16 KiB and by 64 KiB, one bit each.
pub open spec fn first_byte(i: int, ofs: int) -> int {
    if i < 4 {
        0x2_0000 * ofs
    } else if i == 4 {
        0
    } else {
        0x4000 * (ofs % 2) + 0x1_0000 * (ofs / 2)
    }
}

/// A bank given to the first engine appears from its first byte on and nowhere
/// else: as background memory (target 1), as sprite memory (2), as texture images
/// (3, the large banks) and as texture palettes (3, the others).
pub proof fn law_banks_of_the_first_engine(
    v: VramModel,
    i: int,
    target: int,
    ofs: int,
    k: int,
    a: u32,
)
    requires
        v.wf(),
        0 <= i < 7,
        0 <= ofs < 4,
        1 <= target <= 3,
        alone(v, i, target, ofs),
        0 <= k < v.banks[i].data.len(),
        a < first_byte(i, ofs) || a >= first_byte(i, ofs) + v.banks[i].data.len(),
    ensures
        ({
            let at = (first_byte(i, ofs) + k) as u32;
            &&& target == 1 ==> finds(v.bg_a_slot(at), i, k) && v.bg_a_slot(a) is None
            &&& target == 2 && (i < 2 || i >= 4) ==> finds(v.obj_a_slot(at), i, k) && v.obj_a_slot(a)
                is None
            &&& target == 3 && i < 4 ==> finds(v.tex_image_slot(at), i, k) && v.tex_image_slot(a)
                is None
            &&& target == 3 && i >= 4 ==> finds(v.tex_pal_slot(at), i, k) && v.tex_pal_slot(a)
                is None
            &&& target != 1 ==> v.bg_a_slot(at) is None
            &&& target != 2 ==> v.obj_a_slot(at) is None
            &&& target != 3 ==> v.tex_image_slot(at) is None && v.tex_pal_slot(at) is None
        }),
{
    assert(v.banks[i].control as int / 8 % 4 == ofs && v.banks[i].control as int % 8 == target);
}

/// A bank given to the second engine appears in place: the third and the two last
/// as background memory, the last behind the one before; the fourth and the last as
/// sprite memory.
pub proof fn law_banks_of_the_second_engine(
    v: VramModel,
    i: int,
    target: int,
    ofs: int,
    k: int,
)
    requires
        v.wf(),
        0 <= i < 9,
        0 <= ofs < 4,
        0 <= target < 8,
        alone(v, i, target, ofs),
        0 <= k < v.banks[i].data.len(),
    ensures
        i == 2 && target == 4 ==> finds(v.bg_b_slot(k as u32), i, k),
        i == 7 && target == 1 ==> finds(v.bg_b_slot(k as u32), i, k),
        i == 8 && target == 1 ==> finds(v.bg_b_slot((0x8000 + k) as u32), i, k),
        i == 3 && target == 4 ==> finds(v.obj_b_slot(k as u32), i, k),
        i == 8 && target == 2 ==> finds(v.obj_b_slot(k as u32), i, k),
        i != 2 && i != 7 && i != 8 ==> v.bg_b_slot(k as u32) is None,
        i != 3 && i != 8 ==> v.obj_b_slot(k as u32) is None,
{
    assert(v.banks[i].control as int % 8 == target);
}

/// A bank lent to the second processor appears in the lower or the upper half of
/// its window, by the low bit of the offset field.
pub proof fn law_banks_of_the_second_processor(v: VramModel, i: int, ofs: int, k: int)
    requires
        v.wf(),
        i == 2 || i == 3,
        0 <= ofs < 4,
        alone(v, i, 2, ofs),
        0 <= k < 0x2_0000,
    ensures
        finds(v.arm7_slot((0x2_0000 * (ofs % 2) + k) as u32), i, k),
        v.arm7_slot((0x2_0000 * (1 - ofs % 2) + k) as u32) is None,
{
    assert(v.banks[i].control as int / 8 % 2 == ofs % 2 && v.banks[i].control as int % 8 == 2);
}

/// A bank that is switched off answers nowhere.
pub proof fn law_disabled_banks_do_not_answer(v: VramModel, a: u32)
    requires
        v.wf(),
        forall|j: int| 0 <= j < 9 ==> (#[trigger] v.banks[j]).control < 0x80,
    ensures
        v.lcdc_slot(a) is None,
        v.bg_a_slot(a) is None,
        v.bg_b_slot(a) is None,
        v.obj_a_slot(a) is None,
        v.obj_b_slot(a) is None,
        v.tex_image_slot(a) is None,
        v.tex_pal_slot(a) is None,
        v.arm7_slot(a) is None,
{
    assert(forall|j: int| 0 <= j < 9 ==> !(#[trigger] v.banks[j]).mapped(0));
}

} // verus!

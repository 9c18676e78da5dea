use nds_core::cpu::bus::Arm9Bus;
use nds_core::mmu::NdsMmu;
use nds_core::tcm::{Cp15Registers, TcmWindow};

const ITCM_ON: u32 = 1 << 18;
const DTCM_ON: u32 = 1 << 16;

/// Memories with distinct contents behind the given registers.
fn mapped(regs: Cp15Registers) -> NdsMmu {
    let mut mmu = NdsMmu::new();
    for (i, b) in mmu.ram.main_ram.iter_mut().enumerate() {
        *b = (i as u8) ^ 0x5A;
    }
    for (i, b) in mmu.ram.itcm.iter_mut().enumerate() {
        *b = (i as u8).wrapping_mul(3) ^ 0x11;
    }
    for (i, b) in mmu.ram.dtcm.iter_mut().enumerate() {
        *b = (i as u8).wrapping_mul(7) ^ 0x22;
    }
    mmu.set_cp15(regs);
    mmu
}

fn composed(mmu: &NdsMmu, a: u32) -> u32 {
    (0..4).fold(0, |w, i| w | u32::from(mmu.read_byte_arm9(a.wrapping_add(i))) << (8 * i))
}

#[test]
fn a_large_region_is_the_whole_address_space() {
    let mut mmu = NdsMmu::new();
    for n in [23u32, 24, 31] {
        mmu.set_cp15(Cp15Registers { control: 0, itcm_control: n << 1, dtcm_control: 0 });
        for a in [0, 0x0200_0000, 0xFFFF_FFFF] {
            assert!(mmu.in_itcm_range_arm9(a));
            assert!(!mmu.in_itcm_arm9(a), "it is not enabled");
        }
    }
    mmu.set_cp15(Cp15Registers { control: 0, itcm_control: 22 << 1, dtcm_control: 0 });
    assert!(mmu.in_itcm_range_arm9(0x7FFF_FFFF));
    assert!(!mmu.in_itcm_range_arm9(0x8000_0000));
    assert_eq!(TcmWindow::region_size(31 << 1), 512 << 31);
    assert_eq!(TcmWindow::region_size(0), 512);
}

#[test]
fn an_enabled_region_over_everything_folds_the_memory() {
    let mmu = mapped(Cp15Registers { control: ITCM_ON, itcm_control: 23 << 1, dtcm_control: 0 });
    assert_eq!(mmu.read_byte_arm9(0x0200_8001), mmu.ram.itcm[1]);
    for a in [0x0000_7FFE, 0xFFFF_FFFE, 0x0400_0000] {
        assert_eq!(mmu.read_word_arm9(a), composed(&mmu, a));
    }
}

/// Windows whose edges lie next to other memory: a small one at zero, one in
/// main memory, one inside the other.
fn maps() -> Vec<Cp15Registers> {
    let control = ITCM_ON | DTCM_ON;
    vec![
        Cp15Registers { control, itcm_control: 0, dtcm_control: 0x0200_1000 },
        Cp15Registers { control, itcm_control: 0x0200_2000, dtcm_control: 0x0200_0000 | 5 << 1 },
        Cp15Registers { control, itcm_control: 0x0200_1000 | 3 << 1, dtcm_control: 0x0200_0000 | 4 << 1 },
    ]
}

const EDGES: [u32; 9] = [
    0x0000_0200, 0x0200_1000, 0x0200_1200, 0x0200_2000, 0x0200_2200, 0x0200_4000, 0x0000_8000,
    0x0200_0000, 0x0240_0000,
];

#[test]
fn loads_across_window_edges_are_their_byte_loads() {
    for regs in maps() {
        let mmu = mapped(regs);
        for edge in EDGES {
            for d in 0..5u32 {
                let a = edge.wrapping_sub(4).wrapping_add(d);
                let w = composed(&mmu, a);
                assert_eq!(mmu.read_word_arm9(a), w, "{a:#010x}");
                assert_eq!(mmu.read_halfword_arm9(a), w as u16, "{a:#010x}");
            }
        }
    }
    let mmu = mapped(maps()[0]);
    assert_ne!(
        mmu.read_word_arm9(0x1FE) >> 16,
        u32::from(mmu.ram.itcm[0x200]) | u32::from(mmu.ram.itcm[0x201]) << 8,
        "the bytes past the window are other memory"
    );
}

#[test]
fn stores_across_window_edges_are_their_byte_stores() {
    for regs in maps() {
        for edge in EDGES {
            for d in 0..5u32 {
                let a = edge.wrapping_sub(4).wrapping_add(d);
                let (mut fast, mut slow) = (NdsMmu::new(), NdsMmu::new());
                fast.set_cp15(regs);
                slow.set_cp15(regs);
                fast.write_word_arm9(a, 0x1234_5678);
                for (i, b) in [0x78, 0x56, 0x34, 0x12].into_iter().enumerate() {
                    slow.write_byte_arm9(a.wrapping_add(i as u32), b);
                }
                for x in 0..8u32 {
                    let at = a.wrapping_sub(2).wrapping_add(x);
                    assert_eq!(fast.read_byte_arm9(at), slow.read_byte_arm9(at), "{at:#010x}");
                    assert_eq!(fast.read_byte_arm7(at), slow.read_byte_arm7(at), "{at:#010x}");
                }
                fast.write_halfword_arm9(a, 0xBEEF);
                slow.write_byte_arm9(a, 0xEF);
                slow.write_byte_arm9(a.wrapping_add(1), 0xBE);
                assert_eq!(composed(&fast, a), composed(&slow, a));
            }
        }
    }
}

#[test]
fn blocks_across_window_edges_are_their_words() {
    let regs = maps()[0];
    let mut mmu = mapped(regs);
    let mut block = [0u32; 4];
    Arm9Bus(&mut mmu).read_words(0x0200_0FF8, &mut block);
    for (i, w) in block.into_iter().enumerate() {
        assert_eq!(w, composed(&mmu, 0x0200_0FF8 + 4 * i as u32));
    }
    let values = [1u32, 0x0203_0405, 0xFFFF_FFFF, 7];
    Arm9Bus(&mut mmu).write_words(0x0200_11F8, &values);
    for (i, w) in values.into_iter().enumerate() {
        assert_eq!(composed(&mmu, 0x0200_11F8 + 4 * i as u32), w);
    }
    assert_eq!(mmu.ram.dtcm[0x1F8], 1, "the first words are in the window");
    assert_eq!(mmu.ram.main_ram[0x1200], 0xFF, "and the last ones behind it");
}

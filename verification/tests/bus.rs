use nds_core::cpu::bus::{Arm7Bus, Arm9Bus};
use nds_core::mmu::NdsMmu;

fn patterned() -> NdsMmu {
    let mut mmu = NdsMmu::new();
    mmu.write_word_arm9(0x0200_0000, 0xAABB_CCDD);
    mmu.write_word_arm9(0x0200_0004, 0x1122_3344);
    mmu
}

#[test]
fn unaligned_word_load_rotates_the_aligned_word() {
    let mut mmu = patterned();
    let mut bus = Arm9Bus(&mut mmu);
    assert_eq!(bus.read_word(0x0200_0000), 0xAABB_CCDD);
    assert_eq!(bus.read_word(0x0200_0001), 0xDDAA_BBCC);
    assert_eq!(bus.read_word(0x0200_0002), 0xCCDD_AABB);
    assert_eq!(bus.read_word(0x0200_0003), 0xBBCC_DDAA);
    let mut bus = Arm7Bus(&mut mmu);
    assert_eq!(bus.read_word(0x0200_0001), 0xDDAA_BBCC);
}

#[test]
fn unaligned_word_store_lands_on_the_aligned_word() {
    let mut mmu = patterned();
    Arm9Bus(&mut mmu).write_word(0x0200_0003, 0x5566_7788);
    assert_eq!(mmu.read_word_arm9(0x0200_0000), 0x5566_7788);
    assert_eq!(mmu.read_word_arm9(0x0200_0004), 0x1122_3344);
    Arm7Bus(&mut mmu).write_word(0x0200_0006, 0x99AA_BBCC);
    assert_eq!(mmu.read_word_arm7(0x0200_0004), 0x99AA_BBCC);
}

#[test]
fn receive_port_pops_on_a_load_but_not_on_a_fetch() {
    let mut mmu = NdsMmu::new();
    mmu.write_ipc_fifo_cnt_arm9(0x8000);
    mmu.write_ipc_fifo_cnt_arm7(0x8000);
    Arm7Bus(&mut mmu).write_word(0x0400_0188, 0x1234_5678);
    Arm7Bus(&mut mmu).write_word(0x0400_0188, 0x9ABC_DEF0);
    assert_eq!(mmu.ipc.fifo_7to9.len(), 2);
    let mut bus = Arm9Bus(&mut mmu);
    bus.fetch_word(0x0410_0000);
    assert_eq!(bus.0.ipc.fifo_7to9.len(), 2);
    assert_eq!(bus.read_word(0x0410_0000), 0x1234_5678);
    assert_eq!(bus.read_word(0x0410_0000), 0x9ABC_DEF0);
    assert_eq!(mmu.ipc.fifo_7to9.len(), 0);
    Arm9Bus(&mut mmu).write_word(0x0400_0188, 0x0BAD_CAFE);
    assert_eq!(Arm7Bus(&mut mmu).read_word(0x0410_0000), 0x0BAD_CAFE);
}

#[test]
fn block_accesses_match_single_words() {
    let mut mmu = NdsMmu::new();
    let vals = [1u32, 0x0203_0405, 0xFFFF_FFFF, 7];
    Arm9Bus(&mut mmu).write_words(0x0200_0100, &vals);
    let mut block = [0u32; 4];
    Arm9Bus(&mut mmu).read_words(0x0200_0100, &mut block);
    assert_eq!(block, vals);
    for (i, v) in vals.iter().enumerate() {
        assert_eq!(mmu.read_word_arm9(0x0200_0100 + 4 * i as u32), *v);
    }
    Arm7Bus(&mut mmu).write_words(0x0380_0010, &vals);
    let mut block = [0u32; 4];
    Arm7Bus(&mut mmu).read_words(0x0380_0010, &mut block);
    assert_eq!(block, vals);
}

#[test]
fn block_access_across_the_top_of_main_memory_goes_word_by_word() {
    let mut mmu = NdsMmu::new();
    mmu.wram_control = 0;
    Arm9Bus(&mut mmu).write_words(0x023F_FFFC, &[0x1111_1111, 0x2222_2222]);
    assert_eq!(mmu.read_word_arm9(0x023F_FFFC), 0x1111_1111);
    assert_eq!(mmu.read_word_arm9(0x0240_0000), 0x2222_2222, "the shared memory begins here");
    let mut block = [0u32; 2];
    Arm9Bus(&mut mmu).read_words(0x023F_FFFC, &mut block);
    assert_eq!(block, [0x1111_1111, 0x2222_2222]);
}

#[test]
fn block_load_of_a_port_pops_each_word() {
    let mut mmu = NdsMmu::new();
    mmu.write_ipc_fifo_cnt_arm9(0x8000);
    mmu.write_ipc_fifo_cnt_arm7(0x8000);
    mmu.write_ipc_fifo_tx_arm7(5);
    let mut block = [0u32; 1];
    Arm9Bus(&mut mmu).read_words(0x0410_0000, &mut block);
    assert_eq!(block, [5]);
    assert_eq!(mmu.ipc.fifo_7to9.len(), 0);
}

#[test]
fn load_watch_sees_loads_and_not_fetches() {
    let mut mmu = NdsMmu::new();
    mmu.stores.tp_read_watch_on = true;
    let mut bus = Arm9Bus(&mut mmu);
    bus.read_halfword(0x027F_FC80);
    bus.read_byte(0x021E_36B9);
    bus.read_byte(0x0400_01A2);
    bus.fetch_halfword(0x027F_FC80);
    assert_eq!(mmu.stores.settings_read_log, vec![0x027F_FC80]);
    assert_eq!(mmu.stores.tp_slot_reads, [1, 0, 0, 0, 0, 0]);
    assert_eq!(mmu.aux.aux_log, vec![(1, 0xFF)]);
}

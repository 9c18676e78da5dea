use nds_core::cpu::arm::{CpuMode, Registers, FLAG_I, FLAG_T};
use nds_core::cpu::arm7::Arm7Cpu;
use nds_core::cpu::arm9::Arm9Cpu;
use nds_core::cpu::{Fetched, Step, Window};
use nds_core::mmu::NdsMmu;

#[test]
fn leaving_a_mode_and_coming_back_restores_the_registers() {
    let mut r = Registers::new();
    r.cpsr = 0x1F;
    for i in 0..16 {
        r.gpr[i] = 100 + i as u32;
    }
    r.spsr = 9;
    let before = r.gpr;
    for mode in [
        CpuMode::Fiq,
        CpuMode::Irq,
        CpuMode::Supervisor,
        CpuMode::Abort,
        CpuMode::Undefined,
        CpuMode::User,
    ] {
        r.swap_mode(CpuMode::System, mode);
        assert_eq!(r.get_mode(), mode);
        if mode != CpuMode::User {
            assert_eq!(r.gpr[13], 0, "a mode has its own stack pointer");
        }
        r.swap_mode(mode, CpuMode::System);
        assert_eq!(r.gpr, before);
        assert_eq!((r.cpsr, r.spsr), (0x1F, 9));
    }
}

#[test]
fn fast_interrupts_have_five_more_registers() {
    let mut r = Registers::new();
    r.cpsr = 0x1F;
    r.gpr[8] = 8;
    r.gpr[12] = 12;
    r.gpr[7] = 7;
    r.swap_mode(CpuMode::System, CpuMode::Fiq);
    assert_eq!((r.gpr[7], r.gpr[8], r.gpr[12]), (7, 0, 0));
    r.gpr[8] = 88;
    r.swap_mode(CpuMode::Fiq, CpuMode::Irq);
    assert_eq!((r.gpr[8], r.gpr[12]), (8, 12));
    r.swap_mode(CpuMode::Irq, CpuMode::Fiq);
    assert_eq!(r.gpr[8], 88);
}

#[test]
fn a_reserved_mode_field_counts_as_system() {
    let mut r = Registers::new();
    r.cpsr = 0x15;
    assert_eq!(r.get_mode(), CpuMode::System);
}

fn at(pc: u32) -> (Arm9Cpu, NdsMmu) {
    let mut mmu = NdsMmu::new();
    let mut cpu = Arm9Cpu::new();
    cpu.cpu.registers.cpsr = 0x1F;
    cpu.cpu.registers.gpr[15] = pc;
    cpu.flush_pipeline(&mut mmu);
    (cpu, mmu)
}

fn request(mmu: &mut NdsMmu) {
    mmu.irq.arm9_ime = 1;
    mmu.irq.arm9_ie = 4;
    mmu.irq.arm9_if = 6;
}

#[test]
fn an_interrupt_saves_the_return_and_goes_to_the_vector() {
    let (mut cpu, mut mmu) = at(0x0200_0000);
    request(&mut mmu);
    assert_eq!(cpu.step(&mut mmu), Step::Done(4));
    let r = &cpu.cpu.registers;
    assert_eq!(r.spsr, 0x1F);
    assert_eq!(r.gpr[14], 0x0200_0004, "the next instruction plus four");
    assert_eq!(r.gpr[15], 0x18);
    assert_eq!(r.cpsr, 0x92, "interrupt mode, masked, long encoding");
    assert!(cpu.cpu.pc_modified);
    assert_eq!(mmu.census.arm9_irqs_taken, 1);
}

#[test]
fn control_bit_13_selects_the_high_vectors() {
    let (mut cpu, mut mmu) = at(0x0200_0000);
    let mut control = 0x2000;
    cpu.execute_cp15_transfer(&mut mmu, true, 1, 0, 0, &mut control);
    request(&mut mmu);
    cpu.step(&mut mmu);
    assert_eq!(cpu.cpu.registers.gpr[15], 0xFFFF_0018);
}

#[test]
fn masked_or_disabled_interrupts_are_not_taken() {
    for (ime, masked) in [(0, false), (1, true)] {
        let (mut cpu, mut mmu) = at(0x0200_0000);
        request(&mut mmu);
        mmu.irq.arm9_ime = ime;
        cpu.cpu.registers.set_flag(FLAG_I, masked);
        assert!(matches!(cpu.step(&mut mmu), Step::Execute(_)));
        assert_eq!(mmu.census.arm9_irqs_taken, 0);
    }
}

#[test]
fn short_encoding_fetches_halfwords() {
    let mut mmu = NdsMmu::new();
    for (i, h) in [0x2055u16, 0x2166, 0x2277].iter().enumerate() {
        mmu.write_halfword_arm9(0x0200_0008 + 2 * i as u32, *h);
    }
    let mut cpu = Arm9Cpu::new();
    cpu.cpu.registers.cpsr = 0x1F | FLAG_T;
    cpu.cpu.registers.gpr[15] = 0x0200_0009;
    cpu.flush_pipeline(&mut mmu);
    assert_eq!(cpu.cpu.registers.gpr[15], 0x0200_000C);
    assert_eq!(cpu.cpu.pipeline, [0x2055, 0x2166]);
    let first = Step::Execute(Fetched { inst: 0x2055, thumb: true });
    assert_eq!(cpu.step(&mut mmu), first);
    assert_eq!(mmu.stores.arm9_exec_pc, 0x0200_0008);
    cpu.finish(true);
    assert_eq!(cpu.cpu.registers.gpr[15], 0x0200_000E);
    assert_eq!(cpu.cpu.pipeline, [0x2166, 0x2277]);
    request(&mut mmu);
    assert_eq!(cpu.step(&mut mmu), Step::Done(4));
    assert_eq!(cpu.cpu.registers.gpr[14], 0x0200_000E, "the next instruction plus four");
    assert!(!cpu.cpu.registers.get_flag(FLAG_T));
}

#[test]
fn a_set_program_counter_refills_the_pipeline() {
    let (mut cpu, mut mmu) = at(0x0200_0000);
    mmu.write_word_arm9(0x0200_0100, 0xE3A0_0001);
    cpu.cpu.registers.gpr[15] = 0x0200_0100;
    cpu.cpu.pc_modified = true;
    let step = cpu.step(&mut mmu);
    assert_eq!(step, Step::Execute(Fetched { inst: 0xE3A0_0001, thumb: false }));
    assert!(!cpu.cpu.pc_modified);
    cpu.cpu.pc_modified = true;
    cpu.finish(false);
    assert_eq!(cpu.cpu.registers.gpr[15], 0x0200_0108, "a branch is not advanced past");
}

#[test]
fn coprocessor_registers_read_back_and_agree() {
    let (mut cpu, mut mmu) = at(0x0200_0000);
    for (crn, crm, op2, val) in
        [(1, 0, 0, 0x0005_2078u32), (9, 1, 0, 0x027E_000A), (9, 1, 1, 0x0000_0020)]
    {
        let mut v = val;
        cpu.execute_cp15_transfer(&mut mmu, true, crn, crm, op2, &mut v);
        let mut back = 0;
        cpu.execute_cp15_transfer(&mut mmu, false, crn, crm, op2, &mut back);
        assert_eq!(back, val);
        assert_eq!(cpu.cp15, mmu.cp15());
    }
    assert_eq!(mmu.read_word_arm9(0xFFFF_0030), 0x027E_3FFC, "the handler pointer moved along");
    let mut unknown = 5;
    cpu.execute_cp15_transfer(&mut mmu, false, 2, 0, 0, &mut unknown);
    assert_eq!(unknown, 5);
}

#[test]
fn coprocessor_instructions_are_executed_in_place() {
    let mut mmu = NdsMmu::new();
    mmu.write_word_arm9(0x0200_0000, 0xEE09_0F11); // MCR p15,0,r0,c9,c1,0
    mmu.write_word_arm9(0x0200_0004, 0xEE19_1F11); // MRC p15,0,r1,c9,c1,0
    mmu.write_word_arm9(0x0200_0008, 0xEE19_FF11); // MRC p15,0,pc,c9,c1,0
    let mut cpu = Arm9Cpu::new();
    cpu.cpu.registers.cpsr = 0x1F;
    cpu.cpu.registers.gpr[0] = 0x0B00_000A;
    cpu.cpu.registers.gpr[15] = 0x0200_0000;
    cpu.flush_pipeline(&mut mmu);
    assert_eq!(cpu.step(&mut mmu), Step::Done(1));
    assert_eq!(mmu.cp15().dtcm_control, 0x0B00_000A);
    assert_eq!(cpu.step(&mut mmu), Step::Done(1));
    assert_eq!(cpu.cpu.registers.gpr[1], 0x0B00_000A);
    assert_eq!(cpu.step(&mut mmu), Step::Done(1));
    assert_eq!(cpu.cpu.registers.gpr[15], 0x0200_0014, "the counter takes no part");
}

#[test]
fn a_waiting_window_is_counted_whole() {
    let mut mmu = NdsMmu::new();
    let mut cpu = Arm7Cpu::new();
    cpu.cpu.halted = true;
    let mut window = Window::new(500);
    assert_eq!(cpu.run(&mut mmu, &mut window), None);
    assert_eq!((window.used, window.yielded), (500, false));
    assert_eq!(mmu.census.arm7_halt_cycles, 500);
    assert!(cpu.cpu.halted);
}

#[test]
fn a_request_ends_a_wait_of_the_second_processor() {
    let mut mmu = NdsMmu::new();
    let mut cpu = Arm7Cpu::new();
    cpu.cpu.halted = true;
    mmu.irq.arm7_ie = 1;
    mmu.irq.arm7_if = 1;
    assert_eq!(cpu.step(&mut mmu), Step::Done(1));
    assert!(!cpu.cpu.halted);
}

#[test]
fn the_second_processor_takes_interrupts_at_the_low_vector() {
    let mut mmu = NdsMmu::new();
    let mut cpu = Arm7Cpu::new();
    cpu.cpu.registers.cpsr = 0x1F;
    cpu.cpu.registers.gpr[15] = 0x0380_0000;
    cpu.flush_pipeline(&mut mmu);
    mmu.irq.arm7_ime = 1;
    mmu.irq.arm7_ie = 8;
    mmu.irq.arm7_if = 8;
    assert_eq!(cpu.step(&mut mmu), Step::Done(4));
    assert_eq!(cpu.cpu.registers.gpr[15], 0x18);
    assert_eq!(cpu.cpu.registers.gpr[14], 0x0380_0004);
    assert_eq!(mmu.census.arm7_irqs_taken, 1);
}

#[test]
fn a_signal_gives_up_the_rest_of_the_window() {
    let (mut cpu, mut mmu) = at(0x0200_0000);
    let mut window = Window::new(100);
    assert!(cpu.run(&mut mmu, &mut window).is_some());
    mmu.write_ipcsync_arm9(0x0100);
    assert!(mmu.ipc_yield);
    cpu.retire(&mut mmu, &mut window, false, 3);
    assert!(!mmu.ipc_yield);
    assert!(window.yielded);
    assert_eq!(cpu.run(&mut mmu, &mut window), None);
    assert_eq!(window.used, 3);
}

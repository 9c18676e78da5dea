use nds_core::cpu::arm::ArmCore;
use nds_core::cpu::arm9::Arm9Cpu;
use nds_core::cpu::bus::Arm9Bus;
use nds_core::cpu::{Step, Window};
use nds_core::mmu::NdsMmu;

/// Executes the few instructions that the programs below are made of: moves and
/// additions of constants, word stores and branches.
fn execute(core: &mut ArmCore, mmu: &mut NdsMmu, inst: u32) -> u32 {
    let regs = &mut core.registers;
    let rn = (inst >> 16 & 0xF) as usize;
    let rd = (inst >> 12 & 0xF) as usize;
    let constant = (inst & 0xFF).rotate_right((inst >> 8 & 0xF) * 2);
    match inst >> 20 {
        0xE3A => regs.gpr[rd] = constant,
        0xE28 => regs.gpr[rd] = regs.gpr[rn].wrapping_add(constant),
        0xE58 => Arm9Bus(mmu).write_word(regs.gpr[rn].wrapping_add(inst & 0xFFF), regs.gpr[rd]),
        0xEA0..=0xEAF => {
            let offset = ((inst << 8) as i32 >> 6) as u32;
            regs.gpr[15] = regs.gpr[15].wrapping_add(offset);
            core.pc_modified = true;
        }
        0x000 => {}
        _ => panic!("no instruction of these programs: {inst:#010x}"),
    }
    1
}

fn step(cpu: &mut Arm9Cpu, mmu: &mut NdsMmu) -> u32 {
    match cpu.step(mmu) {
        Step::Done(cycles) => cycles,
        Step::Execute(f) => {
            let cycles = execute(&mut cpu.cpu, mmu, f.inst);
            cpu.finish(f.thumb);
            cycles
        }
    }
}

fn run(cpu: &mut Arm9Cpu, mmu: &mut NdsMmu, budget: u32) -> u32 {
    let mut window = Window::new(budget);
    while let Some(f) = cpu.run(mmu, &mut window) {
        let cycles = execute(&mut cpu.cpu, mmu, f.inst);
        cpu.retire(mmu, &mut window, f.thumb, cycles);
    }
    window.used
}

/// Loads `instrs` into main memory and starts the first processor there.
fn boot_arm9(instrs: &[u32]) -> (Arm9Cpu, NdsMmu) {
    let mut mmu = NdsMmu::new();
    for (i, &w) in instrs.iter().enumerate() {
        mmu.write_word_arm9(0x0200_0000 + (i as u32) * 4, w);
    }
    let mut cpu = Arm9Cpu::new();
    cpu.cpu.registers.cpsr = 0x1F; // System mode, ARM state
    cpu.cpu.registers.gpr[15] = 0x0200_0000;
    cpu.flush_pipeline(&mut mmu);
    (cpu, mmu)
}

#[test]
fn run_matches_the_step_loop_it_replaced() {
    let prog: [u32; 5] = [
        0xE3A0_0000,
        0xE3A0_1402,
        0xE280_0001,
        0xE581_0040,
        0xEAFF_FFFC,
    ];
    let (mut a, mut ma) = boot_arm9(&prog);
    let (mut b, mut mb) = boot_arm9(&prog);

    let used_run = run(&mut a, &mut ma, 200);
    let mut used_step = 0;
    while used_step < 200 {
        used_step += step(&mut b, &mut mb);
    }

    assert_eq!(used_run, used_step, "cycle accounting must match");
    assert_eq!(a.cpu.registers.gpr, b.cpu.registers.gpr, "registers must match");
    assert_eq!(
        ma.read_word_arm9(0x0200_0040),
        mb.read_word_arm9(0x0200_0040),
        "memory effects must match"
    );
    assert!(ma.read_word_arm9(0x0200_0040) > 1, "the program actually ran");
}

#[test]
fn run_collapses_a_fully_halted_window() {
    let (mut cpu, mut mmu) = boot_arm9(&[0xE3A0_0000]);
    cpu.cpu.halted = true;
    mmu.irq.arm9_ie = 0;
    mmu.irq.arm9_if = 0;
    mmu.census.arm9_halt_cycles = 0;

    assert_eq!(run(&mut cpu, &mut mmu, 64), 64, "the whole budget is idled away");
    assert!(cpu.cpu.halted, "nothing in the window can end the halt");
    assert_eq!(mmu.census.arm9_halt_cycles, 64, "every idle cycle is still counted");
}

#[test]
fn run_wakes_a_halted_core_with_a_pending_irq() {
    let (mut cpu, mut mmu) = boot_arm9(&[0xE3A0_0042]);
    cpu.cpu.halted = true;
    mmu.irq.arm9_ie = 1;
    mmu.irq.arm9_if = 1;
    mmu.irq.arm9_ime = 0; // wake without taking the IRQ

    let used = run(&mut cpu, &mut mmu, 64);
    assert!(!cpu.cpu.halted, "IE & IF must end the halt");
    assert_eq!(cpu.cpu.registers.gpr[0], 0x42, "the core resumed executing");
    assert!(used >= 64, "the window is still fully consumed");
}

#[test]
fn arm9_executes_arm_and_writes_memory() {
    let (mut cpu, mut mmu) = boot_arm9(&[0xE3A0_0042, 0xE3A0_1402, 0xE581_0010]);
    for _ in 0..3 {
        step(&mut cpu, &mut mmu);
    }
    assert_eq!(cpu.cpu.registers.gpr[0], 0x42, "MOV r0 executed");
    assert_eq!(cpu.cpu.registers.gpr[1], 0x0200_0000, "MOV r1 executed");
    assert_eq!(
        mmu.read_word_arm9(0x0200_0010),
        0x42,
        "STR reached Main RAM through Arm9Bus"
    );
}

#[test]
fn arm9_branch_redirects_execution() {
    let (mut cpu, mut mmu) = boot_arm9(&[
        0xE3A0_0001, // MOV r0,#1
        0xEA00_0000, // B  +0  -> lands at 0x0C
        0xE3A0_0009, // MOV r0,#9  (must be skipped)
        0xE3A0_2007, // MOV r2,#7
    ]);
    for _ in 0..3 {
        step(&mut cpu, &mut mmu);
    }
    assert_eq!(cpu.cpu.registers.gpr[0], 1, "branch skipped MOV r0,#9");
    assert_eq!(cpu.cpu.registers.gpr[2], 7, "landed on instruction after branch");
}

#[test]
fn arm9_wfi_halts_and_wakes_on_ie_and_if_without_ime() {
    let (mut cpu, mut mmu) = boot_arm9(&[
        0xEE07_0F90, // MCR p15,0,r0,c7,c0,4 (WFI)
        0xE3A0_1042, // MOV r1,#0x42 (must run only after wake)
    ]);
    step(&mut cpu, &mut mmu); // WFI -> halted
    assert!(cpu.cpu.halted, "WFI halted the ARM9");
    step(&mut cpu, &mut mmu); // no pending IRQ: stays halted, executes nothing
    assert!(cpu.cpu.halted, "stays halted without IE & IF");
    assert_eq!(cpu.cpu.registers.gpr[1], 0, "no execution while halted");
    mmu.irq.arm9_ime = 0;
    mmu.irq.arm9_ie = 1 << 18;
    mmu.irq.arm9_if = 1 << 18;
    step(&mut cpu, &mut mmu); // wake tick
    assert!(!cpu.cpu.halted, "IE & IF wakes the halt regardless of IME");
    step(&mut cpu, &mut mmu); // resumes at the instruction after the WFI
    assert_eq!(cpu.cpu.registers.gpr[1], 0x42, "execution continued after WFI");
}


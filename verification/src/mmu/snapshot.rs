//! Resuming from a saved machine.
//!
//! A snapshot is a machine of its own: `capture` makes one and `resume_from`
//! takes its state over. It carries what the hardware holds. The cartridge, the
//! start-up images and the buttons belong to the running session, and so do all
//! logs and counters.

use vstd::prelude::*;
use crate::backup;
use crate::backup::{BackupModel, ChipFault, NdsBackup};
use crate::bytes;
use crate::mmu::code;
use crate::mmu::memory::Misfit;
use crate::mmu::{MmuModel, NdsMmu, IO_BYTES};
use crate::spi::FIRMWARE_BYTES;

verus! {

/// Why a saved machine is refused.
#[derive(Clone, Copy, Debug, PartialEq, Eq, Structural)]
pub enum ResumeFault {
    Memory(Misfit),
    VramBank,
    Firmware,
    OtherChip,
    ChipSize,
    Arm9Io,
    Arm7Io,
}

impl ResumeFault {
    pub open spec fn spec_message(self) -> Seq<char> {
        match self {
            ResumeFault::Memory(Misfit::Main) => "main_ram size mismatch"@,
            ResumeFault::Memory(Misfit::Shared) => "shared_wram size mismatch"@,
            ResumeFault::Memory(Misfit::Wram7) => "arm7_wram size mismatch"@,
            ResumeFault::Memory(Misfit::Itcm) => "itcm size mismatch"@,
            ResumeFault::Memory(Misfit::Dtcm) => "dtcm size mismatch"@,
            ResumeFault::VramBank => "vram bank size mismatch"@,
            ResumeFault::Firmware => "firmware image size mismatch"@,
            ResumeFault::OtherChip => "snapshot names a different backup device"@,
            ResumeFault::ChipSize => "backup chip size mismatch"@,
            ResumeFault::Arm9Io => "arm9_io size mismatch"@,
            ResumeFault::Arm7Io => "arm7_io size mismatch"@,
        }
    }

    /// The fault in words.
    pub fn message(self) -> (m: &'static str)
        ensures
            m@ == self.spec_message(),
    {
        match self {
            ResumeFault::Memory(Misfit::Main) => "main_ram size mismatch",
            ResumeFault::Memory(Misfit::Shared) => "shared_wram size mismatch",
            ResumeFault::Memory(Misfit::Wram7) => "arm7_wram size mismatch",
            ResumeFault::Memory(Misfit::Itcm) => "itcm size mismatch",
            ResumeFault::Memory(Misfit::Dtcm) => "dtcm size mismatch",
            ResumeFault::VramBank => "vram bank size mismatch",
            ResumeFault::Firmware => "firmware image size mismatch",
            ResumeFault::OtherChip => "snapshot names a different backup device",
            ResumeFault::ChipSize => "backup chip size mismatch",
            ResumeFault::Arm9Io => "arm9_io size mismatch",
            ResumeFault::Arm7Io => "arm7_io size mismatch",
        }
    }
}

impl MmuModel {
    /// Whether the parts of a saved machine other than its memories are in a
    /// state that the hardware can be in.
    pub open spec fn resumable(self) -> bool {
        &&& self.ram.palette.len() == 4096
        &&& self.ram.oam.len() == 2048
        &&& self.vram.banks.len() == 9
        &&& self.ipc.wf()
        &&& self.dma.dst.len() == 4
        &&& self.timers9.wf()
        &&& self.timers7.wf()
        &&& self.rtc.wf()
        &&& self.apu.wf()
        &&& self.gx.wf()
    }

    /// What speaks against resuming from a saved machine, if anything does.
    pub open spec fn resume_fault(self, saved: MmuModel) -> Option<ResumeFault> {
        if saved.ram.misfit() is Some {
            Some(ResumeFault::Memory(saved.ram.misfit()->0))
        } else if !saved.vram.fits() {
            Some(ResumeFault::VramBank)
        } else if saved.spi.firmware.data.len() != FIRMWARE_BYTES {
            Some(ResumeFault::Firmware)
        } else {
            match backup::chip_fault(self.backup, saved.backup) {
                Some(ChipFault::Kind) => Some(ResumeFault::OtherChip),
                Some(ChipFault::Size) => Some(ResumeFault::ChipSize),
                None => if saved.io9.len() != IO_BYTES {
                    Some(ResumeFault::Arm9Io)
                } else if saved.io7.len() != IO_BYTES {
                    Some(ResumeFault::Arm7Io)
                } else {
                    None
                },
            }
        }
    }

    /// Machine that resumes from a saved one. Its memory windows follow from the
    /// saved coprocessor registers.
    pub open spec fn resumed(self, saved: MmuModel) -> MmuModel {
        MmuModel {
            ram: self.ram.resumed(saved.ram),
            vram: self.vram.resumed(saved.vram),
            wram_control: saved.wram_control,
            ipc: saved.ipc,
            spi: self.spi.resumed(saved.spi),
            backup: self.backup.resumed(saved.backup),
            irq: saved.irq,
            io9: saved.io9,
            io7: saved.io7,
            gamecard: saved.gamecard,
            dma: self.dma.resumed(saved.dma),
            has_3d: saved.has_3d,
            timers9: saved.timers9,
            timers7: saved.timers7,
            rtc: saved.rtc,
            apu: self.apu.resumed(saved.apu),
            gx: self.gx.resumed(saved.gx),
            maths: saved.maths,
            aux: self.aux.resumed(saved.aux),
            ..self
        }.with_cp15(saved.cp15)
    }

    /// The snapshot of a machine.
    pub open spec fn captured(self) -> MmuModel {
        MmuModel { backup: BackupModel::fresh(self.backup.kind), ..MmuModel::fresh() }.resumed(self)
    }
}

impl NdsMmu {
    /// What speaks against resuming from a saved machine.
    pub fn resume_fault(&self, saved: &NdsMmu) -> (fault: Option<ResumeFault>)
        ensures
            fault == self@.resume_fault(saved@),
    {
        if let Some(misfit) = saved.ram.misfit() {
            return Some(ResumeFault::Memory(misfit));
        }
        if !saved.vram.fits() {
            return Some(ResumeFault::VramBank);
        }
        if saved.spi.firmware.image_len() != FIRMWARE_BYTES {
            return Some(ResumeFault::Firmware);
        }
        match self.backup.chip_fault(&saved.backup) {
            Some(ChipFault::Kind) => Some(ResumeFault::OtherChip),
            Some(ChipFault::Size) => Some(ResumeFault::ChipSize),
            None => if saved.arm9_io.len() != IO_BYTES {
                Some(ResumeFault::Arm9Io)
            } else if saved.arm7_io.len() != IO_BYTES {
                Some(ResumeFault::Arm7Io)
            } else {
                None
            },
        }
    }

    /// Takes the state of a saved machine over. A machine with another save chip,
    /// or with a memory of another size, is refused before anything changes.
    pub fn resume_from(&mut self, saved: &NdsMmu) -> (r: Result<(), ResumeFault>)
        requires
            old(self)@.wf(),
            saved@.resumable(),
        ensures
            match old(self)@.resume_fault(saved@) {
                Some(fault) => r == Err::<(), ResumeFault>(fault) && final(self)@ == old(self)@,
                None => r is Ok && final(self)@ == old(self)@.resumed(saved@),
            },
            final(self)@.wf(),
    {
        if let Some(fault) = self.resume_fault(saved) {
            return Err(fault);
        }
        self.ram.resume_from(&saved.ram);
        self.vram.resume_from(&saved.vram);
        self.wram_control = saved.wram_control;
        self.ipc.resume_from(&saved.ipc);
        self.set_cp15(saved.cp15());
        self.spi.resume_from(&saved.spi);
        let chip = self.backup.resume_from(&saved.backup);
        assert(chip is Ok);
        self.irq = saved.irq;
        self.arm9_io = bytes::copied(&saved.arm9_io);
        self.arm7_io = bytes::copied(&saved.arm7_io);
        self.gamecard = saved.gamecard;
        self.dma.resume_from(&saved.dma);
        self.has_3d_activity = saved.has_3d_activity;
        self.timers9 = saved.timers9;
        self.timers7 = saved.timers7;
        self.rtc.resume_from(&saved.rtc);
        self.apu.resume_from(&saved.apu);
        self.gx.resume_from(&saved.gx);
        self.maths = saved.maths;
        self.aux.resume_from(&saved.aux);
        proof {
            lemma_resumed_wf(old(self)@, saved@);
        }
        Ok(())
    }

    /// Makes a snapshot.
    pub fn capture(&self) -> (r: NdsMmu)
        requires
            self@.wf(),
            self@.ipc.wf(),
        ensures
            r@ == self@.captured(),
            r@.wf(),
    {
        let mut r = NdsMmu::new();
        r.backup = NdsBackup::new(self.backup.kind());
        let done = r.resume_from(self);
        assert(done is Ok);
        r
    }
}

proof fn lemma_resumed_wf(m: MmuModel, saved: MmuModel)
    requires
        m.wf(),
        saved.resumable(),
        m.resume_fault(saved) is None,
    ensures
        m.resumed(saved).wf(),
{
}

/// A snapshot resumes as the machine it was made from would, in any session with
/// the same save chip, whatever has happened since.
pub proof fn law_snapshot_stands_for_the_machine(m: MmuModel, later: MmuModel)
    requires
        m.wf(),
        m.ipc.wf(),
        later.wf(),
        later.backup.kind == m.backup.kind,
    ensures
        m.captured().wf(),
        later.resume_fault(m.captured()) is None,
        later.resumed(m.captured()) == later.resumed(m),
{
    let blank = MmuModel { backup: BackupModel::fresh(m.backup.kind), ..MmuModel::fresh() };
    assert(blank.backup.data.len() == blank.backup.kind.spec_size_bytes());
    lemma_resumed_wf(blank, m);
}

/// Resuming from a snapshot of the present moment only discards what was
/// compiled.
pub proof fn law_resuming_the_present_changes_nothing(m: MmuModel)
    requires
        m.wf(),
        m.ipc.wf(),
    ensures
        m.resumed(m.captured()) == m.with_cp15(m.cp15),
{
    law_snapshot_stands_for_the_machine(m, m);
}

/// After resuming, both processors load from every memory, the start-up images
/// aside, what they loaded in the saved machine.
pub proof fn law_resumed_memory_reads_as_saved(m: MmuModel, saved: MmuModel, addr: u32)
    ensures
        m.resumed(saved).spot9(addr) == saved.spot9(addr),
        m.resumed(saved).spot7(addr) == saved.spot7(addr),
        !(saved.spot9(addr) matches Some(s) && s is Bios9) && addr / 0x100_0000 != 0x04
            ==> m.resumed(saved).byte9(addr) == saved.byte9(addr),
        !(saved.spot7(addr) matches Some(s) && s is Bios7) && addr / 0x100_0000 != 0x04
            ==> m.resumed(saved).byte7(addr) == saved.byte7(addr),
{
    reveal(MmuModel::spot9);
    reveal(MmuModel::spot7);
    reveal(MmuModel::byte9);
    reveal(MmuModel::byte7);
}

/// Resuming leaves the session its cartridge, start-up images and buttons, and
/// every log and counter.
pub proof fn law_resuming_keeps_the_session(m: MmuModel, saved: MmuModel)
    ensures
        m.resumed(saved).rom == m.rom,
        m.resumed(saved).ram.bios9 == m.ram.bios9,
        m.resumed(saved).ram.bios7 == m.ram.bios7,
        m.resumed(saved).buttons == m.buttons,
        m.resumed(saved).stores == m.stores,
        m.resumed(saved).pxi == m.pxi,
        m.resumed(saved).gx_watch == m.gx_watch,
        m.resumed(saved).census == m.census,
        m.resumed(saved).aux.log == m.aux.log,
        m.resumed(saved).aux.bus_log == m.aux.bus_log,
        m.resumed(saved).aux.io_log == m.aux.io_log,
        m.resumed(saved).backup.cmd_counts == m.backup.cmd_counts,
{
}

/// A resume discards everything compiled: memory changes without a single
/// store, so no page version would move by itself.
pub proof fn law_resuming_discards_compiled_code(m: MmuModel, saved: MmuModel, page: int)
    requires
        m.wf(),
        0 <= page < code::CODE_PAGES,
    ensures
        m.resumed(saved).code.version(page) == m.code.version(page).wrapping_add(1),
        m.resumed(saved).code.epoch9 == m.code.epoch9.wrapping_add(1),
        m.resumed(saved).code.epoch7 == m.code.epoch7.wrapping_add(1),
{
}

} // verus!

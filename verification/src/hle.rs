//! Direct boot of a cartridge: what the start-up code would have left behind.

use vstd::prelude::*;
use crate::bytes;
use crate::cpu::arm::{CoreModel, RegsModel};
use crate::cpu::arm7::Arm7Cpu;
use crate::cpu::arm9::{Arm9Cpu, Cpu9Model};
use crate::mmu::card;
use crate::mmu::frame;
use crate::mmu::laws;
use crate::mmu::{MmuModel, NdsMmu};
use crate::tcm;
use crate::tcm::Cp15Registers;
use crate::user_settings;

verus! {

/// Shortest image that holds a header.
pub const HEADER_BYTES: usize = 0x200;

/// Bytes of the header that the boot leaves in main memory.
pub const HEADER_COPY_BYTES: usize = 0x160;

/// Limit of the zeroed memory: of a whole table for the first processor, of one
/// entry for the second.
pub const BSS_LIMIT: u64 = 0x80_0000;

/// Bytes of the user settings that the boot leaves in main memory.
pub const SETTINGS_COPY_BYTES: usize = 0x74;

/// `String::push` of the standard library appends one character to the end of
/// the string.
pub assume_specification[ String::push ](s: &mut String, ch: char)
    ensures
        final(s)@ == old(s)@.push(ch),
;

/// Little-endian word at an offset.
pub open spec fn word_at(data: Seq<u8>, off: int) -> u32 {
    bytes::le32(data[off], data[off + 1], data[off + 2], data[off + 3])
}

fn get_word(data: &[u8], off: usize) -> (w: u32)
    requires
        off + 4 <= data@.len(),
    ensures
        w == word_at(data@, off as int),
{
    bytes::word(data[off], data[off + 1], data[off + 2], data[off + 3])
}

/// Character of a title byte; what cannot be printed becomes a question mark.
pub open spec fn title_char(b: u8) -> char {
    if 32 <= b <= 126 {
        b as char
    } else {
        '?'
    }
}

/// Length of the title: it ends at a zero byte, or after twelve.
pub open spec fn title_len(rom: Seq<u8>, i: nat) -> nat
    decreases 12 - i,
{
    if i >= 12 || rom[i as int] == 0 {
        i
    } else {
        title_len(rom, i + 1)
    }
}

/// Index of the first character from `i` on that is no blank.
pub open spec fn past_blanks(s: Seq<char>, i: nat) -> nat
    decreases s.len() - i,
{
    if i >= s.len() || s[i as int] != ' ' {
        i
    } else {
        past_blanks(s, i + 1)
    }
}

/// Length of the first `j` characters without the blanks at their end.
pub open spec fn before_blanks(s: Seq<char>, j: nat) -> nat
    decreases j,
{
    if j == 0 || s[j - 1] != ' ' {
        j
    } else {
        before_blanks(s, (j - 1) as nat)
    }
}

/// A text without the blanks around it.
pub open spec fn trimmed(s: Seq<char>) -> Seq<char> {
    let a = past_blanks(s, 0);
    if a >= s.len() {
        Seq::empty()
    } else {
        s.subrange(a as int, before_blanks(s, s.len()) as int)
    }
}

/// Title in a header.
pub open spec fn title_of(rom: Seq<u8>) -> Seq<char> {
    trimmed(Seq::new(title_len(rom, 0), |i: int| title_char(rom[i])))
}

/// Mathematical image of a header.
pub struct HeaderModel {
    pub title: Seq<char>,
    pub code: Seq<u8>,
    pub rom9: u32,
    pub entry9: u32,
    pub ram9: u32,
    pub size9: u32,
    pub rom7: u32,
    pub entry7: u32,
    pub ram7: u32,
    pub size7: u32,
    pub autoload9: u32,
    pub autoload7: u32,
}

impl HeaderModel {
    /// Header of a cartridge image.
    pub open spec fn of(rom: Seq<u8>) -> HeaderModel {
        HeaderModel {
            title: title_of(rom),
            code: rom.subrange(0x0C, 0x10),
            rom9: word_at(rom, 0x20),
            entry9: word_at(rom, 0x24),
            ram9: word_at(rom, 0x28),
            size9: word_at(rom, 0x2C),
            rom7: word_at(rom, 0x30),
            entry7: word_at(rom, 0x34),
            ram7: word_at(rom, 0x38),
            size7: word_at(rom, 0x3C),
            autoload9: word_at(rom, 0x74),
            autoload7: word_at(rom, 0x78),
        }
    }

    pub open spec fn bin9(self, rom: Seq<u8>) -> Seq<u8> {
        rom.subrange(self.rom9 as int, self.rom9 + self.size9)
    }

    pub open spec fn bin7(self, rom: Seq<u8>) -> Seq<u8> {
        rom.subrange(self.rom7 as int, self.rom7 + self.size7)
    }
}

/// Header of a cartridge.
pub struct NdsHeader {
    pub game_title: String,
    pub game_code: [u8; 4],
    pub arm9_rom_offset: u32,
    pub arm9_entry_address: u32,
    pub arm9_ram_address: u32,
    pub arm9_size: u32,
    pub arm7_rom_offset: u32,
    pub arm7_entry_address: u32,
    pub arm7_ram_address: u32,
    pub arm7_size: u32,
    pub arm9_autoload_info: u32,
    pub arm7_autoload_info: u32,
}

impl View for NdsHeader {
    type V = HeaderModel;

    open spec fn view(&self) -> HeaderModel {
        HeaderModel {
            title: self.game_title@,
            code: self.game_code@,
            rom9: self.arm9_rom_offset,
            entry9: self.arm9_entry_address,
            ram9: self.arm9_ram_address,
            size9: self.arm9_size,
            rom7: self.arm7_rom_offset,
            entry7: self.arm7_entry_address,
            ram7: self.arm7_ram_address,
            size7: self.arm7_size,
            autoload9: self.arm9_autoload_info,
            autoload7: self.arm7_autoload_info,
        }
    }
}

fn title_letter(b: u8) -> (c: char)
    ensures
        c == title_char(b),
{
    if 32 <= b && b <= 126 {
        b as char
    } else {
        '?'
    }
}

fn read_title(rom: &[u8]) -> (t: String)
    requires
        rom@.len() >= 12,
    ensures
        t@ == title_of(rom@),
{
    let mut n: usize = 0;
    while n < 12 && rom[n] != 0
        invariant
            n <= 12,
            rom@.len() >= 12,
            title_len(rom@, n as nat) == title_len(rom@, 0),
        decreases 12 - n,
    {
        n = n + 1;
    }
    let ghost raw = Seq::new(n as nat, |i: int| title_char(rom@[i]));
    let mut a: usize = 0;
    while a < n && title_letter(rom[a]) == ' '
        invariant
            a <= n,
            n <= 12,
            rom@.len() >= 12,
            raw == Seq::new(n as nat, |i: int| title_char(rom@[i])),
            past_blanks(raw, a as nat) == past_blanks(raw, 0),
        decreases n - a,
    {
        a = a + 1;
    }
    let mut z: usize = n;
    while z > a && title_letter(rom[z - 1]) == ' '
        invariant
            a <= z <= n,
            n <= 12,
            rom@.len() >= 12,
            raw == Seq::new(n as nat, |i: int| title_char(rom@[i])),
            before_blanks(raw, z as nat) == before_blanks(raw, n as nat),
            a < n ==> raw[a as int] != ' ',
            a < n ==> z > a,
        decreases z,
    {
        z = z - 1;
    }
    let mut t: String = String::new();
    let mut i: usize = a;
    while i < z
        invariant
            a <= i <= z,
            z <= n,
            n <= 12,
            rom@.len() >= 12,
            raw == Seq::new(n as nat, |i: int| title_char(rom@[i])),
            t@ == raw.subrange(a as int, i as int),
        decreases z - i,
    {
        t.push(title_letter(rom[i]));
        i = i + 1;
        assert(raw.subrange(a as int, i as int) =~= raw.subrange(a as int, i - 1).push(
            raw[i - 1],
        ));
    }
    assert(title_of(rom@) == trimmed(raw));
    assert(t@ =~= trimmed(raw));
    t
}

impl NdsHeader {
    /// Reads the header of a cartridge image.
    pub fn parse(rom_data: &[u8]) -> (r: Result<Self, &'static str>)
        ensures
            r is Err <==> rom_data@.len() < HEADER_BYTES,
            r is Err ==> r->Err_0@ == "NDS ROM truncated"@,
            r is Ok ==> r->Ok_0@ == HeaderModel::of(rom_data@),
    {
        if rom_data.len() < HEADER_BYTES {
            return Err("NDS ROM truncated");
        }
        let h = NdsHeader {
            game_title: read_title(rom_data),
            game_code: [rom_data[0x0C], rom_data[0x0D], rom_data[0x0E], rom_data[0x0F]],
            arm9_rom_offset: get_word(rom_data, 0x20),
            arm9_entry_address: get_word(rom_data, 0x24),
            arm9_ram_address: get_word(rom_data, 0x28),
            arm9_size: get_word(rom_data, 0x2C),
            arm7_rom_offset: get_word(rom_data, 0x30),
            arm7_entry_address: get_word(rom_data, 0x34),
            arm7_ram_address: get_word(rom_data, 0x38),
            arm7_size: get_word(rom_data, 0x3C),
            arm9_autoload_info: get_word(rom_data, 0x74),
            arm7_autoload_info: get_word(rom_data, 0x78),
        };
        assert(h.game_code@ =~= rom_data@.subrange(0x0C, 0x10));
        Ok(h)
    }
}

/// One entry of an autoload table: where a section goes, how long it is and how
/// much memory behind it is zeroed.
pub struct Section {
    pub dest: u32,
    pub size: u32,
    pub bss: u32,
}

impl Section {
    pub open spec fn at(bin: Seq<u8>, off: int) -> Section {
        Section {
            dest: word_at(bin, off),
            size: word_at(bin, off + 4),
            bss: word_at(bin, off + 8),
        }
    }

    /// Whether the image holds the section at an offset. One that it does not
    /// hold is passed over.
    pub open spec fn held(self, rom: Seq<u8>, src: u32) -> bool {
        self.size > 0 && src + self.size <= u32::MAX && src + self.size <= rom.len()
    }

    /// Offset of the next section.
    pub open spec fn next(self, rom: Seq<u8>, src: u32) -> u32 {
        if self.held(rom, src) {
            (src + self.size) as u32
        } else {
            src
        }
    }

    pub open spec fn data(self, rom: Seq<u8>, src: u32) -> Seq<u8> {
        if self.held(rom, src) {
            rom.subrange(src as int, src + self.size)
        } else {
            Seq::empty()
        }
    }
}

impl MmuModel {
    /// After bytes were stored one by one from an address on by the first
    /// processor.
    pub open spec fn loaded9(self, addr: u32, data: Seq<u8>) -> MmuModel
        decreases data.len(),
    {
        if data.len() == 0 {
            self
        } else {
            self.loaded9(addr, data.drop_last()).wrote_byte9(
                addr.wrapping_add((data.len() - 1) as u32),
                data.last(),
            )
        }
    }

    pub open spec fn zeroed9(self, addr: u32, n: nat) -> MmuModel {
        self.loaded9(addr, Seq::new(n, |i: int| 0u8))
    }

    /// After bytes were stored one by one from an address on by the second
    /// processor.
    pub open spec fn loaded7(self, addr: u32, data: Seq<u8>) -> MmuModel
        decreases data.len(),
    {
        if data.len() == 0 {
            self
        } else {
            self.loaded7(addr, data.drop_last()).wrote_byte7(
                addr.wrapping_add((data.len() - 1) as u32),
                data.last(),
            )
        }
    }

    pub open spec fn zeroed7(self, addr: u32, n: nat) -> MmuModel {
        self.loaded7(addr, Seq::new(n, |i: int| 0u8))
    }

    /// After the first processor's autoload table from offset `off` on. Its
    /// sections stand one after the other in the image. An entry for address
    /// zero ends the table, and so does one that brings the memory to zero to
    /// the limit.
    pub open spec fn autoloaded9(
        self,
        bin: Seq<u8>,
        rom: Seq<u8>,
        off: nat,
        src: u32,
        zeroed: nat,
    ) -> MmuModel
        decreases bin.len() - off,
    {
        let e = Section::at(bin, off as int);
        if off + 12 > bin.len() || e.dest == 0 {
            self
        } else {
            let m = self.loaded9(e.dest, e.data(rom, src));
            if zeroed + e.bss >= BSS_LIMIT {
                m
            } else {
                m.zeroed9(e.dest.wrapping_add(e.size), e.bss as nat).autoloaded9(
                    bin,
                    rom,
                    off + 12,
                    e.next(rom, src),
                    zeroed + e.bss as nat,
                )
            }
        }
    }

    /// After the second processor's autoload table from offset `off` on. Here an
    /// entry that asks for too much memory to zero has none zeroed.
    pub open spec fn autoloaded7(self, bin: Seq<u8>, rom: Seq<u8>, off: nat, src: u32) -> MmuModel
        decreases bin.len() - off,
    {
        let e = Section::at(bin, off as int);
        if off + 12 > bin.len() || e.dest == 0 {
            self
        } else {
            let m = self.loaded7(e.dest, e.data(rom, src));
            let z = if e.bss < BSS_LIMIT {
                m.zeroed7(e.dest.wrapping_add(e.size), e.bss as nat)
            } else {
                m
            };
            z.autoloaded7(bin, rom, off + 12, e.next(rom, src))
        }
    }

    /// Memory system before anything is loaded: reset, both tightly coupled
    /// memories in place and the shared memory handed to the second processor.
    #[verifier::opaque]
    pub open spec fn boot_prepared(self) -> MmuModel {
        MmuModel {
            wram_control: 3,
            ..self.after_reset().with_cp15(Cp15Registers::cleared()).with_cp15(boot_cp15())
        }
    }

    /// After the program of the first processor was loaded.
    #[verifier::opaque]
    pub open spec fn boot_program9(self, rom: Seq<u8>) -> MmuModel {
        let h = HeaderModel::of(rom);
        self.boot_prepared().loaded9(h.ram9, h.bin9(rom))
    }

    /// After both programs, the header and the autoload sections were loaded.
    #[verifier::opaque]
    pub open spec fn boot_programs(self, rom: Seq<u8>) -> MmuModel {
        let h = HeaderModel::of(rom);
        let m = self.boot_program9(rom).loaded7(h.ram7, h.bin7(rom)).loaded9(
            0x027F_FE00,
            rom.take(HEADER_COPY_BYTES as int),
        );
        let a = if h.autoload9 != 0 && h.autoload9 >= h.ram9 {
            m.autoloaded9(
                h.bin9(rom),
                rom,
                (h.autoload9 - h.ram9) as nat,
                (h.rom9 + h.size9) as u32,
                0,
            )
        } else {
            m
        };
        if h.autoload7 != 0 && h.autoload7 >= h.ram7 {
            a.autoloaded7(
                h.bin7(rom),
                rom,
                (h.autoload7 - h.ram7) as nat,
                (h.rom7 + h.size7) as u32,
            )
        } else {
            a
        }
    }

    /// With the flags and the user settings that the start-up code leaves.
    #[verifier::opaque]
    pub open spec fn boot_flagged(self) -> MmuModel {
        self.wrote_byte9(0x027F_FFC0, 0x66).wrote_byte7(0x027F_FFC4, 0x66).wrote_byte9(
            0x027F_FFC8,
            0,
        ).wrote_byte9(0x027F_FFCC, 0).loaded9(
            0x027F_FC80,
            user_settings::user_settings().take(SETTINGS_COPY_BYTES as int),
        )
    }

    /// With the cartridge's chip ID in its places, and a cartridge boot noted.
    #[verifier::opaque]
    pub open spec fn boot_identified(self, id: u32) -> MmuModel {
        self.wrote_word9(0x027F_F800, id).wrote_word9(0x027F_F804, id).wrote_word9(
            0x027F_FC00,
            id,
        ).wrote_word9(0x027F_FC04, id).wrote_word9(0x027F_FC10, id).wrote_halfword9(
            0x027F_FC40,
            1,
        )
    }

    /// After a cartridge was booted.
    pub open spec fn booted(self, rom: Seq<u8>) -> MmuModel {
        self.boot_programs(rom).boot_flagged().boot_identified(card::chip_id(rom.len() as int))
    }
}

/// Coprocessor registers at boot: both memories on, the instruction memory of
/// 32 KiB at 0x0100_0000 and the data memory of 16 KiB at 0x0B00_0000.
pub open spec fn boot_cp15() -> Cp15Registers {
    Cp15Registers { control: 0x5_0000, itcm_control: 0x0100_000C, dtcm_control: 0x0B00_000A }
}

/// Core about to run a program: System mode, a stack and the entry point.
pub open spec fn boot_core(armv5: bool, sp: u32, entry: u32) -> CoreModel {
    let c = CoreModel::fresh(armv5);
    CoreModel {
        regs: RegsModel { cpsr: 0x1F, ..c.regs }.with_gpr(13, sp).with_gpr(15, entry),
        ..c
    }
}

/// First processor after a boot, with its pipeline filled from memory `m`.
pub open spec fn started9(m: MmuModel, entry: u32) -> Cpu9Model {
    let c = boot_core(true, 0x0300_2F00, entry);
    Cpu9Model { core: c.flushed(m.fetch9(c.thumb())), cp15: boot_cp15() }
}

/// Second processor after a boot.
pub open spec fn started7(m: MmuModel, entry: u32) -> CoreModel {
    let c = boot_core(false, 0x0380_FFFC, entry);
    c.flushed(m.fetch7(c.thumb()))
}

/// Why an image cannot be booted.
#[derive(Clone, Copy, Debug, PartialEq, Eq, Structural)]
pub enum BootFault {
    Truncated,
    Program9,
    Program7,
}

/// What is wrong with an image, if anything.
pub open spec fn boot_fault(rom: Seq<u8>) -> Option<BootFault> {
    let h = HeaderModel::of(rom);
    if rom.len() < HEADER_BYTES {
        Some(BootFault::Truncated)
    } else if h.rom9 + h.size9 > rom.len() {
        Some(BootFault::Program9)
    } else if h.rom7 + h.size7 > rom.len() {
        Some(BootFault::Program7)
    } else {
        None
    }
}

/// Stores `data[from..to]` from an address on.
fn load9(mmu: &mut NdsMmu, addr: u32, data: &[u8], from: usize, to: usize)
    requires
        old(mmu)@.wf(),
        from <= to,
        to <= data@.len(),
        to - from <= u32::MAX,
    ensures
        final(mmu)@ == old(mmu)@.loaded9(addr, data@.subrange(from as int, to as int)),
        final(mmu)@.wf(),
{
    let mut i: usize = from;
    assert(data@.subrange(from as int, from as int) =~= Seq::empty());
    while i < to
        invariant
            from <= i <= to,
            to <= data@.len(),
            to - from <= u32::MAX,
            mmu@.wf(),
            mmu@ == old(mmu)@.loaded9(addr, data@.subrange(from as int, i as int)),
        decreases to - i,
    {
        mmu.write_byte_arm9(addr.wrapping_add((i - from) as u32), data[i]);
        assert(data@.subrange(from as int, i + 1).drop_last() =~= data@.subrange(
            from as int,
            i as int,
        ));
        i = i + 1;
    }
}

fn zero9(mmu: &mut NdsMmu, addr: u32, n: u32)
    requires
        old(mmu)@.wf(),
    ensures
        final(mmu)@ == old(mmu)@.zeroed9(addr, n as nat),
        final(mmu)@.wf(),
{
    let mut i: u32 = 0;
    assert(Seq::new(0, |i: int| 0u8) =~= Seq::empty());
    while i < n
        invariant
            i <= n,
            mmu@.wf(),
            mmu@ == old(mmu)@.zeroed9(addr, i as nat),
        decreases n - i,
    {
        mmu.write_byte_arm9(addr.wrapping_add(i), 0);
        assert(Seq::new((i + 1) as nat, |i: int| 0u8).drop_last() =~= Seq::new(
            i as nat,
            |i: int| 0u8,
        ));
        i = i + 1;
    }
}

/// Loads one section, if the image holds it, and says where the next one is.
fn load_section9(mmu: &mut NdsMmu, rom: &[u8], dest: u32, size: u32, src: u32) -> (next: u32)
    requires
        old(mmu)@.wf(),
    ensures
        ({
            let e = Section { dest, size, bss: 0 };
            &&& final(mmu)@ == old(mmu)@.loaded9(dest, e.data(rom@, src))
            &&& next == e.next(rom@, src)
        }),
        final(mmu)@.wf(),
{
    if size > 0 {
        match src.checked_add(size) {
            Some(end) => {
                if end as u64 <= rom.len() as u64 {
                    load9(mmu, dest, rom, src as usize, end as usize);
                    return end;
                }
            },
            None => {},
        }
    }
    src
}

/// Stores `data[from..to]` from an address on.
fn load7(mmu: &mut NdsMmu, addr: u32, data: &[u8], from: usize, to: usize)
    requires
        old(mmu)@.wf(),
        from <= to,
        to <= data@.len(),
        to - from <= u32::MAX,
    ensures
        final(mmu)@ == old(mmu)@.loaded7(addr, data@.subrange(from as int, to as int)),
        final(mmu)@.wf(),
{
    let mut i: usize = from;
    assert(data@.subrange(from as int, from as int) =~= Seq::empty());
    while i < to
        invariant
            from <= i <= to,
            to <= data@.len(),
            to - from <= u32::MAX,
            mmu@.wf(),
            mmu@ == old(mmu)@.loaded7(addr, data@.subrange(from as int, i as int)),
        decreases to - i,
    {
        mmu.write_byte_arm7(addr.wrapping_add((i - from) as u32), data[i]);
        assert(data@.subrange(from as int, i + 1).drop_last() =~= data@.subrange(
            from as int,
            i as int,
        ));
        i = i + 1;
    }
}

fn zero7(mmu: &mut NdsMmu, addr: u32, n: u32)
    requires
        old(mmu)@.wf(),
    ensures
        final(mmu)@ == old(mmu)@.zeroed7(addr, n as nat),
        final(mmu)@.wf(),
{
    let mut i: u32 = 0;
    assert(Seq::new(0, |i: int| 0u8) =~= Seq::empty());
    while i < n
        invariant
            i <= n,
            mmu@.wf(),
            mmu@ == old(mmu)@.zeroed7(addr, i as nat),
        decreases n - i,
    {
        mmu.write_byte_arm7(addr.wrapping_add(i), 0);
        assert(Seq::new((i + 1) as nat, |i: int| 0u8).drop_last() =~= Seq::new(
            i as nat,
            |i: int| 0u8,
        ));
        i = i + 1;
    }
}

/// Loads one section, if the image holds it, and says where the next one is.
fn load_section7(mmu: &mut NdsMmu, rom: &[u8], dest: u32, size: u32, src: u32) -> (next: u32)
    requires
        old(mmu)@.wf(),
    ensures
        ({
            let e = Section { dest, size, bss: 0 };
            &&& final(mmu)@ == old(mmu)@.loaded7(dest, e.data(rom@, src))
            &&& next == e.next(rom@, src)
        }),
        final(mmu)@.wf(),
{
    if size > 0 {
        match src.checked_add(size) {
            Some(end) => {
                if end as u64 <= rom.len() as u64 {
                    load7(mmu, dest, rom, src as usize, end as usize);
                    return end;
                }
            },
            None => {},
        }
    }
    src
}

/// Copies the sections of the first processor's autoload table, which starts at
/// offset `table` of the program at `base`.
fn autoload9(mmu: &mut NdsMmu, rom: &[u8], base: usize, len: usize, table: u32)
    requires
        old(mmu)@.wf(),
        rom@.len() <= u32::MAX,
        base + len <= rom@.len(),
    ensures
        final(mmu)@ == old(mmu)@.autoloaded9(
            rom@.subrange(base as int, base + len),
            rom@,
            table as nat,
            (base + len) as u32,
            0,
        ),
        final(mmu)@.wf(),
{
    let ghost bin = rom@.subrange(base as int, base + len);
    let mut off: u64 = table as u64;
    let mut src: u32 = (base + len) as u32;
    let mut zeroed: u64 = 0;
    while off + 12 <= len as u64
        invariant
            mmu@.wf(),
            rom@.len() <= u32::MAX,
            base + len <= rom@.len(),
            bin == rom@.subrange(base as int, base + len),
            off <= 0x1_FFFF_FFFF,
            zeroed < BSS_LIMIT,
            mmu@.autoloaded9(bin, rom@, off as nat, src, zeroed as nat)
                == old(mmu)@.autoloaded9(bin, rom@, table as nat, (base + len) as u32, 0),
        decreases len + 12 - off,
    {
        let at: usize = base + off as usize;
        let dest: u32 = get_word(rom, at);
        let size: u32 = get_word(rom, at + 4);
        let bss: u32 = get_word(rom, at + 8);
        assert(Section::at(bin, off as int) == (Section { dest, size, bss }));
        if dest == 0 {
            return;
        }
        src = load_section9(mmu, rom, dest, size, src);
        zeroed = zeroed + bss as u64;
        if zeroed >= BSS_LIMIT {
            return;
        }
        zero9(mmu, dest.wrapping_add(size), bss);
        off = off + 12;
    }
}

/// The same for the second processor.
fn autoload7(mmu: &mut NdsMmu, rom: &[u8], base: usize, len: usize, table: u32)
    requires
        old(mmu)@.wf(),
        rom@.len() <= u32::MAX,
        base + len <= rom@.len(),
    ensures
        final(mmu)@ == old(mmu)@.autoloaded7(
            rom@.subrange(base as int, base + len),
            rom@,
            table as nat,
            (base + len) as u32,
        ),
        final(mmu)@.wf(),
{
    let ghost bin = rom@.subrange(base as int, base + len);
    let mut off: u64 = table as u64;
    let mut src: u32 = (base + len) as u32;
    while off + 12 <= len as u64
        invariant
            mmu@.wf(),
            rom@.len() <= u32::MAX,
            base + len <= rom@.len(),
            bin == rom@.subrange(base as int, base + len),
            off <= 0x1_FFFF_FFFF,
            mmu@.autoloaded7(bin, rom@, off as nat, src) == old(mmu)@.autoloaded7(
                bin,
                rom@,
                table as nat,
                (base + len) as u32,
            ),
        decreases len + 12 - off,
    {
        let at: usize = base + off as usize;
        let dest: u32 = get_word(rom, at);
        let size: u32 = get_word(rom, at + 4);
        let bss: u32 = get_word(rom, at + 8);
        assert(Section::at(bin, off as int) == (Section { dest, size, bss }));
        if dest == 0 {
            return;
        }
        src = load_section7(mmu, rom, dest, size, src);
        if (bss as u64) < BSS_LIMIT {
            zero7(mmu, dest.wrapping_add(size), bss);
        }
        off = off + 12;
    }
}

/// Leaves the user settings in main memory. Only the block itself is copied:
/// the rest of the page would run into the header's copy.
fn write_user_settings(mmu: &mut NdsMmu)
    requires
        old(mmu)@.wf(),
    ensures
        final(mmu)@ == old(mmu)@.loaded9(
            0x027F_FC80,
            user_settings::user_settings().take(SETTINGS_COPY_BYTES as int),
        ),
        final(mmu)@.wf(),
{
    let settings: Vec<u8> = user_settings::build_user_settings();
    load9(mmu, 0x027F_FC80, settings.as_slice(), 0, SETTINGS_COPY_BYTES);
}

fn write_flags(mmu: &mut NdsMmu)
    requires
        old(mmu)@.wf(),
    ensures
        final(mmu)@ == old(mmu)@.boot_flagged(),
        final(mmu)@.wf(),
{
    proof {
        reveal(MmuModel::boot_flagged);
    }
    mmu.write_byte_arm9(0x027F_FFC0, 0x66);
    mmu.write_byte_arm7(0x027F_FFC4, 0x66);
    mmu.write_byte_arm9(0x027F_FFC8, 0);
    mmu.write_byte_arm9(0x027F_FFCC, 0);
    write_user_settings(mmu);
}

fn write_chip_id(mmu: &mut NdsMmu, id: u32)
    requires
        old(mmu)@.wf(),
    ensures
        final(mmu)@ == old(mmu)@.boot_identified(id),
        final(mmu)@.wf(),
{
    proof {
        reveal(MmuModel::boot_identified);
    }
    mmu.write_word_arm9(0x027F_F800, id);
    mmu.write_word_arm9(0x027F_F804, id);
    mmu.write_word_arm9(0x027F_FC00, id);
    mmu.write_word_arm9(0x027F_FC04, id);
    mmu.write_word_arm9(0x027F_FC10, id);
    mmu.write_halfword_arm9(0x027F_FC40, 1);
}

/// Loads both programs, the header and the autoload sections.
fn load_programs(mmu: &mut NdsMmu, rom: &[u8], h: &NdsHeader)
    requires
        old(mmu)@.wf(),
        rom@.len() <= u32::MAX,
        boot_fault(rom@) is None,
        h@ == HeaderModel::of(rom@),
    ensures
        final(mmu)@.wf(),
        forall|m: MmuModel|
            old(mmu)@ == #[trigger] m.boot_program9(rom@) ==> final(mmu)@ == m.boot_programs(rom@),
{
    proof {
        reveal(MmuModel::boot_programs);
    }
    let start9: usize = h.arm9_rom_offset as usize;
    let len9: usize = h.arm9_size as usize;
    let start7: usize = h.arm7_rom_offset as usize;
    let len7: usize = h.arm7_size as usize;
    load7(mmu, h.arm7_ram_address, rom, start7, start7 + len7);
    load9(mmu, 0x027F_FE00, rom, 0, HEADER_COPY_BYTES);
    if h.arm9_autoload_info != 0 && h.arm9_autoload_info >= h.arm9_ram_address {
        autoload9(mmu, rom, start9, len9, h.arm9_autoload_info - h.arm9_ram_address);
    }
    if h.arm7_autoload_info != 0 && h.arm7_autoload_info >= h.arm7_ram_address {
        autoload7(mmu, rom, start7, len7, h.arm7_autoload_info - h.arm7_ram_address);
    }
}

/// Resets the machine and places its memories.
fn prepare(mmu: &mut NdsMmu, arm9: &mut Arm9Cpu, arm7: &mut Arm7Cpu)
    requires
        old(mmu)@.wf(),
    ensures
        final(mmu)@ == old(mmu)@.boot_prepared(),
        final(mmu)@.wf(),
        final(arm9)@ == (Cpu9Model { cp15: boot_cp15(), ..Cpu9Model::fresh() }),
        final(arm9)@.wf(),
        final(arm7)@ == CoreModel::fresh(false),
        final(arm7)@.wf(),
{
    proof {
        reveal(MmuModel::boot_prepared);
    }
    mmu.reset();
    arm9.reset(mmu);
    arm7.reset();
    arm9.cp15 = Cp15Registers {
        control: 0x5_0000,
        itcm_control: 0x0100_000C,
        dtcm_control: 0x0B00_000A,
    };
    mmu.set_cp15(arm9.cp15);
    mmu.wram_control = 3;
}

/// Puts both processors at their entry points.
fn start(mmu: &mut NdsMmu, arm9: &mut Arm9Cpu, arm7: &mut Arm7Cpu, entry9: u32, entry7: u32)
    requires
        old(mmu)@.wf(),
        old(arm9)@ == (Cpu9Model { cp15: boot_cp15(), ..Cpu9Model::fresh() }),
        old(arm7)@ == CoreModel::fresh(false),
    ensures
        final(mmu)@ == old(mmu)@,
        final(arm9)@ == started9(old(mmu)@, entry9),
        final(arm9)@.wf(),
        final(arm7)@ == started7(old(mmu)@, entry7),
        final(arm7)@.wf(),
{
    arm9.cpu.registers.cpsr = 0x1F;
    arm9.cpu.registers.gpr[13] = 0x0300_2F00;
    arm9.cpu.registers.gpr[15] = entry9;
    arm9.flush_pipeline(mmu);
    arm7.cpu.registers.cpsr = 0x1F;
    arm7.cpu.registers.gpr[13] = 0x0380_FFFC;
    arm7.cpu.registers.gpr[15] = entry7;
    arm7.flush_pipeline(mmu);
}

/// Resets the machine and boots a cartridge image.
pub fn boot_load_rom(
    mmu: &mut NdsMmu,
    arm9: &mut Arm9Cpu,
    arm7: &mut Arm7Cpu,
    rom_data: &[u8],
) -> (r: Result<(), &'static str>)
    requires
        old(mmu)@.wf(),
        rom_data@.len() <= u32::MAX,
    ensures
        final(mmu)@.wf(),
        final(arm9)@.wf(),
        final(arm7)@.wf(),
        match boot_fault(rom_data@) {
            Some(fault) => {
                &&& r is Err
                &&& r->Err_0@ == match fault {
                    BootFault::Truncated => "NDS ROM truncated"@,
                    BootFault::Program9 => "ARM9 binary offset/size out of ROM bounds"@,
                    BootFault::Program7 => "ARM7 binary offset/size out of ROM bounds"@,
                }
                &&& final(mmu)@ == if fault == BootFault::Program7 {
                    old(mmu)@.boot_program9(rom_data@)
                } else {
                    old(mmu)@.boot_prepared()
                }
                &&& final(arm9)@ == (Cpu9Model { cp15: boot_cp15(), ..Cpu9Model::fresh() })
                &&& final(arm7)@ == CoreModel::fresh(false)
            },
            None => {
                &&& r is Ok
                &&& final(mmu)@ == old(mmu)@.booted(rom_data@)
                &&& final(arm9)@ == started9(
                    old(mmu)@.boot_programs(rom_data@),
                    HeaderModel::of(rom_data@).entry9,
                )
                &&& final(arm7)@ == started7(
                    old(mmu)@.boot_programs(rom_data@),
                    HeaderModel::of(rom_data@).entry7,
                )
            },
        },
{
    proof {
        reveal(MmuModel::boot_program9);
    }
    prepare(mmu, arm9, arm7);
    let h: NdsHeader = match NdsHeader::parse(rom_data) {
        Ok(h) => h,
        Err(e) => {
            return Err(e);
        },
    };
    let start9: u64 = h.arm9_rom_offset as u64;
    let end9: u64 = start9 + h.arm9_size as u64;
    if end9 > rom_data.len() as u64 {
        return Err("ARM9 binary offset/size out of ROM bounds");
    }
    load9(mmu, h.arm9_ram_address, rom_data, start9 as usize, end9 as usize);
    let end7: u64 = h.arm7_rom_offset as u64 + h.arm7_size as u64;
    if end7 > rom_data.len() as u64 {
        return Err("ARM7 binary offset/size out of ROM bounds");
    }
    load_programs(mmu, rom_data, &h);
    start(mmu, arm9, arm7, h.arm9_entry_address, h.arm7_entry_address);
    write_flags(mmu);
    write_chip_id(mmu, NdsMmu::gamecard_chip_id_for_len(rom_data.len()));
    Ok(())
}

/// Places where the boot leaves the chip ID.
pub open spec fn is_id_slot(addr: u32) -> bool {
    addr == 0x027F_F800 || addr == 0x027F_F804 || addr == 0x027F_FC00 || addr == 0x027F_FC04
        || addr == 0x027F_FC10
}

proof fn lemma_boot_windows(addr: u32)
    requires
        0x0200_0000 <= addr < 0x0300_0000,
    ensures
        !boot_cp15().in_itcm(addr),
        !boot_cp15().in_dtcm(addr),
{
    vstd::arithmetic::power2::lemma2_to64();
    assert(tcm::region_size(0x0100_000C) == 0x8000);
    assert(tcm::region_size(0x0B00_000A) == 0x4000);
}

proof fn lemma_id_slot(m: MmuModel, slot: u32)
    requires
        m.cp15 == boot_cp15(),
        0x027F_0000 <= slot < 0x0280_0000,
    ensures
        laws::is_main9(m, slot),
{
    lemma_boot_windows(slot);
}

proof fn lemma_loaded9(m: MmuModel, addr: u32, data: Seq<u8>)
    ensures
        frame::same_machine(m.loaded9(addr, data), m),
    decreases data.len(),
{
    if data.len() > 0 {
        lemma_loaded9(m, addr, data.drop_last());
        frame::law_stores_leave_the_machine(
            m.loaded9(addr, data.drop_last()),
            addr.wrapping_add((data.len() - 1) as u32),
            data.last() as u32,
        );
    }
}

proof fn lemma_loaded7(m: MmuModel, addr: u32, data: Seq<u8>)
    ensures
        frame::same_machine(m.loaded7(addr, data), m),
    decreases data.len(),
{
    if data.len() > 0 {
        lemma_loaded7(m, addr, data.drop_last());
        frame::law_stores_leave_the_machine(
            m.loaded7(addr, data.drop_last()),
            addr.wrapping_add((data.len() - 1) as u32),
            data.last() as u32,
        );
    }
}

proof fn lemma_autoloaded9(
    m: MmuModel,
    bin: Seq<u8>,
    rom: Seq<u8>,
    off: nat,
    src: u32,
    zeroed: nat,
)
    ensures
        frame::same_machine(m.autoloaded9(bin, rom, off, src, zeroed), m),
    decreases bin.len() - off,
{
    let e = Section::at(bin, off as int);
    if off + 12 <= bin.len() && e.dest != 0 {
        let n = m.loaded9(e.dest, e.data(rom, src));
        lemma_loaded9(m, e.dest, e.data(rom, src));
        if zeroed + e.bss < BSS_LIMIT {
            let a = e.dest.wrapping_add(e.size);
            lemma_loaded9(n, a, Seq::new(e.bss as nat, |i: int| 0u8));
            lemma_autoloaded9(
                n.zeroed9(a, e.bss as nat),
                bin,
                rom,
                off + 12,
                e.next(rom, src),
                zeroed + e.bss as nat,
            );
        }
    }
}

proof fn lemma_autoloaded7(m: MmuModel, bin: Seq<u8>, rom: Seq<u8>, off: nat, src: u32)
    ensures
        frame::same_machine(m.autoloaded7(bin, rom, off, src), m),
    decreases bin.len() - off,
{
    let e = Section::at(bin, off as int);
    if off + 12 <= bin.len() && e.dest != 0 {
        let n = m.loaded7(e.dest, e.data(rom, src));
        let a = e.dest.wrapping_add(e.size);
        lemma_loaded7(m, e.dest, e.data(rom, src));
        lemma_loaded7(n, a, Seq::new(e.bss as nat, |i: int| 0u8));
        lemma_autoloaded7(n, bin, rom, off + 12, e.next(rom, src));
        lemma_autoloaded7(n.zeroed7(a, e.bss as nat), bin, rom, off + 12, e.next(rom, src));
    }
}

/// Whatever a cartridge loads, the memories stay where the boot placed them.
proof fn lemma_programs(m: MmuModel, rom: Seq<u8>)
    requires
        m.wf(),
    ensures
        m.boot_programs(rom).cp15 == boot_cp15(),
        m.boot_programs(rom).ram.wf(),
{
    reveal(MmuModel::boot_prepared);
    reveal(MmuModel::boot_program9);
    reveal(MmuModel::boot_programs);
    let h = HeaderModel::of(rom);
    let p = m.boot_prepared();
    let a = m.boot_program9(rom);
    let b = a.loaded7(h.ram7, h.bin7(rom));
    let c = b.loaded9(0x027F_FE00, rom.take(HEADER_COPY_BYTES as int));
    let t9 = (h.autoload9 - h.ram9) as nat;
    let t7 = (h.autoload7 - h.ram7) as nat;
    let s9 = (h.rom9 + h.size9) as u32;
    let s7 = (h.rom7 + h.size7) as u32;
    let d = c.autoloaded9(h.bin9(rom), rom, t9, s9, 0);
    lemma_loaded9(p, h.ram9, h.bin9(rom));
    lemma_loaded7(a, h.ram7, h.bin7(rom));
    lemma_loaded9(b, 0x027F_FE00, rom.take(HEADER_COPY_BYTES as int));
    lemma_autoloaded9(c, h.bin9(rom), rom, t9, s9, 0);
    lemma_autoloaded7(c, h.bin7(rom), rom, t7, s7);
    lemma_autoloaded7(d, h.bin7(rom), rom, t7, s7);
}

proof fn lemma_flagged(m: MmuModel)
    ensures
        frame::same_machine(m.boot_flagged(), m),
{
    reveal(MmuModel::boot_flagged);
    let a = m.wrote_byte9(0x027F_FFC0, 0x66);
    let b = a.wrote_byte7(0x027F_FFC4, 0x66);
    let c = b.wrote_byte9(0x027F_FFC8, 0);
    let d = c.wrote_byte9(0x027F_FFCC, 0);
    frame::law_stores_leave_the_machine(m, 0x027F_FFC0, 0x66);
    frame::law_stores_leave_the_machine(a, 0x027F_FFC4, 0x66);
    frame::law_stores_leave_the_machine(b, 0x027F_FFC8, 0);
    frame::law_stores_leave_the_machine(c, 0x027F_FFCC, 0);
    lemma_loaded9(
        d,
        0x027F_FC80,
        user_settings::user_settings().take(SETTINGS_COPY_BYTES as int),
    );
}

/// One store of the chip ID, as every place of it sees it.
proof fn lemma_id_store(m: MmuModel, at: u32, slot: u32, id: u32)
    requires
        m.ram.wf(),
        m.cp15 == boot_cp15(),
        is_id_slot(at),
        is_id_slot(slot),
    ensures
        m.wrote_word9(at, id).ram.wf(),
        m.wrote_word9(at, id).cp15 == boot_cp15(),
        m.wrote_word9(at, id).word9(slot) == if at == slot {
            id
        } else {
            m.word9(slot)
        },
{
    lemma_id_slot(m, at);
    lemma_id_slot(m, slot);
    laws::law_word_reads_back(m, at, slot, id);
    frame::law_stores_leave_the_machine(m, at, id);
}

proof fn lemma_identified(m: MmuModel, id: u32, slot: u32)
    requires
        m.ram.wf(),
        m.cp15 == boot_cp15(),
        is_id_slot(slot),
    ensures
        m.boot_identified(id).word9(slot) == id,
{
    reveal(MmuModel::boot_identified);
    let a = m.wrote_word9(0x027F_F800, id);
    let b = a.wrote_word9(0x027F_F804, id);
    let c = b.wrote_word9(0x027F_FC00, id);
    let d = c.wrote_word9(0x027F_FC04, id);
    let e = d.wrote_word9(0x027F_FC10, id);
    lemma_id_store(m, 0x027F_F800, slot, id);
    lemma_id_store(a, 0x027F_F804, slot, id);
    lemma_id_store(b, 0x027F_FC00, slot, id);
    lemma_id_store(c, 0x027F_FC04, slot, id);
    lemma_id_store(d, 0x027F_FC10, slot, id);
    lemma_id_slot(e, 0x027F_FC40);
    lemma_id_slot(e, slot);
    laws::law_halfword_leaves_other_words(e, 0x027F_FC40, slot, 1);
}

/// A program that compares the chip ID left by the boot with the one that the
/// cartridge reports finds them equal, whatever the cartridge loaded.
pub proof fn law_boot_and_cartridge_agree_on_the_chip(
    m: MmuModel,
    rom: Seq<u8>,
    slot: u32,
    c: MmuModel,
)
    requires
        m.wf(),
        is_id_slot(slot),
        c.rom == rom,
        c.io9[0x1A8] == 0xB8 || c.io9[0x1A8] == 0x90,
    ensures
        m.booted(rom).word9(slot) == card::chip_id(rom.len() as int),
        c.card_started().gamecard.fill == Some(m.booted(rom).word9(slot)),
{
    let p = m.boot_programs(rom);
    lemma_programs(m, rom);
    lemma_flagged(p);
    lemma_identified(p.boot_flagged(), card::chip_id(rom.len() as int), slot);
    reveal(MmuModel::card_started);
}

/// Nothing that a cartridge loads moves the memories out of the boot's places,
/// and the processor's coprocessor registers agree with the memory system's.
pub proof fn law_boot_places_the_memories(m: MmuModel, rom: Seq<u8>)
    requires
        m.wf(),
    ensures
        m.booted(rom).cp15 == boot_cp15(),
        started9(m.boot_programs(rom), HeaderModel::of(rom).entry9).cp15 == m.booted(rom).cp15,
{
    let p = m.boot_programs(rom);
    let q = p.boot_flagged();
    let id = card::chip_id(rom.len() as int);
    lemma_programs(m, rom);
    lemma_flagged(p);
    reveal(MmuModel::boot_identified);
    let a = q.wrote_word9(0x027F_F800, id);
    let b = a.wrote_word9(0x027F_F804, id);
    let c = b.wrote_word9(0x027F_FC00, id);
    let d = c.wrote_word9(0x027F_FC04, id);
    let e = d.wrote_word9(0x027F_FC10, id);
    frame::law_stores_leave_the_machine(q, 0x027F_F800, id);
    frame::law_stores_leave_the_machine(a, 0x027F_F804, id);
    frame::law_stores_leave_the_machine(b, 0x027F_FC00, id);
    frame::law_stores_leave_the_machine(c, 0x027F_FC04, id);
    frame::law_stores_leave_the_machine(d, 0x027F_FC10, id);
    frame::law_stores_leave_the_machine(e, 0x027F_FC40, 1);
}

} // verus!

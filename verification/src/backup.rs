//! Cartridge backup chip on the auxiliary serial bus.
//!
//! The chip is a serial FLASH: 256-byte program pages, 64 KiB erase sectors,
//! a write-enable latch and a busy window that status reads can observe. A
//! transaction is one opcode byte followed by address and data bytes, ended by
//! releasing chip select.

use vstd::prelude::*;
use crate::bytes;

verus! {

/// Ceiling on any backup allocation.
pub const MAX_BACKUP_BYTES: usize = 1024 * 1024;

/// Bytes per program page. Program addresses wrap within the page.
pub const PAGE_BYTES: u32 = 256;

/// Bytes per erase sector.
pub const SECTOR_BYTES: u32 = 64 * 1024;

/// Status reads that keep reporting an in-flight write after a program or an
/// erase. Two is the smallest window a polling driver can observe.
pub const WIP_POLLS: u8 = 2;

/// Which backup device the cartridge carries. All variants share one command
/// set and differ in size and capacity code.
#[derive(Clone, Copy, PartialEq, Eq, Debug, Structural)]
pub enum BackupKind {
    /// No chip wired.
    Absent,
    /// 2 Mbit / 256 KiB.
    Flash256K,
    /// 4 Mbit / 512 KiB.
    Flash512K,
    /// 8 Mbit / 1 MiB.
    Flash1M,
}

impl Default for BackupKind {
    fn default() -> (r: Self)
        ensures
            r == BackupKind::Absent,
    {
        BackupKind::Absent
    }
}

impl BackupKind {
    /// Device size in bytes.
    pub open spec fn spec_size_bytes(self) -> usize {
        match self {
            BackupKind::Absent => 0,
            BackupKind::Flash256K => 0x4_0000,
            BackupKind::Flash512K => 0x8_0000,
            BackupKind::Flash1M => 0x10_0000,
        }
    }

    #[verifier::when_used_as_spec(spec_size_bytes)]
    pub fn size_bytes(self) -> (n: usize)
        ensures
            n == self.spec_size_bytes(),
            n <= MAX_BACKUP_BYTES,
    {
        match self {
            BackupKind::Absent => 0,
            BackupKind::Flash256K => 256 * 1024,
            BackupKind::Flash512K => 512 * 1024,
            BackupKind::Flash1M => 1024 * 1024,
        }
    }

    /// Third identification byte of the device family.
    pub open spec fn spec_jedec_capacity(self) -> u8 {
        match self {
            BackupKind::Absent => 0x00,
            BackupKind::Flash256K => 0x12,
            BackupKind::Flash512K => 0x13,
            BackupKind::Flash1M => 0x14,
        }
    }

    pub fn jedec_capacity(self) -> (c: u8)
        ensures
            c == self.spec_jedec_capacity(),
    {
        match self {
            BackupKind::Absent => 0x00,
            BackupKind::Flash256K => 0x12,
            BackupKind::Flash512K => 0x13,
            BackupKind::Flash1M => 0x14,
        }
    }
}

/// Picks the backup device from the four-byte cartridge gamecode. Every
/// gamecode resolves to the 512 KiB device: an over-sized chip is inert, an
/// under-sized one would truncate a save.
pub fn backup_kind_for_gamecode(_gamecode: &[u8]) -> (k: BackupKind)
    ensures
        k == BackupKind::Flash512K,
{
    BackupKind::Flash512K
}

/// Names of the census slots, parallel to `NdsBackup::cmd_counts`.
pub const CMD_LABELS: [&'static str; 8] = [
    "READ",
    "RDSR",
    "WREN",
    "WRDI",
    "PP",
    "PW",
    "SE",
    "other",
];

/// Census slot of an opcode.
pub open spec fn spec_cmd_slot(cmd: u8) -> usize {
    if cmd == 0x03 {
        0
    } else if cmd == 0x05 {
        1
    } else if cmd == 0x06 {
        2
    } else if cmd == 0x04 {
        3
    } else if cmd == 0x02 {
        4
    } else if cmd == 0x0A {
        5
    } else if cmd == 0xD8 {
        6
    } else {
        7
    }
}

#[verifier::when_used_as_spec(spec_cmd_slot)]
pub fn cmd_slot(cmd: u8) -> (slot: usize)
    ensures
        slot == spec_cmd_slot(cmd),
        slot < 8,
{
    match cmd {
        0x03 => 0,
        0x05 => 1,
        0x06 => 2,
        0x04 => 3,
        0x02 => 4,
        0x0A => 5,
        0xD8 => 6,
        _ => 7,
    }
}

/// `a + 1`, staying at the largest value.
pub open spec fn sat_inc(a: u32) -> u32 {
    if a == u32::MAX {
        a
    } else {
        (a + 1) as u32
    }
}

/// Mathematical state of the chip.
pub struct BackupModel {
    pub kind: BackupKind,
    pub data: Seq<u8>,
    pub dirty: bool,
    pub cmd: Option<u8>,
    pub idx: u32,
    pub addr: u32,
    pub wel: bool,
    pub wip_polls: u8,
    pub page_erased: bool,
    pub launched: bool,
    pub last_out: u8,
    pub cmd_counts: Seq<u32>,
}

/// `data` with the aligned block of `span` bytes that holds address `addr`
/// erased. Addresses wrap at the end of the device.
pub open spec fn erased_block(data: Seq<u8>, addr: u32, span: u32) -> Seq<u8> {
    Seq::new(
        data.len(),
        |k: int|
            if k / span as int == (addr as int % data.len() as int) / span as int {
                0xFFu8
            } else {
                data[k]
            },
    )
}

/// Next program address: one further, wrapping within its page.
pub open spec fn next_in_page(addr: u32) -> u32 {
    (addr - addr % PAGE_BYTES + (addr + 1) % PAGE_BYTES as int) as u32
}

impl BackupModel {
    /// The store has the size its device kind dictates.
    pub open spec fn wf(self) -> bool {
        &&& self.data.len() == self.kind.spec_size_bytes()
        &&& self.cmd_counts.len() == 8
    }

    pub open spec fn present(self) -> bool {
        self.data.len() != 0
    }

    /// A factory-fresh chip of the given kind.
    pub open spec fn fresh(kind: BackupKind) -> BackupModel {
        BackupModel {
            kind,
            data: Seq::new(kind.spec_size_bytes() as nat, |k: int| 0xFFu8),
            dirty: false,
            cmd: None,
            idx: 0,
            addr: 0,
            wel: false,
            wip_polls: 0,
            page_erased: false,
            launched: false,
            last_out: 0,
            cmd_counts: Seq::new(8, |k: int| 0u32),
        }
    }

    /// State once chip select is released.
    pub open spec fn deselected(self) -> BackupModel {
        BackupModel {
            wip_polls: if self.launched { WIP_POLLS } else { self.wip_polls },
            wel: self.wel && !self.launched,
            cmd: None,
            idx: 0,
            addr: 0,
            page_erased: false,
            launched: false,
            ..self
        }
    }

    /// Index in the store that a bus address selects.
    pub open spec fn cell(self, addr: u32) -> int {
        addr as int % self.data.len() as int
    }

    /// State with the store replaced; a change of contents marks it dirty.
    pub open spec fn with_data(self, data: Seq<u8>) -> BackupModel {
        BackupModel { data, dirty: self.dirty || data != self.data, ..self }
    }

    /// Byte that a program of `val` leaves in the cell at the current address:
    /// a page write stores it, a page program can only clear bits.
    pub open spec fn programmed(self, cmd: u8, val: u8) -> u8 {
        if cmd == 0x0A {
            val
        } else {
            self.data[self.cell(self.addr)] & val
        }
    }

    /// State after the opcode byte of a transaction.
    pub open spec fn opened(self, cmd: u8) -> BackupModel {
        BackupModel {
            cmd: Some(cmd),
            cmd_counts: self.cmd_counts.update(
                spec_cmd_slot(cmd) as int,
                sat_inc(self.cmd_counts[spec_cmd_slot(cmd) as int]),
            ),
            idx: 0,
            addr: 0,
            page_erased: false,
            wel: if cmd == 0x06 {
                true
            } else if cmd == 0x04 {
                false
            } else {
                self.wel
            },
            ..self
        }
    }

    /// State after one address byte.
    pub open spec fn addressed(self, val: u8) -> BackupModel {
        BackupModel { addr: (self.addr << 8) | val as u32, ..self }
    }

    /// State after one byte of a page write or page program.
    pub open spec fn program_step(self, cmd: u8, val: u8) -> BackupModel {
        let s = BackupModel { idx: self.idx.wrapping_add(1), ..self };
        if s.idx <= 3 {
            s.addressed(val)
        } else if s.wel {
            let w = s.with_data(s.data.update(s.cell(s.addr), s.programmed(cmd, val)));
            BackupModel { launched: true, addr: next_in_page(s.addr), ..w }
        } else {
            s
        }
    }

    /// State after one byte of a page erase or sector erase; the erase runs
    /// with the third address byte.
    pub open spec fn erase_step(self, cmd: u8, val: u8) -> BackupModel {
        let s = BackupModel { idx: self.idx.wrapping_add(1), ..self };
        if s.idx <= 3 {
            let a = s.addressed(val);
            if a.idx == 3 && a.wel {
                let span = if cmd == 0xDB { PAGE_BYTES } else { SECTOR_BYTES };
                let w = a.with_data(erased_block(a.data, a.addr, span));
                BackupModel { launched: true, ..w }
            } else {
                a
            }
        } else {
            s
        }
    }

    /// State after one byte of a read.
    pub open spec fn read_step(self, val: u8) -> BackupModel {
        let s = BackupModel { idx: self.idx.wrapping_add(1), ..self };
        if s.idx <= 3 {
            s.addressed(val)
        } else {
            BackupModel { addr: s.addr.wrapping_add(1), ..s }
        }
    }

    /// State after one byte, the output latch aside.
    pub open spec fn stepped(self, val: u8) -> BackupModel {
        match self.cmd {
            None => if val == 0 {
                self
            } else {
                self.opened(val)
            },
            Some(cmd) => if cmd == 0x05 {
                BackupModel {
                    wip_polls: if self.wip_polls > 0 { (self.wip_polls - 1) as u8 } else { 0 },
                    ..self
                }
            } else if cmd == 0x9F {
                BackupModel { idx: self.idx.wrapping_add(1), ..self }
            } else if cmd == 0x03 {
                self.read_step(val)
            } else if cmd == 0x0A || cmd == 0x02 {
                self.program_step(cmd, val)
            } else if cmd == 0xDB || cmd == 0xD8 {
                self.erase_step(cmd, val)
            } else {
                self
            },
        }
    }

    /// Status register: bit 0 reports a write in progress, bit 1 the
    /// write-enable latch.
    pub open spec fn status(self) -> u8 {
        (if self.wip_polls > 0 { 1u8 } else { 0u8 }) | (if self.wel { 2u8 } else { 0u8 })
    }

    /// Byte driven in answer to `val`.
    pub open spec fn response(self, val: u8) -> u8 {
        if !self.present() {
            0xFF
        } else if self.cmd == Some(0x05u8) {
            self.status()
        } else if self.cmd == Some(0x9Fu8) {
            let i = self.idx.wrapping_add(1);
            if i == 1 {
                0x20
            } else if i == 2 {
                0x40
            } else if i == 3 {
                self.kind.spec_jedec_capacity()
            } else {
                0
            }
        } else if self.cmd == Some(0x03u8) && self.idx.wrapping_add(1) > 3 {
            self.data[self.cell(self.addr)]
        } else {
            0
        }
    }

    /// State after clocking one byte.
    pub open spec fn clocked(self, val: u8) -> BackupModel {
        let s = if self.present() { self.stepped(val) } else { self };
        BackupModel { last_out: self.response(val), ..s }
    }

    /// State after clocking several bytes in order.
    pub open spec fn clocked_all(self, bytes: Seq<u8>) -> BackupModel
        decreases bytes.len(),
    {
        if bytes.len() == 0 {
            self
        } else {
            self.clocked(bytes[0]).clocked_all(bytes.subrange(1, bytes.len() as int))
        }
    }

    /// State after seeding the store from saved bytes: a short image leaves the
    /// tail as it was, a long one is ignored past the device end.
    pub open spec fn seeded(self, bytes: Seq<u8>) -> BackupModel {
        if self.present() {
            BackupModel {
                data: Seq::new(
                    self.data.len(),
                    |k: int| if k < bytes.len() { bytes[k] } else { self.data[k] },
                ),
                dirty: false,
                ..self
            }
        } else {
            self
        }
    }
}

/// Serial FLASH save chip.
#[derive(Clone)]
pub struct NdsBackup {
    kind: BackupKind,
    data: Vec<u8>,
    dirty: bool,
    cmd: Option<u8>,
    idx: u32,
    addr: u32,
    wel: bool,
    wip_polls: u8,
    page_erased: bool,
    launched: bool,
    /// Last byte the chip put on the bus.
    pub last_out: u8,
    /// Opcodes seen on the bus, one slot per opcode of the family.
    pub cmd_counts: [u32; 8],
}

impl View for NdsBackup {
    type V = BackupModel;

    closed spec fn view(&self) -> BackupModel {
        BackupModel {
            kind: self.kind,
            data: self.data@,
            dirty: self.dirty,
            cmd: self.cmd,
            idx: self.idx,
            addr: self.addr,
            wel: self.wel,
            wip_polls: self.wip_polls,
            page_erased: self.page_erased,
            launched: self.launched,
            last_out: self.last_out,
            cmd_counts: self.cmd_counts@,
        }
    }
}

impl Default for NdsBackup {
    fn default() -> (r: Self)
        ensures
            r@ == BackupModel::fresh(BackupKind::Absent),
    {
        NdsBackup::new(BackupKind::Absent)
    }
}

impl NdsBackup {
    pub fn new(kind: BackupKind) -> (r: Self)
        ensures
            r@ == BackupModel::fresh(kind),
            r@.wf(),
    {
        let r = NdsBackup {
            kind,
            data: vec![0xFFu8; kind.size_bytes()],
            dirty: false,
            cmd: None,
            idx: 0,
            addr: 0,
            wel: false,
            wip_polls: 0,
            page_erased: false,
            launched: false,
            last_out: 0,
            cmd_counts: [0u32; 8],
        };
        assert(r@.data =~= BackupModel::fresh(kind).data);
        assert(r@.cmd_counts =~= BackupModel::fresh(kind).cmd_counts);
        r
    }

    pub fn kind(&self) -> (k: BackupKind)
        ensures
            k == self@.kind,
    {
        self.kind
    }

    pub fn is_present(&self) -> (b: bool)
        ensures
            b == self@.present(),
    {
        self.data.len() != 0
    }

    /// Byte that the chip drove in the last exchange.
    pub fn last_output(&self) -> (b: u8)
        ensures
            b == self@.last_out,
    {
        self.last_out
    }

    pub fn is_dirty(&self) -> (b: bool)
        ensures
            b == self@.dirty,
    {
        self.dirty
    }

    /// Requests that the contents be persisted, where there is a chip.
    pub fn mark_dirty(&mut self)
        ensures
            final(self)@ == (BackupModel { dirty: old(self)@.present(), ..old(self)@ }),
    {
        self.dirty = self.is_present();
    }

    /// The backing store.
    pub fn data(&self) -> (d: &[u8])
        ensures
            d@ == self@.data,
    {
        self.data.as_slice()
    }

    /// Chip-select release. A program or erase that ran opens the busy window
    /// here and consumes the write-enable latch.
    pub fn deselect(&mut self)
        ensures
            final(self)@ == old(self)@.deselected(),
    {
        if self.launched {
            self.wip_polls = WIP_POLLS;
            self.wel = false;
        }
        self.cmd = None;
        self.idx = 0;
        self.addr = 0;
        self.page_erased = false;
        self.launched = false;
    }

    /// Clocks one byte through the chip and returns the byte it drives back.
    #[verifier::rlimit(60)]
    #[verifier::spinoff_prover]
    pub fn transfer(&mut self, val: u8) -> (out: u8)
        requires
            old(self)@.wf(),
        ensures
            out == old(self)@.response(val),
            final(self)@ == old(self)@.clocked(val),
            final(self)@.wf(),
    {
        if self.data.len() == 0 {
            self.last_out = 0xFF;
            return 0xFF;
        }
        let out: u8 = match self.cmd {
            None => {
                if val != 0 {
                    self.open_command(val);
                }
                0x00
            },
            Some(cmd) => {
                if cmd == 0x05 {
                    let s = self.read_status();
                    s
                } else if cmd == 0x9F {
                    self.idx = self.idx.wrapping_add(1);
                    match self.idx {
                        1 => 0x20,
                        2 => 0x40,
                        3 => self.kind.jedec_capacity(),
                        _ => 0x00,
                    }
                } else if cmd == 0x03 {
                    self.idx = self.idx.wrapping_add(1);
                    if self.idx <= 3 {
                        self.addr = (self.addr << 8) | val as u32;
                        0x00
                    } else {
                        let b: u8 = self.read_at(self.addr);
                        self.addr = self.addr.wrapping_add(1);
                        b
                    }
                } else if cmd == 0x0A || cmd == 0x02 {
                    self.idx = self.idx.wrapping_add(1);
                    if self.idx <= 3 {
                        self.addr = (self.addr << 8) | val as u32;
                    } else if self.wel {
                        self.program_at(self.addr, val, cmd == 0x0A);
                        self.launched = true;
                        let page_base: u32 = self.addr - self.addr % PAGE_BYTES;
                        self.addr = page_base + self.addr.wrapping_add(1) % PAGE_BYTES;
                    }
                    0x00
                } else if cmd == 0xDB || cmd == 0xD8 {
                    self.idx = self.idx.wrapping_add(1);
                    if self.idx <= 3 {
                        self.addr = (self.addr << 8) | val as u32;
                        if self.idx == 3 && self.wel {
                            let span: u32 = if cmd == 0xDB { PAGE_BYTES } else { SECTOR_BYTES };
                            self.erase_block(self.addr, span);
                            self.launched = true;
                        }
                    }
                    0x00
                } else {
                    0x00
                }
            },
        };
        self.last_out = out;
        out
    }

    fn open_command(&mut self, val: u8)
        requires
            old(self)@.wf(),
        ensures
            final(self)@ == old(self)@.opened(val),
            final(self)@.wf(),
    {
        self.cmd = Some(val);
        let slot: usize = cmd_slot(val);
        let count: u32 = self.cmd_counts[slot];
        self.cmd_counts[slot] = if count == u32::MAX { count } else { count + 1 };
        self.idx = 0;
        self.addr = 0;
        self.page_erased = false;
        match val {
            0x06 => {
                self.wel = true;
            },
            0x04 => {
                self.wel = false;
            },
            _ => {},
        }
    }

    fn read_status(&mut self) -> (s: u8)
        ensures
            s == old(self)@.status(),
            final(self)@ == (BackupModel {
                wip_polls: if old(self)@.wip_polls > 0 {
                    (old(self)@.wip_polls - 1) as u8
                } else {
                    0
                },
                ..old(self)@
            }),
    {
        let mut wip: u8 = 0;
        if self.wip_polls > 0 {
            wip = 1;
            self.wip_polls = self.wip_polls - 1;
        }
        let latch: u8 = if self.wel { 2 } else { 0 };
        wip | latch
    }

    fn read_at(&self, addr: u32) -> (b: u8)
        requires
            self@.wf(),
            self@.present(),
        ensures
            b == self@.data[self@.cell(addr)],
    {
        self.data[(addr as usize) % self.data.len()]
    }

    /// Programs one byte. FLASH can only clear bits, so a page program ANDs; a
    /// page write stores the byte verbatim.
    fn program_at(&mut self, addr: u32, val: u8, erased: bool)
        requires
            old(self)@.wf(),
            old(self)@.present(),
        ensures
            final(self)@ == old(self)@.with_data(
                old(self)@.data.update(
                    old(self)@.cell(addr),
                    if erased {
                        val
                    } else {
                        old(self)@.data[old(self)@.cell(addr)] & val
                    },
                ),
            ),
            final(self)@.wf(),
    {
        let len: usize = self.data.len();
        let i: usize = (addr as usize) % len;
        let new: u8 = if erased { val } else { self.data[i] & val };
        if self.data[i] != new {
            self.data[i] = new;
            self.dirty = true;
            assert(self@.data[i as int] != old(self)@.data[i as int]);
        } else {
            assert(old(self)@.data.update(i as int, new) =~= old(self)@.data);
        }
    }

    /// Erases the aligned block of `len` bytes that holds address `addr`.
    fn erase_block(&mut self, addr: u32, len: u32)
        requires
            old(self)@.wf(),
            old(self)@.present(),
            len == PAGE_BYTES || len == SECTOR_BYTES,
        ensures
            final(self)@ == old(self)@.with_data(erased_block(old(self)@.data, addr, len)),
            final(self)@.wf(),
    {
        let size: usize = self.data.len();
        let cell: usize = (addr as usize) % size;
        let base: usize = cell - cell % (len as usize);
        let ghost d0 = self.data@;
        assert(base + len <= size && base as int % len as int == 0 && base as int / len as int
            == cell as int / len as int) by {
            if len == PAGE_BYTES {
                assert(base + 256 <= size && base % 256 == 0 && base / 256 == cell / 256);
            } else {
                assert(base + 65536 <= size && base % 65536 == 0 && base / 65536 == cell / 65536);
            }
        }
        let mut i: usize = 0;
        while i < len as usize
            invariant
                0 <= i <= len,
                base + len <= size,
                size == d0.len(),
                old(self)@.data == d0,
                self.data@.len() == d0.len(),
                forall|k: int|
                    0 <= k < d0.len() ==> #[trigger] self.data@[k] == (if base <= k < base + i {
                        0xFFu8
                    } else {
                        d0[k]
                    }),
                self.dirty == (old(self)@.dirty || exists|k: int|
                    base <= k < base + i && #[trigger] d0[k] != 0xFF),
                self@ == (BackupModel { data: self.data@, dirty: self.dirty, ..old(self)@ }),
            decreases len - i,
        {
            let idx: usize = base + i;
            assert(self.data@[idx as int] == d0[idx as int]);
            if self.data[idx] != 0xFF {
                self.data[idx] = 0xFF;
                self.dirty = true;
            }
            i = i + 1;
        }
        proof {
            let e = erased_block(d0, addr, len);
            assert forall|k: int| 0 <= k < d0.len() implies #[trigger] self.data@[k] == e[k] by {
                assert((k / len as int == base as int / len as int) <==> base <= k < base + len)
                    by (nonlinear_arith)
                    requires
                        base as int % len as int == 0,
                        len > 0,
                        k >= 0,
                ;
            }
            assert(self.data@ =~= e);
            if exists|k: int| base <= k < base + len && #[trigger] d0[k] != 0xFF {
                let k = choose|k: int| base <= k < base + len && #[trigger] d0[k] != 0xFF;
                assert(self.data@[k] != d0[k]);
            } else {
                assert(self.data@ =~= d0);
            }
        }
    }

    /// Bytes to persist, none where there is no chip.
    pub fn contents_to_save(&self) -> (c: Option<&[u8]>)
        ensures
            c is Some <==> self@.present(),
            c is Some ==> c->0@ == self@.data,
    {
        if self.data.len() == 0 {
            None
        } else {
            Some(self.data.as_slice())
        }
    }

    /// Records that the contents have been persisted.
    pub fn mark_saved(&mut self)
        ensures
            final(self)@ == (BackupModel {
                dirty: old(self)@.dirty && !old(self)@.present(),
                ..old(self)@
            }),
    {
        if self.data.len() != 0 {
            self.dirty = false;
        }
    }

    /// Seeds the store from persisted bytes. The store keeps its length: a
    /// short image leaves the tail as it was, a long one is ignored past the
    /// device end.
    pub fn seed_contents(&mut self, bytes: &[u8])
        requires
            old(self)@.wf(),
        ensures
            final(self)@ == old(self)@.seeded(bytes@),
            final(self)@.wf(),
    {
        if self.data.len() == 0 {
            return;
        }
        let mut i: usize = 0;
        while i < self.data.len() && i < bytes.len()
            invariant
                0 <= i <= self.data@.len(),
                i <= bytes@.len(),
                self.data@.len() == old(self)@.data.len(),
                forall|k: int|
                    0 <= k < self.data@.len() ==> #[trigger] self.data@[k] == (if k < i {
                        bytes@[k]
                    } else {
                        old(self)@.data[k]
                    }),
                self@ == (BackupModel { data: self.data@, ..old(self)@ }),
            decreases bytes@.len() - i,
        {
            self.data[i] = bytes[i];
            i = i + 1;
        }
        self.dirty = false;
        assert(self@.data =~= old(self)@.seeded(bytes@).data);
    }
}

/// Clocking a byte or releasing chip select keeps the device kind and size.
pub proof fn law_size_is_fixed(c: BackupModel, val: u8)
    requires
        c.wf(),
    ensures
        c.clocked(val).wf(),
        c.clocked(val).kind == c.kind,
        c.deselected().wf(),
        c.deselected().kind == c.kind,
        c.deselected().data == c.data,
{
}

/// An absent chip answers 0xFF to every byte and never stores anything.
pub proof fn law_absent_chip_floats(c: BackupModel, val: u8)
    requires
        !c.present(),
    ensures
        c.response(val) == 0xFF,
        c.clocked(val) == (BackupModel { last_out: 0xFF, ..c }),
{
}

/// A page program only clears bits of the store.
pub proof fn law_page_program_only_clears_bits(c: BackupModel, val: u8, k: int)
    requires
        c.wf(),
        c.cmd == Some(0x02u8),
        0 <= k < c.data.len(),
    ensures
        c.clocked(val).data[k] & c.data[k] == c.clocked(val).data[k],
{
    let a = c.data[k];
    assert((a & val) & a == a & val && a & a == a) by (bit_vector);
}

/// Inside a transaction with the write-enable latch clear, no sequence of bytes
/// changes the store, marks it dirty, sets the latch or launches a write.
pub proof fn law_writes_need_the_latch(c: BackupModel, bytes: Seq<u8>)
    requires
        c.wf(),
        c.present(),
        c.cmd is Some,
        !c.wel,
    ensures
        c.clocked_all(bytes).data == c.data,
        c.clocked_all(bytes).dirty == c.dirty,
        !c.clocked_all(bytes).wel,
        c.clocked_all(bytes).launched == c.launched,
    decreases bytes.len(),
{
    if bytes.len() > 0 {
        law_writes_need_the_latch(c.clocked(bytes[0]), bytes.subrange(1, bytes.len() as int));
    }
}

/// A program or erase that was refused for want of the latch leaves the chip
/// idle: releasing chip select does not arm the busy window.
pub proof fn law_refused_write_is_not_busy(c: BackupModel, cmd: u8, rest: Seq<u8>)
    requires
        c.wf(),
        c.present(),
        c.cmd is None,
        !c.launched,
        !c.wel,
        cmd == 0x0A || cmd == 0x02 || cmd == 0xDB || cmd == 0xD8,
    ensures
        c.clocked(cmd).clocked_all(rest).deselected().wip_polls == c.wip_polls,
        c.clocked(cmd).clocked_all(rest).deselected().data == c.data,
{
    law_writes_need_the_latch(c.clocked(cmd), rest);
    lemma_only_status_reads_poll(c.clocked(cmd), rest);
}

proof fn lemma_only_status_reads_poll(c: BackupModel, bytes: Seq<u8>)
    requires
        c.wf(),
        c.present(),
        c.cmd is Some,
        c.cmd != Some(0x05u8),
    ensures
        c.clocked_all(bytes).wip_polls == c.wip_polls,
    decreases bytes.len(),
{
    if bytes.len() > 0 {
        lemma_only_status_reads_poll(c.clocked(bytes[0]), bytes.subrange(1, bytes.len() as int));
    }
}

/// A write that ran consumes the write-enable latch when chip select is
/// released, whether or not the driver ever polls the status; the next two
/// status reads report it as in progress and the third does not.
pub proof fn law_write_consumes_the_latch(c: BackupModel)
    requires
        c.wf(),
        c.present(),
        c.launched,
    ensures
        !c.deselected().wel,
        ({
            let s0 = c.deselected().clocked(0x05);
            let s1 = s0.clocked(0);
            let s2 = s1.clocked(0);
            &&& s0.response(0) == 1
            &&& s1.response(0) == 1
            &&& s2.response(0) == 0
        }),
{
    assert(1u8 | 0u8 == 1 && 0u8 | 0u8 == 0) by (bit_vector);
}

/// What a page write stored is what a read of the same address gives back.
#[verifier::rlimit(40)]
#[verifier::spinoff_prover]
pub proof fn law_page_write_reads_back(
    c: BackupModel,
    a2: u8,
    a1: u8,
    a0: u8,
    b: u8,
    filler: u8,
)
    requires
        c.wf(),
        c.present(),
        c.cmd is None,
        c.wel,
    ensures
        c.clocked_all(seq![0x0Au8, a2, a1, a0, b]).deselected().clocked_all(
            seq![0x03u8, a2, a1, a0],
        ).response(filler) == b,
{
    lemma_unrolled(c, seq![0x0Au8, a2, a1, a0, b]);
    lemma_address_phase(c, 0x0A, a2, a1, a0);
    let addr = bus_address(a2, a1, a0);
    let c4 = c.clocked(0x0A).clocked(a2).clocked(a1).clocked(a0);
    let d = c4.clocked(b).deselected();
    assert(d.wf() && d.present() && d.cmd is None && d.data[d.cell(addr)] == b);
    lemma_unrolled(d, seq![0x03u8, a2, a1, a0]);
    lemma_address_phase(d, 0x03, a2, a1, a0);
}

/// The 24-bit address that three address bytes spell, most significant first.
pub open spec fn bus_address(a2: u8, a1: u8, a0: u8) -> u32 {
    (((((0u32 << 8) | a2 as u32) << 8) | a1 as u32) << 8) | a0 as u32
}

proof fn lemma_address_phase(c: BackupModel, cmd: u8, a2: u8, a1: u8, a0: u8)
    requires
        c.wf(),
        c.present(),
        c.cmd is None,
        cmd == 0x0A || cmd == 0x03,
    ensures
        c.clocked(cmd).clocked(a2).clocked(a1).clocked(a0) == (BackupModel {
            idx: 3,
            addr: bus_address(a2, a1, a0),
            last_out: 0,
            ..c.opened(cmd)
        }),
{
    let c1 = c.clocked(cmd);
    assert(c1 == (BackupModel { last_out: 0, ..c.opened(cmd) }));
    let c2 = c1.clocked(a2);
    assert(c2 == (BackupModel { idx: 1, addr: (0u32 << 8) | a2 as u32, ..c1 }));
    let c3 = c2.clocked(a1);
    assert(c3 == (BackupModel { idx: 2, addr: (c2.addr << 8) | a1 as u32, ..c1 }));
}

proof fn lemma_unrolled(c: BackupModel, s: Seq<u8>)
    ensures
        s.len() == 5 ==> c.clocked_all(s) == c.clocked(s[0]).clocked(s[1]).clocked(s[2]).clocked(
            s[3],
        ).clocked(s[4]),
        s.len() == 4 ==> c.clocked_all(s) == c.clocked(s[0]).clocked(s[1]).clocked(s[2]).clocked(
            s[3],
        ),
{
    reveal_with_fuel(BackupModel::clocked_all, 6);
    if s.len() == 4 || s.len() == 5 {
        let n = s.len() as int;
        let t1 = s.subrange(1, n);
        let t2 = t1.subrange(1, n - 1);
        let t3 = t2.subrange(1, n - 2);
        let t4 = t3.subrange(1, n - 3);
        assert(t1[0] == s[1] && t2[0] == s[2] && t3[0] == s[3]);
    }
}

/// A sector or page erase clears exactly the aligned block that holds its
/// address, and nothing else.
pub proof fn law_erase_clears_exactly_its_block(
    c: BackupModel,
    cmd: u8,
    a2: u8,
    a1: u8,
    a0: u8,
    k: int,
)
    requires
        c.wf(),
        c.present(),
        c.cmd is None,
        c.wel,
        cmd == 0xDB || cmd == 0xD8,
        0 <= k < c.data.len(),
    ensures
        ({
            let span = if cmd == 0xDB { 256int } else { 0x1_0000int };
            let addr = bus_address(a2, a1, a0);
            let after = c.clocked_all(seq![cmd, a2, a1, a0]).deselected();
            after.data[k] == (if k / span == (addr as int % c.data.len() as int) / span {
                0xFFu8
            } else {
                c.data[k]
            })
        }),
{
    lemma_unrolled(c, seq![cmd, a2, a1, a0]);
}

/// A zero byte in front of an opcode is a settling byte: the transaction behind
/// it is the one that would have run without it.
pub proof fn law_settling_byte_is_inert(c: BackupModel, bytes: Seq<u8>)
    requires
        c.wf(),
        c.present(),
        c.cmd is None,
        bytes.len() > 0,
    ensures
        c.clocked(0).clocked_all(bytes) == c.clocked_all(bytes),
{
    assert(c.clocked(0).clocked(bytes[0]) == c.clocked(bytes[0]));
}

/// Seeding from bytes and persisting them again gives back the same image, for
/// an image of the device's size.
pub proof fn law_seed_then_save(c: BackupModel, bytes: Seq<u8>)
    requires
        c.wf(),
        c.present(),
        bytes.len() == c.data.len(),
    ensures
        c.seeded(bytes).data == bytes,
        !c.seeded(bytes).dirty,
{
    assert(c.seeded(bytes).data =~= bytes);
}

impl BackupModel {
    /// Chip that resumes from a saved one. The contents are part of what is
    /// saved, and so is whether they still have to reach the disk; the opcode
    /// counters are not.
    pub open spec fn resumed(self, saved: BackupModel) -> BackupModel {
        BackupModel { cmd_counts: self.cmd_counts, ..saved }
    }
}

/// Why a saved chip cannot be taken over.
#[derive(Clone, Copy, Debug, PartialEq, Eq, Structural)]
pub enum ChipFault {
    /// It is of another kind.
    Kind,
    /// Its contents do not have the size of its kind.
    Size,
}

/// What speaks against resuming `live` from `saved`, if anything does.
pub open spec fn chip_fault(live: BackupModel, saved: BackupModel) -> Option<ChipFault> {
    if saved.kind != live.kind {
        Some(ChipFault::Kind)
    } else if saved.data.len() != live.kind.spec_size_bytes() {
        Some(ChipFault::Size)
    } else {
        None
    }
}

impl NdsBackup {
    /// What speaks against resuming from a saved chip.
    pub fn chip_fault(&self, saved: &NdsBackup) -> (fault: Option<ChipFault>)
        ensures
            fault == chip_fault(self@, saved@),
    {
        if saved.kind != self.kind {
            Some(ChipFault::Kind)
        } else if saved.data.len() != self.kind.size_bytes() {
            Some(ChipFault::Size)
        } else {
            None
        }
    }

    /// Takes the state and the contents of a saved chip over. A saved chip of
    /// another kind, or with contents of another size, changes nothing.
    pub fn resume_from(&mut self, saved: &NdsBackup) -> (r: Result<(), ChipFault>)
        ensures
            match chip_fault(old(self)@, saved@) {
                Some(fault) => r == Err::<(), ChipFault>(fault) && final(self)@ == old(self)@,
                None => r is Ok && final(self)@ == old(self)@.resumed(saved@),
            },
    {
        if let Some(fault) = self.chip_fault(saved) {
            return Err(fault);
        }
        self.kind = saved.kind;
        self.data = bytes::copied(&saved.data);
        self.dirty = saved.dirty;
        self.cmd = saved.cmd;
        self.idx = saved.idx;
        self.addr = saved.addr;
        self.wel = saved.wel;
        self.wip_polls = saved.wip_polls;
        self.page_erased = saved.page_erased;
        self.launched = saved.launched;
        self.last_out = saved.last_out;
        Ok(())
    }
}

/// Resuming brings the saved contents back, along with whether they still have
/// to reach the disk, and leaves a well-formed chip of the same kind.
pub proof fn law_resume_brings_the_contents_back(live: BackupModel, saved: BackupModel)
    requires
        live.wf(),
        chip_fault(live, saved) is None,
    ensures
        live.resumed(saved).wf(),
        live.resumed(saved).kind == live.kind,
        live.resumed(saved).data == saved.data,
        live.resumed(saved).dirty == saved.dirty,
{
}

proof fn lemma_clocked_push(c: BackupModel, s: Seq<u8>, b: u8)
    ensures
        c.clocked_all(s.push(b)) == c.clocked_all(s).clocked(b),
    decreases s.len(),
{
    let t = s.push(b);
    if s.len() == 0 {
        assert(t.subrange(1, 1) =~= Seq::empty());
        reveal_with_fuel(BackupModel::clocked_all, 2);
    } else {
        assert(t.subrange(1, t.len() as int) =~= s.subrange(1, s.len() as int).push(b));
        lemma_clocked_push(c.clocked(s[0]), s.subrange(1, s.len() as int), b);
    }
}

proof fn lemma_clocked_append(c: BackupModel, s: Seq<u8>, t: Seq<u8>)
    ensures
        c.clocked_all(s + t) == c.clocked_all(s).clocked_all(t),
    decreases t.len(),
{
    if t.len() == 0 {
        assert(s + t =~= s);
    } else {
        let u = t.drop_last();
        assert(s + t =~= (s + u).push(t.last()));
        assert(t =~= u.push(t.last()));
        lemma_clocked_append(c, s, u);
        lemma_clocked_push(c, s + u, t.last());
        lemma_clocked_push(c.clocked_all(s), u, t.last());
    }
}

/// Contents after the bytes `d` were written into a page from cell `at` on. They
/// wrap at the end of the page.
pub open spec fn page_written(data: Seq<u8>, at: int, d: Seq<u8>) -> Seq<u8> {
    Seq::new(
        data.len(),
        |k: int|
            if k / 256 == at / 256 && (k - at) % 256 < d.len() {
                d[(k - at) % 256]
            } else {
                data[k]
            },
    )
}

/// Address of data byte `k` of a page write.
pub open spec fn page_address(addr: u32, k: int) -> u32 {
    (addr - addr % 256 + (addr + k) % 256) as u32
}

/// Sizes are multiples of a page, so that folding an address keeps its place in
/// the page.
proof fn lemma_fold(x: int, len: int)
    requires
        0 <= x,
        len == 0x4_0000 || len == 0x8_0000 || len == 0x10_0000,
    ensures
        x % len % 256 == x % 256,
        x % len / 256 == x / 256 % (len / 256),
{
    vstd::arithmetic::div_mod::lemma_mod_breakdown(x, 256, len / 256);
    vstd::arithmetic::div_mod::lemma_mod_bound(x / 256, len / 256);
}

proof fn lemma_page_address(addr: u32, k: int)
    requires
        addr < 0x100_0000,
        0 <= k,
    ensures
        page_address(addr, k) == addr - addr % 256 + (addr + k) % 256,
        page_address(addr, k) / 256 == addr / 256,
        page_address(addr, k) % 256 == (addr + k) % 256,
        next_in_page(page_address(addr, k)) == page_address(addr, k + 1),
{
    let p = page_address(addr, k);
    assert((p + 1) % 256 == (addr + k + 1) % 256);
}

proof fn lemma_page_cell(c: BackupModel, addr: u32, k: int)
    requires
        c.wf(),
        c.present(),
        addr < 0x100_0000,
        0 <= k < 256,
    ensures
        c.cell(page_address(addr, k)) / 256 == c.cell(addr) / 256,
        (c.cell(page_address(addr, k)) - c.cell(addr)) % 256 == k,
{
    let len = c.data.len() as int;
    let p = page_address(addr, k) as int;
    lemma_page_address(addr, k);
    lemma_fold(p, len);
    lemma_fold(addr as int, len);
    let x = p % len;
    let y = addr as int % len;
    assert(x % 256 == (y % 256 + k) % 256) by {
        assert(p % 256 == (addr + k) % 256);
        assert((addr + k) % 256 == (addr as int % 256 + k) % 256);
    }
    assert((x - y) % 256 == (x % 256 - y % 256) % 256);
}

/// One more byte of a page.
proof fn lemma_page_update(data: Seq<u8>, at: int, e: Seq<u8>, b: u8, cell: int)
    requires
        e.len() < 256,
        0 <= cell < data.len(),
        cell / 256 == at / 256,
        (cell - at) % 256 == e.len(),
    ensures
        page_written(data, at, e).update(cell, b) == page_written(data, at, e.push(b)),
{
    let u = page_written(data, at, e).update(cell, b);
    let v = page_written(data, at, e.push(b));
    assert forall|k: int| 0 <= k < data.len() implies #[trigger] u[k] == v[k] by {
        if k / 256 == at / 256 && k != cell {
            assert((k - at) % 256 != e.len()) by {
                if (k - at) % 256 == (cell - at) % 256 {
                    assert((k - cell) % 256 == 0);
                    assert(-256 < k - cell < 256);
                }
            }
        }
    }
    assert(u =~= v);
}

/// State after some data bytes of a page write.
proof fn lemma_page_bytes(c: BackupModel, d: Seq<u8>)
    requires
        c.wf(),
        c.present(),
        c.cmd == Some(0x0Au8),
        c.wel,
        c.idx == 3,
        c.addr < 0x100_0000,
        d.len() <= 256,
    ensures
        ({
            let s = c.clocked_all(d);
            &&& s.wf()
            &&& s.kind == c.kind
            &&& s.cmd == c.cmd
            &&& s.wel
            &&& s.idx == 3 + d.len()
            &&& s.addr == page_address(c.addr, d.len() as int)
            &&& s.data == page_written(c.data, c.cell(c.addr), d)
            &&& d.len() > 0 ==> s.launched
        }),
    decreases d.len(),
{
    let at = c.cell(c.addr);
    if d.len() == 0 {
        assert(page_written(c.data, at, d) =~= c.data);
        lemma_page_address(c.addr, 0);
    } else {
        let e = d.drop_last();
        let n = e.len() as int;
        let b = d.last();
        let p = c.clocked_all(e);
        lemma_page_bytes(c, e);
        assert(d =~= e.push(b));
        lemma_clocked_push(c, e, b);
        lemma_page_address(c.addr, n);
        lemma_page_cell(c, c.addr, n);
        lemma_page_update(c.data, at, e, b, p.cell(p.addr));
        lemma_program_byte(p, b);
    }
}

proof fn lemma_program_byte(p: BackupModel, b: u8)
    requires
        p.wf(),
        p.present(),
        p.cmd == Some(0x0Au8),
        p.wel,
        3 <= p.idx < 0x1000,
    ensures
        ({
            let q = p.clocked(b);
            &&& q.wf()
            &&& q.kind == p.kind
            &&& q.cmd == p.cmd
            &&& q.wel
            &&& q.idx == p.idx + 1
            &&& q.addr == next_in_page(p.addr)
            &&& q.data == p.data.update(p.cell(p.addr), b)
            &&& q.launched
            &&& p.response(b) == 0
        }),
{
}

/// Bytes of a page-write transaction.
pub open spec fn page_write(a2: u8, a1: u8, a0: u8, d: Seq<u8>) -> Seq<u8> {
    seq![0x0Au8, a2, a1, a0] + d
}

/// A page write of up to 256 bytes, in the transaction after a write enable,
/// puts each byte at its place in the page, wrapping there, keeps every other
/// byte of the chip and answers nothing.
pub proof fn law_page_write_fills_its_page(c: BackupModel, a2: u8, a1: u8, a0: u8, d: Seq<u8>)
    requires
        c.wf(),
        c.present(),
        c.cmd is None,
        !c.launched,
        1 <= d.len() <= 256,
    ensures
        ({
            let e = c.clocked(0x06).deselected();
            let at = c.cell(bus_address(a2, a1, a0));
            let bytes = page_write(a2, a1, a0, d);
            let w = e.clocked_all(bytes);
            &&& w.data == page_written(c.data, at, d)
            &&& forall|i: int|
                0 <= i < d.len() ==> w.data[at - at % 256 + #[trigger] ((at + i) % 256)] == d[i]
            &&& forall|k: int|
                0 <= k < c.data.len() && !(k / 256 == at / 256 && (k - at) % 256 < d.len())
                    ==> #[trigger] w.data[k] == c.data[k]
            &&& forall|j: int|
                0 <= j < bytes.len() ==> #[trigger] e.clocked_all(bytes.take(j)).response(bytes[j])
                    == 0
        }),
{
    let e = c.clocked(0x06).deselected();
    let at = c.cell(bus_address(a2, a1, a0));
    let bytes = page_write(a2, a1, a0, d);
    lemma_enabled(c);
    lemma_page_frame(e, a2, a1, a0, d);
    let w = e.clocked_all(bytes);
    assert forall|i: int| 0 <= i < d.len() implies w.data[at - at % 256 + #[trigger] ((at + i)
        % 256)] == d[i] by {
        lemma_place_in_page(at, i, c.data.len() as int);
    }
    assert forall|j: int| 0 <= j < bytes.len() implies #[trigger] e.clocked_all(
        bytes.take(j),
    ).response(bytes[j]) == 0 by {
        if j <= 4 {
            lemma_frame_head(e, bytes, j);
        } else {
            let k = j - 4;
            assert(bytes.take(j) =~= page_write(a2, a1, a0, d.take(k)));
            lemma_page_frame(e, a2, a1, a0, d.take(k));
        }
    }
}

proof fn lemma_place_in_page(at: int, i: int, len: int)
    requires
        0 <= at < len,
        0 <= i < 256,
        len % 256 == 0,
    ensures
        ({
            let k = at - at % 256 + (at + i) % 256;
            &&& 0 <= k < len
            &&& k / 256 == at / 256
            &&& (k - at) % 256 == i
        }),
{
    let k = at - at % 256 + (at + i) % 256;
    assert((at + i) % 256 == (at % 256 + i) % 256);
}

proof fn lemma_enabled(c: BackupModel)
    requires
        c.wf(),
        c.present(),
        c.cmd is None,
        !c.launched,
    ensures
        ({
            let e = c.clocked(0x06).deselected();
            &&& e.wf()
            &&& e.present()
            &&& e.cmd is None
            &&& e.wel
            &&& e.data == c.data
        }),
{
}

/// State after a page-write transaction, or the beginning of one.
proof fn lemma_page_frame(e: BackupModel, a2: u8, a1: u8, a0: u8, d: Seq<u8>)
    requires
        e.wf(),
        e.present(),
        e.cmd is None,
        e.wel,
        d.len() <= 256,
    ensures
        ({
            let w = e.clocked_all(page_write(a2, a1, a0, d));
            &&& w.data == page_written(e.data, e.cell(bus_address(a2, a1, a0)), d)
            &&& w.present()
            &&& w.cmd == Some(0x0Au8)
        }),
{
    let head = seq![0x0Au8, a2, a1, a0];
    assert(bus_address(a2, a1, a0) < 0x100_0000) by {
        assert(((((((0u32 << 8) | a2 as u32) << 8) | a1 as u32) << 8) | a0 as u32) < 0x100_0000)
            by (bit_vector);
    }
    lemma_unrolled(e, head);
    lemma_address_phase(e, 0x0A, a2, a1, a0);
    lemma_clocked_append(e, head, d);
    lemma_page_bytes(e.clocked_all(head), d);
}

/// The first bytes of a page-write transaction find the chip in that
/// transaction, or not in one.
proof fn lemma_frame_head(e: BackupModel, bytes: Seq<u8>, j: int)
    requires
        e.wf(),
        e.present(),
        e.cmd is None,
        bytes.len() >= 4,
        bytes[0] == 0x0A,
        0 <= j <= 4,
        j <= bytes.len(),
    ensures
        e.clocked_all(bytes.take(j)).present(),
        j == 0 ==> e.clocked_all(bytes.take(j)).cmd is None,
        j > 0 ==> e.clocked_all(bytes.take(j)).cmd == Some(0x0Au8),
        j > 0 ==> e.clocked_all(bytes.take(j)).idx == j - 1,
    decreases j,
{
    if j > 0 {
        lemma_frame_head(e, bytes, j - 1);
        assert(bytes.take(j) =~= bytes.take(j - 1).push(bytes[j - 1]));
        lemma_clocked_push(e, bytes.take(j - 1), bytes[j - 1]);
    } else {
        assert(bytes.take(0) =~= Seq::empty());
    }
}

/// What happens on the chip's bus.
pub enum BusEvent {
    /// A byte is clocked.
    Byte(u8),
    /// Chip select is released.
    Release,
}

impl BackupModel {
    pub open spec fn after(self, e: BusEvent) -> BackupModel {
        match e {
            BusEvent::Byte(b) => self.clocked(b),
            BusEvent::Release => self.deselected(),
        }
    }

    /// State after the first `n` of some events.
    pub open spec fn after_all(self, events: Seq<BusEvent>, n: int) -> BackupModel
        decreases n,
    {
        if n <= 0 {
            self
        } else {
            self.after_all(events, n - 1).after(events[n - 1])
        }
    }
}

/// Whether none of the transactions that begin among some events is a write
/// enable.
pub open spec fn never_enabled(c: BackupModel, events: Seq<BusEvent>) -> bool {
    forall|i: int|
        0 <= i < events.len() && events[i] == BusEvent::Byte(0x06) ==> (#[trigger] c.after_all(
            events,
            i,
        )).cmd is Some
}

/// A new chip that is never write-enabled stays as it is, whatever else is
/// clocked in however many transactions: erased, nothing to persist, and with a
/// status of zero whenever it is read.
pub proof fn law_chip_without_enable_never_changes(
    kind: BackupKind,
    events: Seq<BusEvent>,
    n: int,
)
    requires
        kind != BackupKind::Absent,
        0 <= n <= events.len(),
        never_enabled(BackupModel::fresh(kind), events),
    ensures
        ({
            let c = BackupModel::fresh(kind).after_all(events, n);
            &&& c.data == BackupModel::fresh(kind).data
            &&& !c.dirty
            &&& !c.wel
            &&& c.status() == 0
            &&& forall|b: u8| c.cmd == Some(0x05u8) ==> #[trigger] c.response(b) == 0
        }),
{
    lemma_untouched(kind, events, n);
    lemma_quiet(BackupModel::fresh(kind).after_all(events, n));
}

/// Whether a chip is idle with nothing enabled, written or to persist.
pub open spec fn quiet(c: BackupModel) -> bool {
    &&& c.wf()
    &&& c.present()
    &&& !c.dirty
    &&& !c.wel
    &&& c.wip_polls == 0
    &&& !c.launched
}

proof fn lemma_quiet(c: BackupModel)
    requires
        quiet(c),
    ensures
        c.status() == 0,
        forall|b: u8| c.cmd == Some(0x05u8) ==> #[trigger] c.response(b) == 0,
{
    assert(0u8 | 0u8 == 0) by (bit_vector);
}

proof fn lemma_quiet_byte(c: BackupModel, b: u8)
    requires
        quiet(c),
        b == 0x06 ==> c.cmd is Some,
    ensures
        quiet(c.clocked(b)),
        c.clocked(b).data == c.data,
{
}

proof fn lemma_untouched(kind: BackupKind, events: Seq<BusEvent>, n: int)
    requires
        kind != BackupKind::Absent,
        0 <= n <= events.len(),
        never_enabled(BackupModel::fresh(kind), events),
    ensures
        quiet(BackupModel::fresh(kind).after_all(events, n)),
        BackupModel::fresh(kind).after_all(events, n).data == BackupModel::fresh(kind).data,
    decreases n,
{
    if n > 0 {
        lemma_untouched(kind, events, n - 1);
        let p = BackupModel::fresh(kind).after_all(events, n - 1);
        let e = events[n - 1];
        match e {
            BusEvent::Byte(b) => {
                assert(e == BusEvent::Byte(0x06) ==> p.cmd is Some);
                lemma_quiet_byte(p, b);
            },
            BusEvent::Release => {},
        }
    }
}

/// The three address bytes spell the address, most significant first.
pub proof fn law_address_bytes(a2: u8, a1: u8, a0: u8)
    ensures
        bus_address(a2, a1, a0) == 0x1_0000 * a2 + 0x100 * a1 + a0,
{
    assert((((((0u32 << 8) | a2 as u32) << 8) | a1 as u32) << 8) | a0 as u32 == 0x1_0000 * (
    a2 as u32) + 0x100 * (a1 as u32) + a0 as u32) by (bit_vector);
}

/// A read streams the contents: the bytes from the address on, around the end of the
/// chip, one for each byte clocked, and the contents stay.
pub proof fn law_read_streams_the_chip(c: BackupModel, n: nat, filler: u8)
    requires
        c.wf(),
        c.present(),
        c.cmd == Some(0x03u8),
        c.idx == 3,
        c.addr < 0x100_0000,
        n < 0x100_0000,
    ensures
        ({
            let s = reading(c, n, filler);
            &&& s.response(filler) == c.data[(c.addr + n) % c.data.len() as int]
            &&& s.data == c.data && s.cmd == c.cmd && s.addr == c.addr + n && s.idx == 3 + n
            &&& s.dirty == c.dirty
        }),
    decreases n,
{
    if n > 0 {
        law_read_streams_the_chip(c, (n - 1) as nat, filler);
    }
}

/// The chip after `n` more bytes were clocked.
pub open spec fn reading(c: BackupModel, n: nat, filler: u8) -> BackupModel
    decreases n,
{
    if n == 0 {
        c
    } else {
        reading(c, (n - 1) as nat, filler).clocked(filler)
    }
}

/// The capacity code is the number of address bits.
pub proof fn law_capacity_code(k: BackupKind)
    requires
        !(k is Absent),
    ensures
        k.spec_size_bytes() == vstd::arithmetic::power2::pow2(k.spec_jedec_capacity() as nat),
{
    vstd::arithmetic::power2::lemma2_to64();
}

/// Status bit 0 says that the chip is busy, bit 1 that writes are enabled: enabling
/// and disabling set and clear the latter, and nothing else of the contents.
pub proof fn law_status_bits(c: BackupModel)
    requires
        c.wf(),
        c.present(),
        c.cmd is None,
        !c.launched,
    ensures
        (c.status() % 2 == 1) == (c.wip_polls > 0),
        (c.status() / 2 % 2 == 1) == c.wel,
        c.status() < 4,
        c.clocked(0x06).deselected().wel,
        !c.clocked(0x04).deselected().wel,
        c.clocked(0x06).data == c.data,
        c.clocked(0x04).data == c.data,
{
    assert((0u8 | 0u8 == 0) && (1u8 | 0u8 == 1) && (0u8 | 2u8 == 2) && (1u8 | 2u8 == 3))
        by (bit_vector);
}

} // verus!

//! Plain memories and places in them.

use vstd::prelude::*;
use crate::bytes;

verus! {

pub const MAIN_RAM_BYTES: usize = 0x40_0000;

pub const SHARED_WRAM_BYTES: usize = 0x4_0000;

pub const ARM7_WRAM_BYTES: usize = 0x1_0000;

pub const ITCM_BYTES: usize = 0x8000;

pub const DTCM_BYTES: usize = 0x4000;

pub const BIOS_BYTES: usize = 0x4000;

/// `n` zero bytes.
pub open spec fn zeros(n: nat) -> Seq<u8> {
    Seq::new(n, |i: int| 0u8)
}

/// Interrupt handler in the first processor's start-up image: save registers,
/// call the handler whose address stands at a fixed place in data memory,
/// restore and return. The last word is that place.
pub const BIOS9_HANDLER: [u32; 7] = [
    0xE92D_500F,
    0xE59F_000C,
    0xE28F_E000,
    0xE590_F000,
    0xE8BD_500F,
    0xE25E_F004,
    0x0B00_3FFC,
];

/// Interrupt handler in the second processor's start-up image.
pub const BIOS7_HANDLER: [u32; 6] = [
    0xE92D_500F,
    0xE3A0_0404,
    0xE28F_E000,
    0xE510_F004,
    0xE8BD_500F,
    0xE25E_F004,
];

/// A start-up image: the given words at the interrupt vector, zeros elsewhere.
pub open spec fn bios_image(handler: Seq<u32>) -> Seq<u8> {
    Seq::new(
        BIOS_BYTES as nat,
        |i: int|
            if 0x18 <= i < 0x18 + 4 * handler.len() {
                bytes::byte_of(handler[(i - 0x18) / 4], (i - 0x18) % 4)
            } else {
                0u8
            },
    )
}

/// A byte of plain memory: which memory, and the index in it.
#[derive(Clone, Copy, Debug, PartialEq, Eq, Structural)]
pub enum Spot {
    Main(usize),
    Shared(usize),
    Wram7(usize),
    Itcm(usize),
    Dtcm(usize),
    Palette(usize),
    Oam(usize),
    Bios9(usize),
    Bios7(usize),
}

impl Spot {
    /// Index of the place in its memory.
    pub open spec fn index(self) -> int {
        match self {
            Spot::Main(i) => i as int,
            Spot::Shared(i) => i as int,
            Spot::Wram7(i) => i as int,
            Spot::Itcm(i) => i as int,
            Spot::Dtcm(i) => i as int,
            Spot::Palette(i) => i as int,
            Spot::Oam(i) => i as int,
            Spot::Bios9(i) => i as int,
            Spot::Bios7(i) => i as int,
        }
    }

    /// Size of the memory the place is in.
    pub open spec fn limit(self) -> int {
        match self {
            Spot::Main(i) => MAIN_RAM_BYTES as int,
            Spot::Shared(i) => SHARED_WRAM_BYTES as int,
            Spot::Wram7(i) => ARM7_WRAM_BYTES as int,
            Spot::Itcm(i) => ITCM_BYTES as int,
            Spot::Dtcm(i) => DTCM_BYTES as int,
            Spot::Palette(i) => 4096,
            Spot::Oam(i) => 2048,
            Spot::Bios9(i) => BIOS_BYTES as int,
            Spot::Bios7(i) => BIOS_BYTES as int,
        }
    }

    /// The start-up images are read-only.
    pub open spec fn writable(self) -> bool {
        !(self is Bios9 || self is Bios7)
    }

    /// The place `k` bytes further in the same memory.
    pub open spec fn plus(self, k: int) -> Spot {
        match self {
            Spot::Main(i) => Spot::Main((i + k) as usize),
            Spot::Shared(i) => Spot::Shared((i + k) as usize),
            Spot::Wram7(i) => Spot::Wram7((i + k) as usize),
            Spot::Itcm(i) => Spot::Itcm((i + k) as usize),
            Spot::Dtcm(i) => Spot::Dtcm((i + k) as usize),
            Spot::Palette(i) => Spot::Palette((i + k) as usize),
            Spot::Oam(i) => Spot::Oam((i + k) as usize),
            Spot::Bios9(i) => Spot::Bios9((i + k) as usize),
            Spot::Bios7(i) => Spot::Bios7((i + k) as usize),
        }
    }

    pub fn offset_by(self, k: usize) -> (s: Spot)
        requires
            self.index() + k < 0x100_0000,
        ensures
            s == self.plus(k as int),
    {
        match self {
            Spot::Main(i) => Spot::Main(i + k),
            Spot::Shared(i) => Spot::Shared(i + k),
            Spot::Wram7(i) => Spot::Wram7(i + k),
            Spot::Itcm(i) => Spot::Itcm(i + k),
            Spot::Dtcm(i) => Spot::Dtcm(i + k),
            Spot::Palette(i) => Spot::Palette(i + k),
            Spot::Oam(i) => Spot::Oam(i + k),
            Spot::Bios9(i) => Spot::Bios9(i + k),
            Spot::Bios7(i) => Spot::Bios7(i + k),
        }
    }
}

/// Contents of the memories.
pub struct RamModel {
    pub main: Seq<u8>,
    pub shared: Seq<u8>,
    pub wram7: Seq<u8>,
    pub itcm: Seq<u8>,
    pub dtcm: Seq<u8>,
    pub palette: Seq<u8>,
    pub oam: Seq<u8>,
    pub bios9: Seq<u8>,
    pub bios7: Seq<u8>,
}

impl RamModel {
    pub open spec fn wf(self) -> bool {
        &&& self.main.len() == MAIN_RAM_BYTES
        &&& self.shared.len() == SHARED_WRAM_BYTES
        &&& self.wram7.len() == ARM7_WRAM_BYTES
        &&& self.itcm.len() == ITCM_BYTES
        &&& self.dtcm.len() == DTCM_BYTES
        &&& self.palette.len() == 4096
        &&& self.oam.len() == 2048
        &&& self.bios9.len() == BIOS_BYTES
        &&& self.bios7.len() == BIOS_BYTES
    }

    pub open spec fn fresh() -> RamModel {
        RamModel {
            bios9: bios_image(BIOS9_HANDLER@),
            bios7: bios_image(BIOS7_HANDLER@),
            ..RamModel::blank()
        }
    }

    pub open spec fn blank() -> RamModel {
        RamModel {
            main: zeros(MAIN_RAM_BYTES as nat),
            shared: zeros(SHARED_WRAM_BYTES as nat),
            wram7: zeros(ARM7_WRAM_BYTES as nat),
            itcm: zeros(ITCM_BYTES as nat),
            dtcm: zeros(DTCM_BYTES as nat),
            palette: zeros(4096),
            oam: zeros(2048),
            bios9: zeros(BIOS_BYTES as nat),
            bios7: zeros(BIOS_BYTES as nat),
        }
    }

    /// Everything zero but the start-up images, which stay.
    pub open spec fn cleared(self) -> RamModel {
        RamModel { bios9: self.bios9, bios7: self.bios7, ..RamModel::blank() }
    }

    pub open spec fn byte(self, s: Spot) -> u8 {
        match s {
            Spot::Main(i) => self.main[i as int],
            Spot::Shared(i) => self.shared[i as int],
            Spot::Wram7(i) => self.wram7[i as int],
            Spot::Itcm(i) => self.itcm[i as int],
            Spot::Dtcm(i) => self.dtcm[i as int],
            Spot::Palette(i) => self.palette[i as int],
            Spot::Oam(i) => self.oam[i as int],
            Spot::Bios9(i) => self.bios9[i as int],
            Spot::Bios7(i) => self.bios7[i as int],
        }
    }

    pub open spec fn with_byte(self, s: Spot, v: u8) -> RamModel {
        match s {
            Spot::Main(i) => RamModel { main: self.main.update(i as int, v), ..self },
            Spot::Shared(i) => RamModel { shared: self.shared.update(i as int, v), ..self },
            Spot::Wram7(i) => RamModel { wram7: self.wram7.update(i as int, v), ..self },
            Spot::Itcm(i) => RamModel { itcm: self.itcm.update(i as int, v), ..self },
            Spot::Dtcm(i) => RamModel { dtcm: self.dtcm.update(i as int, v), ..self },
            Spot::Palette(i) => RamModel { palette: self.palette.update(i as int, v), ..self },
            Spot::Oam(i) => RamModel { oam: self.oam.update(i as int, v), ..self },
            Spot::Bios9(i) => RamModel { bios9: self.bios9.update(i as int, v), ..self },
            Spot::Bios7(i) => RamModel { bios7: self.bios7.update(i as int, v), ..self },
        }
    }

    pub open spec fn halfword(self, s: Spot) -> u16 {
        bytes::le16(self.byte(s), self.byte(s.plus(1)))
    }

    pub open spec fn word(self, s: Spot) -> u32 {
        bytes::le32(
            self.byte(s),
            self.byte(s.plus(1)),
            self.byte(s.plus(2)),
            self.byte(s.plus(3)),
        )
    }

    pub open spec fn with_halfword(self, s: Spot, v: u16) -> RamModel {
        self.with_byte(s, bytes::lo(v)).with_byte(s.plus(1), bytes::hi(v))
    }

    pub open spec fn with_word(self, s: Spot, v: u32) -> RamModel {
        self.with_byte(s, bytes::byte_of(v, 0)).with_byte(
            s.plus(1),
            bytes::byte_of(v, 1),
        ).with_byte(s.plus(2), bytes::byte_of(v, 2)).with_byte(s.plus(3), bytes::byte_of(v, 3))
    }

    /// Words stored one after the other from a place on.
    pub open spec fn with_words(self, s: Spot, vs: Seq<u32>) -> RamModel
        decreases vs.len(),
    {
        if vs.len() == 0 {
            self
        } else {
            self.with_words(s, vs.drop_last()).with_word(s.plus(4 * (vs.len() - 1)), vs.last())
        }
    }

    /// The start-up image with the address of the game's handler pointer in
    /// place.
    pub open spec fn with_handler_ptr(self, ptr: u32) -> RamModel {
        self.with_word(Spot::Bios9(0x30), ptr)
    }
}

/// The memories.
pub struct Memories {
    pub main_ram: Vec<u8>,
    pub shared_wram: Vec<u8>,
    pub arm7_wram: Vec<u8>,
    pub itcm: Vec<u8>,
    pub dtcm: Vec<u8>,
    pub palette_ram: [u8; 4096],
    pub oam: [u8; 2048],
    pub arm9_bios: Vec<u8>,
    pub arm7_bios: Vec<u8>,
}

impl View for Memories {
    type V = RamModel;

    open spec fn view(&self) -> RamModel {
        RamModel {
            main: self.main_ram@,
            shared: self.shared_wram@,
            wram7: self.arm7_wram@,
            itcm: self.itcm@,
            dtcm: self.dtcm@,
            palette: self.palette_ram@,
            oam: self.oam@,
            bios9: self.arm9_bios@,
            bios7: self.arm7_bios@,
        }
    }
}

fn image(handler: &[u32]) -> (bios: Vec<u8>)
    requires
        handler@.len() <= 16,
    ensures
        bios@ == bios_image(handler@),
{
    let mut bios: Vec<u8> = vec![0u8; BIOS_BYTES];
    let mut i: usize = 0;
    while i < handler.len()
        invariant
            handler@.len() <= 16,
            0 <= i <= handler@.len(),
            bios@.len() == BIOS_BYTES,
            forall|k: int|
                0 <= k < BIOS_BYTES ==> #[trigger] bios@[k] == (if 0x18 <= k < 0x18 + 4 * i {
                    bytes::byte_of(handler@[(k - 0x18) / 4], (k - 0x18) % 4)
                } else {
                    0u8
                }),
        decreases handler@.len() - i,
    {
        let w: u32 = handler[i];
        bios[0x18 + i * 4] = bytes::get_byte(w, 0);
        bios[0x19 + i * 4] = bytes::get_byte(w, 1);
        bios[0x1A + i * 4] = bytes::get_byte(w, 2);
        bios[0x1B + i * 4] = bytes::get_byte(w, 3);
        i = i + 1;
    }
    assert(bios@ =~= bios_image(handler@));
    bios
}

impl Memories {
    pub fn new() -> (r: Self)
        ensures
            r@ == RamModel::fresh(),
            r@.wf(),
    {
        let r = Memories {
            main_ram: vec![0u8; MAIN_RAM_BYTES],
            shared_wram: vec![0u8; SHARED_WRAM_BYTES],
            arm7_wram: vec![0u8; ARM7_WRAM_BYTES],
            itcm: vec![0u8; ITCM_BYTES],
            dtcm: vec![0u8; DTCM_BYTES],
            palette_ram: [0u8; 4096],
            oam: [0u8; 2048],
            arm9_bios: image(BIOS9_HANDLER.as_slice()),
            arm7_bios: image(BIOS7_HANDLER.as_slice()),
        };
        proof {
            lemma_blank(r@);
        }
        r
    }

    /// Clears everything but the start-up images.
    pub fn clear(&mut self)
        ensures
            final(self)@ == old(self)@.cleared(),
    {
        self.main_ram = vec![0u8; MAIN_RAM_BYTES];
        self.shared_wram = vec![0u8; SHARED_WRAM_BYTES];
        self.arm7_wram = vec![0u8; ARM7_WRAM_BYTES];
        self.itcm = vec![0u8; ITCM_BYTES];
        self.dtcm = vec![0u8; DTCM_BYTES];
        self.palette_ram = [0u8; 4096];
        self.oam = [0u8; 2048];
        proof {
            lemma_blank(self@);
        }
    }

    pub fn get(&self, s: Spot) -> (v: u8)
        requires
            self@.wf(),
            s.index() < s.limit(),
        ensures
            v == self@.byte(s),
    {
        match s {
            Spot::Main(i) => self.main_ram[i],
            Spot::Shared(i) => self.shared_wram[i],
            Spot::Wram7(i) => self.arm7_wram[i],
            Spot::Itcm(i) => self.itcm[i],
            Spot::Dtcm(i) => self.dtcm[i],
            Spot::Palette(i) => self.palette_ram[i],
            Spot::Oam(i) => self.oam[i],
            Spot::Bios9(i) => self.arm9_bios[i],
            Spot::Bios7(i) => self.arm7_bios[i],
        }
    }

    pub fn put(&mut self, s: Spot, v: u8)
        requires
            old(self)@.wf(),
            s.index() < s.limit(),
        ensures
            final(self)@ == old(self)@.with_byte(s, v),
            final(self)@.wf(),
    {
        match s {
            Spot::Main(i) => {
                self.main_ram[i] = v;
            },
            Spot::Shared(i) => {
                self.shared_wram[i] = v;
            },
            Spot::Wram7(i) => {
                self.arm7_wram[i] = v;
            },
            Spot::Itcm(i) => {
                self.itcm[i] = v;
            },
            Spot::Dtcm(i) => {
                self.dtcm[i] = v;
            },
            Spot::Palette(i) => {
                self.palette_ram[i] = v;
            },
            Spot::Oam(i) => {
                self.oam[i] = v;
            },
            Spot::Bios9(i) => {
                self.arm9_bios[i] = v;
            },
            Spot::Bios7(i) => {
                self.arm7_bios[i] = v;
            },
        }
    }

    pub fn get_halfword(&self, s: Spot) -> (v: u16)
        requires
            self@.wf(),
            s.index() + 2 <= s.limit(),
        ensures
            v == self@.halfword(s),
    {
        bytes::halfword(self.get(s), self.get(s.offset_by(1)))
    }

    pub fn get_word(&self, s: Spot) -> (v: u32)
        requires
            self@.wf(),
            s.index() + 4 <= s.limit(),
        ensures
            v == self@.word(s),
    {
        bytes::word(
            self.get(s),
            self.get(s.offset_by(1)),
            self.get(s.offset_by(2)),
            self.get(s.offset_by(3)),
        )
    }

    pub fn put_halfword(&mut self, s: Spot, v: u16)
        requires
            old(self)@.wf(),
            s.index() + 2 <= s.limit(),
        ensures
            final(self)@ == old(self)@.with_halfword(s, v),
            final(self)@.wf(),
    {
        self.put(s, bytes::low_byte(v));
        self.put(s.offset_by(1), bytes::high_byte(v));
    }

    pub fn put_word(&mut self, s: Spot, v: u32)
        requires
            old(self)@.wf(),
            s.index() + 4 <= s.limit(),
        ensures
            final(self)@ == old(self)@.with_word(s, v),
            final(self)@.wf(),
    {
        self.put(s, bytes::get_byte(v, 0));
        self.put(s.offset_by(1), bytes::get_byte(v, 1));
        self.put(s.offset_by(2), bytes::get_byte(v, 2));
        self.put(s.offset_by(3), bytes::get_byte(v, 3));
    }
}

proof fn lemma_blank(m: RamModel)
    requires
        m.main.len() == MAIN_RAM_BYTES,
        m.shared.len() == SHARED_WRAM_BYTES,
        m.wram7.len() == ARM7_WRAM_BYTES,
        m.itcm.len() == ITCM_BYTES,
        m.dtcm.len() == DTCM_BYTES,
        m.palette.len() == 4096,
        m.oam.len() == 2048,
        forall|i: int| 0 <= i < m.main.len() ==> #[trigger] m.main[i] == 0,
        forall|i: int| 0 <= i < m.shared.len() ==> #[trigger] m.shared[i] == 0,
        forall|i: int| 0 <= i < m.wram7.len() ==> #[trigger] m.wram7[i] == 0,
        forall|i: int| 0 <= i < m.itcm.len() ==> #[trigger] m.itcm[i] == 0,
        forall|i: int| 0 <= i < m.dtcm.len() ==> #[trigger] m.dtcm[i] == 0,
        forall|i: int| 0 <= i < m.palette.len() ==> #[trigger] m.palette[i] == 0,
        forall|i: int| 0 <= i < m.oam.len() ==> #[trigger] m.oam[i] == 0,
    ensures
        m == m.cleared(),
{
    let b = RamModel::blank();
    assert(m.main =~= b.main);
    assert(m.shared =~= b.shared);
    assert(m.wram7 =~= b.wram7);
    assert(m.itcm =~= b.itcm);
    assert(m.dtcm =~= b.dtcm);
    assert(m.palette =~= b.palette);
    assert(m.oam =~= b.oam);
}

/// A stored byte reads back, and no other byte changes.
pub proof fn law_memory_read_after_write(m: RamModel, s: Spot, t: Spot, v: u8)
    requires
        m.wf(),
        s.index() < s.limit(),
        t.index() < t.limit(),
    ensures
        m.with_byte(s, v).byte(s) == v,
        s != t ==> m.with_byte(s, v).byte(t) == m.byte(t),
{
}

impl RamModel {
    /// Memories that resume from saved ones; the start-up images are not saved.
    pub open spec fn resumed(self, saved: RamModel) -> RamModel {
        RamModel { bios9: self.bios9, bios7: self.bios7, ..saved }
    }
}

/// The memories that a saved machine can have in another size.
#[derive(Clone, Copy, Debug, PartialEq, Eq, Structural)]
pub enum Misfit {
    Main,
    Shared,
    Wram7,
    Itcm,
    Dtcm,
}

impl RamModel {
    /// The first memory that does not have its size, if there is one.
    pub open spec fn misfit(self) -> Option<Misfit> {
        if self.main.len() != MAIN_RAM_BYTES {
            Some(Misfit::Main)
        } else if self.shared.len() != SHARED_WRAM_BYTES {
            Some(Misfit::Shared)
        } else if self.wram7.len() != ARM7_WRAM_BYTES {
            Some(Misfit::Wram7)
        } else if self.itcm.len() != ITCM_BYTES {
            Some(Misfit::Itcm)
        } else if self.dtcm.len() != DTCM_BYTES {
            Some(Misfit::Dtcm)
        } else {
            None
        }
    }
}

impl Memories {
    /// The first memory that does not have its size.
    pub fn misfit(&self) -> (r: Option<Misfit>)
        ensures
            r == self@.misfit(),
    {
        if self.main_ram.len() != MAIN_RAM_BYTES {
            Some(Misfit::Main)
        } else if self.shared_wram.len() != SHARED_WRAM_BYTES {
            Some(Misfit::Shared)
        } else if self.arm7_wram.len() != ARM7_WRAM_BYTES {
            Some(Misfit::Wram7)
        } else if self.itcm.len() != ITCM_BYTES {
            Some(Misfit::Itcm)
        } else if self.dtcm.len() != DTCM_BYTES {
            Some(Misfit::Dtcm)
        } else {
            None
        }
    }

    /// Takes the contents of saved memories over.
    pub fn resume_from(&mut self, saved: &Memories)
        ensures
            final(self)@ == old(self)@.resumed(saved@),
    {
        self.main_ram = bytes::copied(&saved.main_ram);
        self.shared_wram = bytes::copied(&saved.shared_wram);
        self.arm7_wram = bytes::copied(&saved.arm7_wram);
        self.itcm = bytes::copied(&saved.itcm);
        self.dtcm = bytes::copied(&saved.dtcm);
        self.palette_ram = saved.palette_ram;
        self.oam = saved.oam;
    }
}

} // verus!

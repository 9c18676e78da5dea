//! Tracking of stores to pages that hold compiled code.

use vstd::prelude::*;
use crate::mmu::memory::Spot;

verus! {

/// Bytes per tracked page.
pub const CODE_PAGE_BYTES: usize = 0x1000;

/// Page mask bit: the page holds compiled code of the first processor.
pub const CODE_MASK_ARM9: u8 = 1;

/// Page mask bit: the page holds compiled code of the second processor.
pub const CODE_MASK_ARM7: u8 = 2;

/// Tracked pages, in order: main memory, then the memories below, each from its
/// base on.
pub const CODE_BASE_ITCM: usize = 1024;

pub const CODE_BASE_WRAM7: usize = 1032;

pub const CODE_BASE_BIOS9: usize = 1048;

pub const CODE_BASE_BIOS7: usize = 1052;

pub const CODE_BASE_SHARED: usize = 1056;

pub const CODE_PAGES: usize = 1120;

/// First tracked page of the memory a place is in; none for memories that are
/// never executed.
pub open spec fn page_base(s: Spot) -> Option<int> {
    match s {
        Spot::Main(i) => Some(0int),
        Spot::Itcm(i) => Some(CODE_BASE_ITCM as int),
        Spot::Wram7(i) => Some(CODE_BASE_WRAM7 as int),
        Spot::Bios9(i) => Some(CODE_BASE_BIOS9 as int),
        Spot::Bios7(i) => Some(CODE_BASE_BIOS7 as int),
        Spot::Shared(i) => Some(CODE_BASE_SHARED as int),
        _ => None,
    }
}

/// Tracked page of a place.
pub open spec fn page_of(s: Spot) -> Option<int> {
    match page_base(s) {
        Some(base) => Some(base + s.index() / CODE_PAGE_BYTES as int),
        None => None,
    }
}

/// Page versions, the switch, the pages with compiled code, and the epochs.
pub struct CodeModel {
    pub versions: Seq<u32>,
    pub watch: bool,
    pub blocks: Seq<u8>,
    pub epoch9: u64,
    pub epoch7: u64,
}

/// Every version moved on by one.
pub open spec fn all_moved(v: Seq<u32>) -> Seq<u32> {
    Seq::new(v.len(), |i: int| v[i].wrapping_add(1))
}

impl CodeModel {
    pub open spec fn wf(self) -> bool {
        &&& self.versions.len() == CODE_PAGES
        &&& self.blocks.len() == CODE_PAGES
    }

    pub open spec fn fresh() -> CodeModel {
        CodeModel {
            versions: Seq::new(CODE_PAGES as nat, |i: int| 0u32),
            watch: false,
            blocks: Seq::new(CODE_PAGES as nat, |i: int| 0u8),
            epoch9: 0,
            epoch7: 0,
        }
    }

    /// State with a page marked as holding compiled code.
    pub open spec fn marked(self, page: int, mask: u8) -> CodeModel {
        if 0 <= page < self.blocks.len() {
            CodeModel { blocks: self.blocks.update(page, self.blocks[page] | mask), ..self }
        } else {
            self
        }
    }

    /// Version of a page, zero for one that is not tracked.
    pub open spec fn version(self, page: int) -> u32 {
        if 0 <= page < self.versions.len() {
            self.versions[page]
        } else {
            0
        }
    }

    /// State after everything compiled is discarded.
    pub open spec fn invalidated(self) -> CodeModel {
        CodeModel {
            versions: all_moved(self.versions),
            epoch9: self.epoch9.wrapping_add(1),
            epoch7: self.epoch7.wrapping_add(1),
            ..self
        }
    }

    /// State after a store to a page: its version moves, and the epoch of each
    /// processor that has compiled code there.
    pub open spec fn dirtied(self, page: int) -> CodeModel {
        if !self.watch || !(0 <= page < self.versions.len()) {
            self
        } else {
            let mask = self.blocks[page];
            CodeModel {
                versions: self.versions.update(page, self.versions[page].wrapping_add(1)),
                epoch9: if (mask & CODE_MASK_ARM9) != 0 {
                    self.epoch9.wrapping_add(1)
                } else {
                    self.epoch9
                },
                epoch7: if (mask & CODE_MASK_ARM7) != 0 {
                    self.epoch7.wrapping_add(1)
                } else {
                    self.epoch7
                },
                ..self
            }
        }
    }

    /// State after a store to each of the pages `first..=last`.
    pub open spec fn dirtied_pages(self, first: int, last: int) -> CodeModel
        decreases last - first + 1,
    {
        if first > last {
            self
        } else {
            self.dirtied_pages(first, last - 1).dirtied(last)
        }
    }

    /// State after a store of `len` bytes from a place on.
    pub open spec fn touched(self, s: Spot, len: int) -> CodeModel {
        let end = if len > 0 {
            s.index() + len - 1
        } else {
            s.index()
        };
        match page_base(s) {
            Some(base) => if s.writable() {
                self.dirtied_pages(
                    base + s.index() / CODE_PAGE_BYTES as int,
                    base + end / CODE_PAGE_BYTES as int,
                )
            } else {
                self
            },
            None => self,
        }
    }
}

/// Code tracking state.
pub struct CodeTracker {
    pub code_versions: Vec<u32>,
    /// Whether stores are tracked at all.
    pub code_watch: bool,
    /// Per page, the processors that have compiled code there.
    pub code_block_pages: Vec<u8>,
    pub code_write_epoch: u64,
    pub code_write_epoch7: u64,
}

impl View for CodeTracker {
    type V = CodeModel;

    open spec fn view(&self) -> CodeModel {
        CodeModel {
            versions: self.code_versions@,
            watch: self.code_watch,
            blocks: self.code_block_pages@,
            epoch9: self.code_write_epoch,
            epoch7: self.code_write_epoch7,
        }
    }
}

impl CodeTracker {
    pub fn new() -> (r: Self)
        ensures
            r@ == CodeModel::fresh(),
            r@.wf(),
    {
        let r = CodeTracker {
            code_versions: vec![0u32; CODE_PAGES],
            code_watch: false,
            code_block_pages: vec![0u8; CODE_PAGES],
            code_write_epoch: 0,
            code_write_epoch7: 0,
        };
        assert(r@.versions =~= CodeModel::fresh().versions);
        assert(r@.blocks =~= CodeModel::fresh().blocks);
        r
    }

    /// Discards everything compiled by moving every page version.
    pub fn invalidate_all(&mut self)
        ensures
            final(self)@ == old(self)@.invalidated(),
    {
        let ghost v0 = self.code_versions@;
        let mut i: usize = 0;
        while i < self.code_versions.len()
            invariant
                0 <= i <= self.code_versions@.len(),
                self.code_versions@.len() == v0.len(),
                v0 == old(self)@.versions,
                forall|k: int|
                    0 <= k < v0.len() ==> #[trigger] self.code_versions@[k] == (if k < i {
                        v0[k].wrapping_add(1)
                    } else {
                        v0[k]
                    }),
                self@ == (CodeModel { versions: self.code_versions@, ..old(self)@ }),
            decreases v0.len() - i,
        {
            self.code_versions[i] = self.code_versions[i].wrapping_add(1);
            i = i + 1;
        }
        assert(self.code_versions@ =~= all_moved(v0));
        self.code_write_epoch = self.code_write_epoch.wrapping_add(1);
        self.code_write_epoch7 = self.code_write_epoch7.wrapping_add(1);
    }

    /// Version of a page, zero for one that is not tracked.
    pub fn version(&self, page: usize) -> (v: u32)
        ensures
            v == self@.version(page as int),
    {
        if page < self.code_versions.len() {
            self.code_versions[page]
        } else {
            0
        }
    }

    /// Records that a page holds compiled code of the processors in `mask`.
    pub fn mark(&mut self, page: usize, mask: u8)
        ensures
            final(self)@ == old(self)@.marked(page as int, mask),
    {
        if page < self.code_block_pages.len() {
            self.code_block_pages[page] = self.code_block_pages[page] | mask;
        }
    }

    fn dirty_page(&mut self, page: usize)
        requires
            old(self)@.wf(),
        ensures
            final(self)@ == old(self)@.dirtied(page as int),
            final(self)@.wf(),
    {
        if self.code_watch && page < self.code_versions.len() {
            self.code_versions[page] = self.code_versions[page].wrapping_add(1);
            let mask: u8 = self.code_block_pages[page];
            if (mask & CODE_MASK_ARM9) != 0 {
                self.code_write_epoch = self.code_write_epoch.wrapping_add(1);
            }
            if (mask & CODE_MASK_ARM7) != 0 {
                self.code_write_epoch7 = self.code_write_epoch7.wrapping_add(1);
            }
        }
    }

    fn dirty_pages(&mut self, base: usize, off: usize, len: u32)
        requires
            old(self)@.wf(),
            base <= CODE_BASE_SHARED,
            off <= 0x40_0000,
        ensures
            final(self)@ == old(self)@.dirtied_pages(
                base + off as int / CODE_PAGE_BYTES as int,
                base + (if len > 0 {
                    off + len - 1
                } else {
                    off as int
                }) / CODE_PAGE_BYTES as int,
            ),
            final(self)@.wf(),
    {
        let first: usize = base + off / CODE_PAGE_BYTES;
        let end: u64 = if len > 0 {
            off as u64 + len as u64 - 1
        } else {
            off as u64
        };
        let last: usize = base + (end / CODE_PAGE_BYTES as u64) as usize;
        if !self.code_watch {
            proof {
                lemma_unwatched(self@, first as int, last as int);
            }
            return;
        }
        let mut page: usize = first;
        while page <= last
            invariant
                first <= page <= last + 1,
                last <= CODE_BASE_SHARED + 0x8000_0000,
                self@ == old(self)@.dirtied_pages(first as int, page - 1),
                self@.wf(),
            decreases last + 1 - page,
        {
            self.dirty_page(page);
            page = page + 1;
        }
    }

    /// Notes a store of `len` bytes from a place on.
    pub fn touch(&mut self, s: Spot, len: u32)
        requires
            old(self)@.wf(),
            s.index() <= s.limit(),
        ensures
            final(self)@ == old(self)@.touched(s, len as int),
            final(self)@.wf(),
    {
        match s {
            Spot::Main(i) => self.dirty_pages(0, i, len),
            Spot::Itcm(i) => self.dirty_pages(CODE_BASE_ITCM, i, len),
            Spot::Wram7(i) => self.dirty_pages(CODE_BASE_WRAM7, i, len),
            Spot::Shared(i) => self.dirty_pages(CODE_BASE_SHARED, i, len),
            _ => {},
        }
    }
}

proof fn lemma_unwatched(c: CodeModel, first: int, last: int)
    requires
        !c.watch,
    ensures
        c.dirtied_pages(first, last) == c,
    decreases last - first + 1,
{
    if first <= last {
        lemma_unwatched(c, first, last - 1);
    }
}

/// Compiled code cannot outlive a store to its page: while tracking is on, a
/// store to a byte moves the version of that byte's page and of no other.
pub proof fn law_store_moves_the_page_version(c: CodeModel, s: Spot, other: int)
    requires
        c.wf(),
        c.watch,
        s.index() < s.limit(),
        s.writable(),
        page_of(s) is Some,
        0 <= other < CODE_PAGES,
    ensures
        c.touched(s, 1).version(page_of(s)->0) == c.version(page_of(s)->0).wrapping_add(1),
        other != page_of(s)->0 ==> c.touched(s, 1).version(other) == c.version(other),
{
    reveal_with_fuel(CodeModel::dirtied_pages, 2);
}

/// A store moves the epoch of a processor only if that processor has compiled
/// code on the page.
pub proof fn law_epochs_move_for_the_owner_only(c: CodeModel, s: Spot)
    requires
        c.wf(),
        s.index() < s.limit(),
        page_of(s) is Some,
    ensures
        (c.blocks[page_of(s)->0] & CODE_MASK_ARM9) == 0 ==> c.touched(s, 1).epoch9 == c.epoch9,
        (c.blocks[page_of(s)->0] & CODE_MASK_ARM7) == 0 ==> c.touched(s, 1).epoch7 == c.epoch7,
{
    reveal_with_fuel(CodeModel::dirtied_pages, 2);
}

/// Discarding everything moves every page version and both epochs.
pub proof fn law_invalidation_is_wholesale(c: CodeModel, page: int)
    requires
        c.wf(),
        0 <= page < CODE_PAGES,
    ensures
        c.invalidated().version(page) == c.version(page).wrapping_add(1),
        c.invalidated().epoch9 == c.epoch9.wrapping_add(1),
        c.invalidated().epoch7 == c.epoch7.wrapping_add(1),
{
}

} // verus!

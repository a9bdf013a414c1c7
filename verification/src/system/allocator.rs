//! Simulated memory, allocated page by page as it is written.
use vstd::prelude::*;
use std::collections::HashMap;

verus! {

broadcast use vstd::std_specs::hash::group_hash_axioms;

/// The size of a memory page in bytes.
pub const PAGE_SIZE: usize = 2048;

/// A page of memory.
pub type Page = [u8; PAGE_SIZE];

/// Memory of the whole 32 bit address space, held as the pages that have
/// been written; a page that was never written reads as zeros.
pub struct BlockAllocator {
    memory: HashMap<u32, Page>,
}

/// The page that holds address `a`.
pub open spec fn page_of(a: int) -> int {
    a / (PAGE_SIZE as int)
}

/// The offset of address `a` in its page.
pub open spec fn offset_of(a: int) -> int {
    a % (PAGE_SIZE as int)
}

/// The byte at address `a` of a memory held as the pages `m`.
pub open spec fn byte_in(m: Map<u32, Page>, a: int) -> u8 {
    let p = page_of(a);
    if 0 <= p <= u32::MAX && m.contains_key(p as u32) {
        m[p as u32][offset_of(a)]
    } else {
        0
    }
}

/// The `n` bytes of `m` that start at `addr`.
pub open spec fn bytes_in(m: Map<u32, Page>, addr: int, n: nat) -> Seq<u8> {
    Seq::new(n, |i: int| byte_in(m, addr + i))
}

/// `after` holds `values` at `addr` and what `before` held everywhere else.
pub open spec fn written(before: Map<u32, Page>, after: Map<u32, Page>, addr: int, values: Seq<u8>) -> bool {
    forall|a: int|
        #![trigger byte_in(after, a)]
        byte_in(after, a) == if addr <= a < addr + values.len() {
            values[a - addr]
        } else {
            byte_in(before, a)
        }
}

/// What a write of `values` at `addr` reads back: the values themselves.
pub proof fn lemma_read_after_write(before: Map<u32, Page>, after: Map<u32, Page>, addr: int, values: Seq<u8>)
    requires
        written(before, after, addr, values),
    ensures
        bytes_in(after, addr, values.len()) == values,
{
    assert forall|i: int| 0 <= i < values.len() implies bytes_in(after, addr, values.len())[i]
        == values[i] by {
        assert(byte_in(after, addr + i) == values[i]);
    }
    assert(bytes_in(after, addr, values.len()) =~= values);
}

/// A write leaves every range that does not overlap it as it was.
pub proof fn lemma_write_leaves_others(
    before: Map<u32, Page>,
    after: Map<u32, Page>,
    addr: int,
    values: Seq<u8>,
    other: int,
    n: nat,
)
    requires
        written(before, after, addr, values),
        other + n <= addr || addr + values.len() <= other,
    ensures
        bytes_in(after, other, n) == bytes_in(before, other, n),
{
    assert forall|i: int| 0 <= i < n implies bytes_in(after, other, n)[i] == bytes_in(
        before,
        other,
        n,
    )[i] by {
        assert(byte_in(after, other + i) == byte_in(before, other + i));
    }
    assert(bytes_in(after, other, n) =~= bytes_in(before, other, n));
}

impl BlockAllocator {
    /// The pages that have been allocated, by page number.
    pub closed spec fn pages_map(&self) -> Map<u32, Page> {
        self.memory@
    }

    /// Only finitely many pages are ever allocated.
    pub proof fn lemma_pages_finite(&self)
        ensures
            self.pages_map().dom().finite(),
    {
        broadcast use vstd::std_specs::hash::axiom_hashmap_view_finite_dom;
    }

    /// The byte at address `a`.
    pub open spec fn byte(&self, a: int) -> u8 {
        byte_in(self.pages_map(), a)
    }

    /// A memory of one zeroed page, page 0.
    pub fn create() -> (r: Self)
        ensures
            r.pages_map() == map![0u32 => [0u8; PAGE_SIZE]],
            forall|a: int| #[trigger] r.byte(a) == 0,
    {
        let mut mem: HashMap<u32, Page> = HashMap::new();
        mem.insert(0u32, [0u8; PAGE_SIZE]);
        let r = Self { memory: mem };
        assert(r.pages_map() =~= map![0u32 => [0u8; PAGE_SIZE]]);
        r
    }

    /// A memory of the given pages.
    pub fn init(memory: HashMap<u32, Page>) -> (r: Self)
        ensures
            r.pages_map() == memory@,
    {
        Self { memory }
    }

    /// A memory holding `data` from address 0, one page for each started
    /// block of `PAGE_SIZE` bytes.
    pub fn fill(data: &[u8]) -> (r: Self)
        requires
            data@.len() <= 0x1_0000_0000,
        ensures
            forall|a: int| 0 <= a < data@.len() ==> #[trigger] r.byte(a) == data@[a],
            forall|a: int| a < 0 || a >= data@.len() ==> #[trigger] r.byte(a) == 0,
            r.pages_map().dom() == Set::new(|p: u32| (p as int) * (PAGE_SIZE as int) < data@.len()),
    {
        let mut memory: HashMap<u32, Page> = HashMap::new();
        let len: u64 = data.len() as u64;
        let mut page_num: u64 = 0;
        let mut start: u64 = 0;
        while start < len
            invariant
                len == data@.len(),
                len <= 0x1_0000_0000,
                start == page_num * (PAGE_SIZE as int),
                start <= len + PAGE_SIZE,
                page_num == 0 || (page_num - 1) * (PAGE_SIZE as int) < len,
                forall|p: u32| #[trigger] memory@.contains_key(p) <==> (p as int) < page_num,
                forall|p: u32, o: int|
                    (p as int) < page_num && 0 <= o < PAGE_SIZE ==> #[trigger] memory@[p][o]
                        == if (p as int) * (PAGE_SIZE as int) + o < len {
                        data@[(p as int) * (PAGE_SIZE as int) + o]
                    } else {
                        0u8
                    },
            decreases len + PAGE_SIZE - start,
        {
            let mut page: Page = [0u8; PAGE_SIZE];
            let mut o: u64 = 0;
            while o < PAGE_SIZE as u64 && o < len - start
                invariant
                    len == data@.len(),
                    start < len,
                    o <= PAGE_SIZE,
                    start + o <= len,
                    forall|k: int|
                        0 <= k < PAGE_SIZE ==> #[trigger] page[k] == if k < o {
                            data@[start + k]
                        } else {
                            0u8
                        },
                decreases PAGE_SIZE - o,
            {
                page[o as usize] = data[(start + o) as usize];
                o = o + 1;
            }
            proof {
                assert forall|k: int| 0 <= k < PAGE_SIZE implies #[trigger] page[k] == if start + k
                    < len {
                    data@[start + k]
                } else {
                    0u8
                } by {}
            }
            memory.insert(page_num as u32, page);
            page_num = page_num + 1;
            start = start + PAGE_SIZE as u64;
        }
        let r = Self { memory };
        proof {
            assert forall|a: int| 0 <= a < data@.len() implies #[trigger] r.byte(a) == data@[a] by {
                let p = page_of(a);
                assert(p * (PAGE_SIZE as int) + offset_of(a) == a);
                assert(p < page_num);
                assert(memory@.contains_key(p as u32));
            }
            assert forall|a: int| a < 0 || a >= data@.len() implies #[trigger] r.byte(a) == 0 by {
                let p = page_of(a);
                assert(p * (PAGE_SIZE as int) + offset_of(a) == a);
                if 0 <= p <= u32::MAX && memory@.contains_key(p as u32) {
                    assert(memory@[p as u32][offset_of(a)] == 0u8);
                }
            }
            assert(r.pages_map().dom() =~= Set::new(
                |p: u32| (p as int) * (PAGE_SIZE as int) < data@.len(),
            ));
        }
        r
    }

    /// The bytes from `start` to `inclusive_end`, both included.
    pub fn view(&self, start: u32, inclusive_end: u32) -> (r: Vec<u8>)
        ensures
            r@ == bytes_in(
                self.pages_map(),
                start as int,
                if start <= inclusive_end {
                    (inclusive_end - start + 1) as nat
                } else {
                    0
                },
            ),
    {
        let mut result: Vec<u8> = Vec::new();
        if start > inclusive_end {
            proof {
                assert(result@ =~= bytes_in(self.pages_map(), start as int, 0));
            }
            return result;
        }
        let count: u64 = (inclusive_end - start) as u64 + 1;
        let mut k: u64 = 0;
        while k < count
            invariant
                count == (inclusive_end - start) as u64 + 1,
                start <= inclusive_end,
                k <= count,
                result@ == bytes_in(self.pages_map(), start as int, k as nat),
            decreases count - k,
        {
            let addr: u64 = start as u64 + k;
            let page_num: u64 = addr / (PAGE_SIZE as u64);
            let offset: usize = (addr % (PAGE_SIZE as u64)) as usize;
            let b: u8 = if page_num <= u32::MAX as u64 {
                match self.memory.get(&(page_num as u32)) {
                    Some(page) => page[offset],
                    None => 0,
                }
            } else {
                0
            };
            result.push(b);
            proof {
                assert(result@ =~= bytes_in(self.pages_map(), start as int, (k + 1) as nat));
            }
            k = k + 1;
        }
        result
    }

    /// The number of allocated pages.
    pub fn pages(&self) -> (r: usize)
        ensures
            r == self.pages_map().len(),
    {
        self.memory.len()
    }

    /// The four bytes of an instruction fetch at `addr`: zeros where the page
    /// of `addr` was never written; a fetch that reaches past the page of
    /// `addr` (only from its last half word) reads the next page.
    pub fn get_instr_32b(&self, addr: u32) -> (r: [u8; 4])
        requires
            !self.pages_map().contains_key(addr / (PAGE_SIZE as u32)) || offset_of(addr as int) + 4
                <= PAGE_SIZE || offset_of(addr as int) == PAGE_SIZE - 2,
        ensures
            r@ == if self.pages_map().contains_key(addr / (PAGE_SIZE as u32)) {
                bytes_in(self.pages_map(), addr as int, 4)
            } else {
                seq![0u8, 0u8, 0u8, 0u8]
            },
    {
        let page_num: u32 = addr / (PAGE_SIZE as u32);
        let offset: usize = (addr % (PAGE_SIZE as u32)) as usize;
        match self.memory.get(&page_num) {
            Some(page) => {
                if offset + 4 <= PAGE_SIZE {
                    let r = [page[offset], page[offset + 1], page[offset + 2], page[offset + 3]];
                    proof {
                        assert(r@ =~= bytes_in(self.pages_map(), addr as int, 4));
                    }
                    r
                } else {
                    let end_page_num: u32 = page_num + 1;
                    let mut word: [u8; 4] = [page[PAGE_SIZE - 2], page[PAGE_SIZE - 1], 0, 0];
                    match self.memory.get(&end_page_num) {
                        Some(next_page) => {
                            word[2] = next_page[0];
                            word[3] = next_page[1];
                        },
                        None => {},
                    }
                    proof {
                        assert(word@ =~= bytes_in(self.pages_map(), addr as int, 4));
                    }
                    word
                }
            },
            None => {
                let r = [0u8; 4];
                proof {
                    assert(r@ =~= seq![0u8, 0u8, 0u8, 0u8]);
                }
                r
            },
        }
    }

    /// The `T` bytes at `addr`, which lie in one page.
    pub fn get<const T: usize>(&self, addr: u32) -> (r: [u8; T])
        requires
            offset_of(addr as int) + T <= PAGE_SIZE,
        ensures
            r@ == bytes_in(self.pages_map(), addr as int, T as nat),
    {
        let page_num: u32 = addr / (PAGE_SIZE as u32);
        let offset: usize = (addr % (PAGE_SIZE as u32)) as usize;
        let mut r: [u8; T] = [0u8; T];
        match self.memory.get(&page_num) {
            Some(page) => {
                let mut i: usize = 0;
                while i < T
                    invariant
                        offset + T <= PAGE_SIZE,
                        offset == offset_of(addr as int),
                        page_num == addr / (PAGE_SIZE as u32),
                        self.pages_map().contains_key(page_num),
                        *page == self.pages_map()[page_num],
                        i <= T,
                        forall|k: int| 0 <= k < i ==> #[trigger] r[k] == byte_in(self.pages_map(), addr + k),
                    decreases T - i,
                {
                    r[i] = page[offset + i];
                    i = i + 1;
                }
            },
            None => {
                proof {
                    assert forall|k: int| 0 <= k < T implies #[trigger] r[k] == byte_in(
                        self.pages_map(),
                        addr + k,
                    ) by {}
                }
            },
        }
        proof {
            assert(r@ =~= bytes_in(self.pages_map(), addr as int, T as nat));
        }
        r
    }

    /// Writes the `T` bytes `values` at `addr`, which lie in one page,
    /// allocating that page if it was never written.
    pub fn put<const T: usize>(&mut self, start_addr: u32, values: [u8; T])
        requires
            offset_of(start_addr as int) + T <= PAGE_SIZE,
        ensures
            written(old(self).pages_map(), final(self).pages_map(), start_addr as int, values@),
            final(self).pages_map().dom() == old(self).pages_map().dom().insert(
                start_addr / (PAGE_SIZE as u32),
            ),
            final(self).pages_map().len() == old(self).pages_map().len() + if old(self).pages_map().dom().contains(
                start_addr / (PAGE_SIZE as u32),
            ) {
                0int
            } else {
                1int
            },
    {
        proof {
            self.lemma_pages_finite();
        }
        let page_num: u32 = start_addr / (PAGE_SIZE as u32);
        let offset: usize = (start_addr % (PAGE_SIZE as u32)) as usize;
        let mut page: Page = match self.memory.get(&page_num) {
            Some(p) => *p,
            None => [0u8; PAGE_SIZE],
        };
        let ghost old_page = page;
        let mut i: usize = 0;
        while i < T
            invariant
                offset + T <= PAGE_SIZE,
                i <= T,
                forall|k: int|
                    0 <= k < PAGE_SIZE ==> #[trigger] page[k] == if offset <= k < offset + i {
                        values[k - offset]
                    } else {
                        old_page[k]
                    },
            decreases T - i,
        {
            page[offset + i] = values[i];
            i = i + 1;
        }
        let ghost before = self.pages_map();
        self.memory.insert(page_num, page);
        proof {
            let after = self.pages_map();
            assert forall|a: int| #![trigger byte_in(after, a)] byte_in(after, a) == if start_addr
                <= a < start_addr + values@.len() {
                values@[a - start_addr]
            } else {
                byte_in(before, a)
            } by {
                if page_of(a) == page_num as int {
                    assert(a == page_num * (PAGE_SIZE as int) + offset_of(a));
                }
            }
            assert(after.dom() =~= before.dom().insert(page_num));
            if !before.dom().contains(page_num) {
                vstd::set::axiom_set_insert_len(before.dom(), page_num);
            } else {
                assert(before.dom().insert(page_num) =~= before.dom());
            }
        }
    }
}


/// The pages that loading `len` bytes at `start` allocates: from the page
/// of `start` to the page of the address after the last byte, which is the
/// page after the last byte where that byte ends a page.
pub open spec fn section_pages(start: u32, len: nat) -> Set<u32> {
    Set::new(|p: u32| start / (PAGE_SIZE as u32) <= p && p <= (start + len) / (PAGE_SIZE as int))
}

impl BlockAllocator {
    /// Allocates page `page_num`, zeroed, unless it is allocated.
    fn ensure_page(&mut self, page_num: u32)
        ensures
            final(self).pages_map().dom() == old(self).pages_map().dom().insert(page_num),
            forall|a: int| #[trigger] byte_in(final(self).pages_map(), a) == byte_in(old(self).pages_map(), a),
    {
        if !self.memory.contains_key(&page_num) {
            let ghost before = self.pages_map();
            self.memory.insert(page_num, [0u8; PAGE_SIZE]);
            proof {
                assert forall|a: int| #[trigger] byte_in(self.pages_map(), a) == byte_in(before, a) by {
                    let p = page_of(a);
                    if 0 <= p <= u32::MAX && p as u32 == page_num {
                        assert(self.pages_map()[page_num][offset_of(a)] == 0);
                    }
                }
            }
        } else {
            proof {
                assert(self.pages_map().dom() =~= old(self).pages_map().dom().insert(page_num));
            }
        }
    }

    /// Writes `data` at `start`, page by page; the page of `start` is
    /// allocated, and so is the page after a byte that ends a page.
    pub fn map_section(&mut self, start: u32, data: &[u8])
        requires
            start + data@.len() <= 0x1_0000_0000,
        ensures
            written(old(self).pages_map(), final(self).pages_map(), start as int, data@),
            final(self).pages_map().dom() == old(self).pages_map().dom().union(section_pages(start, data@.len())),
    {
        let ghost m0 = self.pages_map();
        let mut page_num: u32 = start / (PAGE_SIZE as u32);
        let mut offset: u32 = start - page_num * (PAGE_SIZE as u32);
        self.ensure_page(page_num);
        let mut i: usize = 0;
        while i < data.len()
            invariant
                start + data@.len() <= 0x1_0000_0000,
                i <= data@.len(),
                page_num as int * (PAGE_SIZE as int) + offset == start + i,
                offset < PAGE_SIZE,
                written(m0, self.pages_map(), start as int, data@.take(i as int)),
                self.pages_map().dom() == m0.dom().union(section_pages(start, i as nat)),
            decreases data@.len() - i,
        {
            let ghost before = self.pages_map();
            let addr: u32 = page_num * (PAGE_SIZE as u32) + offset;
            self.put::<1>(addr, [data[i]]);
            proof {
                assert forall|a: int| #![trigger byte_in(self.pages_map(), a)] byte_in(self.pages_map(), a) == if start <= a < start + i + 1 {
                    data@.take(i + 1)[a - start]
                } else {
                    byte_in(m0, a)
                } by {
                    if a == addr {
                        assert([data@[i as int]]@[0] == data@[i as int]);
                    }
                }
            }
            if offset == (PAGE_SIZE as u32) - 1 {
                page_num = page_num + 1;
                offset = 0;
                self.ensure_page(page_num);
            } else {
                offset = offset + 1;
            }
            proof {
                assert(self.pages_map().dom() =~= m0.dom().union(section_pages(start, (i + 1) as nat)));
            }
            i = i + 1;
        }
        proof {
            assert(data@.take(data@.len() as int) =~= data@);
        }
    }
}

} // verus!

//! A byte-level image of a foreign address space.
//!
//! The image is a list of mapped regions. Its view is a partial map from
//! addresses to bytes: an address is mapped when some region covers it, and
//! the first such region decides its byte. Every typed read is all or
//! nothing: a value whose bytes are not all mapped reads as zero, and a write
//! to a range that is not wholly mapped changes nothing.

use vstd::prelude::*;

verus! {

/// One contiguous run of mapped bytes starting at `base`.
pub struct Region {
    pub base: u64,
    pub bytes: Vec<u8>,
}

impl Region {
    /// Whether `addr` is an address of this region.
    pub open spec fn covers(&self, addr: int) -> bool {
        self.base <= addr < self.base + self.bytes@.len() && addr <= u64::MAX
    }
}

/// The byte that the regions from index `from` on hold at `addr`.
pub open spec fn region_byte(regions: Seq<Region>, addr: int, from: int) -> Option<u8>
    decreases regions.len() - from,
{
    if from < 0 || from >= regions.len() {
        None
    } else if regions[from].covers(addr) {
        Some(regions[from].bytes@[addr - regions[from].base])
    } else {
        region_byte(regions, addr, from + 1)
    }
}

/// The partial map from addresses to bytes that a list of regions stands for.
pub open spec fn image_of(regions: Seq<Region>) -> Map<int, u8> {
    Map::new(
        |a: int| region_byte(regions, a, 0) is Some,
        |a: int| region_byte(regions, a, 0).unwrap(),
    )
}

/// Two consecutive bytes are mapped.
pub open spec fn readable2(mem: Map<int, u8>, addr: int) -> bool {
    mem.dom().contains(addr) && mem.dom().contains(addr + 1)
}

/// Four consecutive bytes are mapped.
pub open spec fn readable4(mem: Map<int, u8>, addr: int) -> bool {
    readable2(mem, addr) && readable2(mem, addr + 2)
}

/// Eight consecutive bytes are mapped.
pub open spec fn readable8(mem: Map<int, u8>, addr: int) -> bool {
    readable4(mem, addr) && readable4(mem, addr + 4)
}

/// Little-endian value of the two bytes at `addr`.
pub open spec fn le16(mem: Map<int, u8>, addr: int) -> int {
    mem[addr] + 256 * mem[addr + 1]
}

/// Little-endian value of the four bytes at `addr`.
pub open spec fn le32(mem: Map<int, u8>, addr: int) -> int {
    le16(mem, addr) + 65536 * le16(mem, addr + 2)
}

/// Little-endian value of the eight bytes at `addr`.
pub open spec fn le64(mem: Map<int, u8>, addr: int) -> int {
    le32(mem, addr) + 4294967296 * le32(mem, addr + 4)
}

/// Two's-complement reading of a 16-bit pattern.
pub open spec fn signed16(raw: int) -> int {
    if raw < 32768 { raw } else { raw - 65536 }
}

/// Two's-complement reading of a 32-bit pattern.
pub open spec fn signed32(raw: int) -> int {
    if raw < 2147483648 { raw } else { raw - 4294967296 }
}

/// The 32-bit pattern of a signed value.
pub open spec fn unsigned32(value: int) -> int {
    if value < 0 { value + 4294967296 } else { value }
}

/// The address that a sum stands for in the 64-bit address space.
pub open spec fn wrap_address(value: int) -> u64 {
    (value % 0x1_0000_0000_0000_0000) as u64
}

/// What a read of one byte at `addr` yields.
pub open spec fn spec_read_u8(mem: Map<int, u8>, addr: int) -> u8 {
    if mem.dom().contains(addr) { mem[addr] } else { 0 }
}

/// What a read of an unsigned 16-bit value at `addr` yields.
pub open spec fn spec_read_u16(mem: Map<int, u8>, addr: int) -> u16 {
    if readable2(mem, addr) { le16(mem, addr) as u16 } else { 0 }
}

/// What a read of a signed 16-bit value at `addr` yields.
pub open spec fn spec_read_i16(mem: Map<int, u8>, addr: int) -> i16 {
    if readable2(mem, addr) { signed16(le16(mem, addr)) as i16 } else { 0 }
}

/// What a read of an unsigned 32-bit value at `addr` yields.
pub open spec fn spec_read_u32(mem: Map<int, u8>, addr: int) -> u32 {
    if readable4(mem, addr) { le32(mem, addr) as u32 } else { 0 }
}

/// What a read of a signed 32-bit value at `addr` yields.
pub open spec fn spec_read_i32(mem: Map<int, u8>, addr: int) -> i32 {
    if readable4(mem, addr) { signed32(le32(mem, addr)) as i32 } else { 0 }
}

/// What a read of an unsigned 64-bit value at `addr` yields.
pub open spec fn spec_read_u64(mem: Map<int, u8>, addr: int) -> u64 {
    if readable8(mem, addr) { le64(mem, addr) as u64 } else { 0 }
}

/// Byte `index` (0 is the lowest) of the little-endian form of `value`.
pub open spec fn le_byte(value: int, index: int) -> u8 {
    if index == 0 {
        (value % 256) as u8
    } else if index == 1 {
        ((value / 256) % 256) as u8
    } else if index == 2 {
        ((value / 65536) % 256) as u8
    } else {
        ((value / 16777216) % 256) as u8
    }
}

/// The image after a write of one byte at `addr`.
pub open spec fn store_u8(mem: Map<int, u8>, addr: int, value: u8) -> Map<int, u8> {
    if mem.dom().contains(addr) { mem.insert(addr, value) } else { mem }
}

/// The image after a write of a 32-bit pattern at `addr`.
pub open spec fn store_u32(mem: Map<int, u8>, addr: int, value: u32) -> Map<int, u8> {
    if readable4(mem, addr) {
        mem.insert(addr, le_byte(value as int, 0)).insert(addr + 1, le_byte(value as int, 1)).insert(
            addr + 2,
            le_byte(value as int, 2),
        ).insert(addr + 3, le_byte(value as int, 3))
    } else {
        mem
    }
}

/// The longest string that `Memory::read_cstring` returns.
pub const MAX_STRING_LEN: usize = 4096;

/// The bytes of the NUL-terminated string at `addr`, without the terminator.
/// The string ends before the first byte that is zero or unmapped, and after
/// `limit` bytes at the latest.
pub open spec fn spec_cstring(mem: Map<int, u8>, addr: int, limit: nat) -> Seq<u8>
    decreases limit,
{
    if limit == 0 || !mem.dom().contains(addr) || mem[addr] == 0 {
        Seq::empty()
    } else {
        seq![mem[addr]] + spec_cstring(mem, addr + 1, (limit - 1) as nat)
    }
}

/// Appending a region leaves every byte that was mapped as it was and maps
/// the new region's bytes where nothing was mapped before.
pub proof fn lemma_region_byte_push(regions: Seq<Region>, region: Region, addr: int, from: int)
    requires
        0 <= from <= regions.len(),
    ensures
        region_byte(regions.push(region), addr, from) == match region_byte(regions, addr, from) {
            Some(b) => Some(b),
            None => if region.covers(addr) {
                Some(region.bytes@[addr - region.base])
            } else {
                None
            },
        },
    decreases regions.len() - from,
{
    let longer = regions.push(region);
    if from < regions.len() {
        assert(longer[from] == regions[from]);
        if !regions[from].covers(addr) {
            lemma_region_byte_push(regions, region, addr, from + 1);
        }
    } else {
        assert(longer[from] == region);
        assert(region_byte(longer, addr, from + 1) is None);
    }
}

/// Changing one byte inside region `k` changes the image at that byte's
/// address only, provided that no earlier region covers the address.
pub proof fn lemma_region_byte_update(
    before: Seq<Region>,
    after: Seq<Region>,
    k: int,
    target: int,
    value: u8,
    addr: int,
    from: int,
)
    requires
        0 <= k < before.len(),
        0 <= from <= before.len(),
        after.len() == before.len(),
        before[k].covers(target),
        forall|j: int| 0 <= j < k ==> !#[trigger] before[j].covers(target),
        forall|j: int| 0 <= j < before.len() && j != k ==> #[trigger] after[j] == before[j],
        after[k].base == before[k].base,
        after[k].bytes@ == before[k].bytes@.update(target - before[k].base, value),
    ensures
        region_byte(after, addr, from) == if addr == target && from <= k {
            Some(value)
        } else {
            region_byte(before, addr, from)
        },
    decreases before.len() - from,
{
    if from < before.len() {
        if from == k {
            assert(after[k].covers(addr) == before[k].covers(addr));
            if !before[k].covers(addr) {
                lemma_region_byte_update(before, after, k, target, value, addr, from + 1);
            }
        } else {
            assert(after[from] == before[from]);
            if !before[from].covers(addr) {
                lemma_region_byte_update(before, after, k, target, value, addr, from + 1);
            }
        }
    }
}

/// No address outside the 64-bit address space is mapped.
pub proof fn lemma_region_byte_bounded(regions: Seq<Region>, addr: int, from: int)
    requires
        addr < 0 || addr > u64::MAX,
    ensures
        region_byte(regions, addr, from) is None,
    decreases regions.len() - from,
{
    if 0 <= from < regions.len() {
        lemma_region_byte_bounded(regions, addr, from + 1);
    }
}

/// The bytes of a 32-bit pattern, put together again, give the pattern.
pub proof fn lemma_le_bytes_compose(value: u32)
    ensures
        le_byte(value as int, 0) + 256 * le_byte(value as int, 1) + 65536 * (le_byte(
            value as int,
            2,
        ) + 256 * le_byte(value as int, 3)) == value,
{
}

/// A string read with a limit is no longer than the limit and holds no zero.
pub proof fn lemma_cstring_bounds(mem: Map<int, u8>, addr: int, limit: nat)
    ensures
        spec_cstring(mem, addr, limit).len() <= limit,
        forall|i: int|
            0 <= i < spec_cstring(mem, addr, limit).len() ==> #[trigger] spec_cstring(
                mem,
                addr,
                limit,
            )[i] != 0,
    decreases limit,
{
    if limit == 0 || !mem.dom().contains(addr) || mem[addr] == 0 {
    } else {
        lemma_cstring_bounds(mem, addr + 1, (limit - 1) as nat);
    }
}

/// Regions that cover an address nowhere in a run of the list do not decide
/// its byte.
pub proof fn lemma_region_byte_skip(regions: Seq<Region>, addr: int, from: int, to: int)
    requires
        0 <= from <= to <= regions.len(),
        forall|j: int| from <= j < to ==> !#[trigger] regions[j].covers(addr),
    ensures
        region_byte(regions, addr, from) == region_byte(regions, addr, to),
    decreases to - from,
{
    if from < to {
        lemma_region_byte_skip(regions, addr, from + 1, to);
    }
}

/// A run of addresses, `lo` to `last`, whose bytes one region decides, or
/// in which nothing is mapped.
pub struct Span {
    pub lo: u64,
    pub last: u64,
    pub region: Option<usize>,
}

/// Whether a region has no address between `lo` and `last`.
pub open spec fn misses(region: Region, lo: int, last: int) -> bool {
    forall|a: int| lo <= a <= last ==> !#[trigger] region.covers(a)
}

/// Whether a span is true of a list of regions: the region that it names
/// is the first to cover each of its addresses, or, where it names none,
/// no region covers any.
pub open spec fn span_describes(regions: Seq<Region>, span: Span) -> bool {
    &&& span.lo <= span.last
    &&& match span.region {
        Some(k) => {
            &&& k < regions.len()
            &&& forall|a: int|
                span.lo <= a <= span.last ==> regions[k as int].covers(a) && #[trigger] region_byte(
                    regions,
                    a,
                    0,
                ) == Some(regions[k as int].bytes@[a - regions[k as int].base])
        },
        None => forall|a: int|
            span.lo <= a <= span.last ==> #[trigger] region_byte(regions, a, 0) is None,
    }
}

/// The index of the first region from index `from` on that covers `addr`:
/// the region that decides the byte at `addr`.
pub open spec fn region_index(regions: Seq<Region>, addr: int, from: int) -> Option<int>
    decreases regions.len() - from,
{
    if from < 0 || from >= regions.len() {
        None
    } else if regions[from].covers(addr) {
        Some(from)
    } else {
        region_index(regions, addr, from + 1)
    }
}

/// The region that decides an address is the first that covers it.
pub proof fn lemma_region_index(regions: Seq<Region>, addr: int, from: int)
    requires
        0 <= from,
    ensures
        match region_index(regions, addr, from) {
            Some(k) => from <= k < regions.len() && regions[k].covers(addr) && forall|j: int|
                from <= j < k ==> !#[trigger] regions[j].covers(addr),
            None => forall|j: int| from <= j < regions.len() ==> !#[trigger] regions[j].covers(addr),
        },
    decreases regions.len() - from,
{
    if from < regions.len() && !regions[from].covers(addr) {
        lemma_region_index(regions, addr, from + 1);
    }
}

/// Whether the regions decide the byte at `addr` as a span says: by the
/// region that the span names, or, where it names none, not at all.
pub open spec fn decided_as(regions: Seq<Region>, addr: int, span: Span) -> bool {
    region_index(regions, addr, 0) == match span.region {
        Some(k) => Some(k as int),
        None => None,
    }
}

/// Whether a span is the longest of its kind: every address of it is
/// decided as it says, and the address before it and the address behind it,
/// where there are such, are decided otherwise.
pub open spec fn span_is_longest(regions: Seq<Region>, span: Span) -> bool {
    &&& forall|a: int| span.lo <= a <= span.last ==> #[trigger] decided_as(regions, a, span)
    &&& span.lo > 0 ==> !decided_as(regions, span.lo - 1, span)
    &&& span.last < u64::MAX ==> !decided_as(regions, span.last + 1, span)
}

/// Adds a displacement to an address; the sum wraps at the end of the
/// address space.
pub fn address_add(base: u64, delta: u64) -> (r: u64)
    ensures
        r == wrap_address(base + delta),
{
    let sum: u128 = base as u128 + delta as u128;
    if sum > u64::MAX as u128 {
        (sum - 0x1_0000_0000_0000_0000) as u64
    } else {
        sum as u64
    }
}

/// The image of a foreign address space.
pub struct Memory {
    pub regions: Vec<Region>,
}

impl View for Memory {
    type V = Map<int, u8>;

    open spec fn view(&self) -> Map<int, u8> {
        image_of(self.regions@)
    }
}

impl Memory {
    /// An image in which nothing is mapped.
    pub fn new() -> (r: Self)
        ensures
            r@ == Map::<int, u8>::empty(),
    {
        let r = Memory { regions: Vec::new() };
        assert(r@ =~= Map::<int, u8>::empty());
        r
    }

    /// Maps `bytes` at `base`. Addresses that were mapped before keep their
    /// bytes; the part of the new region beyond the last address is dropped.
    pub fn map_region(&mut self, base: u64, bytes: Vec<u8>)
        ensures
            forall|a: int|
                final(self)@.dom().contains(a) <==> (old(self)@.dom().contains(a) || (base <= a
                    < base + bytes@.len() && a <= u64::MAX)),
            forall|a: int|
                old(self)@.dom().contains(a) ==> #[trigger] final(self)@[a] == old(self)@[a],
            forall|a: int|
                !old(self)@.dom().contains(a) && base <= a < base + bytes@.len() && a <= u64::MAX
                    ==> #[trigger] final(self)@[a] == bytes@[a - base],
    {
        let region = Region { base, bytes };
        proof {
            assert forall|a: int|
                region_byte(self.regions@.push(region), a, 0) == match region_byte(
                    self.regions@,
                    a,
                    0,
                ) {
                    Some(b) => Some(b),
                    None => if region.covers(a) {
                        Some(region.bytes@[a - region.base])
                    } else {
                        None
                    },
                } by {
                lemma_region_byte_push(self.regions@, region, a, 0);
            }
        }
        self.regions.push(region);
    }

    /// The byte at `addr`, if it is mapped.
    pub fn byte(&self, addr: u64) -> (r: Option<u8>)
        ensures
            r == if self@.dom().contains(addr as int) {
                Some(self@[addr as int])
            } else {
                None
            },
    {
        let mut i: usize = 0;
        while i < self.regions.len()
            invariant
                i <= self.regions.len(),
                region_byte(self.regions@, addr as int, 0) == region_byte(
                    self.regions@,
                    addr as int,
                    i as int,
                ),
            decreases self.regions.len() - i,
        {
            let region = &self.regions[i];
            if region.base <= addr && addr - region.base < region.bytes.len() as u64 {
                let at: usize = (addr - region.base) as usize;
                return Some(region.bytes[at]);
            }
            i += 1;
        }
        None
    }

    /// The span around `addr`: the longest run of addresses about `addr`
    /// that the regions decide in one way. What is found for one address of
    /// a span need not be looked up again for the others.
    pub fn span_at(&self, addr: u64) -> (span: Span)
        ensures
            span.lo <= addr <= span.last,
            span_describes(self.regions@, span),
            span_is_longest(self.regions@, span),
    {
        let mut lo: u64 = 0;
        let mut last: u64 = u64::MAX;
        let mut i: usize = 0;
        let ghost mut below: int = 0;
        let ghost mut above: int = 0;
        while i < self.regions.len()
            invariant
                i <= self.regions@.len(),
                lo <= addr <= last,
                forall|j: int| 0 <= j < i ==> misses(#[trigger] self.regions@[j], lo as int, last as int),
                lo > 0 ==> 0 <= below < i && self.regions@[below].covers(lo - 1),
                last < u64::MAX ==> 0 <= above < i && self.regions@[above].covers(last + 1),
            decreases self.regions@.len() - i,
        {
            let base: u64 = self.regions[i].base;
            let len: usize = self.regions[i].bytes.len();
            if len > 0 {
                if base <= addr && addr - base < len as u64 {
                    let reach: u64 = len as u64 - 1;
                    let end: u64 = if reach > u64::MAX - base {
                        u64::MAX
                    } else {
                        base + reach
                    };
                    let span = Span {
                        lo: if lo < base {
                            base
                        } else {
                            lo
                        },
                        last: if end < last {
                            end
                        } else {
                            last
                        },
                        region: Some(i),
                    };
                    proof {
                        assert forall|a: int| span.lo <= a <= span.last implies self.regions@[i as int].covers(
                            a,
                        ) && #[trigger] region_byte(self.regions@, a, 0) == Some(
                            self.regions@[i as int].bytes@[a - base],
                        ) by {
                            assert forall|j: int| 0 <= j < i implies !#[trigger] self.regions@[j].covers(
                                a,
                            ) by {
                                assert(misses(self.regions@[j], lo as int, last as int));
                            }
                            lemma_region_byte_skip(self.regions@, a, 0, i as int);
                        }
                        assert forall|a: int| span.lo <= a <= span.last implies #[trigger] decided_as(
                            self.regions@,
                            a,
                            span,
                        ) by {
                            assert forall|j: int| 0 <= j < i implies !#[trigger] self.regions@[j].covers(
                                a,
                            ) by {
                                assert(misses(self.regions@[j], lo as int, last as int));
                            }
                            assert(self.regions@[i as int].covers(a));
                            lemma_region_index(self.regions@, a, 0);
                        }
                        if span.lo > 0 {
                            lemma_region_index(self.regions@, span.lo - 1, 0);
                            if lo >= base {
                                assert(self.regions@[below].covers(span.lo - 1));
                            }
                        }
                        if span.last < u64::MAX {
                            lemma_region_index(self.regions@, span.last + 1, 0);
                            if end >= last {
                                assert(self.regions@[above].covers(span.last + 1));
                            }
                        }
                    }
                    return span;
                } else if base > addr {
                    if base - 1 < last {
                        last = base - 1;
                        proof {
                            above = i as int;
                        }
                    }
                } else {
                    let end: u64 = base + len as u64;
                    if lo < end {
                        lo = end;
                        proof {
                            below = i as int;
                        }
                    }
                }
            }
            i += 1;
        }
        let span = Span { lo, last, region: None };
        proof {
            assert forall|a: int| span.lo <= a <= span.last implies #[trigger] region_byte(
                self.regions@,
                a,
                0,
            ) is None by {
                assert forall|j: int| 0 <= j < self.regions@.len() implies !#[trigger] self.regions@[j].covers(
                    a,
                ) by {
                    assert(misses(self.regions@[j], lo as int, last as int));
                }
                lemma_region_byte_skip(self.regions@, a, 0, self.regions@.len() as int);
            }
            assert forall|a: int| span.lo <= a <= span.last implies #[trigger] decided_as(
                self.regions@,
                a,
                span,
            ) by {
                assert forall|j: int| 0 <= j < self.regions@.len() implies !#[trigger] self.regions@[j].covers(
                    a,
                ) by {
                    assert(misses(self.regions@[j], lo as int, last as int));
                }
                lemma_region_index(self.regions@, a, 0);
            }
            if span.lo > 0 {
                lemma_region_index(self.regions@, span.lo - 1, 0);
                assert(self.regions@[below].covers(span.lo - 1));
            }
            if span.last < u64::MAX {
                lemma_region_index(self.regions@, span.last + 1, 0);
                assert(self.regions@[above].covers(span.last + 1));
            }
        }
        span
    }

    /// Sets the byte at `addr`, if it is mapped, and says whether it was.
    pub fn set_byte(&mut self, addr: u64, value: u8) -> (r: bool)
        ensures
            r == old(self)@.dom().contains(addr as int),
            final(self)@ == store_u8(old(self)@, addr as int, value),
    {
        let mut i: usize = 0;
        while i < self.regions.len()
            invariant
                i <= self.regions.len(),
                *self == *old(self),
                forall|j: int| 0 <= j < i ==> !#[trigger] self.regions@[j].covers(addr as int),
                region_byte(self.regions@, addr as int, 0) == region_byte(
                    self.regions@,
                    addr as int,
                    i as int,
                ),
            decreases self.regions.len() - i,
        {
            let base: u64 = self.regions[i].base;
            let len: usize = self.regions[i].bytes.len();
            if base <= addr && addr - base < len as u64 {
                let at: usize = (addr - base) as usize;
                self.regions[i].bytes[at] = value;
                proof {
                    assert forall|a: int|
                        region_byte(self.regions@, a, 0) == if a == addr as int {
                            Some(value)
                        } else {
                            region_byte(old(self).regions@, a, 0)
                        } by {
                        lemma_region_byte_update(
                            old(self).regions@,
                            self.regions@,
                            i as int,
                            addr as int,
                            value,
                            a,
                            0,
                        );
                    }
                    assert(self@ =~= store_u8(old(self)@, addr as int, value));
                }
                return true;
            }
            i += 1;
        }
        false
    }
}

impl Memory {
    /// Says that nothing outside the 64-bit address space is mapped.
    pub proof fn lemma_bounded(&self, addr: int)
        ensures
            addr < 0 || addr > u64::MAX ==> !self@.dom().contains(addr),
    {
        if addr < 0 || addr > u64::MAX {
            lemma_region_byte_bounded(self.regions@, addr, 0);
        }
    }

    /// The two bytes at `addr` as a little-endian value, if both are mapped.
    pub fn load_u16(&self, addr: u64) -> (r: Option<u16>)
        ensures
            r == if readable2(self@, addr as int) {
                Some(le16(self@, addr as int) as u16)
            } else {
                None
            },
    {
        proof {
            self.lemma_bounded(addr + 1);
        }
        if addr == u64::MAX {
            return None;
        }
        match (self.byte(addr), self.byte(addr + 1)) {
            (Some(low), Some(high)) => Some(low as u16 + 256 * (high as u16)),
            _ => None,
        }
    }

    /// The four bytes at `addr` as a little-endian value, if all are mapped.
    pub fn load_u32(&self, addr: u64) -> (r: Option<u32>)
        ensures
            r == if readable4(self@, addr as int) {
                Some(le32(self@, addr as int) as u32)
            } else {
                None
            },
    {
        proof {
            self.lemma_bounded(addr + 2);
            self.lemma_bounded(addr + 3);
        }
        if addr > u64::MAX - 2 {
            return None;
        }
        match (self.load_u16(addr), self.load_u16(addr + 2)) {
            (Some(low), Some(high)) => Some(low as u32 + 65536 * (high as u32)),
            _ => None,
        }
    }

    /// The eight bytes at `addr` as a little-endian value, if all are mapped.
    pub fn load_u64(&self, addr: u64) -> (r: Option<u64>)
        ensures
            r == if readable8(self@, addr as int) {
                Some(le64(self@, addr as int) as u64)
            } else {
                None
            },
    {
        proof {
            self.lemma_bounded(addr + 4);
            self.lemma_bounded(addr + 5);
            self.lemma_bounded(addr + 6);
            self.lemma_bounded(addr + 7);
        }
        if addr > u64::MAX - 4 {
            return None;
        }
        match (self.load_u32(addr), self.load_u32(addr + 4)) {
            (Some(low), Some(high)) => Some(low as u64 + 4294967296 * (high as u64)),
            _ => None,
        }
    }

    /// Reads one byte; an unmapped byte reads as zero.
    pub fn read_u8(&self, addr: u64) -> (r: u8)
        ensures
            r == spec_read_u8(self@, addr as int),
    {
        match self.byte(addr) {
            Some(b) => b,
            None => 0,
        }
    }

    /// Reads an unsigned 16-bit value; an unreadable one reads as zero.
    pub fn read_u16(&self, addr: u64) -> (r: u16)
        ensures
            r == spec_read_u16(self@, addr as int),
    {
        match self.load_u16(addr) {
            Some(v) => v,
            None => 0,
        }
    }

    /// Reads a signed 16-bit value; an unreadable one reads as zero.
    pub fn read_i16(&self, addr: u64) -> (r: i16)
        ensures
            r == spec_read_i16(self@, addr as int),
    {
        match self.load_u16(addr) {
            Some(v) => if v < 32768 {
                v as i16
            } else {
                (v as i32 - 65536) as i16
            },
            None => 0,
        }
    }

    /// Reads an unsigned 32-bit value; an unreadable one reads as zero.
    pub fn read_u32(&self, addr: u64) -> (r: u32)
        ensures
            r == spec_read_u32(self@, addr as int),
    {
        match self.load_u32(addr) {
            Some(v) => v,
            None => 0,
        }
    }

    /// Reads a signed 32-bit value; an unreadable one reads as zero.
    pub fn read_i32(&self, addr: u64) -> (r: i32)
        ensures
            r == spec_read_i32(self@, addr as int),
    {
        match self.load_u32(addr) {
            Some(v) => if v < 2147483648 {
                v as i32
            } else {
                (v as i64 - 4294967296) as i32
            },
            None => 0,
        }
    }

    /// Reads an unsigned 64-bit value; an unreadable one reads as zero.
    pub fn read_u64(&self, addr: u64) -> (r: u64)
        ensures
            r == spec_read_u64(self@, addr as int),
    {
        match self.load_u64(addr) {
            Some(v) => v,
            None => 0,
        }
    }

    /// Reads one byte at a computed address. An address beyond the address
    /// space reads as zero, like any other unmapped place.
    pub fn read_u8_at(&self, addr: u128) -> (r: u8)
        ensures
            r == spec_read_u8(self@, addr as int),
    {
        proof {
            self.lemma_bounded(addr as int);
        }
        if addr > u64::MAX as u128 {
            0
        } else {
            self.read_u8(addr as u64)
        }
    }

    /// Reads an unsigned 16-bit value at a computed address.
    pub fn read_u16_at(&self, addr: u128) -> (r: u16)
        ensures
            r == spec_read_u16(self@, addr as int),
    {
        proof {
            self.lemma_bounded(addr as int);
        }
        if addr > u64::MAX as u128 {
            0
        } else {
            self.read_u16(addr as u64)
        }
    }

    /// Reads a signed 16-bit value at a computed address.
    pub fn read_i16_at(&self, addr: u128) -> (r: i16)
        ensures
            r == spec_read_i16(self@, addr as int),
    {
        proof {
            self.lemma_bounded(addr as int);
        }
        if addr > u64::MAX as u128 {
            0
        } else {
            self.read_i16(addr as u64)
        }
    }

    /// Reads an unsigned 32-bit value at a computed address.
    pub fn read_u32_at(&self, addr: u128) -> (r: u32)
        ensures
            r == spec_read_u32(self@, addr as int),
    {
        proof {
            self.lemma_bounded(addr as int);
        }
        if addr > u64::MAX as u128 {
            0
        } else {
            self.read_u32(addr as u64)
        }
    }

    /// Reads a signed 32-bit value at a computed address.
    pub fn read_i32_at(&self, addr: u128) -> (r: i32)
        ensures
            r == spec_read_i32(self@, addr as int),
    {
        proof {
            self.lemma_bounded(addr as int);
        }
        if addr > u64::MAX as u128 {
            0
        } else {
            self.read_i32(addr as u64)
        }
    }

    /// Reads an unsigned 64-bit value at a computed address.
    pub fn read_u64_at(&self, addr: u128) -> (r: u64)
        ensures
            r == spec_read_u64(self@, addr as int),
    {
        proof {
            self.lemma_bounded(addr as int);
        }
        if addr > u64::MAX as u128 {
            0
        } else {
            self.read_u64(addr as u64)
        }
    }

    /// Reads the NUL-terminated string at a computed address.
    pub fn read_cstring_at(&self, addr: u128) -> (r: Vec<u8>)
        ensures
            r@ == spec_cstring(self@, addr as int, MAX_STRING_LEN as nat),
    {
        proof {
            self.lemma_bounded(addr as int);
        }
        if addr > u64::MAX as u128 {
            Vec::new()
        } else {
            self.read_cstring(addr as u64)
        }
    }

    /// Writes one byte, if its address is mapped, and says whether it was.
    pub fn write_u8(&mut self, addr: u64, value: u8) -> (r: bool)
        ensures
            r == old(self)@.dom().contains(addr as int),
            final(self)@ == store_u8(old(self)@, addr as int, value),
    {
        self.set_byte(addr, value)
    }

    /// Writes a 32-bit pattern in little-endian order, if all four bytes are
    /// mapped, and says whether they were. Otherwise nothing changes.
    pub fn write_u32(&mut self, addr: u64, value: u32) -> (r: bool)
        ensures
            r == readable4(old(self)@, addr as int),
            final(self)@ == store_u32(old(self)@, addr as int, value),
    {
        proof {
            self.lemma_bounded(addr + 1);
            self.lemma_bounded(addr + 2);
            self.lemma_bounded(addr + 3);
        }
        if addr > u64::MAX - 3 {
            return false;
        }
        let mapped = self.byte(addr).is_some() && self.byte(addr + 1).is_some() && self.byte(
            addr + 2,
        ).is_some() && self.byte(addr + 3).is_some();
        if !mapped {
            return false;
        }
        let b0: u8 = (value % 256) as u8;
        let b1: u8 = ((value / 256) % 256) as u8;
        let b2: u8 = ((value / 65536) % 256) as u8;
        let b3: u8 = ((value / 16777216) % 256) as u8;
        self.set_byte(addr, b0);
        self.set_byte(addr + 1, b1);
        self.set_byte(addr + 2, b2);
        self.set_byte(addr + 3, b3);
        true
    }

    /// Writes a signed 32-bit value in two's complement.
    pub fn write_i32(&mut self, addr: u64, value: i32) -> (r: bool)
        ensures
            r == readable4(old(self)@, addr as int),
            final(self)@ == store_u32(old(self)@, addr as int, unsigned32(value as int) as u32),
    {
        let raw: u32 = if value < 0 {
            (value as i64 + 4294967296) as u32
        } else {
            value as u32
        };
        self.write_u32(addr, raw)
    }

    /// Reads the NUL-terminated string at `addr`. The string ends before the
    /// first byte that is zero or unmapped, and after `MAX_STRING_LEN` bytes
    /// at the latest.
    pub fn read_cstring(&self, addr: u64) -> (r: Vec<u8>)
        ensures
            r@ == spec_cstring(self@, addr as int, MAX_STRING_LEN as nat),
            r@.len() <= MAX_STRING_LEN,
            forall|i: int| 0 <= i < r@.len() ==> r@[i] != 0,
    {
        let text = self.collect_cstring(addr);
        proof {
            lemma_cstring_bounds(self@, addr as int, MAX_STRING_LEN as nat);
        }
        text
    }

    /// The loop behind `read_cstring`.
    fn collect_cstring(&self, addr: u64) -> (r: Vec<u8>)
        ensures
            r@ == spec_cstring(self@, addr as int, MAX_STRING_LEN as nat),
    {
        let mut out: Vec<u8> = Vec::new();
        let mut i: usize = 0;
        while i < MAX_STRING_LEN
            invariant
                i <= MAX_STRING_LEN,
                out@.len() == i,
                spec_cstring(self@, addr as int, MAX_STRING_LEN as nat) == out@ + spec_cstring(
                    self@,
                    addr + i,
                    (MAX_STRING_LEN - i) as nat,
                ),
            decreases MAX_STRING_LEN - i,
        {
            proof {
                self.lemma_bounded(addr + i);
            }
            if addr > u64::MAX - (i as u64) {
                return out;
            }
            let next = self.byte(addr + i as u64);
            match next {
                Some(b) => {
                    if b == 0 {
                        return out;
                    }
                    proof {
                        assert(out@.push(b) + spec_cstring(
                            self@,
                            addr + i + 1,
                            (MAX_STRING_LEN - i - 1) as nat,
                        ) =~= out@ + (seq![b] + spec_cstring(
                            self@,
                            addr + i + 1,
                            (MAX_STRING_LEN - i - 1) as nat,
                        )));
                    }
                    out.push(b);
                },
                None => {
                    return out;
                },
            }
            i += 1;
        }
        out
    }
}

} // verus!

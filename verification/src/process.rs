//! The target process as this library sees it: an image of its memory, the
//! modules loaded into it, the interfaces its modules export, and a journal
//! of every write issued against it.

use vstd::prelude::*;
use vstd::slice::*;
use vstd::string::*;
use crate::memory::{
    readable4, spec_cstring, spec_read_u32, store_u32, store_u8, unsigned32, Memory,
    MAX_STRING_LEN,
};
use crate::pattern::{first_match, spec_parse, spec_relative_address, Pattern};

verus! {

/// A module loaded into the target: its name, where it starts and how many
/// bytes it spans.
pub struct Module {
    pub name: Vec<u8>,
    pub base: u64,
    pub size: u64,
}

/// An interface that a module's factory hands out: the base address of the
/// module, the versioned name of the interface and its address.
pub struct Interface {
    pub library: u64,
    pub name: Vec<u8>,
    pub address: u64,
}

/// The value of one write: a byte, a 32-bit pattern, or a 32-bit pattern
/// that whoever carries the write out is to read back from the target, since
/// the target may undo it.
#[derive(Clone, Copy, Debug, PartialEq, Eq)]
pub enum WriteValue {
    Byte(u8),
    Word(u32),
    Checked(u32),
}

/// One write issued against the target.
#[derive(Clone, Copy, Debug, PartialEq, Eq)]
pub struct MemWrite {
    pub address: u64,
    pub value: WriteValue,
}

/// The part of the target that writes change: its memory, and the journal of
/// the writes issued so far.
pub struct Target {
    pub mem: Map<int, u8>,
    pub log: Seq<MemWrite>,
}

/// The image after one write.
pub open spec fn apply_write(mem: Map<int, u8>, write: MemWrite) -> Map<int, u8> {
    match write.value {
        WriteValue::Byte(b) => store_u8(mem, write.address as int, b),
        WriteValue::Word(w) => store_u32(mem, write.address as int, w),
        WriteValue::Checked(w) => store_u32(mem, write.address as int, w),
    }
}

/// The one more write that is due once a write is carried out and the
/// target is read back at its address: none for a write that asks for no
/// reading back, none where the target holds what was written, else the same
/// pattern once more. The write that is due asks for no reading back, so no
/// third write follows.
pub open spec fn spec_retry(write: MemWrite, read_back: Option<u32>) -> Option<MemWrite> {
    match write.value {
        WriteValue::Checked(w) => if read_back == Some(w) {
            None
        } else {
            Some(MemWrite { address: write.address, value: WriteValue::Word(w) })
        },
        _ => None,
    }
}

/// What the image holds as the 32-bit pattern at `addr`, if it is mapped.
pub open spec fn spec_load_u32(mem: Map<int, u8>, addr: int) -> Option<u32> {
    if readable4(mem, addr) {
        Some(spec_read_u32(mem, addr))
    } else {
        None
    }
}

/// The target after a write of a signed 32-bit value is issued at `addr`
/// that is to be read back.
pub open spec fn issue_checked(target: Target, addr: int, value: i32) -> Target {
    issue(target, addr, WriteValue::Checked(unsigned32(value as int) as u32))
}

/// After a retry nothing is due: a write is repeated once and no more.
pub proof fn lemma_retry_is_single(write: MemWrite, first: Option<u32>, second: Option<u32>)
    ensures
        spec_retry(write, first) is Some ==> spec_retry(spec_retry(write, first).unwrap(), second)
            is None,
{
}

/// The target after a write of `value` is issued at `addr`. A place beyond
/// the address space cannot be written to, and no write is issued for it.
pub open spec fn issue(target: Target, addr: int, value: WriteValue) -> Target {
    if 0 <= addr <= u64::MAX {
        let write = MemWrite { address: addr as u64, value };
        Target { mem: apply_write(target.mem, write), log: target.log.push(write) }
    } else {
        target
    }
}

/// The target after a write of a signed 32-bit value is issued at `addr`.
pub open spec fn issue_i32(target: Target, addr: int, value: i32) -> Target {
    issue(target, addr, WriteValue::Word(unsigned32(value as int) as u32))
}

/// The target after a write of an unsigned 32-bit value is issued at `addr`.
pub open spec fn issue_u32(target: Target, addr: int, value: u32) -> Target {
    issue(target, addr, WriteValue::Word(value))
}

/// The target after a write of one byte is issued at `addr`.
pub open spec fn issue_u8(target: Target, addr: int, value: u8) -> Target {
    issue(target, addr, WriteValue::Byte(value))
}

/// The base address of the first module from index `from` on that bears
/// `name`.
pub open spec fn spec_module_base(modules: Seq<Module>, name: Seq<u8>, from: int) -> Option<u64>
    decreases modules.len() - from,
{
    if from < 0 || from >= modules.len() {
        None
    } else if modules[from].name@ == name {
        Some(modules[from].base)
    } else {
        spec_module_base(modules, name, from + 1)
    }
}

/// The size of the first module from index `from` on that starts at `base`.
pub open spec fn spec_module_size(modules: Seq<Module>, base: u64, from: int) -> Option<u64>
    decreases modules.len() - from,
{
    if from < 0 || from >= modules.len() {
        None
    } else if modules[from].base == base {
        Some(modules[from].size)
    } else {
        spec_module_size(modules, base, from + 1)
    }
}

/// The address of the first interface from index `from` on that the module
/// at `library` exports under a name that begins with `name`.
pub open spec fn spec_interface(
    interfaces: Seq<Interface>,
    library: u64,
    name: Seq<u8>,
    from: int,
) -> Option<u64>
    decreases interfaces.len() - from,
{
    if from < 0 || from >= interfaces.len() {
        None
    } else if interfaces[from].library == library && name.is_prefix_of(interfaces[from].name@) {
        Some(interfaces[from].address)
    } else {
        spec_interface(interfaces, library, name, from + 1)
    }
}

/// What a signature scan of the module at `base` reports for the textual
/// pattern `text`: nothing where the text is no pattern or no module starts
/// at `base`, else the lowest address inside the module at which the pattern
/// occurs.
pub open spec fn spec_scan(
    mem: Map<int, u8>,
    modules: Seq<Module>,
    text: Seq<u8>,
    base: u64,
) -> Option<u64> {
    match (spec_parse(text), spec_module_size(modules, base, 0)) {
        (Some(pattern), Some(size)) => first_match(pattern, mem, base as int, size as int),
        _ => None,
    }
}

/// Whether two byte strings are equal.
pub fn bytes_equal(a: &[u8], b: &[u8]) -> (r: bool)
    ensures
        r == (a@ == b@),
{
    if a.len() != b.len() {
        return false;
    }
    let mut i: usize = 0;
    while i < a.len()
        invariant
            i <= a@.len(),
            a@.len() == b@.len(),
            forall|j: int| 0 <= j < i ==> a@[j] == b@[j],
        decreases a@.len() - i,
    {
        if a[i] != b[i] {
            return false;
        }
        i += 1;
    }
    assert(a@ =~= b@);
    true
}

/// Whether `text` begins with `prefix`.
pub fn bytes_start_with(text: &[u8], prefix: &[u8]) -> (r: bool)
    ensures
        r == prefix@.is_prefix_of(text@),
{
    if prefix.len() > text.len() {
        return false;
    }
    let mut i: usize = 0;
    while i < prefix.len()
        invariant
            i <= prefix@.len(),
            prefix@.len() <= text@.len(),
            forall|j: int| 0 <= j < i ==> prefix@[j] == text@[j],
        decreases prefix@.len() - i,
    {
        if prefix[i] != text[i] {
            assert(text@.subrange(0, prefix@.len() as int)[i as int] == text@[i as int]);
            return false;
        }
        i += 1;
    }
    assert(prefix@ =~= text@.subrange(0, prefix@.len() as int));
    true
}

impl MemWrite {
    /// Whether the target is to be read back once this write is carried
    /// out.
    pub fn wants_read_back(&self) -> (r: bool)
        ensures
            r == (self.value is Checked),
    {
        match self.value {
            WriteValue::Checked(_) => true,
            _ => false,
        }
    }

    /// Decides, from what the target holds at the address of this write once
    /// the write is carried out, whether one more write is due, and which.
    /// `read_back` is `None` where the target could not be read.
    pub fn retry(&self, read_back: Option<u32>) -> (r: Option<MemWrite>)
        ensures
            r == spec_retry(*self, read_back),
    {
        match self.value {
            WriteValue::Checked(w) => {
                match read_back {
                    Some(found) => if found == w {
                        None
                    } else {
                        Some(MemWrite { address: self.address, value: WriteValue::Word(w) })
                    },
                    None => Some(MemWrite { address: self.address, value: WriteValue::Word(w) }),
                }
            },
            _ => None,
        }
    }
}

/// The target process.
pub struct Process {
    /// The identifier of the process; none that is positive stands for no
    /// process at all.
    pub pid: i32,
    /// The lowest address of the target's valid address range.
    pub min: u64,
    /// The highest address of the target's valid address range.
    pub max: u64,
    pub memory: Memory,
    pub modules: Vec<Module>,
    pub interfaces: Vec<Interface>,
    /// Every write issued so far, in the order of issue.
    pub writes: Vec<MemWrite>,
}

impl Process {
    /// What writes change of this process.
    pub open spec fn target(&self) -> Target {
        Target { mem: self.memory@, log: self.writes@ }
    }

    /// Whether `other` is this process with nothing changed but its memory
    /// and its journal.
    pub open spec fn same_layout(&self, other: &Process) -> bool {
        &&& self.pid == other.pid
        &&& self.min == other.min
        &&& self.max == other.max
        &&& self.modules == other.modules
        &&& self.interfaces == other.interfaces
    }

    /// A process with the given identifier, nothing mapped, no module and
    /// no interface.
    pub fn new(pid: i32) -> (r: Self)
        ensures
            r.pid == pid,
            r.min == 0,
            r.max == 0,
            r.memory@ == Map::<int, u8>::empty(),
            r.modules@.len() == 0,
            r.interfaces@.len() == 0,
            r.writes@.len() == 0,
    {
        Process {
            pid,
            min: 0,
            max: 0,
            memory: Memory::new(),
            modules: Vec::new(),
            interfaces: Vec::new(),
            writes: Vec::new(),
        }
    }

    /// Whether this stands for a process at all.
    pub fn is_valid(&self) -> (r: bool)
        ensures
            r == (self.pid > 0),
    {
        self.pid > 0
    }

    /// Sets the valid address range of the target.
    pub fn set_address_range(&mut self, min: u64, max: u64)
        ensures
            final(self).min == min,
            final(self).max == max,
            final(self).pid == old(self).pid,
            final(self).memory == old(self).memory,
            final(self).modules == old(self).modules,
            final(self).interfaces == old(self).interfaces,
            final(self).writes == old(self).writes,
    {
        self.min = min;
        self.max = max;
    }

    /// Records a module behind those already known.
    pub fn add_module(&mut self, name: &str, base: u64, size: u64)
        ensures
            final(self).modules@.len() == old(self).modules@.len() + 1,
            final(self).modules@.take(old(self).modules@.len() as int) == old(self).modules@,
            final(self).modules@.last().name@ == name.spec_bytes(),
            final(self).modules@.last().base == base,
            final(self).modules@.last().size == size,
            final(self).pid == old(self).pid,
            final(self).min == old(self).min,
            final(self).max == old(self).max,
            final(self).memory == old(self).memory,
            final(self).interfaces == old(self).interfaces,
            final(self).writes == old(self).writes,
    {
        let module = Module { name: name.as_bytes_vec(), base, size };
        self.modules.push(module);
        assert(self.modules@.take(old(self).modules@.len() as int) =~= old(self).modules@);
    }

    /// Records an interface behind those already known.
    pub fn add_interface(&mut self, library: u64, name: &str, address: u64)
        ensures
            final(self).interfaces@.len() == old(self).interfaces@.len() + 1,
            final(self).interfaces@.take(old(self).interfaces@.len() as int) == old(
                self,
            ).interfaces@,
            final(self).interfaces@.last().library == library,
            final(self).interfaces@.last().name@ == name.spec_bytes(),
            final(self).interfaces@.last().address == address,
            final(self).pid == old(self).pid,
            final(self).min == old(self).min,
            final(self).max == old(self).max,
            final(self).memory == old(self).memory,
            final(self).modules == old(self).modules,
            final(self).writes == old(self).writes,
    {
        let interface = Interface { library, name: name.as_bytes_vec(), address };
        self.interfaces.push(interface);
        assert(self.interfaces@.take(old(self).interfaces@.len() as int) =~= old(
            self,
        ).interfaces@);
    }

    /// The base address of the first module that bears `name`.
    pub fn module_base_address(&self, name: &str) -> (r: Option<u64>)
        ensures
            r == spec_module_base(self.modules@, name.spec_bytes(), 0),
    {
        let wanted = name.as_bytes();
        let mut i: usize = 0;
        while i < self.modules.len()
            invariant
                i <= self.modules@.len(),
                wanted@ == name.spec_bytes(),
                spec_module_base(self.modules@, wanted@, 0) == spec_module_base(
                    self.modules@,
                    wanted@,
                    i as int,
                ),
            decreases self.modules@.len() - i,
        {
            if bytes_equal(self.modules[i].name.as_slice(), wanted) {
                return Some(self.modules[i].base);
            }
            i += 1;
        }
        None
    }

    /// The size of the first module that starts at `base`.
    pub fn module_size(&self, base: u64) -> (r: Option<u64>)
        ensures
            r == spec_module_size(self.modules@, base, 0),
    {
        let mut i: usize = 0;
        while i < self.modules.len()
            invariant
                i <= self.modules@.len(),
                spec_module_size(self.modules@, base, 0) == spec_module_size(
                    self.modules@,
                    base,
                    i as int,
                ),
            decreases self.modules@.len() - i,
        {
            if self.modules[i].base == base {
                return Some(self.modules[i].size);
            }
            i += 1;
        }
        None
    }

    /// The address of the first interface that the module at `library`
    /// exports under a name that begins with `name`.
    pub fn get_interface_offset(&self, library: u64, name: &str) -> (r: Option<u64>)
        ensures
            r == spec_interface(self.interfaces@, library, name.spec_bytes(), 0),
    {
        let wanted = name.as_bytes();
        let mut i: usize = 0;
        while i < self.interfaces.len()
            invariant
                i <= self.interfaces@.len(),
                wanted@ == name.spec_bytes(),
                spec_interface(self.interfaces@, library, wanted@, 0) == spec_interface(
                    self.interfaces@,
                    library,
                    wanted@,
                    i as int,
                ),
            decreases self.interfaces@.len() - i,
        {
            if self.interfaces[i].library == library && bytes_start_with(
                self.interfaces[i].name.as_slice(),
                wanted,
            ) {
                return Some(self.interfaces[i].address);
            }
            i += 1;
        }
        None
    }

    /// Scans the module that starts at `base` for the pattern that `pattern`
    /// spells and returns the lowest address at which it occurs.
    pub fn scan(&self, pattern: &str, base: u64) -> (r: Option<u64>)
        ensures
            r == spec_scan(self.memory@, self.modules@, pattern.spec_bytes(), base),
    {
        let parsed = match Pattern::parse(pattern) {
            Some(p) => p,
            None => {
                return None;
            },
        };
        let size = match self.module_size(base) {
            Some(s) => s,
            None => {
                return None;
            },
        };
        self.memory.scan(&parsed, base, size)
    }

    /// Resolves the relative operand of the instruction at `instruction`.
    pub fn get_relative_address(&self, instruction: u64, offset: u64, instruction_size: u64) -> (r:
        u64)
        ensures
            r == spec_relative_address(
                self.memory@,
                instruction as int,
                offset as int,
                instruction_size as int,
            ),
    {
        self.memory.relative_address(instruction, offset, instruction_size)
    }

    /// Reads the NUL-terminated string at `addr`.
    pub fn read_string_uncached(&self, addr: u64) -> (r: Vec<u8>)
        ensures
            r@ == spec_cstring(self.memory@, addr as int, MAX_STRING_LEN as nat),
    {
        self.memory.read_cstring(addr)
    }

    /// Issues a write of one byte at a computed address and says whether the
    /// byte was mapped.
    pub fn write_u8(&mut self, addr: u128, value: u8) -> (r: bool)
        ensures
            final(self).target() == issue_u8(old(self).target(), addr as int, value),
            old(self).same_layout(final(self)),
            r == old(self).memory@.dom().contains(addr as int),
    {
        proof {
            self.memory.lemma_bounded(addr as int);
        }
        if addr > u64::MAX as u128 {
            return false;
        }
        let address: u64 = addr as u64;
        self.writes.push(MemWrite { address, value: WriteValue::Byte(value) });
        self.memory.write_u8(address, value)
    }

    /// Issues a write of an unsigned 32-bit value at a computed address and
    /// says whether all its bytes were mapped.
    pub fn write_u32(&mut self, addr: u128, value: u32) -> (r: bool)
        ensures
            final(self).target() == issue_u32(old(self).target(), addr as int, value),
            old(self).same_layout(final(self)),
            r == readable4(old(self).memory@, addr as int),
    {
        proof {
            self.memory.lemma_bounded(addr as int);
        }
        if addr > u64::MAX as u128 {
            return false;
        }
        let address: u64 = addr as u64;
        self.writes.push(MemWrite { address, value: WriteValue::Word(value) });
        self.memory.write_u32(address, value)
    }

    /// Issues a write of a signed 32-bit value at a computed address and
    /// says whether all its bytes were mapped.
    pub fn write_i32(&mut self, addr: u128, value: i32) -> (r: bool)
        ensures
            final(self).target() == issue_i32(old(self).target(), addr as int, value),
            old(self).same_layout(final(self)),
            r == readable4(old(self).memory@, addr as int),
    {
        let raw: u32 = if value < 0 {
            (value as i64 + 4294967296) as u32
        } else {
            value as u32
        };
        self.write_u32(addr, raw)
    }

    /// Issues a write as it stands in a journal and says whether all its
    /// bytes were mapped.
    pub fn issue_write(&mut self, write: &MemWrite) -> (r: bool)
        ensures
            final(self).target() == issue(old(self).target(), write.address as int, write.value),
            old(self).same_layout(final(self)),
    {
        self.writes.push(*write);
        match write.value {
            WriteValue::Byte(b) => self.memory.write_u8(write.address, b),
            WriteValue::Word(w) => self.memory.write_u32(write.address, w),
            WriteValue::Checked(w) => self.memory.write_u32(write.address, w),
        }
    }

    /// Issues a write of a signed 32-bit value at a computed address that is
    /// to be read back, and says whether all its bytes were mapped.
    pub fn write_checked(&mut self, addr: u128, value: i32) -> (r: bool)
        ensures
            final(self).target() == issue_checked(old(self).target(), addr as int, value),
            old(self).same_layout(final(self)),
            r == readable4(old(self).memory@, addr as int),
    {
        proof {
            self.memory.lemma_bounded(addr as int);
        }
        if addr > u64::MAX as u128 {
            return false;
        }
        let address: u64 = addr as u64;
        let raw: u32 = if value < 0 {
            (value as i64 + 4294967296) as u32
        } else {
            value as u32
        };
        self.writes.push(MemWrite { address, value: WriteValue::Checked(raw) });
        self.memory.write_u32(address, raw)
    }

    /// Hands out the journal of the writes issued so far and empties it.
    pub fn take_writes(&mut self) -> (r: Vec<MemWrite>)
        ensures
            r@ == old(self).writes@,
            final(self).writes@.len() == 0,
            final(self).memory == old(self).memory,
            old(self).same_layout(final(self)),
    {
        let mut taken: Vec<MemWrite> = Vec::new();
        std::mem::swap(&mut taken, &mut self.writes);
        taken
    }
}

} // verus!

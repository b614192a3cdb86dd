//! Wildcarded byte patterns and the signature scanner.
//!
//! A pattern is a sequence of tokens, each an exact byte or a wildcard. Its
//! textual form separates the tokens by spaces: two hexadecimal digits stand
//! for a byte, `?` or `??` for a wildcard.

use vstd::prelude::*;
use vstd::slice::*;
use vstd::string::*;
use crate::memory::{
    le32, readable4, region_byte, signed32, span_describes, spec_read_i32, wrap_address, Memory,
    Span,
};

verus! {

/// The value of a hexadecimal digit, if `c` is one.
pub open spec fn spec_hex_digit(c: u8) -> Option<u8> {
    if 0x30 <= c <= 0x39 {
        Some((c - 0x30) as u8)
    } else if 0x41 <= c <= 0x46 {
        Some((c - 0x41 + 10) as u8)
    } else if 0x61 <= c <= 0x66 {
        Some((c - 0x61 + 10) as u8)
    } else {
        None
    }
}

/// The index at which the token that starts at `pos` ends: the next space,
/// or the end of the text.
pub open spec fn spec_token_end(text: Seq<u8>, pos: int) -> int
    decreases text.len() - pos,
{
    if pos < 0 || pos >= text.len() || text[pos] == 0x20 {
        pos
    } else {
        spec_token_end(text, pos + 1)
    }
}

/// What one token stands for: `Some(None)` for a wildcard, `Some(Some(b))`
/// for the byte `b`, `None` where the token is malformed.
pub open spec fn spec_token(token: Seq<u8>) -> Option<Option<u8>> {
    if token.len() == 1 && token[0] == 0x3F {
        Some(None)
    } else if token.len() == 2 && token[0] == 0x3F && token[1] == 0x3F {
        Some(None)
    } else if token.len() == 2 && spec_hex_digit(token[0]) is Some && spec_hex_digit(
        token[1],
    ) is Some {
        Some(Some((16 * spec_hex_digit(token[0]).unwrap() + spec_hex_digit(token[1]).unwrap()) as u8))
    } else {
        None
    }
}

/// The tokens that the text holds from `pos` on, or `None` if one of them is
/// malformed.
pub open spec fn spec_parse_from(text: Seq<u8>, pos: int) -> Option<Seq<Option<u8>>>
    decreases text.len() - pos,
{
    if pos < 0 || pos >= text.len() {
        Some(Seq::empty())
    } else if text[pos] == 0x20 {
        spec_parse_from(text, pos + 1)
    } else {
        let end = spec_token_end(text, pos);
        if pos < end <= text.len() {
            match (spec_token(text.subrange(pos, end)), spec_parse_from(text, end)) {
                (Some(token), Some(rest)) => Some(seq![token] + rest),
                _ => None,
            }
        } else {
            None
        }
    }
}

/// The pattern that a text stands for.
pub open spec fn spec_parse(text: Seq<u8>) -> Option<Seq<Option<u8>>> {
    spec_parse_from(text, 0)
}

/// Whether the pattern occurs in `data` at index `pos`: the pattern fits, and
/// every token that is no wildcard equals the byte it lies on.
pub open spec fn matches_at(pattern: Seq<Option<u8>>, data: Seq<u8>, pos: int) -> bool {
    &&& 0 <= pos
    &&& pos + pattern.len() <= data.len()
    &&& forall|i: int|
        0 <= i < pattern.len() ==> (#[trigger] pattern[i] is None || pattern[i] == Some(
            data[pos + i],
        ))
}

/// Whether the pattern occurs in the image at address `addr`: every byte
/// under the pattern is mapped, and every token that is no wildcard equals
/// the byte it lies on.
pub open spec fn matches_memory(pattern: Seq<Option<u8>>, mem: Map<int, u8>, addr: int) -> bool {
    forall|i: int|
        0 <= i < pattern.len() ==> mem.dom().contains(addr + i) && (#[trigger] pattern[i] is None
            || pattern[i] == Some(mem[addr + i]))
}

/// Whether `addr` is a place at which a scan of `size` bytes from `start`
/// may report the pattern: the whole pattern lies inside the scanned range.
pub open spec fn scan_candidate(pattern: Seq<Option<u8>>, start: int, size: int, addr: int) -> bool {
    start <= addr && addr + pattern.len() <= start + size && addr <= u64::MAX
}

/// What a scan of the image reports: the lowest candidate address at which
/// the pattern occurs, or nothing where there is none.
pub open spec fn scan_result(
    pattern: Seq<Option<u8>>,
    mem: Map<int, u8>,
    start: int,
    size: int,
    result: Option<u64>,
) -> bool {
    match result {
        Some(found) => {
            &&& scan_candidate(pattern, start, size, found as int)
            &&& matches_memory(pattern, mem, found as int)
            &&& forall|a: int|
                scan_candidate(pattern, start, size, a) && a < found ==> !matches_memory(
                    pattern,
                    mem,
                    a,
                )
        },
        None => forall|a: int|
            scan_candidate(pattern, start, size, a) ==> !matches_memory(pattern, mem, a),
    }
}

/// Whether `addr` is the lowest candidate address at which the pattern
/// occurs.
pub open spec fn is_first_match(
    pattern: Seq<Option<u8>>,
    mem: Map<int, u8>,
    start: int,
    size: int,
    addr: int,
) -> bool {
    &&& scan_candidate(pattern, start, size, addr)
    &&& matches_memory(pattern, mem, addr)
    &&& forall|a: int|
        scan_candidate(pattern, start, size, a) && a < addr ==> !matches_memory(pattern, mem, a)
}

/// The lowest address in the `size` bytes from `start` at which the pattern
/// occurs, if there is one.
pub open spec fn first_match(
    pattern: Seq<Option<u8>>,
    mem: Map<int, u8>,
    start: int,
    size: int,
) -> Option<u64> {
    if exists|a: int| is_first_match(pattern, mem, start, size, a) {
        Some((choose|a: int| is_first_match(pattern, mem, start, size, a)) as u64)
    } else {
        None
    }
}

/// What meets the description of a scan's result is the first match.
pub proof fn lemma_first_match(
    pattern: Seq<Option<u8>>,
    mem: Map<int, u8>,
    start: int,
    size: int,
    result: Option<u64>,
)
    requires
        scan_result(pattern, mem, start, size, result),
    ensures
        result == first_match(pattern, mem, start, size),
{
    match result {
        Some(found) => {
            assert(is_first_match(pattern, mem, start, size, found as int));
            let chosen = choose|a: int| is_first_match(pattern, mem, start, size, a);
            assert(chosen == found as int);
        },
        None => {},
    }
}

/// The address that an instruction's relative operand refers to: the end of
/// the instruction plus the signed 32-bit displacement stored at
/// `operand_offset` bytes into it, taken in the 64-bit address space.
pub open spec fn spec_relative_address(
    mem: Map<int, u8>,
    instruction: int,
    operand_offset: int,
    length: int,
) -> u64 {
    wrap_address(instruction + length + spec_read_i32(mem, instruction + operand_offset))
}

/// Where the displacement is readable and nothing leaves the address space,
/// the relative address is the plain sum, for displacements of either sign.
pub proof fn lemma_relative_address_exact(
    mem: Map<int, u8>,
    instruction: int,
    operand_offset: int,
    length: int,
)
    requires
        readable4(mem, instruction + operand_offset),
        0 <= instruction + length + signed32(le32(mem, instruction + operand_offset))
            <= u64::MAX,
    ensures
        spec_relative_address(mem, instruction, operand_offset, length) == instruction + length
            + signed32(le32(mem, instruction + operand_offset)),
{
    let d = signed32(le32(mem, instruction + operand_offset));
    assert(-2147483648 <= d <= 2147483647);
    assert(spec_read_i32(mem, instruction + operand_offset) == d);
}

/// A parsed byte pattern. `None` is a wildcard.
pub struct Pattern {
    pub tokens: Vec<Option<u8>>,
}

impl View for Pattern {
    type V = Seq<Option<u8>>;

    open spec fn view(&self) -> Seq<Option<u8>> {
        self.tokens@
    }
}

/// The value of a hexadecimal digit.
pub fn hex_digit(c: u8) -> (r: Option<u8>)
    ensures
        r == spec_hex_digit(c),
{
    if 0x30 <= c && c <= 0x39 {
        Some(c - 0x30)
    } else if 0x41 <= c && c <= 0x46 {
        Some(c - 0x41 + 10)
    } else if 0x61 <= c && c <= 0x66 {
        Some(c - 0x61 + 10)
    } else {
        None
    }
}

impl Pattern {
    /// Parses the textual form of a pattern. A text with a malformed token
    /// is rejected as a whole.
    pub fn parse(text: &str) -> (r: Option<Pattern>)
        ensures
            match r {
                Some(p) => spec_parse(text.spec_bytes()) == Some(p@),
                None => spec_parse(text.spec_bytes()) is None,
            },
    {
        let bytes = text.as_bytes();
        let mut tokens: Vec<Option<u8>> = Vec::new();
        let mut pos: usize = 0;
        while pos < bytes.len()
            invariant
                pos <= bytes@.len(),
                bytes@ == text.spec_bytes(),
                spec_parse_from(bytes@, 0) == match spec_parse_from(bytes@, pos as int) {
                    Some(rest) => Some(tokens@ + rest),
                    None => None,
                },
            decreases bytes@.len() - pos,
        {
            if bytes[pos] == 0x20 {
                pos += 1;
            } else {
                let mut end: usize = pos + 1;
                while end < bytes.len() && bytes[end] != 0x20
                    invariant
                        pos < end <= bytes@.len(),
                        spec_token_end(bytes@, pos as int) == spec_token_end(bytes@, end as int),
                    decreases bytes@.len() - end,
                {
                    end += 1;
                }
                let ghost token = bytes@.subrange(pos as int, end as int);
                let parsed: Option<Option<u8>> = if end - pos == 1 && bytes[pos] == 0x3F {
                    Some(None)
                } else if end - pos == 2 && bytes[pos] == 0x3F && bytes[pos + 1] == 0x3F {
                    Some(None)
                } else if end - pos == 2 {
                    match (hex_digit(bytes[pos]), hex_digit(bytes[pos + 1])) {
                        (Some(high), Some(low)) => Some(Some(16 * high + low)),
                        _ => None,
                    }
                } else {
                    None
                };
                assert(parsed == spec_token(token));
                match parsed {
                    Some(t) => {
                        proof {
                            let rest = spec_parse_from(bytes@, end as int);
                            if rest is Some {
                                assert(tokens@.push(t) + rest.unwrap() =~= tokens@ + (seq![t]
                                    + rest.unwrap()));
                            }
                        }
                        tokens.push(t);
                        pos = end;
                    },
                    None => {
                        return None;
                    },
                }
            }
        }
        assert(tokens@ + Seq::<Option<u8>>::empty() =~= tokens@);
        Some(Pattern { tokens })
    }

    /// The number of tokens.
    pub fn len(&self) -> (r: usize)
        ensures
            r == self@.len(),
    {
        self.tokens.len()
    }

    /// Whether the pattern occurs in `data` at index `pos`.
    pub fn matches_at(&self, data: &[u8], pos: usize) -> (r: bool)
        ensures
            r == matches_at(self@, data@, pos as int),
    {
        let n = self.tokens.len();
        if pos > data.len() || n > data.len() - pos {
            return false;
        }
        let mut i: usize = 0;
        while i < n
            invariant
                i <= n,
                n == self@.len(),
                pos + n <= data@.len(),
                pos + n <= usize::MAX,
                forall|j: int|
                    0 <= j < i ==> (#[trigger] self@[j] is None || self@[j] == Some(
                        data@[pos + j],
                    )),
            decreases n - i,
        {
            match self.tokens[i] {
                Some(b) => {
                    if data[pos + i] != b {
                        return false;
                    }
                },
                None => {},
            }
            i += 1;
        }
        true
    }

    /// Searches `data` for the pattern and returns the lowest index at which
    /// it occurs, or nothing if it occurs nowhere.
    pub fn find(&self, data: &[u8]) -> (r: Option<usize>)
        ensures
            match r {
                Some(pos) => matches_at(self@, data@, pos as int) && forall|q: int|
                    0 <= q < pos ==> !matches_at(self@, data@, q),
                None => forall|q: int| !matches_at(self@, data@, q),
            },
    {
        let n = self.tokens.len();
        if n > data.len() {
            return None;
        }
        let last: usize = data.len() - n;
        let mut pos: usize = 0;
        loop
            invariant
                pos <= last,
                last + n == data@.len(),
                n == self@.len(),
                forall|q: int| 0 <= q < pos ==> !matches_at(self@, data@, q),
            decreases last - pos,
        {
            if self.matches_at(data, pos) {
                return Some(pos);
            }
            if pos == last {
                return None;
            }
            pos += 1;
        }
    }
}

impl Memory {
    /// Whether the pattern occurs in the image at address `addr`.
    pub fn matches(&self, pattern: &Pattern, addr: u64) -> (r: bool)
        ensures
            r == matches_memory(pattern@, self@, addr as int),
    {
        let n = pattern.tokens.len();
        let mut i: usize = 0;
        while i < n
            invariant
                i <= n,
                n == pattern@.len(),
                forall|j: int|
                    0 <= j < i ==> self@.dom().contains(addr + j) && (#[trigger] pattern@[j] is None
                        || pattern@[j] == Some(self@[addr + j])),
            decreases n - i,
        {
            proof {
                self.lemma_bounded(addr + i);
            }
            if addr > u64::MAX - (i as u64) {
                assert(!self@.dom().contains(addr + i) && pattern@[i as int] == pattern@[i as int]);
                return false;
            }
            match (self.byte(addr + i as u64), pattern.tokens[i]) {
                (None, _) => {
                    return false;
                },
                (Some(found), Some(wanted)) => {
                    if found != wanted {
                        return false;
                    }
                },
                (Some(_), None) => {},
            }
            i += 1;
        }
        true
    }

    /// Scans `size` bytes of the image from `start` for the pattern and
    /// returns the lowest address at which it occurs, or nothing if it occurs
    /// nowhere in that range. Unmapped bytes match no token, so a range that
    /// is unreadable in part is searched in its readable parts.
    pub fn scan(&self, pattern: &Pattern, start: u64, size: u64) -> (r: Option<u64>)
        ensures
            scan_result(pattern@, self@, start as int, size as int, r),
            r == first_match(pattern@, self@, start as int, size as int),
    {
        let found = self.scan_range(pattern, start, size);
        proof {
            lemma_first_match(pattern@, self@, start as int, size as int, found);
        }
        found
    }

    /// Whether the pattern occurs at `addr`, decided from the span that
    /// `addr` lies in where the span holds the whole pattern, and byte by
    /// byte where it does not.
    fn matches_in_span(&self, pattern: &Pattern, addr: u64, span: &Span) -> (r: bool)
        requires
            span.lo <= addr <= span.last,
            span_describes(self.regions@, *span),
            pattern@.len() > 0,
        ensures
            r == matches_memory(pattern@, self@, addr as int),
    {
        let n: usize = pattern.tokens.len();
        if n as u64 - 1 > span.last - addr {
            return self.matches(pattern, addr);
        }
        match span.region {
            Some(k) => {
                let base: u64 = self.regions[k].base;
                proof {
                    assert(region_byte(self.regions@, addr as int, 0) is Some);
                    assert(region_byte(self.regions@, addr + n - 1, 0) is Some);
                }
                let len: usize = self.regions[k].bytes.len();
                assert(addr - base < len);
                let at: usize = (addr - base) as usize;
                let found = pattern.matches_at(self.regions[k].bytes.as_slice(), at);
                proof {
                    let data = self.regions@[k as int].bytes@;
                    assert(self.regions@[k as int].covers(addr + n - 1));
                    assert forall|i: int| 0 <= i < n implies (#[trigger] pattern@[i]) == pattern@[i]
                        && self@.dom().contains(addr + i) && self@[addr + i] == data[at + i] by {
                        assert(region_byte(self.regions@, addr + i, 0) == Some(
                            data[addr + i - base],
                        ));
                    }
                }
                found
            },
            None => {
                proof {
                    assert(region_byte(self.regions@, addr as int, 0) is None);
                    assert(!self@.dom().contains(addr + 0) && pattern@[0] == pattern@[0]);
                }
                false
            },
        }
    }

    /// The search behind `scan`. It looks up the regions once for each span
    /// of the range, not once for each byte.
    fn scan_range(&self, pattern: &Pattern, start: u64, size: u64) -> (r: Option<u64>)
        ensures
            scan_result(pattern@, self@, start as int, size as int, r),
    {
        let n: u64 = pattern.tokens.len() as u64;
        if size < n {
            return None;
        }
        if n == 0 {
            return Some(start);
        }
        let span: u64 = size - n;
        let mut around: Span = self.span_at(start);
        let mut k: u64 = 0;
        loop
            invariant
                k <= span,
                span + n == size,
                n == pattern@.len(),
                n > 0,
                span_describes(self.regions@, around),
                forall|a: int|
                    scan_candidate(pattern@, start as int, size as int, a) && a < start + k
                        ==> !matches_memory(pattern@, self@, a),
            decreases span - k,
        {
            match start.checked_add(k) {
                None => {
                    return None;
                },
                Some(addr) => {
                    if addr < around.lo || addr > around.last {
                        around = self.span_at(addr);
                    }
                    if self.matches_in_span(pattern, addr, &around) {
                        return Some(addr);
                    }
                },
            }
            if k == span {
                return None;
            }
            k += 1;
        }
    }

    /// Resolves the relative operand of the instruction at `instruction`:
    /// the end of the instruction plus the signed 32-bit displacement stored
    /// `operand_offset` bytes into it. A displacement that cannot be read
    /// counts as zero.
    pub fn relative_address(&self, instruction: u64, operand_offset: u64, length: u64) -> (r: u64)
        ensures
            r == spec_relative_address(
                self@,
                instruction as int,
                operand_offset as int,
                length as int,
            ),
    {
        let displacement: i32 = self.read_i32_at(instruction as u128 + operand_offset as u128);
        let sum: i128 = instruction as i128 + length as i128 + displacement as i128;
        let modulus: i128 = 0x1_0000_0000_0000_0000;
        if sum < 0 {
            (sum + modulus) as u64
        } else if sum < modulus {
            sum as u64
        } else if sum < 2 * modulus {
            (sum - modulus) as u64
        } else {
            (sum - 2 * modulus) as u64
        }
    }
}

} // verus!

//! The parsed Lama bytecode image.
//!
//! On disk the image is laid out as little-endian 32-bit words:
//! `stringtab_size (S)`, `global_area_size`, `public_count (P)`, then
//! `P x (code_offset, name_offset)`, then `S` bytes of string table, and
//! the remainder of the file is the raw code section.

use vstd::prelude::*;

verus! {

/// Ways in which loading an image can fail.
#[derive(Debug, Clone, Copy, PartialEq, Eq, Structural)]
pub enum BytefileError {
    InvalidFileFormat,
    FileReadFailed,
    MemoryAllocationFailed,
    UnexpectedEOF,
    NoCodeSection,
    InvalidStringIndexInStringTable,
}

/// The little-endian 32-bit word stored at byte position `p` of `s`.
pub open spec fn spec_le32(s: Seq<u8>, p: int) -> int {
    s[p] + 0x100 * (s[p + 1] + 0x100 * (s[p + 2] + 0x100 * s[p + 3]))
}

/// Index of the first NUL byte of `s` at or after `from`; `s.len()` when
/// no NUL follows.
pub open spec fn spec_find_nul(s: Seq<u8>, from: int) -> int
    decreases s.len() - from,
{
    if from < 0 || from >= s.len() {
        s.len() as int
    } else if s[from] == 0 {
        from
    } else {
        spec_find_nul(s, from + 1)
    }
}

/// The byte offset at which the `k`-th NUL-terminated string of `s`
/// starts: each string ends at its NUL, the next begins just after it.
/// Once a string has no NUL the start runs past the end and stays there.
pub open spec fn spec_nth_string_start(s: Seq<u8>, k: int) -> int
    decreases k,
{
    if k <= 0 {
        0
    } else {
        spec_find_nul(s, spec_nth_string_start(s, k - 1)) + 1
    }
}

/// The first NUL at or after `from` lies between `from` and the end.
pub proof fn lemma_find_nul_range(s: Seq<u8>, from: int)
    requires
        0 <= from <= s.len(),
    ensures
        from <= spec_find_nul(s, from) <= s.len(),
    decreases s.len() - from,
{
    if from < s.len() && s[from] != 0 {
        lemma_find_nul_range(s, from + 1);
    }
}

/// When the first NUL search succeeds, the found position holds a NUL.
pub proof fn lemma_find_nul_hits(s: Seq<u8>, from: int)
    requires
        0 <= from <= s.len(),
        spec_find_nul(s, from) < s.len(),
    ensures
        s[spec_find_nul(s, from)] == 0,
    decreases s.len() - from,
{
    if from < s.len() && s[from] != 0 {
        lemma_find_nul_hits(s, from + 1);
    }
}

/// Once the `k`-th string has no terminator, every later string start
/// lies past the end of the table.
pub proof fn lemma_nth_string_start_sticks(s: Seq<u8>, k: int, index: int)
    requires
        0 <= k <= index,
        spec_find_nul(s, spec_nth_string_start(s, k)) == s.len(),
    ensures
        index > k ==> spec_nth_string_start(s, index) > s.len(),
        index == k ==> spec_nth_string_start(s, index) == spec_nth_string_start(s, k),
    decreases index - k,
{
    if index > k {
        if index - 1 == k {
            assert(spec_nth_string_start(s, index) == s.len() + 1);
        } else {
            lemma_nth_string_start_sticks(s, k, index - 1);
            assert(spec_nth_string_start(s, index - 1) > s.len());
            assert(spec_find_nul(s, spec_nth_string_start(s, index - 1)) == s.len());
        }
    }
}

/// Read the little-endian 32-bit word at byte position `p` of `s`.
pub fn read_le32(s: &Vec<u8>, p: usize) -> (r: u32)
    requires
        p + 4 <= s@.len(),
    ensures
        r as int == spec_le32(s@, p as int),
{
    let n = s.len();
    let b0 = s[p] as u32;
    let b1 = s[p + 1] as u32;
    let b2 = s[p + 2] as u32;
    let b3 = s[p + 3] as u32;
    b0 + 0x100 * (b1 + 0x100 * (b2 + 0x100 * b3))
}

/// `s` with the little-endian 32-bit word `w` stored at byte position
/// `p`.
pub open spec fn spec_store_le32(s: Seq<u8>, p: int, w: u32) -> Seq<u8> {
    s.update(p, (w % 0x100) as u8).update(p + 1, ((w / 0x100) % 0x100) as u8).update(
        p + 2,
        ((w / 0x10000) % 0x100) as u8,
    ).update(p + 3, ((w / 0x100_0000) % 0x100) as u8)
}

/// Store the little-endian 32-bit word `w` at byte position `p` of `s`.
pub fn write_le32(s: &mut Vec<u8>, p: usize, w: u32)
    requires
        p + 4 <= old(s)@.len(),
    ensures
        final(s)@ == spec_store_le32(old(s)@, p as int, w),
{
    let n = s.len();
    s.set(p, (w % 0x100) as u8);
    s.set(p + 1, ((w / 0x100) % 0x100) as u8);
    s.set(p + 2, ((w / 0x10000) % 0x100) as u8);
    s.set(p + 3, ((w / 0x100_0000) % 0x100) as u8);
}

/// A parsed bytecode image.  The code section is kept raw and decoded on
/// the fly; the header sections are parsed up front.
pub struct Bytefile {
    /// Size of the string table in bytes.
    pub stringtab_size: u32,
    /// Number of global-variable slots the interpreter must provide.
    pub global_area_size: u32,
    /// Number of public-symbol entries.
    pub public_symbols_number: u32,
    /// Public symbols as `(code_offset, name_offset)` pairs.
    pub public_symbols: Vec<(u32, u32)>,
    /// Concatenated NUL-terminated strings, indexed by byte offset.
    pub string_table: Vec<u8>,
    /// Raw instruction bytes.
    pub code_section: Vec<u8>,
}

/// Number of bytes the header of an image with string-table size `s` and
/// `p` public symbols occupies.
pub open spec fn spec_header_len(s: int, p: int) -> int {
    12 + 8 * p + s
}

impl Bytefile {
    /// The image `self` faithfully mirrors the bytes of `source`: every
    /// header field, the string table and the code section byte-match it.
    pub open spec fn parses_from(self, source: Seq<u8>) -> bool {
        let s = spec_le32(source, 0);
        let p = spec_le32(source, 8);
        &&& self.stringtab_size as int == s
        &&& self.global_area_size as int == spec_le32(source, 4)
        &&& self.public_symbols_number as int == p
        &&& self.public_symbols@.len() == p
        &&& forall|i: int|
            0 <= i < p ==> #[trigger] self.public_symbols@[i] == (
            (spec_le32(source, 12 + 8 * i) as u32),
            (spec_le32(source, 16 + 8 * i) as u32),
            )
        &&& self.string_table@ == source.subrange(12 + 8 * p, 12 + 8 * p + s)
        &&& self.code_section@ == source.subrange(spec_header_len(s, p), source.len() as int)
    }

    /// Parse a bytecode image.  The header sections are decoded eagerly;
    /// the code section is kept as raw bytes.
    ///
    /// Returns `UnexpectedEOF` when the file ends inside the header or the
    /// string table, and `NoCodeSection` when nothing follows the string
    /// table.
    pub fn parse(source: Vec<u8>) -> (r: Result<Bytefile, BytefileError>)
        ensures
            match r {
                Ok(bf) => bf.parses_from(source@) && source@.len() > spec_header_len(
                    spec_le32(source@, 0),
                    spec_le32(source@, 8),
                ),
                Err(BytefileError::UnexpectedEOF) => source@.len() < 12 || source@.len()
                    < spec_header_len(spec_le32(source@, 0), spec_le32(source@, 8)),
                Err(BytefileError::NoCodeSection) => source@.len() == spec_header_len(
                    spec_le32(source@, 0),
                    spec_le32(source@, 8),
                ),
                _ => false,
            },
    {
        if source.len() < 12 {
            return Err(BytefileError::UnexpectedEOF);
        }
        let stringtab_size = read_le32(&source, 0);
        let global_area_size = read_le32(&source, 4);
        let public_symbols_number = read_le32(&source, 8);

        let needed: u64 = 12u64 + 8u64 * (public_symbols_number as u64) + (stringtab_size as u64);
        if (source.len() as u64) < needed {
            return Err(BytefileError::UnexpectedEOF);
        }
        if (source.len() as u64) == needed {
            return Err(BytefileError::NoCodeSection);
        }

        let src_len = source.len();
        let mut public_symbols: Vec<(u32, u32)> = Vec::new();
        let mut i: usize = 0;
        while i < public_symbols_number as usize
            invariant
                i <= public_symbols_number,
                src_len == source@.len(),
                12 + 8 * (public_symbols_number as int) + stringtab_size < src_len,
                public_symbols@.len() == i,
                forall|j: int|
                    0 <= j < i ==> #[trigger] public_symbols@[j] == (
                    (spec_le32(source@, 12 + 8 * j) as u32),
                    (spec_le32(source@, 16 + 8 * j) as u32),
                    ),
            decreases public_symbols_number - i,
        {
            let code_offset = read_le32(&source, 12 + 8 * i);
            let name_offset = read_le32(&source, 16 + 8 * i);
            public_symbols.push((code_offset, name_offset));
            i = i + 1;
        }

        let table_base: usize = 12 + 8 * (public_symbols_number as usize);
        let mut string_table: Vec<u8> = Vec::new();
        let mut j: usize = 0;
        while j < stringtab_size as usize
            invariant
                j <= stringtab_size,
                src_len == source@.len(),
                table_base == 12 + 8 * (public_symbols_number as int),
                table_base + stringtab_size < src_len,
                string_table@.len() == j,
                forall|k: int| 0 <= k < j ==> string_table@[k] == source@[table_base + k],
            decreases stringtab_size - j,
        {
            string_table.push(source[table_base + j]);
            j = j + 1;
        }

        let code_base: usize = table_base + stringtab_size as usize;
        let mut code_section: Vec<u8> = Vec::new();
        let mut k: usize = code_base;
        while k < source.len()
            invariant
                code_base <= k <= source@.len(),
                code_section@.len() == k - code_base,
                forall|m: int| 0 <= m < k - code_base ==> code_section@[m] == source@[code_base + m],
            decreases source@.len() - k,
        {
            code_section.push(source[k]);
            k = k + 1;
        }

        proof {
            assert(string_table@ =~= source@.subrange(
                12 + 8 * spec_le32(source@, 8),
                12 + 8 * spec_le32(source@, 8) + spec_le32(source@, 0),
            ));
            assert(code_section@ =~= source@.subrange(
                spec_header_len(spec_le32(source@, 0), spec_le32(source@, 8)),
                source@.len() as int,
            ));
        }

        Ok(
            Bytefile {
                stringtab_size,
                global_area_size,
                public_symbols_number,
                public_symbols,
                string_table,
                code_section,
            },
        )
    }

    /// The NUL-terminated string starting at byte offset `offset` of the
    /// string table, terminator included.
    pub fn get_string_at_offset(&self, offset: usize) -> (r: Result<Vec<u8>, BytefileError>)
        ensures
            match r {
                Ok(v) => offset < self.string_table@.len() && spec_find_nul(
                    self.string_table@,
                    offset as int,
                ) < self.string_table@.len() && v@ == self.string_table@.subrange(
                    offset as int,
                    spec_find_nul(self.string_table@, offset as int) + 1,
                ),
                Err(BytefileError::InvalidStringIndexInStringTable) => offset
                    >= self.string_table@.len() || spec_find_nul(self.string_table@, offset as int)
                    == self.string_table@.len(),
                _ => false,
            },
    {
        if offset >= self.string_table.len() {
            return Err(BytefileError::InvalidStringIndexInStringTable);
        }
        let mut end: usize = offset;
        while end < self.string_table.len() && self.string_table[end] != 0
            invariant
                offset <= end <= self.string_table@.len(),
                spec_find_nul(self.string_table@, offset as int) == spec_find_nul(
                    self.string_table@,
                    end as int,
                ),
            decreases self.string_table@.len() - end,
        {
            end = end + 1;
        }
        if end == self.string_table.len() {
            return Err(BytefileError::InvalidStringIndexInStringTable);
        }
        let table_len = self.string_table.len();
        let mut out: Vec<u8> = Vec::new();
        let mut m: usize = offset;
        while m <= end
            invariant
                offset <= m <= end + 1,
                end < table_len,
                table_len == self.string_table@.len(),
                out@.len() == m - offset,
                forall|t: int| 0 <= t < m - offset ==> out@[t] == self.string_table@[offset + t],
            decreases end + 1 - m,
        {
            out.push(self.string_table[m]);
            m = m + 1;
        }
        proof {
            assert(out@ =~= self.string_table@.subrange(
                offset as int,
                spec_find_nul(self.string_table@, offset as int) + 1,
            ));
        }
        Ok(out)
    }

    /// The `index`-th NUL-terminated string of the string table,
    /// terminator included.
    #[verifier::loop_isolation(false)]
    pub fn get_string_at(&self, index: usize) -> (r: Result<Vec<u8>, BytefileError>)
        ensures
            ({
                let strtab = self.string_table@;
                let st = spec_nth_string_start(strtab, index as int);
                match r {
                    Ok(v) => st < strtab.len() && spec_find_nul(strtab, st) < strtab.len() && v@
                        == strtab.subrange(st, spec_find_nul(strtab, st) + 1),
                    Err(e) => e == BytefileError::InvalidStringIndexInStringTable && (st
                        >= strtab.len() || spec_find_nul(strtab, st) == strtab.len()),
                }
            }),
    {
        let ghost strtab = self.string_table@;
        let mut start: usize = 0;
        let mut remaining: usize = index;
        while remaining > 0
            invariant
                remaining <= index,
                start <= self.string_table@.len(),
                start as int == spec_nth_string_start(strtab, index - remaining),
            decreases remaining,
        {
            let mut end: usize = start;
            while end < self.string_table.len() && self.string_table[end] != 0
                invariant
                    start <= end <= self.string_table@.len(),
                    spec_find_nul(strtab, start as int) == spec_find_nul(strtab, end as int),
                decreases self.string_table@.len() - end,
            {
                end = end + 1;
            }
            if end >= self.string_table.len() {
                proof {
                    assert(spec_find_nul(strtab, start as int) == strtab.len());
                    lemma_nth_string_start_sticks(
                        strtab,
                        index - remaining,
                        index as int,
                    );
                }
                return Err(BytefileError::InvalidStringIndexInStringTable);
            }
            proof {
                assert(spec_find_nul(strtab, start as int) == end as int);
            }
            start = end + 1;
            remaining = remaining - 1;
        }
        self.get_string_at_offset(start)
    }

    /// An image with an empty string table, one hundred global slots and a
    /// one-hundred-byte code section of `NOP`s, for exercising the
    /// interpreter without a file.
    pub fn new_dummy() -> (r: Bytefile)
        ensures
            r.string_table@.len() == 0,
            r.code_section@.len() == 100,
            r.global_area_size == 100,
    {
        let mut code_section: Vec<u8> = Vec::new();
        let mut i: usize = 0;
        while i < 100
            invariant
                i <= 100,
                code_section@.len() == i,
            decreases 100 - i,
        {
            code_section.push(0);
            i = i + 1;
        }
        Bytefile {
            stringtab_size: 0,
            global_area_size: 100,
            public_symbols_number: 100,
            public_symbols: Vec::new(),
            string_table: Vec::new(),
            code_section,
        }
    }

    /// Append a NUL-terminated string to the string table.
    pub fn put_string(&mut self, bytes: Vec<u8>)
        requires
            old(self).string_table@.len() + bytes@.len() + 1 <= u32::MAX,
        ensures
            final(self).string_table@ == old(self).string_table@ + bytes@ + seq![0u8],
            final(self).code_section == old(self).code_section,
            final(self).global_area_size == old(self).global_area_size,
            final(self).public_symbols == old(self).public_symbols,
    {
        let mut k: usize = 0;
        let n = bytes.len();
        while k < n
            invariant
                k <= n,
                n == bytes@.len(),
                self.string_table@ == old(self).string_table@ + bytes@.subrange(0, k as int),
                self.code_section == old(self).code_section,
                self.global_area_size == old(self).global_area_size,
                self.public_symbols == old(self).public_symbols,
                self.stringtab_size == old(self).stringtab_size,
            decreases n - k,
        {
            self.string_table.push(bytes[k]);
            k = k + 1;
            proof {
                assert(self.string_table@ =~= old(self).string_table@ + bytes@.subrange(
                    0,
                    k as int,
                ));
            }
        }
        self.string_table.push(0);
        self.stringtab_size = self.string_table.len() as u32;
        proof {
            assert(bytes@.subrange(0, bytes@.len() as int) =~= bytes@);
            assert(self.string_table@ =~= old(self).string_table@ + bytes@ + seq![0u8]);
        }
    }
}

} // verus!

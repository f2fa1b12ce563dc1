//! One-shot instruction decoding from a moving cursor over the code
//! section.
//!
//! The opcode's high nibble selects an instruction group and the low
//! nibble a variant; integer immediates follow little-endian.  `CLOSURE`
//! carries a variable-length immediate region: `offset:i32, arity:i32`,
//! then `arity` records of one relation byte and a four-byte index.

use vstd::prelude::*;
use crate::bytecode::{
    Builtin,
    CompareJumpKind,
    Instruction,
    Op,
    PattKind,
    ValueRel,
    spec_builtin_of,
    spec_op_of,
    spec_patt_of,
    spec_rel_of,
};
use crate::bytefile::{Bytefile, spec_le32};

verus! {

/// Ways in which decoding an instruction can fail.
#[derive(Debug, Clone, Copy, PartialEq, Eq, Structural)]
pub enum DecoderError {
    /// The instruction's encoding runs past the end of the code section.
    ReadingMoreThenCodeSection,
    /// The byte does not encode any instruction.
    InvalidOpcode(u8),
}

/// Conversion between an integer type and its little-endian byte encoding
/// inside the code section.
pub trait LeBytes: Sized {
    /// Number of bytes in the encoding.
    spec fn spec_size() -> nat;

    /// The value encoded by the `spec_size()` bytes starting at `pos`.
    spec fn spec_from_le(code: Seq<u8>, pos: int) -> Self;

    /// Number of bytes in the encoding.
    fn byte_size() -> (r: usize)
        ensures
            r == Self::spec_size(),
    ;

    /// Decode the value stored at byte position `pos` of `code`.
    fn from_le_bytes_at(code: &Vec<u8>, pos: usize) -> (r: Self)
        requires
            pos + Self::spec_size() <= code@.len(),
        ensures
            r == Self::spec_from_le(code@, pos as int),
    ;
}

impl LeBytes for u8 {
    open spec fn spec_size() -> nat {
        1
    }

    open spec fn spec_from_le(code: Seq<u8>, pos: int) -> u8 {
        code[pos]
    }

    fn byte_size() -> usize {
        1
    }

    fn from_le_bytes_at(code: &Vec<u8>, pos: usize) -> u8 {
        code[pos]
    }
}

impl LeBytes for u32 {
    open spec fn spec_size() -> nat {
        4
    }

    open spec fn spec_from_le(code: Seq<u8>, pos: int) -> u32 {
        spec_le32(code, pos) as u32
    }

    fn byte_size() -> usize {
        4
    }

    fn from_le_bytes_at(code: &Vec<u8>, pos: usize) -> u32 {
        crate::bytefile::read_le32(code, pos)
    }
}

impl LeBytes for i32 {
    open spec fn spec_size() -> nat {
        4
    }

    open spec fn spec_from_le(code: Seq<u8>, pos: int) -> i32 {
        spec_le32(code, pos) as i32
    }

    fn byte_size() -> usize {
        4
    }

    fn from_le_bytes_at(code: &Vec<u8>, pos: usize) -> i32 {
        let w = crate::bytefile::read_le32(code, pos);
        #[verifier::truncate] (w as i32)
    }
}

/// The signed 32-bit immediate stored at byte position `p` of `code`.
pub open spec fn spec_i32_at(code: Seq<u8>, p: int) -> i32 {
    spec_le32(code, p) as i32
}

/// Number of captured-variable records a `CLOSURE` with arity word `a`
/// carries: negative arities decode as empty capture lists.
pub open spec fn spec_cap_count(a: i32) -> int {
    if a < 0 {
        0
    } else {
        a as int
    }
}

/// The first decoding fault among the `remaining` capture records that
/// start at byte position `p`, or `None` when they all decode.
pub open spec fn spec_caps_err(code: Seq<u8>, p: int, remaining: int) -> Option<DecoderError>
    decreases remaining,
{
    if remaining <= 0 {
        None
    } else if p + 1 > code.len() {
        Some(DecoderError::ReadingMoreThenCodeSection)
    } else if spec_rel_of(code[p]) is None {
        Some(DecoderError::InvalidOpcode(code[p]))
    } else if p + 5 > code.len() {
        Some(DecoderError::ReadingMoreThenCodeSection)
    } else {
        spec_caps_err(code, p + 5, remaining - 1)
    }
}

/// `None` when the immediates of an instruction with opcode `byte` fit at
/// position `ip0` and are well formed, else the fault the decoder reports.
/// `ip0` is the position just after the opcode byte.
pub open spec fn spec_decode_err(code: Seq<u8>, byte: u8, ip0: int) -> Option<DecoderError> {
    let len = code.len() as int;
    let group = byte / 16;
    let sub = byte % 16;
    if byte == 0xff {
        None
    } else if group == 0 {
        if sub == 0 || spec_op_of(sub) is Some {
            None
        } else {
            Some(DecoderError::InvalidOpcode(byte))
        }
    } else if group == 1 {
        if sub == 0 || sub == 1 || sub == 5 {
            spec_need(len, ip0, 4)
        } else if sub == 2 {
            spec_need(len, ip0, 8)
        } else if sub <= 0xb {
            None
        } else {
            Some(DecoderError::InvalidOpcode(byte))
        }
    } else if group == 2 || group == 3 || group == 4 {
        if sub <= 3 {
            spec_need(len, ip0, 4)
        } else {
            Some(DecoderError::InvalidOpcode(byte))
        }
    } else if group == 5 {
        if sub == 0 || sub == 1 || sub == 5 || sub == 8 || sub == 0xa {
            spec_need(len, ip0, 4)
        } else if sub == 2 || sub == 3 || sub == 6 || sub == 7 || sub == 9 {
            spec_need(len, ip0, 8)
        } else if sub == 4 {
            if ip0 + 8 > len {
                Some(DecoderError::ReadingMoreThenCodeSection)
            } else {
                spec_caps_err(code, ip0 + 8, spec_cap_count(spec_i32_at(code, ip0 + 4)))
            }
        } else {
            Some(DecoderError::InvalidOpcode(byte))
        }
    } else if group == 6 {
        if sub <= 6 {
            None
        } else {
            Some(DecoderError::InvalidOpcode(byte))
        }
    } else if group == 7 {
        if sub <= 3 {
            None
        } else if sub == 4 {
            spec_need(len, ip0, 4)
        } else {
            Some(DecoderError::InvalidOpcode(byte))
        }
    } else {
        Some(DecoderError::InvalidOpcode(byte))
    }
}

/// `None` when `k` immediate bytes fit before `len`, else the truncation
/// fault.
pub open spec fn spec_need(len: int, ip0: int, k: int) -> Option<DecoderError> {
    if ip0 + k <= len {
        None
    } else {
        Some(DecoderError::ReadingMoreThenCodeSection)
    }
}

/// The bytes at position `ip0` (just after the opcode byte `byte`) decode
/// exactly to `instr`, whose immediate region ends at `ip1`.
pub open spec fn spec_decoded(
    code: Seq<u8>,
    byte: u8,
    ip0: int,
    instr: Instruction,
    ip1: int,
) -> bool {
    let len = code.len() as int;
    let group = byte / 16;
    let sub = byte % 16;
    match instr {
        Instruction::NOP => byte == 0x00 && ip1 == ip0,
        Instruction::BINOP { op } => group == 0 && spec_op_of(sub) == Some(op) && ip1 == ip0,
        Instruction::CONST { value } => byte == 0x10 && ip0 + 4 <= len && value == spec_i32_at(
            code,
            ip0,
        ) && ip1 == ip0 + 4,
        Instruction::STRING { index } => byte == 0x11 && ip0 + 4 <= len && index == spec_i32_at(
            code,
            ip0,
        ) && ip1 == ip0 + 4,
        Instruction::SEXP { s_index, n_members } => byte == 0x12 && ip0 + 8 <= len && s_index
            == spec_i32_at(code, ip0) && n_members == spec_i32_at(code, ip0 + 4) && ip1 == ip0 + 8,
        Instruction::STI => byte == 0x13 && ip1 == ip0,
        Instruction::STA => byte == 0x14 && ip1 == ip0,
        Instruction::JMP { offset } => byte == 0x15 && ip0 + 4 <= len && offset == spec_i32_at(
            code,
            ip0,
        ) && ip1 == ip0 + 4,
        Instruction::END => byte == 0x16 && ip1 == ip0,
        Instruction::RET => byte == 0x17 && ip1 == ip0,
        Instruction::DROP => byte == 0x18 && ip1 == ip0,
        Instruction::DUP => byte == 0x19 && ip1 == ip0,
        Instruction::SWAP => byte == 0x1a && ip1 == ip0,
        Instruction::ELEM => byte == 0x1b && ip1 == ip0,
        Instruction::LOAD { rel, index } => group == 2 && spec_rel_of(sub) == Some(rel) && ip0 + 4
            <= len && index == spec_i32_at(code, ip0) && ip1 == ip0 + 4,
        Instruction::LOADREF { rel, index } => group == 3 && spec_rel_of(sub) == Some(rel) && ip0
            + 4 <= len && index == spec_i32_at(code, ip0) && ip1 == ip0 + 4,
        Instruction::STORE { rel, index } => group == 4 && spec_rel_of(sub) == Some(rel) && ip0 + 4
            <= len && index == spec_i32_at(code, ip0) && ip1 == ip0 + 4,
        Instruction::CJMP { offset, kind } => ((byte == 0x50 && kind == CompareJumpKind::ISZERO)
            || (byte == 0x51 && kind == CompareJumpKind::ISNONZERO)) && ip0 + 4 <= len && offset
            == spec_i32_at(code, ip0) && ip1 == ip0 + 4,
        Instruction::BEGIN { args, locals } => byte == 0x52 && ip0 + 8 <= len && args
            == spec_i32_at(code, ip0) && locals == spec_i32_at(code, ip0 + 4) && ip1 == ip0 + 8,
        Instruction::CBEGIN { args, locals } => byte == 0x53 && ip0 + 8 <= len && args
            == spec_i32_at(code, ip0) && locals == spec_i32_at(code, ip0 + 4) && ip1 == ip0 + 8,
        Instruction::CLOSURE { offset, arity, captured } => {
            let ncaps = spec_cap_count(arity);
            byte == 0x54 && ip0 + 8 <= len && offset == spec_i32_at(code, ip0) && arity
                == spec_i32_at(code, ip0 + 4) && captured@.len() == ncaps && (forall|k: int|
                0 <= k < ncaps ==> {
                    let p = ip0 + 8 + 5 * k;
                    &&& p + 5 <= len
                    &&& spec_rel_of(code[p]) == Some(#[trigger] captured@[k].0)
                    &&& captured@[k].1 == spec_i32_at(code, p + 1)
                }) && ip1 == ip0 + 8 + 5 * ncaps
        },
        Instruction::CALLC { arity } => byte == 0x55 && ip0 + 4 <= len && arity == spec_i32_at(
            code,
            ip0,
        ) && ip1 == ip0 + 4,
        Instruction::CALL { offset, n, name, builtin } => (byte == 0x56 && ip0 + 8 <= len && offset
            == Some(spec_i32_at(code, ip0)) && n == Some(spec_i32_at(code, ip0 + 4)) && name
            is None && !builtin && ip1 == ip0 + 8) || (group == 7 && sub <= 3 && offset is None && n
            is None && name == spec_builtin_of(sub) && builtin && ip1 == ip0) || (byte == 0x74 && ip0
            + 4 <= len && offset is None && n == Some(spec_i32_at(code, ip0)) && name == Some(
            Builtin::Barray,
        ) && builtin && ip1 == ip0 + 4),
        Instruction::TAG { index, n } => byte == 0x57 && ip0 + 8 <= len && index == spec_i32_at(
            code,
            ip0,
        ) && n == spec_i32_at(code, ip0 + 4) && ip1 == ip0 + 8,
        Instruction::ARRAY { n } => byte == 0x58 && ip0 + 4 <= len && n == spec_i32_at(code, ip0)
            && ip1 == ip0 + 4,
        Instruction::FAIL { line, column } => byte == 0x59 && ip0 + 8 <= len && line == spec_i32_at(
            code,
            ip0,
        ) && column == spec_i32_at(code, ip0 + 4) && ip1 == ip0 + 8,
        Instruction::LINE { n } => byte == 0x5a && ip0 + 4 <= len && n == spec_i32_at(code, ip0)
            && ip1 == ip0 + 4,
        Instruction::PATT { kind } => group == 6 && spec_patt_of(sub) == Some(kind) && ip1 == ip0,
        Instruction::HALT => byte == 0xff && ip1 == ip0,
    }
}

/// Read a `T`-sized little-endian value at `*ip` of `code` and advance
/// `*ip` past it; fails without moving when fewer bytes remain.
pub fn take_le<T: LeBytes>(code: &Vec<u8>, ip: &mut usize) -> (r: Result<T, DecoderError>)
    requires
        *old(ip) <= code@.len(),
    ensures
        *final(ip) <= code@.len(),
        match r {
            Ok(v) => *old(ip) + T::spec_size() <= code@.len() && v == T::spec_from_le(
                code@,
                *old(ip) as int,
            ) && *final(ip) == *old(ip) + T::spec_size(),
            Err(e) => e == DecoderError::ReadingMoreThenCodeSection && *old(ip) + T::spec_size()
                > code@.len() && *final(ip) == *old(ip),
        },
{
    let size = T::byte_size();
    let len = code.len();
    if size > len - *ip {
        return Err(DecoderError::ReadingMoreThenCodeSection);
    }
    let v = T::from_le_bytes_at(code, *ip);
    *ip = *ip + size;
    Ok(v)
}

/// A moving cursor over the code section of a parsed image.
pub struct Decoder {
    /// The image whose code section is being decoded.
    pub bf: Bytefile,
    /// Current byte position inside the code section.
    pub ip: usize,
    /// Cached length of the code section.
    pub code_section_len: usize,
}

impl Decoder {
    /// The cursor is inside the code section and the cached length is
    /// accurate.
    pub open spec fn wf(self) -> bool {
        &&& self.code_section_len == self.bf.code_section@.len()
        &&& self.ip <= self.code_section_len
    }

    /// A cursor over the code section of `bf`, positioned at its start.
    pub fn new(bf: Bytefile) -> (r: Decoder)
        ensures
            r.wf(),
            r.ip == 0,
            r.bf == bf,
    {
        let code_section_len = bf.code_section.len();
        Decoder { bf, ip: 0, code_section_len }
    }

    /// Read the next `T`-sized little-endian value and advance the cursor
    /// past it; fails without moving when fewer bytes remain.
    pub fn next<T: LeBytes>(&mut self) -> (r: Result<T, DecoderError>)
        requires
            old(self).wf(),
        ensures
            final(self).wf(),
            final(self).bf == old(self).bf,
            final(self).code_section_len == old(self).code_section_len,
            match r {
                Ok(v) => old(self).ip + T::spec_size() <= old(self).code_section_len && v
                    == T::spec_from_le(old(self).bf.code_section@, old(self).ip as int)
                    && final(self).ip == old(self).ip + T::spec_size(),
                Err(e) => e == DecoderError::ReadingMoreThenCodeSection && old(self).ip
                    + T::spec_size() > old(self).code_section_len && final(self).ip == old(self).ip,
            },
    {
        take_le::<T>(&self.bf.code_section, &mut self.ip)
    }

    /// Decode the instruction whose opcode byte (already consumed) is
    /// `byte`; reads the immediates and leaves the cursor after them.
    ///
    /// Fails with `InvalidOpcode` on a byte outside the opcode table or a
    /// capture-relation byte above three, and with
    /// `ReadingMoreThenCodeSection` when the immediates are truncated.
    pub fn decode(&mut self, byte: u8) -> (r: Result<Instruction, DecoderError>)
        requires
            old(self).wf(),
        ensures
            final(self).wf(),
            final(self).bf == old(self).bf,
            final(self).code_section_len == old(self).code_section_len,
            match r {
                Ok(instr) => spec_decode_err(old(self).bf.code_section@, byte, old(self).ip as int)
                    is None && spec_decoded(
                    old(self).bf.code_section@,
                    byte,
                    old(self).ip as int,
                    instr,
                    final(self).ip as int,
                ),
                Err(e) => Some(e) == spec_decode_err(
                    old(self).bf.code_section@,
                    byte,
                    old(self).ip as int,
                ),
            },
    {
        decode_at(&self.bf.code_section, &mut self.ip, byte)
    }
}

/// Decode the instruction whose opcode byte (already consumed) is
/// `byte`, reading its immediates at `*ip` and leaving `*ip` after them.
///
/// Fails with `InvalidOpcode` on a byte outside the opcode table or a
/// capture-relation byte above three, and with
/// `ReadingMoreThenCodeSection` when the immediates are truncated.
pub fn decode_at(code: &Vec<u8>, ip: &mut usize, byte: u8) -> (r: Result<Instruction, DecoderError>)
    requires
        *old(ip) <= code@.len(),
    ensures
        *final(ip) <= code@.len(),
        match r {
            Ok(instr) => spec_decode_err(code@, byte, *old(ip) as int) is None && spec_decoded(
                code@,
                byte,
                *old(ip) as int,
                instr,
                *final(ip) as int,
            ),
            Err(e) => Some(e) == spec_decode_err(code@, byte, *old(ip) as int),
        },
{
        if byte == 0xff {
            return Ok(Instruction::HALT);
        }
        let opcode = byte / 16;
        let subopcode = byte % 16;

        match opcode {
            0x0 => {
                if subopcode == 0 {
                    Ok(Instruction::NOP)
                } else {
                    match Op::from_subopcode(subopcode) {
                        Some(op) => Ok(Instruction::BINOP { op }),
                        None => Err(DecoderError::InvalidOpcode(byte)),
                    }
                }
            },
            0x1 => {
                match subopcode {
                    0x0 => Ok(Instruction::CONST { value: take_le::<i32>(code, ip)? }),
                    0x1 => Ok(Instruction::STRING { index: take_le::<i32>(code, ip)? }),
                    0x2 => {
                        let s_index = take_le::<i32>(code, ip)?;
                        let n_members = take_le::<i32>(code, ip)?;
                        Ok(Instruction::SEXP { s_index, n_members })
                    },
                    0x3 => Ok(Instruction::STI),
                    0x4 => Ok(Instruction::STA),
                    0x5 => Ok(Instruction::JMP { offset: take_le::<i32>(code, ip)? }),
                    0x6 => Ok(Instruction::END),
                    0x7 => Ok(Instruction::RET),
                    0x8 => Ok(Instruction::DROP),
                    0x9 => Ok(Instruction::DUP),
                    0xa => Ok(Instruction::SWAP),
                    0xb => Ok(Instruction::ELEM),
                    _ => Err(DecoderError::InvalidOpcode(byte)),
                }
            },
            0x2 => {
                match ValueRel::from_subopcode(subopcode) {
                    Some(rel) => Ok(Instruction::LOAD { rel, index: take_le::<i32>(code, ip)? }),
                    None => Err(DecoderError::InvalidOpcode(byte)),
                }
            },
            0x3 => {
                match ValueRel::from_subopcode(subopcode) {
                    Some(rel) => Ok(Instruction::LOADREF { rel, index: take_le::<i32>(code, ip)? }),
                    None => Err(DecoderError::InvalidOpcode(byte)),
                }
            },
            0x4 => {
                match ValueRel::from_subopcode(subopcode) {
                    Some(rel) => Ok(Instruction::STORE { rel, index: take_le::<i32>(code, ip)? }),
                    None => Err(DecoderError::InvalidOpcode(byte)),
                }
            },
            0x5 => {
                match subopcode {
                    0x0 => Ok(
                        Instruction::CJMP {
                            offset: take_le::<i32>(code, ip)?,
                            kind: CompareJumpKind::ISZERO,
                        },
                    ),
                    0x1 => Ok(
                        Instruction::CJMP {
                            offset: take_le::<i32>(code, ip)?,
                            kind: CompareJumpKind::ISNONZERO,
                        },
                    ),
                    0x2 => {
                        let args = take_le::<i32>(code, ip)?;
                        let locals = take_le::<i32>(code, ip)?;
                        Ok(Instruction::BEGIN { args, locals })
                    },
                    0x3 => {
                        let args = take_le::<i32>(code, ip)?;
                        let locals = take_le::<i32>(code, ip)?;
                        Ok(Instruction::CBEGIN { args, locals })
                    },
                    0x4 => decode_closure_at(code, ip),
                    0x5 => Ok(Instruction::CALLC { arity: take_le::<i32>(code, ip)? }),
                    0x6 => {
                        let offset = take_le::<i32>(code, ip)?;
                        let n = take_le::<i32>(code, ip)?;
                        Ok(
                            Instruction::CALL {
                                offset: Some(offset),
                                n: Some(n),
                                name: None,
                                builtin: false,
                            },
                        )
                    },
                    0x7 => {
                        let index = take_le::<i32>(code, ip)?;
                        let n = take_le::<i32>(code, ip)?;
                        Ok(Instruction::TAG { index, n })
                    },
                    0x8 => Ok(Instruction::ARRAY { n: take_le::<i32>(code, ip)? }),
                    0x9 => {
                        let line = take_le::<i32>(code, ip)?;
                        let column = take_le::<i32>(code, ip)?;
                        Ok(Instruction::FAIL { line, column })
                    },
                    0xa => Ok(Instruction::LINE { n: take_le::<i32>(code, ip)? }),
                    _ => Err(DecoderError::InvalidOpcode(byte)),
                }
            },
            0x6 => {
                match PattKind::from_subopcode(subopcode) {
                    Some(kind) => Ok(Instruction::PATT { kind }),
                    None => Err(DecoderError::InvalidOpcode(byte)),
                }
            },
            0x7 => {
                if subopcode <= 0x3 {
                    match Builtin::from_subopcode(subopcode) {
                        Some(name) => Ok(
                            Instruction::CALL {
                                offset: None,
                                n: None,
                                name: Some(name),
                                builtin: true,
                            },
                        ),
                        None => Err(DecoderError::InvalidOpcode(byte)),
                    }
                } else if subopcode == 0x4 {
                    Ok(
                        Instruction::CALL {
                            offset: None,
                            n: Some(take_le::<i32>(code, ip)?),
                            name: Some(Builtin::Barray),
                            builtin: true,
                        },
                    )
                } else {
                    Err(DecoderError::InvalidOpcode(byte))
                }
            },
            _ => Err(DecoderError::InvalidOpcode(byte)),
        }
    }



/// Decode the variable-length immediate region of a `CLOSURE`
/// instruction: `offset`, `arity`, then `arity` capture records.
fn decode_closure_at(code: &Vec<u8>, ip: &mut usize) -> (r: Result<Instruction, DecoderError>)
    requires
        *old(ip) <= code@.len(),
    ensures
        *final(ip) <= code@.len(),
        match r {
            Ok(instr) => spec_decode_err(code@, 0x54u8, *old(ip) as int) is None && spec_decoded(
                code@,
                0x54u8,
                *old(ip) as int,
                instr,
                *final(ip) as int,
            ),
            Err(e) => Some(e) == spec_decode_err(code@, 0x54u8, *old(ip) as int),
        },
{
        let ghost ip0 = *old(ip) as int;
        let offset = take_le::<i32>(code, ip)?;
        let arity = take_le::<i32>(code, ip)?;

        let ncaps: usize = if arity < 0 {
            0
        } else {
            arity as usize
        };
        let mut captured: Vec<(ValueRel, i32)> = Vec::new();
        let mut k: usize = 0;
        while k < ncaps
            invariant
                *ip <= code@.len(),
                ip0 == *old(ip) as int,
                ip0 + 8 <= code@.len(),
                k <= ncaps,
                ncaps == spec_cap_count(spec_i32_at(code@, ip0 + 4)),
                *ip as int == ip0 + 8 + 5 * k,
                captured@.len() == k,
                forall|j: int|
                    0 <= j < k ==> {
                        let p = ip0 + 8 + 5 * j;
                        &&& p + 5 <= code@.len()
                        &&& spec_rel_of(code@[p]) == Some(#[trigger] captured@[j].0)
                        &&& captured@[j].1 == spec_i32_at(code@, p + 1)
                    },
                spec_caps_err(code@, ip0 + 8, ncaps as int) == spec_caps_err(
                    code@,
                    *ip as int,
                    (ncaps - k) as int,
                ),
            decreases ncaps - k,
        {
            let rel_byte = take_le::<u8>(code, ip)?;
            let rel = match ValueRel::from_subopcode(rel_byte) {
                Some(rel) => rel,
                None => {
                    return Err(DecoderError::InvalidOpcode(rel_byte));
                },
            };
            let index = take_le::<i32>(code, ip)?;
            captured.push((rel, index));
            k = k + 1;
        }
        Ok(Instruction::CLOSURE { offset, arity, captured })
}

/// Decoding is deterministic: two decodings of the same bytes end at the
/// same position and agree on terminality and on every control-flow
/// target.
pub proof fn lemma_decoded_deterministic(
    code: Seq<u8>,
    byte: u8,
    ip0: int,
    i1: Instruction,
    e1: int,
    i2: Instruction,
    e2: int,
)
    requires
        spec_decoded(code, byte, ip0, i1, e1),
        spec_decoded(code, byte, ip0, i2, e2),
    ensures
        e1 == e2,
        crate::bytecode::spec_is_terminal(i1) == crate::bytecode::spec_is_terminal(i2),
        crate::bytecode::spec_jump_target(i1) == crate::bytecode::spec_jump_target(i2),
        crate::bytecode::spec_call_target(i1) == crate::bytecode::spec_call_target(i2),
        crate::bytecode::spec_closure_target(i1) == crate::bytecode::spec_closure_target(i2),
{
}

} // verus!

//! Static verification of a bytecode image.
//!
//! After the reachability walk, a single forward pass over the reachable
//! offsets in ascending order tracks an abstract operand-stack height,
//! checks every instruction against the image's limits, and synthesises
//! each function's maximum stack depth.

use vstd::prelude::*;
use crate::analyzer::{ReachableResult, WalkFault, spec_decodable, spec_walk_closed, walk_reachables};
use crate::bitmap::bits_of;
use crate::bytecode::{Instruction, ValueRel};
use crate::bytefile::{Bytefile, BytefileError, spec_find_nul};
use crate::decoder::{Decoder, DecoderError};

verus! {

/// Longest accepted S-expression constructor name, in bytes.
pub const MAX_SEXP_TAGLEN: usize = 10;

/// Largest accepted closure capture count.
pub const MAX_CAPTURES: usize = 0x7fff_ffff;

/// Ceiling on the abstract operand-stack height.
pub const MAX_OPERAND_STACK_SIZE: usize = 0x7fff_ffff;

/// Largest accepted S-expression member count.
pub const MAX_SEXP_MEMBERS: usize = 0xffff;

/// Largest accepted array member count.
pub const MAX_ARRAY_MEMBERS: usize = 0xffff;

/// Largest accepted argument count of `BEGIN` and `CBEGIN`.
pub const MAX_PARAMS: usize = 0xffff;

/// Ways in which static verification can reject a program.
#[derive(Debug, PartialEq)]
pub enum VerifierError {
    /// The input file exceeds the loader's size ceiling.
    FileIsTooLarge(String, u64),
    /// A discovered offset does not decode.
    DecoderError(DecoderError),
    /// The instruction at `ip` transfers to an offset outside the code
    /// section.
    InvalidJumpOffset(usize, i32, usize),
    StringIndexOutOfBounds,
    /// A global store names a slot at or beyond the global area.
    InvalidStoreIndex(ValueRel, i32, i64),
    /// A global load names a slot at or beyond the global area.
    InvalidLoadIndex(ValueRel, i32, i64),
    /// An aggregate carries more members than the limit.
    TooMuchMembers(usize, usize),
    TooManyCaptures(usize),
    SexpTagTooLong(usize),
    InvalidBeginArgs(i32),
    /// The abstract stack height would drop below zero; the payload is
    /// the number of operands the instruction pops.
    StackUnderflow(i64),
    StackOverflow,
}

/// Table of per-function maximum operand-stack depths, indexed by the
/// code offset just after each function's `BEGIN` instruction.
pub struct VerificationResult {
    /// Maximum abstract stack height observed inside each function.
    pub stack_depths: Vec<i64>,
}

/// The fault (if any) that the per-instruction limit checks report for
/// `instr` found at code offset `address`.
pub open spec fn spec_instr_check(
    instr: Instruction,
    code_len: int,
    strtab: Seq<u8>,
    gas: int,
    address: int,
) -> Option<VerifierError> {
    match instr {
        Instruction::BEGIN { args, locals } => if args < 0 || args > 0xffff {
            Some(VerifierError::InvalidBeginArgs(args))
        } else {
            None
        },
        Instruction::CBEGIN { args, locals } => if args < 0 || args > 0xffff {
            Some(VerifierError::InvalidBeginArgs(args))
        } else {
            None
        },
        Instruction::JMP { offset } => if offset < 0 || offset >= code_len {
            Some(VerifierError::InvalidJumpOffset(address as usize, offset, code_len as usize))
        } else {
            None
        },
        Instruction::CJMP { offset, kind } => if offset < 0 || offset >= code_len {
            Some(VerifierError::InvalidJumpOffset(address as usize, offset, code_len as usize))
        } else {
            None
        },
        Instruction::CALL { offset, n, name, builtin } => if !builtin {
            match offset {
                Some(off) => if off < 0 || off >= code_len {
                    Some(VerifierError::InvalidJumpOffset(address as usize, off, code_len as usize))
                } else {
                    None
                },
                None => None,
            }
        } else {
            None
        },
        Instruction::STRING { index } => if index < 0 || index >= strtab.len() {
            Some(VerifierError::StringIndexOutOfBounds)
        } else {
            None
        },
        Instruction::SEXP { s_index, n_members } => if s_index < 0 || s_index >= strtab.len() {
            Some(VerifierError::StringIndexOutOfBounds)
        } else if n_members < 0 || n_members > 0xffff {
            Some(VerifierError::TooMuchMembers(n_members as usize, 0xffff))
        } else if spec_find_nul(strtab, s_index as int) == strtab.len() {
            Some(VerifierError::StringIndexOutOfBounds)
        } else if spec_find_nul(strtab, s_index as int) - s_index > 10 {
            Some(
                VerifierError::SexpTagTooLong(
                    (spec_find_nul(strtab, s_index as int) - s_index) as usize,
                ),
            )
        } else {
            None
        },
        Instruction::ARRAY { n } => if n < 0 || n > 0xffff {
            Some(VerifierError::TooMuchMembers(n as usize, 0xffff))
        } else {
            None
        },
        Instruction::STORE { rel, index } => if rel == ValueRel::Global && (index < 0 || index
            >= gas) {
            Some(VerifierError::InvalidStoreIndex(ValueRel::Global, index, gas as i64))
        } else {
            None
        },
        Instruction::LOAD { rel, index } => if rel == ValueRel::Global && (index < 0 || index
            >= gas) {
            Some(VerifierError::InvalidLoadIndex(ValueRel::Global, index, gas as i64))
        } else {
            None
        },
        Instruction::CLOSURE { offset, arity, captured } => if offset < 0 || offset >= code_len {
            Some(VerifierError::InvalidJumpOffset(address as usize, offset, code_len as usize))
        } else if arity < 0 {
            Some(VerifierError::TooManyCaptures(arity as usize))
        } else {
            None
        },
        Instruction::STI => Some(VerifierError::DecoderError(DecoderError::InvalidOpcode(0x13))),
        Instruction::LOADREF { rel, index } => Some(
            VerifierError::DecoderError(DecoderError::InvalidOpcode(0x30)),
        ),
        _ => None,
    }
}

/// The code section after embedding the depth entry `(o, d)`: a nonzero
/// depth is packed into the upper sixteen bits of the 32-bit immediate
/// that ends eight bytes before `o`, the position just after a `BEGIN`
/// opcode's argument word begins.  Entries whose window does not fit are
/// left alone.
pub open spec fn spec_patch_entry(code: Seq<u8>, o: int, d: i64) -> Seq<u8> {
    if d != 0 && 8 <= o && o - 4 <= code.len() {
        let oldw = crate::bytefile::spec_le32(code, o - 8) as u32;
        let neww = oldw | (((d as u32) & 0xffffu32) << 16u32);
        crate::bytefile::spec_store_le32(code, o - 8, neww)
    } else {
        code
    }
}

/// The code section after embedding the first `k` depth entries in order.
pub open spec fn spec_patch_upto(code: Seq<u8>, depths: Seq<i64>, k: int) -> Seq<u8>
    decreases k,
{
    if k <= 0 {
        code
    } else {
        spec_patch_entry(spec_patch_upto(code, depths, k - 1), k - 1, depths[k - 1])
    }
}

/// Embed the synthesised per-function maximum stack depths into the
/// image: each nonzero entry is written into the upper sixteen bits of
/// the `BEGIN` argument immediate recorded for it.  The interpreter masks
/// those bits off when it lays out a frame.
pub fn patch_stack_depths(bf: &mut Bytefile, depths: &Vec<i64>)
    ensures
        final(bf).code_section@ == spec_patch_upto(
            old(bf).code_section@,
            depths@,
            depths@.len() as int,
        ),
        final(bf).string_table == old(bf).string_table,
        final(bf).public_symbols == old(bf).public_symbols,
        final(bf).global_area_size == old(bf).global_area_size,
        final(bf).stringtab_size == old(bf).stringtab_size,
        final(bf).public_symbols_number == old(bf).public_symbols_number,
{
    let n = depths.len();
    let mut o: usize = 0;
    while o < n
        invariant
            o <= n,
            n == depths@.len(),
            bf.code_section@ == spec_patch_upto(old(bf).code_section@, depths@, o as int),
            bf.string_table == old(bf).string_table,
            bf.public_symbols == old(bf).public_symbols,
            bf.global_area_size == old(bf).global_area_size,
            bf.stringtab_size == old(bf).stringtab_size,
            bf.public_symbols_number == old(bf).public_symbols_number,
        decreases n - o,
    {
        let d = depths[o];
        let code_len = bf.code_section.len();
        if d != 0 && o >= 8 && o - 4 <= code_len {
            let oldw = crate::bytefile::read_le32(&bf.code_section, o - 8);
            let neww = oldw | (((d as u32) & 0xffff) << 16);
            crate::bytefile::write_le32(&mut bf.code_section, o - 8, neww);
        }
        o = o + 1;
    }
}

/// One step of the verification pass over the instruction `instr` found
/// at `address` (immediates ending at `inst_end`): the height update, the
/// bound and limit checks with their exact errors, and the depth-table
/// recording, carrying the state `(h0, b0, d0)` to `(h1, b1, d1)`.
pub open spec fn spec_verify_step(
    code_len: int,
    strtab: Seq<u8>,
    gas: int,
    instr: Instruction,
    address: int,
    inst_end: int,
    h0: int,
    b0: int,
    d0: Seq<i64>,
    h1: int,
    b1: int,
    d1: Seq<i64>,
    r: Result<(), VerifierError>,
) -> bool {
    let h = h0 + instr.spec_stack_effect();
    let pops = instr.spec_push_effect() - instr.spec_stack_effect();
    let checked = spec_instr_check(instr, code_len, strtab, gas, address);
    &&& (h < 0 ==> r == Err::<(), VerifierError>(VerifierError::StackUnderflow(pops as i64)))
    &&& (h > MAX_OPERAND_STACK_SIZE ==> r == Err::<(), VerifierError>(VerifierError::StackOverflow))
    &&& (0 <= h <= MAX_OPERAND_STACK_SIZE ==> r == (match checked {
        None => Ok::<(), VerifierError>(()),
        Some(e) => Err::<(), VerifierError>(e),
    }))
    &&& h1 == (if r is Ok && instr is END {
        0int
    } else {
        h
    })
    &&& b1 == (if r is Ok && (instr is BEGIN || instr is CBEGIN) {
        inst_end
    } else {
        b0
    })
    &&& d1 == (if 0 <= h <= MAX_OPERAND_STACK_SIZE && b0 < d0.len() && h > d0[b0] {
        d0.update(b0, h as i64)
    } else {
        d0
    })
}

/// `addrs` lists exactly the set bits of `reach`, in strictly ascending
/// order.
pub open spec fn spec_addrs_of(reach: Seq<bool>, addrs: Seq<usize>) -> bool {
    &&& forall|a: int, b: int| 0 <= a < b < addrs.len() ==> addrs[a] < addrs[b]
    &&& forall|k: int|
        0 <= k < addrs.len() ==> (#[trigger] addrs[k]) < reach.len() && reach[addrs[k] as int]
    &&& forall|j: int| 0 <= j < reach.len() && reach[j] ==> addrs.contains(j as usize)
}

/// Witness form of one link in the verification chain: the state
/// `(h0, b0, d0)` was reached after the first `k - 1` addresses, the
/// instruction at address `k - 1` decodes to `instr` ending at `end`, and
/// one verification step carries the state to `(h, b, d)` successfully.
pub open spec fn spec_chain_wit(
    code: Seq<u8>,
    strtab: Seq<u8>,
    gas: int,
    addrs: Seq<usize>,
    k: int,
    h0: int,
    b0: int,
    d0: Seq<i64>,
    instr: Instruction,
    end: int,
    h: int,
    b: int,
    d: Seq<i64>,
) -> bool {
    &&& k - 1 < addrs.len()
    &&& crate::decoder::spec_decoded(code, code[addrs[k - 1] as int], addrs[k - 1] + 1, instr, end)
    &&& spec_verify_step(
        code.len() as int,
        strtab,
        gas,
        instr,
        addrs[k - 1] as int,
        end,
        h0,
        b0,
        d0,
        h,
        b,
        d,
        Ok(()),
    )
}

/// The verification state after the first `k` reachable addresses all
/// passed: abstract height `h`, current function anchor `b`, and depth
/// table `d`, grown from the initial state by one step per address.
pub open spec fn spec_verify_chain(
    code: Seq<u8>,
    strtab: Seq<u8>,
    gas: int,
    addrs: Seq<usize>,
    k: int,
    h: int,
    b: int,
    d: Seq<i64>,
) -> bool
    decreases k,
{
    if k <= 0 {
        h == 0 && b == 9 && d == Seq::new(code.len(), |i: int| 0i64)
    } else {
        exists|h0: int, b0: int, d0: Seq<i64>, instr: Instruction, end: int|
            #[trigger] spec_chain_wit(code, strtab, gas, addrs, k, h0, b0, d0, instr, end, h, b, d)
                && spec_verify_chain(code, strtab, gas, addrs, k - 1, h0, b0, d0)
    }
}

/// The ways `Verifier::verify` can reject a program with error `e`: the
/// reachability walk itself failed, or the pass over the reachable
/// addresses (in ascending order) reached an instruction whose check
/// fails after a chain of successful steps.
pub open spec fn spec_verify_rejects(
    code: Seq<u8>,
    strtab: Seq<u8>,
    gas: int,
    syms: Seq<(u32, u32)>,
    e: VerifierError,
) -> bool {
    ||| (match e {
        VerifierError::DecoderError(de) => crate::analyzer::spec_walk_decode_fault(code, de),
        VerifierError::InvalidJumpOffset(ip, offset, code_len) => code_len == code.len()
            && crate::analyzer::spec_walk_bad_transfer(code, syms, ip, offset),
        _ => false,
    })
    ||| exists|
        reach: Seq<bool>,
        addrs: Seq<usize>,
        k: int,
        h: int,
        b: int,
        d: Seq<i64>,
        instr: Instruction,
        end: int,
        h1: int,
        b1: int,
        d1: Seq<i64>,
    | #[trigger] spec_reject_wit(
        code,
        strtab,
        gas,
        e,
        reach,
        addrs,
        k,
        h,
        b,
        d,
        instr,
        end,
        h1,
        b1,
        d1,
    )
}

/// Witness form of a failing verification step: a chain over the first
/// `k` addresses of the reachable set succeeds, and the step at address
/// `k` fails with error `e`.
pub open spec fn spec_reject_wit(
    code: Seq<u8>,
    strtab: Seq<u8>,
    gas: int,
    e: VerifierError,
    reach: Seq<bool>,
    addrs: Seq<usize>,
    k: int,
    h: int,
    b: int,
    d: Seq<i64>,
    instr: Instruction,
    end: int,
    h1: int,
    b1: int,
    d1: Seq<i64>,
) -> bool {
    &&& reach.len() == code.len()
    &&& spec_addrs_of(reach, addrs)
    &&& 0 <= k < addrs.len()
    &&& spec_verify_chain(code, strtab, gas, addrs, k, h, b, d)
    &&& crate::decoder::spec_decoded(code, code[addrs[k] as int], addrs[k] + 1, instr, end)
    &&& spec_verify_step(
        code.len() as int,
        strtab,
        gas,
        instr,
        addrs[k] as int,
        end,
        h,
        b,
        d,
        h1,
        b1,
        d1,
        Err(e),
    )
}

/// Witness form of a completed verification: `addrs` lists the set bits
/// of `reach` in ascending order, and the chain over all of them ends
/// with height `h`, anchor `b` and the depth table `depths`, the height
/// staying within the ceiling.
pub open spec fn spec_verify_ok_wit(
    code: Seq<u8>,
    strtab: Seq<u8>,
    gas: int,
    reach: Seq<bool>,
    depths: Seq<i64>,
    addrs: Seq<usize>,
    h: int,
    b: int,
) -> bool {
    &&& spec_addrs_of(reach, addrs)
    &&& spec_verify_chain(code, strtab, gas, addrs, addrs.len() as int, h, b, depths)
    &&& 0 <= h <= MAX_OPERAND_STACK_SIZE
}

/// Static verifier over a decoder: rejects programs that break the
/// image's structural and numeric limits, and computes per-function
/// maximum stack depths.
pub struct Verifier {
    /// The cursor over the image being verified.
    pub decoder: Decoder,
}

impl Verifier {
    /// A verifier for the image behind `decoder`.
    pub fn new(decoder: Decoder) -> (r: Verifier)
        ensures
            r.decoder == decoder,
    {
        Verifier { decoder }
    }

    /// Walk the bytecode from the public symbols and report the reachable
    /// offsets and jump targets; a control transfer that leaves the code
    /// section is rejected as `InvalidJumpOffset`.
    pub fn get_reachables(&mut self) -> (r: Result<ReachableResult, VerifierError>)
        requires
            old(self).decoder.wf(),
        ensures
            final(self).decoder.wf(),
            final(self).decoder.bf == old(self).decoder.bf,
            match r {
                Ok(rr) => {
                    let code = old(self).decoder.bf.code_section@;
                    let reach = bits_of(&rr.reachables);
                    let targ = bits_of(&rr.targets);
                    &&& reach.len() == code.len()
                    &&& targ.len() == code.len()
                    &&& forall|i: int|
                        0 <= i < old(self).decoder.bf.public_symbols@.len() ==> {
                            let s = (#[trigger] old(self).decoder.bf.public_symbols@[i]).0 as int;
                            s < code.len() && reach[s]
                        }
                    &&& forall|o: int|
                        0 <= o < code.len() && #[trigger] reach[o] ==> spec_decodable(code, o)
                            && spec_walk_closed(code, o, reach, targ)
                    &&& forall|t: int| 0 <= t < code.len() && #[trigger] targ[t] ==> reach[t]
                },
                Err(e) => {
                    let code = old(self).decoder.bf.code_section@;
                    let syms = old(self).decoder.bf.public_symbols@;
                    match e {
                        VerifierError::DecoderError(de) => crate::analyzer::spec_walk_decode_fault(
                            code,
                            de,
                        ),
                        VerifierError::InvalidJumpOffset(ip, offset, code_len) => code_len
                            == code.len() && crate::analyzer::spec_walk_bad_transfer(
                            code,
                            syms,
                            ip,
                            offset,
                        ),
                        _ => false,
                    }
                },
            },
    {
        match walk_reachables(&mut self.decoder) {
            Ok(rr) => Ok(rr),
            Err(WalkFault::Decode(e)) => Err(VerifierError::DecoderError(e)),
            Err(WalkFault::BadOffset { ip, offset, code_len }) => Err(
                VerifierError::InvalidJumpOffset(ip, offset, code_len),
            ),
        }
    }

    /// Check one instruction: update the abstract stack height, reject
    /// height and limit violations, and record the running maximum height
    /// of the current function.
    pub fn verify_instruction(
        &self,
        instruction: &Instruction,
        stack_depths: &mut Vec<i64>,
        current_stack_depth: &mut i64,
        current_function_begin_offset: &mut usize,
        current_begin_instr_address: usize,
        current_inst_end: usize,
    ) -> (r: Result<(), VerifierError>)
        requires
            0 <= *old(current_stack_depth) <= MAX_OPERAND_STACK_SIZE,
        ensures
            spec_verify_step(
                self.decoder.bf.code_section@.len() as int,
                self.decoder.bf.string_table@,
                self.decoder.bf.global_area_size as int,
                *instruction,
                current_begin_instr_address as int,
                current_inst_end as int,
                *old(current_stack_depth) as int,
                *old(current_function_begin_offset) as int,
                old(stack_depths)@,
                *final(current_stack_depth) as int,
                *final(current_function_begin_offset) as int,
                final(stack_depths)@,
                r,
            ),
    {
        let code_len = self.decoder.bf.code_section.len();
        let strtab_len = self.decoder.bf.string_table.len();
        let gas = self.decoder.bf.global_area_size;

        let effect = instruction.stack_size_effect();
        *current_stack_depth = *current_stack_depth + effect;
        let h1 = *current_stack_depth;

        if h1 < 0 {
            let pops = instruction.push_effect() - effect;
            return Err(VerifierError::StackUnderflow(pops));
        }
        if h1 > MAX_OPERAND_STACK_SIZE as i64 {
            return Err(VerifierError::StackOverflow);
        }

        // Record the running maximum height of the current function.
        let begin = *current_function_begin_offset;
        if begin < stack_depths.len() && h1 > stack_depths[begin] {
            stack_depths.set(begin, h1);
        }

        match instruction {
            Instruction::BEGIN { args, locals } | Instruction::CBEGIN { args, locals } => {
                if *args < 0 || *args > MAX_PARAMS as i32 {
                    return Err(VerifierError::InvalidBeginArgs(*args));
                }
                *current_function_begin_offset = current_inst_end;
            },
            Instruction::END => {
                *current_stack_depth = 0;
            },
            Instruction::JMP { offset } => {
                if *offset < 0 || *offset as usize >= code_len {
                    return Err(
                        VerifierError::InvalidJumpOffset(
                            current_begin_instr_address,
                            *offset,
                            code_len,
                        ),
                    );
                }
            },
            Instruction::CJMP { offset, kind: _ } => {
                if *offset < 0 || *offset as usize >= code_len {
                    return Err(
                        VerifierError::InvalidJumpOffset(
                            current_begin_instr_address,
                            *offset,
                            code_len,
                        ),
                    );
                }
            },
            Instruction::CALL { offset, n: _, name: _, builtin } => {
                if !*builtin {
                    if let Some(off) = offset {
                        if *off < 0 || *off as usize >= code_len {
                            return Err(
                                VerifierError::InvalidJumpOffset(
                                    current_begin_instr_address,
                                    *off,
                                    code_len,
                                ),
                            );
                        }
                    }
                }
            },
            Instruction::STRING { index } => {
                if *index < 0 || *index as usize >= strtab_len {
                    return Err(VerifierError::StringIndexOutOfBounds);
                }
            },
            Instruction::SEXP { s_index, n_members } => {
                if *s_index < 0 || *s_index as usize >= strtab_len {
                    return Err(VerifierError::StringIndexOutOfBounds);
                }
                if *n_members < 0 || *n_members as usize > MAX_SEXP_MEMBERS {
                    return Err(
                        VerifierError::TooMuchMembers(
                            #[verifier::truncate] (*n_members as usize),
                            MAX_SEXP_MEMBERS,
                        ),
                    );
                }
                let tag = match self.decoder.bf.get_string_at_offset(*s_index as usize) {
                    Ok(tag) => tag,
                    Err(_) => {
                        return Err(VerifierError::StringIndexOutOfBounds);
                    },
                };
                proof {
                    crate::bytefile::lemma_find_nul_range(
                        self.decoder.bf.string_table@,
                        *s_index as int,
                    );
                }
                // The returned bytes carry the terminator; the limit is
                // on the constructor name itself.
                if tag.len() - 1 > MAX_SEXP_TAGLEN {
                    return Err(VerifierError::SexpTagTooLong(tag.len() - 1));
                }
            },
            Instruction::ARRAY { n } => {
                if *n < 0 || *n as usize > MAX_ARRAY_MEMBERS {
                    return Err(
                        VerifierError::TooMuchMembers(
                            #[verifier::truncate] (*n as usize),
                            MAX_ARRAY_MEMBERS,
                        ),
                    );
                }
            },
            Instruction::STORE { rel, index } => {
                if let ValueRel::Global = rel {
                    if *index < 0 || *index as u64 >= gas as u64 {
                        return Err(
                            VerifierError::InvalidStoreIndex(ValueRel::Global, *index, gas as i64),
                        );
                    }
                }
            },
            Instruction::LOAD { rel, index } => {
                if let ValueRel::Global = rel {
                    if *index < 0 || *index as u64 >= gas as u64 {
                        return Err(
                            VerifierError::InvalidLoadIndex(ValueRel::Global, *index, gas as i64),
                        );
                    }
                }
            },
            Instruction::CLOSURE { offset, arity, captured: _ } => {
                if *offset < 0 || *offset as usize >= code_len {
                    return Err(
                        VerifierError::InvalidJumpOffset(
                            current_begin_instr_address,
                            *offset,
                            code_len,
                        ),
                    );
                }
                if *arity < 0 {
                    return Err(
                        VerifierError::TooManyCaptures(#[verifier::truncate] (*arity as usize)),
                    );
                }
            },
            Instruction::STI => {
                return Err(VerifierError::DecoderError(DecoderError::InvalidOpcode(0x13)));
            },
            Instruction::LOADREF { rel: _, index: _ } => {
                return Err(VerifierError::DecoderError(DecoderError::InvalidOpcode(0x30)));
            },
            _ => {},
        }
        Ok(())
    }

    /// Verify the image: walk the reachable offsets, then check each in
    /// ascending order, synthesising the per-function maximum stack
    /// depths.
    ///
    /// On success the depth table covers the code section and every
    /// recorded depth lies within `[0, MAX_OPERAND_STACK_SIZE]`, and the
    /// returned reachability result satisfies the walker's guarantees.
    #[verifier::spinoff_prover]
    #[verifier::rlimit(100)]
    pub fn verify(&mut self) -> (r: Result<(VerificationResult, ReachableResult), VerifierError>)
        requires
            old(self).decoder.wf(),
        ensures
            final(self).decoder.wf(),
            final(self).decoder.bf == old(self).decoder.bf,
            match r {
                Ok((vr, rr)) => {
                    let code = old(self).decoder.bf.code_section@;
                    let reach = bits_of(&rr.reachables);
                    let targ = bits_of(&rr.targets);
                    &&& vr.stack_depths@.len() == code.len()
                    &&& forall|i: int|
                        0 <= i < vr.stack_depths@.len() ==> 0 <= #[trigger] vr.stack_depths@[i]
                            <= MAX_OPERAND_STACK_SIZE
                    &&& reach.len() == code.len()
                    &&& targ.len() == code.len()
                    &&& forall|i: int|
                        0 <= i < old(self).decoder.bf.public_symbols@.len() ==> {
                            let s = (#[trigger] old(self).decoder.bf.public_symbols@[i]).0 as int;
                            s < code.len() && reach[s]
                        }
                    &&& forall|o: int|
                        0 <= o < code.len() && #[trigger] reach[o] ==> spec_decodable(code, o)
                            && spec_walk_closed(code, o, reach, targ)
                    &&& forall|t: int| 0 <= t < code.len() && #[trigger] targ[t] ==> reach[t]
                    &&& exists|addrs: Seq<usize>, h: int, b: int|
                        #[trigger] spec_verify_ok_wit(
                            code,
                            old(self).decoder.bf.string_table@,
                            old(self).decoder.bf.global_area_size as int,
                            reach,
                            vr.stack_depths@,
                            addrs,
                            h,
                            b,
                        )
                },
                Err(e) => spec_verify_rejects(
                    old(self).decoder.bf.code_section@,
                    old(self).decoder.bf.string_table@,
                    old(self).decoder.bf.global_area_size as int,
                    old(self).decoder.bf.public_symbols@,
                    e,
                ),
            },
    {
        let ghost code = old(self).decoder.bf.code_section@;
        let ghost strtab = old(self).decoder.bf.string_table@;
        let ghost gas = old(self).decoder.bf.global_area_size as int;
        let rr = match self.get_reachables() {
            Ok(rr) => rr,
            Err(e) => {
                return Err(e);
            },
        };
        let ghost reach = bits_of(&rr.reachables);
        let addresses = rr.reachables.ones();
        proof {
            assert(spec_addrs_of(reach, addresses@));
        }
        let code_len = self.decoder.code_section_len;

        let mut stack_depths: Vec<i64> = Vec::new();
        let mut z: usize = 0;
        while z < code_len
            invariant
                z <= code_len,
                stack_depths@.len() == z,
                forall|i: int| 0 <= i < z ==> #[trigger] stack_depths@[i] == 0i64,
            decreases code_len - z,
        {
            stack_depths.push(0);
            z = z + 1;
        }
        proof {
            assert(stack_depths@ =~= Seq::new(code.len(), |i: int| 0i64));
        }

        let mut current_stack_depth: i64 = 0;
        let mut current_function_begin_offset: usize = 9;

        let n = addresses.len();
        let mut k: usize = 0;
        while k < n
            invariant
                self.decoder.wf(),
                self.decoder.bf == old(self).decoder.bf,
                code == self.decoder.bf.code_section@,
                strtab == self.decoder.bf.string_table@,
                gas == self.decoder.bf.global_area_size as int,
                code_len == self.decoder.bf.code_section@.len(),
                n == addresses@.len(),
                k <= n,
                reach.len() == code.len(),
                spec_addrs_of(reach, addresses@),
                forall|o: int|
                    0 <= o < code.len() && #[trigger] reach[o] ==> spec_decodable(code, o),
                forall|j: int| 0 <= j < n ==> (#[trigger] addresses@[j]) < code_len,
                stack_depths@.len() == code_len,
                0 <= current_stack_depth <= MAX_OPERAND_STACK_SIZE,
                forall|i: int|
                    0 <= i < code_len ==> 0 <= #[trigger] stack_depths@[i]
                        <= MAX_OPERAND_STACK_SIZE,
                spec_verify_chain(
                    code,
                    strtab,
                    gas,
                    addresses@,
                    k as int,
                    current_stack_depth as int,
                    current_function_begin_offset as int,
                    stack_depths@,
                ),
            decreases n - k,
        {
            let address = addresses[k];
            self.decoder.ip = address;
            proof {
                assert(reach[address as int]);
                assert(spec_decodable(code, address as int));
            }
            let byte = match self.decoder.next::<u8>() {
                Ok(b) => b,
                Err(e) => {
                    return Err(VerifierError::DecoderError(e));
                },
            };
            let instr = match self.decoder.decode(byte) {
                Ok(i) => i,
                Err(e) => {
                    proof {
                        assert(false);
                    }
                    return Err(VerifierError::DecoderError(e));
                },
            };
            let current_inst_end = self.decoder.ip;
            let ghost h0 = current_stack_depth as int;
            let ghost b0 = current_function_begin_offset as int;
            let ghost d0 = stack_depths@;
            match self.verify_instruction(
                &instr,
                &mut stack_depths,
                &mut current_stack_depth,
                &mut current_function_begin_offset,
                address,
                current_inst_end,
            ) {
                Ok(()) => {},
                Err(e) => {
                    proof {
                        assert(spec_reject_wit(
                            code,
                            strtab,
                            gas,
                            e,
                            reach,
                            addresses@,
                            k as int,
                            h0,
                            b0,
                            d0,
                            instr,
                            current_inst_end as int,
                            current_stack_depth as int,
                            current_function_begin_offset as int,
                            stack_depths@,
                        ));
                        assert(spec_verify_rejects(
                            code,
                            strtab,
                            gas,
                            old(self).decoder.bf.public_symbols@,
                            e,
                        ));
                    }
                    return Err(e);
                },
            }
            proof {
                assert(spec_chain_wit(
                    code,
                    strtab,
                    gas,
                    addresses@,
                    k + 1,
                    h0,
                    b0,
                    d0,
                    instr,
                    current_inst_end as int,
                    current_stack_depth as int,
                    current_function_begin_offset as int,
                    stack_depths@,
                ));
                assert(spec_verify_chain(
                    code,
                    strtab,
                    gas,
                    addresses@,
                    k + 1,
                    current_stack_depth as int,
                    current_function_begin_offset as int,
                    stack_depths@,
                ));
            }
            k = k + 1;
        }

        proof {
            assert(spec_addrs_of(bits_of(&rr.reachables), addresses@));
            assert(spec_verify_chain(
                code,
                strtab,
                gas,
                addresses@,
                addresses@.len() as int,
                current_stack_depth as int,
                current_function_begin_offset as int,
                stack_depths@,
            ));
            assert(spec_verify_ok_wit(
                code,
                strtab,
                gas,
                bits_of(&rr.reachables),
                stack_depths@,
                addresses@,
                current_stack_depth as int,
                current_function_begin_offset as int,
            ));
        }
        Ok((VerificationResult { stack_depths }, rr))
    }
}

} // verus!

//! Reachability analysis of a bytecode image.
//!
//! A worklist walk starts from the public-symbol offsets and decodes each
//! discovered offset once, following fall-through edges, jumps, calls and
//! closure bodies.  Its result is a pair of bitmaps over the code section:
//! reachable instruction starts, and jump targets.

use vstd::prelude::*;
use std::collections::HashMap;
use std::collections::VecDeque;
use crate::bitmap::{OffsetBits, bits_of};
use crate::bytecode::{
    Instruction,
    instruction_eq,
    spec_call_target,
    spec_closure_target,
    spec_instr_eq,
    spec_is_split,
    spec_is_terminal,
    spec_jump_target,
};
use crate::decoder::{Decoder, DecoderError, spec_decode_err, spec_decoded};

verus! {

broadcast use vstd::std_specs::hash::group_hash_axioms;

/// Ways in which the reachability analysis can fail.
#[derive(Debug)]
pub enum AnalysisError {
    /// The input file exceeds the loader's size ceiling.
    FileIsTooLarge(String, u64),
    /// An offset on some path from an entry point does not decode.
    DecoderError(DecoderError),
}

/// A fault found while walking the code section, kept in terms of the
/// offending instruction so callers can report it their own way.
#[derive(Debug, Clone, Copy, PartialEq, Eq, Structural)]
pub(crate) enum WalkFault {
    /// Decoding failed at a discovered offset.
    Decode(DecoderError),
    /// A control transfer at `ip` names the offset `offset`, which lies
    /// outside the code section of length `code_len`.
    BadOffset { ip: usize, offset: i32, code_len: usize },
}

/// The two bitmaps produced by the walk, indexed by code-section offset.
pub struct ReachableResult {
    /// Set at each offset where an instruction on some path from an entry
    /// point begins.
    pub reachables: OffsetBits,
    /// Set at each offset some jump transfers to.
    pub targets: OffsetBits,
}

impl ReachableResult {
    /// True when an instruction on some path from an entry begins at
    /// `offset`.
    pub fn is_reachable(&self, offset: usize) -> (r: bool)
        requires
            offset < bits_of(&self.reachables).len(),
        ensures
            r == bits_of(&self.reachables)[offset as int],
    {
        self.reachables.get(offset)
    }

    /// True when some jump transfers to `offset`.
    pub fn is_target(&self, offset: usize) -> (r: bool)
        requires
            offset < bits_of(&self.targets).len(),
        ensures
            r == bits_of(&self.targets)[offset as int],
    {
        self.targets.get(offset)
    }
}

/// The byte at offset `o` begins a decodable instruction.
pub open spec fn spec_decodable(code: Seq<u8>, o: int) -> bool {
    0 <= o < code.len() && spec_decode_err(code, code[o], o + 1) is None
}

/// Offset `a` has been found: it is marked reachable or waits on the
/// worklist.
pub open spec fn spec_discovered(reach: Seq<bool>, wl: Seq<u32>, a: int) -> bool {
    (0 <= a < reach.len() && reach[a]) || wl.contains(a as u32)
}

/// Every control-flow successor of the instruction `instr` (decoded with
/// immediate region ending at `end`) has been found, and its jump target
/// is marked in `targ`.
pub open spec fn spec_walk_instr_ok(
    code: Seq<u8>,
    instr: Instruction,
    end: int,
    reach: Seq<bool>,
    wl: Seq<u32>,
    targ: Seq<bool>,
) -> bool {
    &&& (!spec_is_terminal(instr) ==> 0 <= end < code.len() && spec_discovered(reach, wl, end))
    &&& (match spec_jump_target(instr) {
        Some(t) => 0 <= t < code.len() && spec_discovered(reach, wl, t as int) && targ[t as int],
        None => true,
    })
    &&& (match spec_call_target(instr) {
        Some(t) => 0 <= t < code.len() && spec_discovered(reach, wl, t as int),
        None => true,
    })
    &&& (match spec_closure_target(instr) {
        Some(t) => 0 <= t < code.len() && spec_discovered(reach, wl, t as int),
        None => true,
    })
}

/// The instruction at offset `o` decodes and all its successors have been
/// found.
pub open spec fn spec_walk_succs_ok(
    code: Seq<u8>,
    o: int,
    reach: Seq<bool>,
    wl: Seq<u32>,
    targ: Seq<bool>,
) -> bool {
    exists|instr: Instruction, end: int|
        #[trigger] spec_decoded(code, code[o], o + 1, instr, end) && spec_walk_instr_ok(
            code,
            instr,
            end,
            reach,
            wl,
            targ,
        )
}

/// With the walk finished, every successor of a reachable offset is
/// itself marked reachable.
pub open spec fn spec_walk_closed(code: Seq<u8>, o: int, reach: Seq<bool>, targ: Seq<bool>) -> bool {
    spec_walk_succs_ok(code, o, reach, Seq::<u32>::empty(), targ)
}

/// Some offset inside the code section fails to decode with fault `e`,
/// or the code section itself is too large to walk with 32-bit offsets.
pub open spec fn spec_walk_decode_fault(code: Seq<u8>, e: DecoderError) -> bool {
    ||| code.len() >= 0xFFFF_FFFF
    ||| exists|o: int|
        0 <= o < code.len() && #[trigger] spec_decode_err(code, code[o], o + 1) == Some(e)
}

/// A control transfer leaves the code section: a public-symbol entry
/// lies outside it, or the instruction at `ip` names the target `offset`
/// (or falls through past the end).
pub open spec fn spec_walk_bad_transfer(
    code: Seq<u8>,
    syms: Seq<(u32, u32)>,
    ip: usize,
    offset: i32,
) -> bool {
    ||| exists|i: int| 0 <= i < syms.len() && (#[trigger] syms[i]).0 >= code.len()
    ||| ((ip as int) < code.len() && exists|instr: Instruction, end: int|
        {
            &&& #[trigger] spec_decoded(code, code[ip as int], ip + 1, instr, end)
            &&& (((spec_jump_target(instr) == Some(offset) || spec_call_target(instr) == Some(
                offset,
            ) || spec_closure_target(instr) == Some(offset)) && (offset < 0 || offset as int
                >= code.len())) || (!spec_is_terminal(instr) && end >= code.len()))
        })
}

/// Number of clear bits in `s`.
pub closed spec fn count_false(s: Seq<bool>) -> nat
    decreases s.len(),
{
    if s.len() == 0 {
        0
    } else {
        count_false(s.drop_last()) + if s.last() {
            0nat
        } else {
            1nat
        }
    }
}

/// Setting a clear bit decreases the number of clear bits by one.
proof fn lemma_count_false_update(s: Seq<bool>, i: int)
    requires
        0 <= i < s.len(),
        !s[i],
    ensures
        count_false(s.update(i, true)) + 1 == count_false(s),
    decreases s.len(),
{
    reveal(count_false);
    let s2 = s.update(i, true);
    if i == s.len() - 1 {
        assert(s2.drop_last() =~= s.drop_last());
        assert(s2.last());
    } else {
        assert(s2.drop_last() =~= s.drop_last().update(i, true));
        assert(s2.last() == s.last());
        lemma_count_false_update(s.drop_last(), i);
    }
}

/// A pushed sequence keeps every element it already contained.
proof fn lemma_push_keeps_contains(s: Seq<u32>, v: u32, x: u32)
    requires
        s.contains(x),
    ensures
        s.push(v).contains(x),
{
    let k = choose|k: int| 0 <= k < s.len() && s[k] == x;
    assert(s.push(v)[k] == x);
}

/// An element of a sequence is its head or an element of its tail.
proof fn lemma_head_or_tail_contains(s: Seq<u32>, x: u32)
    requires
        s.len() > 0,
        s.contains(x),
    ensures
        x == s[0] || s.subrange(1, s.len() as int).contains(x),
{
    let k = choose|k: int| 0 <= k < s.len() && s[k] == x;
    if k > 0 {
        assert(s.subrange(1, s.len() as int)[k - 1] == x);
    }
}

/// A found offset stays found when popped offsets get marked and new
/// offsets are pushed.
proof fn lemma_discovered_mono(
    reach1: Seq<bool>,
    wl1: Seq<u32>,
    reach2: Seq<bool>,
    wl2: Seq<u32>,
    a: int,
)
    requires
        0 <= a < 0x1_0000_0000,
        reach2.len() == reach1.len(),
        forall|i: int| 0 <= i < reach1.len() && reach1[i] ==> #[trigger] reach2[i],
        forall|x: u32|
            wl1.contains(x) ==> #[trigger] wl2.contains(x) || ((x as int) < reach2.len()
                && reach2[x as int]),
        spec_discovered(reach1, wl1, a),
    ensures
        spec_discovered(reach2, wl2, a),
{
    if 0 <= a < reach1.len() && reach1[a] {
        assert(reach2[a]);
    } else {
        let x = a as u32;
        assert(wl1.contains(x));
        assert(wl2.contains(x) || ((x as int) < reach2.len() && reach2[x as int]));
        assert(x as int == a);
    }
}

/// Finding more offsets (marking popped ones, pushing new ones) preserves
/// every already-established successor fact.
proof fn lemma_walk_frontier_mono(
    code: Seq<u8>,
    reach1: Seq<bool>,
    wl1: Seq<u32>,
    targ1: Seq<bool>,
    reach2: Seq<bool>,
    wl2: Seq<u32>,
    targ2: Seq<bool>,
)
    requires
        code.len() < 0x1_0000_0000,
        reach2.len() == reach1.len(),
        targ1.len() == code.len(),
        targ2.len() == targ1.len(),
        forall|i: int| 0 <= i < reach1.len() && reach1[i] ==> #[trigger] reach2[i],
        forall|i: int| 0 <= i < targ1.len() && targ1[i] ==> #[trigger] targ2[i],
        forall|x: u32|
            wl1.contains(x) ==> #[trigger] wl2.contains(x) || ((x as int) < reach2.len()
                && reach2[x as int]),
    ensures
        forall|o: int|
            0 <= o < code.len() && #[trigger] spec_walk_succs_ok(code, o, reach1, wl1, targ1)
                ==> spec_walk_succs_ok(code, o, reach2, wl2, targ2),
{
    assert forall|o: int|
        0 <= o < code.len() && #[trigger] spec_walk_succs_ok(
            code,
            o,
            reach1,
            wl1,
            targ1,
        ) implies spec_walk_succs_ok(code, o, reach2, wl2, targ2) by {
        let (instr, end) = choose|instr: Instruction, end: int|
            #[trigger] spec_decoded(code, code[o], o + 1, instr, end) && spec_walk_instr_ok(
                code,
                instr,
                end,
                reach1,
                wl1,
                targ1,
            );
        if !spec_is_terminal(instr) {
            lemma_discovered_mono(reach1, wl1, reach2, wl2, end);
        }
        match spec_jump_target(instr) {
            Some(t) => {
                lemma_discovered_mono(reach1, wl1, reach2, wl2, t as int);
                assert(targ2[t as int]);
            },
            None => {},
        }
        match spec_call_target(instr) {
            Some(t) => {
                lemma_discovered_mono(reach1, wl1, reach2, wl2, t as int);
            },
            None => {},
        }
        match spec_closure_target(instr) {
            Some(t) => {
                lemma_discovered_mono(reach1, wl1, reach2, wl2, t as int);
            },
            None => {},
        }
        assert(spec_walk_instr_ok(code, instr, end, reach2, wl2, targ2));
    }
}

/// Walk the code section from the public-symbol offsets: mark every
/// offset where an instruction on some path begins, and every jump
/// target.
///
/// On success both bitmaps cover the code section, every public-symbol
/// offset is marked reachable, and every reachable offset decodes with
/// all of its successors reachable.
pub(crate) fn walk_reachables(decoder: &mut Decoder) -> (r: Result<ReachableResult, WalkFault>)
    requires
        old(decoder).wf(),
    ensures
        final(decoder).wf(),
        final(decoder).bf == old(decoder).bf,
        match r {
            Ok(rr) => {
                let code = old(decoder).bf.code_section@;
                let reach = bits_of(&rr.reachables);
                let targ = bits_of(&rr.targets);
                &&& reach.len() == code.len()
                &&& targ.len() == code.len()
                &&& forall|i: int|
                    0 <= i < old(decoder).bf.public_symbols@.len() ==> {
                        let s = #[trigger] old(decoder).bf.public_symbols@[i].0 as int;
                        s < code.len() && reach[s]
                    }
                &&& forall|o: int|
                    0 <= o < code.len() && #[trigger] reach[o] ==> spec_decodable(code, o)
                        && spec_walk_closed(code, o, reach, targ)
                &&& forall|t: int| 0 <= t < code.len() && #[trigger] targ[t] ==> reach[t]
            },
            Err(f) => {
                let code = old(decoder).bf.code_section@;
                let syms = old(decoder).bf.public_symbols@;
                match f {
                    WalkFault::Decode(e) => spec_walk_decode_fault(code, e),
                    WalkFault::BadOffset { ip, offset, code_len } => code_len == code.len()
                        && spec_walk_bad_transfer(code, syms, ip, offset),
                }
            },
        },
{
    let code_len = decoder.code_section_len;
    let ghost code = decoder.bf.code_section@;

    if code_len >= 0xFFFF_FFFFusize {
        return Err(WalkFault::Decode(DecoderError::ReadingMoreThenCodeSection));
    }
    let mut reachable = OffsetBits::new();
    reachable.resize(code_len, false);
    let mut targets = OffsetBits::new();
    targets.resize(code_len, false);

    let mut worklist: VecDeque<u32> = VecDeque::new();
    let n_syms = decoder.bf.public_symbols.len();
    let mut si: usize = 0;
    while si < n_syms
        invariant
            decoder.wf(),
            decoder.bf == old(decoder).bf,
            code == decoder.bf.code_section@,
            code_len == code.len(),
            code_len < 0xFFFF_FFFF,
            n_syms == decoder.bf.public_symbols@.len(),
            si <= n_syms,
            bits_of(&reachable) == Seq::new(code_len as nat, |i: int| false),
            bits_of(&targets) == Seq::new(code_len as nat, |i: int| false),
            forall|k: int| 0 <= k < worklist@.len() ==> (#[trigger] worklist@[k] as int) < code_len,
            forall|i: int|
                0 <= i < si ==> worklist@.contains(
                    (#[trigger] decoder.bf.public_symbols@[i]).0,
                ),
        decreases n_syms - si,
    {
        let (sym_off, _name_off) = decoder.bf.public_symbols[si];
        if sym_off as usize >= code_len {
            return Err(
                WalkFault::BadOffset {
                    ip: sym_off as usize,
                    offset: #[verifier::truncate] (sym_off as i32),
                    code_len,
                },
            );
        }
        let ghost wl_before = worklist@;
        worklist.push_back(sym_off);
        proof {
            assert forall|i: int|
                0 <= i < si + 1 implies worklist@.contains(
                (#[trigger] decoder.bf.public_symbols@[i]).0,
            ) by {
                if i < si {
                    lemma_push_keeps_contains(
                        wl_before,
                        sym_off,
                        decoder.bf.public_symbols@[i].0,
                    );
                } else {
                    assert(worklist@[wl_before.len() as int] == sym_off);
                }
            }
        }
        si = si + 1;
    }

    while worklist.len() > 0
        invariant
            decoder.wf(),
            decoder.bf == old(decoder).bf,
            code == decoder.bf.code_section@,
            code_len == code.len(),
            code_len < 0xFFFF_FFFF,
            bits_of(&reachable).len() == code_len,
            bits_of(&targets).len() == code_len,
            forall|k: int| 0 <= k < worklist@.len() ==> (#[trigger] worklist@[k] as int) < code_len,
            forall|i: int|
                0 <= i < decoder.bf.public_symbols@.len() ==> spec_discovered(
                    bits_of(&reachable),
                    worklist@,
                    #[trigger] decoder.bf.public_symbols@[i].0 as int,
                ),
            forall|o: int|
                0 <= o < code_len && #[trigger] bits_of(&reachable)[o] ==> spec_decodable(code, o)
                    && spec_walk_succs_ok(
                    code,
                    o,
                    bits_of(&reachable),
                    worklist@,
                    bits_of(&targets),
                ),
            forall|t: int|
                0 <= t < code_len && #[trigger] bits_of(&targets)[t] ==> spec_discovered(
                    bits_of(&reachable),
                    worklist@,
                    t,
                ),
        decreases count_false(bits_of(&reachable)), worklist@.len(),
    {
        let ghost reach1 = bits_of(&reachable);
        let ghost targ1 = bits_of(&targets);
        let ghost wl0 = worklist@;
        let next = worklist.pop_front();
        let offset = match next {
            Some(o) => o,
            None => {
                return Err(WalkFault::Decode(DecoderError::ReadingMoreThenCodeSection));
            },
        };
        let addr = offset as usize;
        let ghost wl_mid = worklist@;

        if reachable.get(addr) {
            proof {
                assert forall|x: u32|
                    wl0.contains(x) implies wl_mid.contains(x) || ((x as int) < reach1.len()
                    && reach1[x as int]) by {
                    lemma_head_or_tail_contains(wl0, x);
                }
                lemma_walk_frontier_mono(code, reach1, wl0, targ1, reach1, wl_mid, targ1);
                assert forall|t: int|
                    0 <= t < code_len && #[trigger] targ1[t] implies spec_discovered(
                    reach1,
                    wl_mid,
                    t,
                ) by {
                    lemma_discovered_mono(reach1, wl0, reach1, wl_mid, t);
                }
            }
            continue ;
        }

        reachable.set(addr, true);
        let ghost reach2 = bits_of(&reachable);
        proof {
            lemma_count_false_update(reach1, addr as int);
            assert forall|x: u32|
                wl0.contains(x) implies wl_mid.contains(x) || ((x as int) < reach2.len()
                && reach2[x as int]) by {
                lemma_head_or_tail_contains(wl0, x);
            }
            lemma_walk_frontier_mono(code, reach1, wl0, targ1, reach2, wl_mid, targ1);
            assert forall|t: int|
                0 <= t < code_len && #[trigger] targ1[t] implies spec_discovered(
                reach2,
                wl_mid,
                t,
            ) by {
                lemma_discovered_mono(reach1, wl0, reach2, wl_mid, t);
            }
        }

        decoder.ip = addr;
        let byte = match decoder.next::<u8>() {
            Ok(b) => b,
            Err(e) => {
                return Err(WalkFault::Decode(e));
            },
        };
        let instr = match decoder.decode(byte) {
            Ok(i) => i,
            Err(e) => {
                return Err(WalkFault::Decode(e));
            },
        };
        let end = decoder.ip;
        proof {
            assert(spec_decoded(code, code[addr as int], addr + 1, instr, end as int));
        }

        let call_t = Analyzer::get_call_offset(&instr);
        let clos_t = Analyzer::get_closure_offset(&instr);
        let jump_t = Analyzer::get_jump_offset(&instr);
        let terminal = Analyzer::is_terminal(&instr);

        // Reject control transfers that leave the code section before
        // following any of them.
        if let Some(t) = call_t {
            if t < 0 || t as usize >= code_len {
                return Err(WalkFault::BadOffset { ip: addr, offset: t, code_len });
            }
        }
        if let Some(t) = clos_t {
            if t < 0 || t as usize >= code_len {
                return Err(WalkFault::BadOffset { ip: addr, offset: t, code_len });
            }
        }
        if let Some(t) = jump_t {
            if t < 0 || t as usize >= code_len {
                return Err(WalkFault::BadOffset { ip: addr, offset: t, code_len });
            }
        }
        if !terminal && end >= code_len {
            return Err(
                WalkFault::BadOffset {
                    ip: addr,
                    offset: #[verifier::truncate] (end as i32),
                    code_len,
                },
            );
        }

        // Enqueue a called function body.
        if let Some(t) = call_t {
            worklist.push_back(t as u32);
        }
        // A closure body may or may not be entered; reach it conservatively.
        if let Some(t) = clos_t {
            worklist.push_back(t as u32);
        }
        // Enqueue a jump target and record it in the target bitmap.
        if let Some(t) = jump_t {
            worklist.push_back(t as u32);
            targets.set(t as usize, true);
        }
        // Fall through to the next instruction.
        if !terminal {
            worklist.push_back(end as u32);
        }

        proof {
            let wl2 = worklist@;
            let targ2 = bits_of(&targets);
            assert forall|x: u32| wl_mid.contains(x) implies wl2.contains(x) by {
                let k = choose|k: int| 0 <= k < wl_mid.len() && wl_mid[k] == x;
                assert(wl2[k] == x);
            }
            assert forall|i: int|
                0 <= i < targ1.len() && targ1[i] implies #[trigger] targ2[i] by {}
            lemma_walk_frontier_mono(code, reach2, wl_mid, targ1, reach2, wl2, targ2);
            let i0 = wl_mid.len() as int;
            let i1 = i0 + if call_t is Some {
                1int
            } else {
                0int
            };
            let i2 = i1 + if clos_t is Some {
                1int
            } else {
                0int
            };
            match call_t {
                Some(t) => {
                    assert(wl2[i0] == t as u32);
                    assert(wl2.contains(t as u32));
                },
                None => {},
            }
            match clos_t {
                Some(t) => {
                    assert(wl2[i1] == t as u32);
                    assert(wl2.contains(t as u32));
                },
                None => {},
            }
            match jump_t {
                Some(t) => {
                    assert(wl2[i2] == t as u32);
                    assert(wl2.contains(t as u32));
                    assert(targ2[t as int]);
                },
                None => {},
            }
            assert forall|t: int|
                0 <= t < code_len && #[trigger] targ2[t] implies spec_discovered(
                reach2,
                wl2,
                t,
            ) by {
                if targ1[t] {
                    lemma_discovered_mono(reach2, wl_mid, reach2, wl2, t);
                } else {
                    match jump_t {
                        Some(jt) => {
                            assert(t == jt as int);
                            assert(wl2.contains(jt as u32));
                        },
                        None => {},
                    }
                }
            }
            if !terminal {
                let i3 = i2 + if jump_t is Some {
                    1int
                } else {
                    0int
                };
                assert(wl2[i3] == end as u32);
                assert(wl2.contains(end as u32));
            }
            assert(spec_walk_instr_ok(code, instr, end as int, reach2, wl2, targ2));
            assert(spec_walk_succs_ok(code, addr as int, reach2, wl2, targ2));
        }
    }

    proof {
        let reach = bits_of(&reachable);
        let targ = bits_of(&targets);
        assert(worklist@.len() == 0);
        assert forall|t: int| 0 <= t < code.len() && #[trigger] targ[t] implies reach[t] by {
            assert(spec_discovered(reach, worklist@, t));
        }
        assert forall|o: int|
            0 <= o < code.len() && #[trigger] reach[o] implies spec_walk_closed(
            code,
            o,
            reach,
            targ,
        ) by {
            lemma_walk_frontier_mono(
                code,
                reach,
                worklist@,
                targ,
                reach,
                Seq::<u32>::empty(),
                targ,
            );
        }
    }
    Ok(ReachableResult { reachables: reachable, targets })
}

/// Static analysis over a decoder: reachability and opcode frequencies.
pub struct Analyzer {
    /// The cursor over the image being analysed.
    pub decoder: Decoder,
}

impl Analyzer {
    /// An analyzer walking the code section of `decoder`'s image.
    pub fn new(decoder: Decoder) -> (r: Analyzer)
        ensures
            r.decoder == decoder,
    {
        Analyzer { decoder }
    }

    /// True of `JMP` and `CJMP`.
    fn is_jump(instr: &Instruction) -> (r: bool)
        ensures
            r == (spec_jump_target(*instr) is Some),
    {
        match instr {
            Instruction::JMP { .. } | Instruction::CJMP { .. } => true,
            _ => false,
        }
    }

    /// True of the instructions after which control never falls through.
    fn is_terminal(instr: &Instruction) -> (r: bool)
        ensures
            r == spec_is_terminal(*instr),
    {
        match instr {
            Instruction::RET
            | Instruction::END
            | Instruction::FAIL { .. }
            | Instruction::JMP { .. }
            | Instruction::HALT => true,
            _ => false,
        }
    }

    /// True of `CALL`, builtin or not.
    fn is_call(instr: &Instruction) -> (r: bool)
        ensures
            r == (instr matches Instruction::CALL { .. }),
    {
        match instr {
            Instruction::CALL { .. } => true,
            _ => false,
        }
    }

    /// True of the instructions that end a basic block.
    fn is_split(instr: &Instruction) -> (r: bool)
        ensures
            r == spec_is_split(*instr),
    {
        match instr {
            Instruction::RET
            | Instruction::END
            | Instruction::FAIL { .. }
            | Instruction::JMP { .. }
            | Instruction::HALT
            | Instruction::CALL { .. }
            | Instruction::CALLC { .. } => true,
            _ => false,
        }
    }

    /// The code offset a non-builtin `CALL` transfers to, if any.
    fn get_call_offset(instr: &Instruction) -> (r: Option<i32>)
        ensures
            r == spec_call_target(*instr),
    {
        match instr {
            Instruction::CALL { offset, n: _, name: _, builtin } => {
                if *builtin {
                    None
                } else {
                    *offset
                }
            },
            _ => None,
        }
    }

    /// The code offset of the closure body a `CLOSURE` constructs, if any.
    fn get_closure_offset(instr: &Instruction) -> (r: Option<i32>)
        ensures
            r == spec_closure_target(*instr),
    {
        match instr {
            Instruction::CLOSURE { offset, .. } => Some(*offset),
            _ => None,
        }
    }

    /// The target of a `JMP` or `CJMP`, if any.
    fn get_jump_offset(instr: &Instruction) -> (r: Option<i32>)
        ensures
            r == spec_jump_target(*instr),
    {
        match instr {
            Instruction::JMP { offset } => Some(*offset),
            Instruction::CJMP { offset, .. } => Some(*offset),
            _ => None,
        }
    }

    /// Walk the bytecode and count how often each instruction, and each
    /// adjacent instruction pair inside a basic block, occurs among the
    /// reachable offsets.
    pub fn get_frequency(&mut self) -> (r: Result<Frequency, AnalysisError>)
        requires
            old(self).decoder.wf(),
        ensures
            final(self).decoder.wf(),
            final(self).decoder.bf == old(self).decoder.bf,
    {
        let rr = match self.get_reachables() {
            Ok(rr) => rr,
            Err(e) => {
                return Err(e);
            },
        };
        let addresses = rr.reachables.ones();
        let code_len = self.decoder.code_section_len;
        let mut frequency = Frequency::new();

        let n = addresses.len();
        let mut k: usize = 0;
        while k < n
            invariant
                self.decoder.wf(),
                self.decoder.bf == old(self).decoder.bf,
                code_len == self.decoder.code_section_len,
                n == addresses@.len(),
                k <= n,
                forall|j: int| 0 <= j < n ==> (#[trigger] addresses@[j]) < code_len,
                bits_of(&rr.targets).len() == code_len,
            decreases n - k,
        {
            let address = addresses[k];
            self.decoder.ip = address;
            let encoding = match self.decoder.next::<u8>() {
                Ok(b) => b,
                Err(e) => {
                    return Err(AnalysisError::DecoderError(e));
                },
            };
            let instr = match self.decoder.decode(encoding) {
                Ok(i) => i,
                Err(e) => {
                    return Err(AnalysisError::DecoderError(e));
                },
            };
            let next_start = self.decoder.ip;

            // Two-instruction sequences only count inside a basic block:
            // not across a jump target and not after a block-ending
            // instruction.
            if next_start < code_len && !rr.is_target(next_start) && !Analyzer::is_split(&instr) {
                let next_encoding = match self.decoder.next::<u8>() {
                    Ok(b) => b,
                    Err(e) => {
                        return Err(AnalysisError::DecoderError(e));
                    },
                };
                let next_instr = match self.decoder.decode(next_encoding) {
                    Ok(i) => i,
                    Err(e) => {
                        return Err(AnalysisError::DecoderError(e));
                    },
                };
                frequency.add_instruction_pair(instr.clone(), next_instr);
            }
            frequency.add_instruction(instr);
            k = k + 1;
        }
        Ok(frequency)
    }

    /// Walk the bytecode from the public symbols and report the reachable
    /// offsets and jump targets.
    pub fn get_reachables(&mut self) -> (r: Result<ReachableResult, AnalysisError>)
        requires
            old(self).decoder.wf(),
        ensures
            final(self).decoder.wf(),
            final(self).decoder.bf == old(self).decoder.bf,
            match r {
                Ok(rr) => {
                    let code = old(self).decoder.bf.code_section@;
                    let reach = bits_of(&rr.reachables);
                    let targ = bits_of(&rr.targets);
                    &&& reach.len() == code.len()
                    &&& targ.len() == code.len()
                    &&& forall|i: int|
                        0 <= i < old(self).decoder.bf.public_symbols@.len() ==> {
                            let s = #[trigger] old(self).decoder.bf.public_symbols@[i].0 as int;
                            s < code.len() && reach[s]
                        }
                    &&& forall|o: int|
                        0 <= o < code.len() && #[trigger] reach[o] ==> spec_decodable(code, o)
                            && spec_walk_closed(code, o, reach, targ)
                    &&& forall|t: int| 0 <= t < code.len() && #[trigger] targ[t] ==> reach[t]
                },
                Err(_) => true,
            },
    {
        match walk_reachables(&mut self.decoder) {
            Ok(rr) => Ok(rr),
            Err(WalkFault::Decode(e)) => Err(AnalysisError::DecoderError(e)),
            Err(WalkFault::BadOffset { .. }) => Err(
                AnalysisError::DecoderError(DecoderError::ReadingMoreThenCodeSection),
            ),
        }
    }
}

/// Frequency counts of decoded instructions and of adjacent instruction
/// pairs.  Each distinct instruction gets a numeric identifier; a single
/// instruction is keyed by its identifier shifted into the high byte, a
/// pair by both identifiers packed together.
pub struct Frequency {
    /// Counts keyed by packed instruction identifiers.
    pub frequency: HashMap<u16, u32>,
    /// The instruction behind each identifier, by position.
    pub instruction_to_id: Vec<Instruction>,
}

impl Frequency {
    /// An empty frequency table.
    pub fn new() -> (r: Frequency)
        ensures
            r.frequency@ == Map::<u16, u32>::empty(),
            r.instruction_to_id@.len() == 0,
    {
        Frequency { frequency: HashMap::new(), instruction_to_id: Vec::new() }
    }

    /// The identifier of `instruction`, registering it when unseen.
    fn id_of(&mut self, instruction: Instruction) -> (r: usize)
        ensures
            final(self).frequency == old(self).frequency,
            r < final(self).instruction_to_id@.len(),
            spec_instr_eq(final(self).instruction_to_id@[r as int], instruction),
            (exists|j: int|
                0 <= j < old(self).instruction_to_id@.len() && spec_instr_eq(
                    #[trigger] old(self).instruction_to_id@[j],
                    instruction,
                )) ==> final(self).instruction_to_id == old(self).instruction_to_id,
            !(exists|j: int|
                0 <= j < old(self).instruction_to_id@.len() && spec_instr_eq(
                    #[trigger] old(self).instruction_to_id@[j],
                    instruction,
                )) ==> final(self).instruction_to_id@ == old(self).instruction_to_id@.push(
                instruction,
            ),
    {
        let n = self.instruction_to_id.len();
        let mut i: usize = 0;
        while i < n
            invariant
                i <= n,
                n == self.instruction_to_id@.len(),
                forall|j: int|
                    0 <= j < i ==> !spec_instr_eq(
                        #[trigger] self.instruction_to_id@[j],
                        instruction,
                    ),
            decreases n - i,
        {
            if instruction_eq(&self.instruction_to_id[i], &instruction) {
                return i;
            }
            i = i + 1;
        }
        self.instruction_to_id.push(instruction);
        proof {
            assert(spec_instr_eq(self.instruction_to_id@[n as int], instruction)) by {
                lemma_instr_eq_refl(instruction);
            }
        }
        n
    }

    /// Count one occurrence of a single instruction.
    pub fn add_instruction(&mut self, instruction: Instruction)
        ensures
            final(self).instruction_to_id@.len() >= old(self).instruction_to_id@.len(),
            exists|id: int|
                {
                    &&& 0 <= id < final(self).instruction_to_id@.len()
                    &&& spec_instr_eq(#[trigger] final(self).instruction_to_id@[id], instruction)
                    &&& final(self).frequency@ == old(self).frequency@.insert(
                        (((id % 256) * 256) as u16),
                        (if old(self).frequency@.contains_key((((id % 256) * 256) as u16)) {
                            old(self).frequency@[(((id % 256) * 256) as u16)]
                        } else {
                            0u32
                        }).wrapping_add(1),
                    )
                },
    {
        proof {
            assert(vstd::std_specs::hash::obeys_key_model::<u16>());
            assert(vstd::std_specs::hash::builds_valid_hashers::<
                std::collections::hash_map::RandomState,
            >());
        }
        let id = self.id_of(instruction);
        let key: u16 = ((id % 256) * 256) as u16;
        let current: u32 = match self.frequency.get(&key) {
            Some(c) => *c,
            None => 0,
        };
        self.frequency.insert(key, current.wrapping_add(1));
        proof {
            let idi = id as int;
            assert(0 <= idi < self.instruction_to_id@.len());
            assert(spec_instr_eq(self.instruction_to_id@[idi], instruction));
            assert(key == (((idi % 256) * 256) as u16));
        }
    }

    /// Count one occurrence of an adjacent instruction pair.
    pub fn add_instruction_pair(&mut self, instruction1: Instruction, instruction2: Instruction)
        ensures
            final(self).instruction_to_id@.len() >= old(self).instruction_to_id@.len(),
            exists|id1: int, id2: int|
                {
                    &&& 0 <= id1 < final(self).instruction_to_id@.len()
                    &&& 0 <= id2 < final(self).instruction_to_id@.len()
                    &&& spec_instr_eq(#[trigger] final(self).instruction_to_id@[id1], instruction1)
                    &&& spec_instr_eq(#[trigger] final(self).instruction_to_id@[id2], instruction2)
                    &&& final(self).frequency@ == old(self).frequency@.insert(
                        (((id1 % 256) * 256 + (id2 % 256)) as u16),
                        (if old(self).frequency@.contains_key(
                            (((id1 % 256) * 256 + (id2 % 256)) as u16),
                        ) {
                            old(self).frequency@[(((id1 % 256) * 256 + (id2 % 256)) as u16)]
                        } else {
                            0u32
                        }).wrapping_add(1),
                    )
                },
    {
        proof {
            assert(vstd::std_specs::hash::obeys_key_model::<u16>());
            assert(vstd::std_specs::hash::builds_valid_hashers::<
                std::collections::hash_map::RandomState,
            >());
        }
        let id1 = self.id_of(instruction1);
        let ghost t1 = self.instruction_to_id@;
        let id2 = self.id_of(instruction2);
        let key: u16 = ((id1 % 256) * 256 + (id2 % 256)) as u16;
        let current: u32 = match self.frequency.get(&key) {
            Some(c) => *c,
            None => 0,
        };
        self.frequency.insert(key, current.wrapping_add(1));
        proof {
            let i1 = id1 as int;
            let i2 = id2 as int;
            assert(0 <= i1 < self.instruction_to_id@.len());
            assert(0 <= i2 < self.instruction_to_id@.len());
            assert(self.instruction_to_id@[i1] == t1[i1]);
            assert(spec_instr_eq(self.instruction_to_id@[i1], instruction1));
            assert(spec_instr_eq(self.instruction_to_id@[i2], instruction2));
            assert(key == ((((i1 % 256) * 256) + (i2 % 256)) as u16));
            assert(self.frequency@.dom().contains(key));
        }
    }
}

/// Structural instruction equality is reflexive.
proof fn lemma_instr_eq_refl(a: Instruction)
    ensures
        spec_instr_eq(a, a),
{
}

} // verus!

//! Control-flow analysis over a decoded instruction stream.
//!
//! The stream is split into functions at `BEGIN`/`CBEGIN` boundaries and
//! each function into basic blocks at jump targets; the result can be
//! checked against the image's limits, summarised as opcode frequencies,
//! or rendered as a DOT graph.

use vstd::prelude::*;
use crate::bytecode::{Instruction, ValueRel};
use crate::bytefile::Bytefile;
use crate::display::bytes_to_string;
use crate::interpreter::InterpreterError;

verus! {

/// One decoded instruction together with the code offset it starts at.
#[derive(Debug, Clone, PartialEq)]
pub struct InstructionTrace {
    /// The decoded instruction.
    pub instruction: Instruction,
    /// The code-section offset its encoding starts at.
    pub offset: usize,
}

/// A basic block: a run of instructions entered only at its head.
#[derive(Debug, Clone, PartialEq)]
pub struct Block {
    /// Code offset of the block's first instruction.
    pub offset: usize,
    /// Code offset just past the block's last instruction.
    pub offset_end: usize,
    /// Position of the block inside its function.
    pub label: i32,
    /// Labels of the blocks that jump here.
    pub predecessors: Vec<i32>,
    /// The block's instructions, in order.
    pub instructions: Vec<InstructionTrace>,
}

impl Block {
    /// An empty block starting at `offset` with the given label.
    pub fn new(offset: usize, label: i32) -> (r: Block)
        ensures
            r.offset == offset,
            r.label == label,
            r.instructions@.len() == 0,
            r.predecessors@.len() == 0,
    {
        Block { offset, offset_end: 0, label, predecessors: Vec::new(), instructions: Vec::new() }
    }
}

/// A function: the basic blocks between one `BEGIN` and its `END`.
#[derive(Debug, Clone, PartialEq)]
pub struct Function {
    /// Position of the function inside the stream.
    pub label: i32,
    /// Whether some call or entry point reaches the function.
    pub reachable: bool,
    /// The function's basic blocks, in code order.
    pub blocks: Vec<Block>,
    /// Code offsets some jump inside the function transfers to.
    pub target_offsets: Vec<usize>,
}

impl Function {
    /// An empty function with the given label, holding one entry block.
    pub fn new(label: i32) -> (r: Function)
        ensures
            r.label == label,
            !r.reachable,
            r.blocks@.len() == 1,
            r.target_offsets@.len() == 0,
    {
        let mut blocks = Vec::new();
        blocks.push(Block::new(0, 0));
        Function { label, reachable: false, blocks, target_offsets: Vec::new() }
    }

    /// Append an instruction to the function's last block.
    pub fn add_instruction(&mut self, instruction: InstructionTrace)
        requires
            old(self).blocks@.len() > 0,
        ensures
            final(self).blocks@.len() == old(self).blocks@.len(),
            final(self).blocks@.last().instructions@ == old(self).blocks@.last().instructions@.push(
                instruction,
            ),
            final(self).label == old(self).label,
            final(self).reachable == old(self).reachable,
            final(self).target_offsets == old(self).target_offsets,
    {
        let li = self.blocks.len() - 1;
        self.blocks[li].instructions.push(instruction);
    }

    /// Record a jump target, keeping the target list free of duplicates.
    fn note_target(&mut self, target: usize)
        ensures
            final(self).blocks == old(self).blocks,
            final(self).label == old(self).label,
            final(self).reachable == old(self).reachable,
            final(self).target_offsets@.len() >= old(self).target_offsets@.len(),
            final(self).target_offsets@.contains(target),
    {
        let n = self.target_offsets.len();
        let mut i: usize = 0;
        while i < n
            invariant
                i <= n,
                n == self.target_offsets@.len(),
                *self == *old(self),
            decreases n - i,
        {
            if self.target_offsets[i] == target {
                return ;
            }
            i = i + 1;
        }
        self.target_offsets.push(target);
        proof {
            assert(self.target_offsets@.last() == target);
        }
    }
}

/// The fault (if any) the per-instruction limit checks report for the
/// collected instruction `tr` against an image with the given code
/// length, string table and global-area size.
pub open spec fn spec_trace_check(
    tr: InstructionTrace,
    code_len: int,
    strtab: Seq<u8>,
    gas: int,
) -> Option<InterpreterError> {
    let ip = tr.offset;
    match tr.instruction {
        Instruction::JMP { offset } => if offset < 0 || offset >= code_len {
            Some(InterpreterError::InvalidJumpOffset(ip, offset, code_len as usize))
        } else {
            None
        },
        Instruction::CJMP { offset, kind } => if offset < 0 || offset >= code_len {
            Some(InterpreterError::InvalidJumpOffset(ip, offset, code_len as usize))
        } else {
            None
        },
        Instruction::CALL { offset, n, name, builtin } => if !builtin {
            match offset {
                Some(off) => if off < 0 || off >= code_len {
                    Some(InterpreterError::InvalidJumpOffset(ip, off, code_len as usize))
                } else {
                    None
                },
                None => None,
            }
        } else {
            None
        },
        Instruction::STRING { index } => if index < 0 || index >= strtab.len() {
            Some(InterpreterError::StringIndexOutOfBounds)
        } else {
            None
        },
        Instruction::SEXP { s_index, n_members } => if s_index < 0 || s_index >= strtab.len() {
            Some(InterpreterError::StringIndexOutOfBounds)
        } else if n_members < 0 || n_members > 0xffff {
            Some(InterpreterError::TooMuchMembers(n_members as usize, 0xffff))
        } else if crate::bytefile::spec_find_nul(strtab, s_index as int) == strtab.len() {
            Some(InterpreterError::StringIndexOutOfBounds)
        } else if crate::bytefile::spec_find_nul(strtab, s_index as int) - s_index > 10 {
            Some(
                InterpreterError::SexpTagTooLong(
                    (crate::bytefile::spec_find_nul(strtab, s_index as int) - s_index) as usize,
                ),
            )
        } else {
            None
        },
        Instruction::ARRAY { n } => if n < 0 || n > 0xffff {
            Some(InterpreterError::TooMuchMembers(n as usize, 0xffff))
        } else {
            None
        },
        Instruction::STORE { rel, index } => if rel == ValueRel::Global && (index < 0 || index
            >= gas) {
            Some(InterpreterError::InvalidStoreIndex(ValueRel::Global, index, gas as i64))
        } else {
            None
        },
        Instruction::LOAD { rel, index } => if rel == ValueRel::Global && (index < 0 || index
            >= gas) {
            Some(InterpreterError::InvalidLoadIndex(ValueRel::Global, index, gas as i64))
        } else {
            None
        },
        Instruction::CLOSURE { offset, arity, captured } => if offset < 0 || offset >= code_len {
            Some(InterpreterError::InvalidJumpOffset(ip, offset, code_len as usize))
        } else if arity < 0 {
            Some(InterpreterError::TooManyCaptures(arity as usize))
        } else {
            None
        },
        Instruction::STI => Some(InterpreterError::InvalidOpcode(0x13)),
        Instruction::LOADREF { rel, index } => Some(InterpreterError::InvalidOpcode(0x30)),
        _ => None,
    }
}

/// Control-flow analysis over a stream of decoded instructions.
pub struct Analyzer {
    /// The functions found in the stream, in order.
    pub functions: Vec<Function>,
}

impl Analyzer {
    /// An analyzer with no functions yet.
    pub fn new() -> (r: Analyzer)
        ensures
            r.functions@.len() == 0,
    {
        Analyzer { functions: Vec::new() }
    }

    /// The functions found by [`Analyzer::build_cfg`].
    pub fn get_functions(&self) -> (r: &Vec<Function>)
        ensures
            r == &self.functions,
    {
        &self.functions
    }

    /// Split the instruction stream into functions and basic blocks.
    ///
    /// A function opens at each `BEGIN`/`CBEGIN` and closes after `END`
    /// or `RET`; a new block opens at every recorded jump target.  A
    /// function is reachable when it starts the stream or some call
    /// names its entry offset.
    pub fn build_cfg(&mut self, instructions: Vec<InstructionTrace>)
        ensures
            final(self).functions@.len() >= old(self).functions@.len(),
    {
        let mut call_targets: Vec<usize> = Vec::new();
        let n = instructions.len();
        let mut i: usize = 0;
        while i < n
            invariant
                i <= n,
                n == instructions@.len(),
            decreases n - i,
        {
            let tr = &instructions[i];
            match &tr.instruction {
                Instruction::CALL { offset: Some(off), n: _, name: _, builtin } => {
                    if !*builtin && *off >= 0 {
                        call_targets.push(*off as usize);
                    }
                },
                _ => {},
            }
            i = i + 1;
        }

        let mut current: Option<Function> = None;
        let mut func_counter: i32 = 0;
        let mut after_cjmp: bool = false;
        let mut k: usize = 0;
        while k < n
            invariant
                k <= n,
                n == instructions@.len(),
                self.functions@.len() >= old(self).functions@.len(),
                current matches Some(f) ==> f.blocks@.len() > 0,
            decreases n - k,
        {
            let tr = instructions[k].clone();
            // The instruction after a conditional jump is the head of the
            // fall-through block, so its offset is a block boundary too.
            if after_cjmp {
                if let Some(f) = &mut current {
                    f.note_target(tr.offset);
                }
                after_cjmp = false;
            }
            match &tr.instruction {
                Instruction::BEGIN { .. } | Instruction::CBEGIN { .. } => {
                    // A function begins here; close any open one.
                    if let Some(f) = current.take() {
                        self.push_function(f);
                    }
                    let mut f = Function::new(func_counter);
                    if func_counter < i32::MAX {
                        func_counter = func_counter + 1;
                    }
                    let entry = tr.offset;
                    f.blocks = Vec::new();
                    f.blocks.push(Block::new(entry, 0));
                    if entry == 0 || Self::contains_offset(&call_targets, entry) {
                        f.reachable = true;
                    }
                    f.add_instruction(tr);
                    current = Some(f);
                },
                Instruction::END | Instruction::RET => {
                    if let Some(mut f) = current.take() {
                        f.add_instruction(tr);
                        self.push_function(f);
                    }
                },
                _ => {
                    if let Some(f) = &mut current {
                        let target: Option<i32> = match &tr.instruction {
                            Instruction::JMP { offset } => Some(*offset),
                            Instruction::CJMP { offset, kind: _ } => Some(*offset),
                            _ => None,
                        };
                        if let Some(t) = target {
                            if t >= 0 {
                                f.note_target(t as usize);
                            }
                        }
                        if let Instruction::CJMP { .. } = &tr.instruction {
                            after_cjmp = true;
                        }
                        f.add_instruction(tr);
                    }
                },
            }
            k = k + 1;
        }
        if let Some(f) = current.take() {
            self.push_function(f);
        }

        self.split_blocks_at_targets();
        self.link_predecessors();
    }

    /// True when `offsets` holds `target`.
    fn contains_offset(offsets: &Vec<usize>, target: usize) -> (r: bool)
        ensures
            r == offsets@.contains(target),
    {
        let n = offsets.len();
        let mut i: usize = 0;
        while i < n
            invariant
                i <= n,
                n == offsets@.len(),
                forall|j: int| 0 <= j < i ==> offsets@[j] != target,
            decreases n - i,
        {
            if offsets[i] == target {
                return true;
            }
            i = i + 1;
        }
        false
    }

    /// Keep a reachable function; unreachable ones are discarded.
    fn push_function(&mut self, f: Function)
        ensures
            final(self).functions@.len() >= old(self).functions@.len(),
    {
        if f.reachable {
            self.functions.push(f);
        }
    }

    /// Open a new block at each of a function's recorded jump targets.
    fn split_blocks_at_targets(&mut self)
        ensures
            final(self).functions@.len() == old(self).functions@.len(),
    {
        let nf = self.functions.len();
        let mut fi: usize = 0;
        while fi < nf
            invariant
                fi <= nf,
                nf == self.functions@.len(),
                self.functions@.len() == old(self).functions@.len(),
            decreases nf - fi,
        {
            let targets = self.functions[fi].target_offsets.clone();
            if self.functions[fi].blocks.len() != 1 {
                fi = fi + 1;
                continue ;
            }
            let entry = self.functions[fi].blocks[0].offset;
            let old_instrs = self.functions[fi].blocks[0].instructions.clone();

            let mut blocks: Vec<Block> = Vec::new();
            let mut label: i32 = 0;
            blocks.push(Block::new(entry, label));
            let n = old_instrs.len();
            let mut k: usize = 0;
            while k < n
                invariant
                    k <= n,
                    n == old_instrs@.len(),
                    blocks@.len() > 0,
                decreases n - k,
            {
                let tr = old_instrs[k].clone();
                if k > 0 && Self::contains_offset(&targets, tr.offset) {
                    let li = blocks.len() - 1;
                    blocks[li].offset_end = tr.offset;
                    if label < i32::MAX {
                        label = label + 1;
                    }
                    blocks.push(Block::new(tr.offset, label));
                }
                let li = blocks.len() - 1;
                blocks[li].instructions.push(tr);
                k = k + 1;
            }
            self.functions[fi].blocks = blocks;
            fi = fi + 1;
        }
    }

    /// Record, on every block, the labels of the blocks that jump to it.
    fn link_predecessors(&mut self)
        ensures
            final(self).functions@.len() == old(self).functions@.len(),
    {
        let nf = self.functions.len();
        let mut fi: usize = 0;
        while fi < nf
            invariant
                fi <= nf,
                nf == self.functions@.len(),
                self.functions@.len() == old(self).functions@.len(),
            decreases nf - fi,
        {
            let nb = self.functions[fi].blocks.len();
            let mut src: usize = 0;
            while src < nb
                invariant
                    src <= nb,
                    nf == self.functions@.len(),
                    self.functions@.len() == old(self).functions@.len(),
                    fi < nf,
                    nb == self.functions@[fi as int].blocks@.len(),
                decreases nb - src,
            {
                let target: Option<usize> = {
                    let block = &self.functions[fi].blocks[src];
                    let ni = block.instructions.len();
                    if ni == 0 {
                        None
                    } else {
                        match &block.instructions[ni - 1].instruction {
                            Instruction::JMP { offset } => {
                                if *offset >= 0 {
                                    Some(*offset as usize)
                                } else {
                                    None
                                }
                            },
                            Instruction::CJMP { offset, kind: _ } => {
                                if *offset >= 0 {
                                    Some(*offset as usize)
                                } else {
                                    None
                                }
                            },
                            _ => None,
                        }
                    }
                };
                if let Some(t) = target {
                    let src_label = self.functions[fi].blocks[src].label;
                    let mut dst: usize = 0;
                    while dst < nb
                        invariant
                            dst <= nb,
                            nf == self.functions@.len(),
                            self.functions@.len() == old(self).functions@.len(),
                            fi < nf,
                            nb == self.functions@[fi as int].blocks@.len(),
                        decreases nb - dst,
                    {
                        if self.functions[fi].blocks[dst].offset == t {
                            self.functions[fi].blocks[dst].predecessors.push(src_label);
                        }
                        dst = dst + 1;
                    }
                }
                src = src + 1;
            }
            fi = fi + 1;
        }
    }

    /// Check every collected instruction against the image's limits:
    /// jump, call and closure offsets inside the code section, string
    /// indices inside the table, member counts and global slots within
    /// bounds.
    #[verifier::loop_isolation(false)]
    pub fn verify_bytecode(&self, bf: &Bytefile) -> (r: Result<(), InterpreterError>)
        ensures
            match r {
                Ok(()) => bf.code_section@.len() > 0 && forall|f: int, b: int, t: int|
                    0 <= f < self.functions@.len() && 0 <= b < self.functions@[f].blocks@.len() && 0
                        <= t < self.functions@[f].blocks@[b].instructions@.len()
                        ==> spec_trace_check(
                        #[trigger] self.functions@[f].blocks@[b].instructions@[t],
                        bf.code_section@.len() as int,
                        bf.string_table@,
                        bf.global_area_size as int,
                    ) is None,
                Err(e) => (bf.code_section@.len() == 0 && e == InterpreterError::EndOfCodeSection)
                    || exists|f: int, b: int, t: int|
                    0 <= f < self.functions@.len() && 0 <= b < self.functions@[f].blocks@.len() && 0
                        <= t < self.functions@[f].blocks@[b].instructions@.len()
                        && spec_trace_check(
                        #[trigger] self.functions@[f].blocks@[b].instructions@[t],
                        bf.code_section@.len() as int,
                        bf.string_table@,
                        bf.global_area_size as int,
                    ) == Some(e),
            },
    {
        if bf.code_section.len() == 0 {
            return Err(InterpreterError::EndOfCodeSection);
        }
        let code_len = bf.code_section.len();
        let strtab_len = bf.string_table.len();

        let ghost clen = bf.code_section@.len() as int;
        let ghost stab = bf.string_table@;
        let ghost g = bf.global_area_size as int;
        let nf = self.functions.len();
        let mut fi: usize = 0;
        while fi < nf
            invariant
                fi <= nf,
                nf == self.functions@.len(),
                forall|f: int, b: int, t: int|
                    0 <= f < fi && 0 <= b < self.functions@[f].blocks@.len() && 0 <= t
                        < self.functions@[f].blocks@[b].instructions@.len() ==> spec_trace_check(
                        #[trigger] self.functions@[f].blocks@[b].instructions@[t],
                        clen,
                        stab,
                        g,
                    ) is None,
            decreases nf - fi,
        {
            let nb = self.functions[fi].blocks.len();
            let mut bi: usize = 0;
            while bi < nb
                invariant
                    bi <= nb,
                    nf == self.functions@.len(),
                    fi < nf,
                    nb == self.functions@[fi as int].blocks@.len(),
                    forall|b: int, t: int|
                        0 <= b < bi && 0 <= t
                            < self.functions@[fi as int].blocks@[b].instructions@.len()
                            ==> spec_trace_check(
                            #[trigger] self.functions@[fi as int].blocks@[b].instructions@[t],
                            clen,
                            stab,
                            g,
                        ) is None,
                decreases nb - bi,
            {
                let ni = self.functions[fi].blocks[bi].instructions.len();
                let mut ii: usize = 0;
                while ii < ni
                    invariant
                        ii <= ni,
                        nf == self.functions@.len(),
                        fi < nf,
                        nb == self.functions@[fi as int].blocks@.len(),
                        bi < nb,
                        ni == self.functions@[fi as int].blocks@[bi as int].instructions@.len(),
                        forall|t: int|
                            0 <= t < ii ==> spec_trace_check(
                                #[trigger] self.functions@[fi as int].blocks@[bi as int].instructions@[t],
                                clen,
                                stab,
                                g,
                            ) is None,
                    decreases ni - ii,
                {
                    let tr = &self.functions[fi].blocks[bi].instructions[ii];
                    match Self::check_trace(tr, code_len, strtab_len, bf) {
                        Ok(()) => {},
                        Err(e) => {
                            return Err(e);
                        },
                    }
                    ii = ii + 1;
                }
                bi = bi + 1;
            }
            fi = fi + 1;
        }
        Ok(())
    }

    /// Check one collected instruction against the image's limits.
    fn check_trace(tr: &InstructionTrace, code_len: usize, strtab_len: usize, bf: &Bytefile) -> (r:
        Result<(), InterpreterError>)
        requires
            code_len == bf.code_section@.len(),
            strtab_len == bf.string_table@.len(),
        ensures
            r == (match spec_trace_check(
                *tr,
                code_len as int,
                bf.string_table@,
                bf.global_area_size as int,
            ) {
                None => Ok::<(), InterpreterError>(()),
                Some(e) => Err::<(), InterpreterError>(e),
            }),
    {
        let ip = tr.offset;
        match &tr.instruction {
            Instruction::JMP { offset } => {
                if *offset < 0 || *offset as usize >= code_len {
                    return Err(InterpreterError::InvalidJumpOffset(ip, *offset, code_len));
                }
            },
            Instruction::CJMP { offset, kind: _ } => {
                if *offset < 0 || *offset as usize >= code_len {
                    return Err(InterpreterError::InvalidJumpOffset(ip, *offset, code_len));
                }
            },
            Instruction::CALL { offset, n: _, name: _, builtin } => {
                if !*builtin {
                    if let Some(off) = offset {
                        if *off < 0 || *off as usize >= code_len {
                            return Err(InterpreterError::InvalidJumpOffset(ip, *off, code_len));
                        }
                    }
                }
            },
            Instruction::STRING { index } => {
                if *index < 0 || *index as usize >= strtab_len {
                    return Err(InterpreterError::StringIndexOutOfBounds);
                }
            },
            Instruction::SEXP { s_index, n_members } => {
                if *s_index < 0 || *s_index as usize >= strtab_len {
                    return Err(InterpreterError::StringIndexOutOfBounds);
                }
                if *n_members < 0 || *n_members as usize > 0xffff {
                    return Err(
                        InterpreterError::TooMuchMembers(
                            #[verifier::truncate] (*n_members as usize),
                            0xffff,
                        ),
                    );
                }
                let tag = match bf.get_string_at_offset(*s_index as usize) {
                    Ok(tag) => tag,
                    Err(_) => {
                        return Err(InterpreterError::StringIndexOutOfBounds);
                    },
                };
                proof {
                    crate::bytefile::lemma_find_nul_range(bf.string_table@, *s_index as int);
                }
                if tag.len() - 1 > 10 {
                    return Err(InterpreterError::SexpTagTooLong(tag.len() - 1));
                }
            },
            Instruction::ARRAY { n } => {
                if *n < 0 || *n as usize > 0xffff {
                    return Err(
                        InterpreterError::TooMuchMembers(#[verifier::truncate] (*n as usize), 0xffff),
                    );
                }
            },
            Instruction::STORE { rel, index } => {
                if let ValueRel::Global = rel {
                    if *index < 0 || *index as u64 >= bf.global_area_size as u64 {
                        return Err(
                            InterpreterError::InvalidStoreIndex(
                                ValueRel::Global,
                                *index,
                                bf.global_area_size as i64,
                            ),
                        );
                    }
                }
            },
            Instruction::LOAD { rel, index } => {
                if let ValueRel::Global = rel {
                    if *index < 0 || *index as u64 >= bf.global_area_size as u64 {
                        return Err(
                            InterpreterError::InvalidLoadIndex(
                                ValueRel::Global,
                                *index,
                                bf.global_area_size as i64,
                            ),
                        );
                    }
                }
            },
            Instruction::CLOSURE { offset, arity, captured: _ } => {
                if *offset < 0 || *offset as usize >= code_len {
                    return Err(InterpreterError::InvalidJumpOffset(ip, *offset, code_len));
                }
                if *arity < 0 {
                    return Err(
                        InterpreterError::TooManyCaptures(#[verifier::truncate] (*arity as usize)),
                    );
                }
            },
            Instruction::STI => {
                return Err(InterpreterError::InvalidOpcode(0x13));
            },
            Instruction::LOADREF { rel: _, index: _ } => {
                return Err(InterpreterError::InvalidOpcode(0x30));
            },
            _ => {},
        }
        Ok(())
    }

    /// Render the control-flow graph as a DOT digraph: one node per
    /// block, solid edges from the recorded predecessors and dashed
    /// fall-through edges between adjacent blocks.
    pub fn cfg_to_dot(&self) -> (r: String)
    {
        let mut dot = String::new();
        push_line(&mut dot, "digraph CFG {");
        push_line(&mut dot, "    rankdir=TB;");
        push_line(&mut dot, "    node [shape=box, fontname=\"Courier\"];");

        let nf = self.functions.len();
        let mut fi: usize = 0;
        while fi < nf
            invariant
                fi <= nf,
                nf == self.functions@.len(),
            decreases nf - fi,
        {
            let nb = self.functions[fi].blocks.len();
            let mut bi: usize = 0;
            while bi < nb
                invariant
                    bi <= nb,
                    nf == self.functions@.len(),
                    fi < nf,
                    nb == self.functions@[fi as int].blocks@.len(),
                decreases nb - bi,
            {
                let block = &self.functions[fi].blocks[bi];
                // Node line:  F<f>B<label> [label="offset <o>"];
                dot.append("    F");
                append_usize(&mut dot, fi);
                dot.append("B");
                append_i32(&mut dot, block.label);
                dot.append(" [label=\"offset ");
                append_usize(&mut dot, block.offset);
                dot.append("\"];\n");

                // Edges from the recorded predecessors.
                let np = block.predecessors.len();
                let mut pi: usize = 0;
                while pi < np
                    invariant
                        pi <= np,
                        nf == self.functions@.len(),
                        fi < nf,
                        nb == self.functions@[fi as int].blocks@.len(),
                        bi < nb,
                        np == self.functions@[fi as int].blocks@[bi as int].predecessors@.len(),
                    decreases np - pi,
                {
                    let pred = self.functions[fi].blocks[bi].predecessors[pi];
                    dot.append("    F");
                    append_usize(&mut dot, fi);
                    dot.append("B");
                    append_i32(&mut dot, pred);
                    dot.append(" -> F");
                    append_usize(&mut dot, fi);
                    dot.append("B");
                    append_i32(&mut dot, self.functions[fi].blocks[bi].label);
                    dot.append(";\n");
                    pi = pi + 1;
                }

                // Dashed fall-through edge to the next block in order.
                if bi + 1 < nb {
                    let here = self.functions[fi].blocks[bi].label;
                    let next = self.functions[fi].blocks[bi + 1].label;
                    dot.append("    F");
                    append_usize(&mut dot, fi);
                    dot.append("B");
                    append_i32(&mut dot, here);
                    dot.append(" -> F");
                    append_usize(&mut dot, fi);
                    dot.append("B");
                    append_i32(&mut dot, next);
                    dot.append(" [style=dashed];\n");
                }
                bi = bi + 1;
            }
            fi = fi + 1;
        }
        push_line(&mut dot, "}");
        dot
    }

    /// Count, per opcode name, how often each instruction occurs in the
    /// collected functions.
    pub fn get_frequency(&self) -> (r: Frequency)
    {
        let mut frequencies = Frequency::new();
        let nf = self.functions.len();
        let mut fi: usize = 0;
        while fi < nf
            invariant
                fi <= nf,
                nf == self.functions@.len(),
            decreases nf - fi,
        {
            let nb = self.functions[fi].blocks.len();
            let mut bi: usize = 0;
            while bi < nb
                invariant
                    bi <= nb,
                    nf == self.functions@.len(),
                    fi < nf,
                    nb == self.functions@[fi as int].blocks@.len(),
                decreases nb - bi,
            {
                let ni = self.functions[fi].blocks[bi].instructions.len();
                let mut ii: usize = 0;
                while ii < ni
                    invariant
                        ii <= ni,
                        nf == self.functions@.len(),
                        fi < nf,
                        nb == self.functions@[fi as int].blocks@.len(),
                        bi < nb,
                        ni == self.functions@[fi as int].blocks@[bi as int].instructions@.len(),
                    decreases ni - ii,
                {
                    let name = opcode_name(
                        &self.functions[fi].blocks[bi].instructions[ii].instruction,
                    );
                    frequencies.add_instruction(String::from_str(name));
                    ii = ii + 1;
                }
                bi = bi + 1;
            }
            fi = fi + 1;
        }
        frequencies
    }
}

/// Frequency counts keyed by opcode name.
pub struct Frequency {
    /// Opcode names with their occurrence counts.
    pub frequency: Vec<(String, u32)>,
}

impl Frequency {
    /// An empty frequency table.
    pub fn new() -> (r: Frequency)
        ensures
            r.frequency@.len() == 0,
    {
        Frequency { frequency: Vec::new() }
    }

    /// Count one occurrence of the given opcode name.
    pub fn add_instruction(&mut self, opcode_name: String)
        ensures
            final(self).frequency@.len() >= old(self).frequency@.len(),
            final(self).frequency@.len() <= old(self).frequency@.len() + 1,
    {
        let n = self.frequency.len();
        let mut i: usize = 0;
        while i < n
            invariant
                i <= n,
                n == self.frequency@.len(),
                *self == *old(self),
            decreases n - i,
        {
            if self.frequency[i].0 == opcode_name {
                let count = self.frequency[i].1;
                let name = self.frequency[i].0.clone();
                self.frequency.set(i, (name, count.wrapping_add(1)));
                return ;
            }
            i = i + 1;
        }
        self.frequency.push((opcode_name, 1));
    }
}

/// The mnemonic of an instruction's opcode.
pub fn opcode_name(i: &Instruction) -> (r: &'static str) {
    match i {
        Instruction::NOP => "NOP",
        Instruction::END => "END",
        Instruction::RET => "RET",
        Instruction::BINOP { .. } => "BINOP",
        Instruction::CONST { .. } => "CONST",
        Instruction::STRING { .. } => "STRING",
        Instruction::BEGIN { .. } => "BEGIN",
        Instruction::CBEGIN { .. } => "CBEGIN",
        Instruction::CLOSURE { .. } => "CLOSURE",
        Instruction::STORE { .. } => "STORE",
        Instruction::LOAD { .. } => "LOAD",
        Instruction::LOADREF { .. } => "LOADREF",
        Instruction::CALL { .. } => "CALL",
        Instruction::CALLC { .. } => "CALLC",
        Instruction::FAIL { .. } => "FAIL",
        Instruction::LINE { .. } => "LINE",
        Instruction::DROP => "DROP",
        Instruction::DUP => "DUP",
        Instruction::SWAP => "SWAP",
        Instruction::JMP { .. } => "JMP",
        Instruction::CJMP { .. } => "CJMP",
        Instruction::ELEM => "ELEM",
        Instruction::STI => "STI",
        Instruction::STA => "STA",
        Instruction::SEXP { .. } => "SEXP",
        Instruction::TAG { .. } => "TAG",
        Instruction::PATT { .. } => "PATT",
        Instruction::ARRAY { .. } => "ARRAY",
        Instruction::HALT => "HALT",
    }
}

/// Append a line and its newline to the DOT text.
fn push_line(dot: &mut String, line: &str) {
    dot.append(line);
    dot.append("\n");
}

/// Append the decimal rendering of `n` to the DOT text.
fn append_usize(dot: &mut String, n: usize) {
    let bytes = crate::display::i64_to_bytes(n as i64);
    let s = bytes_to_string(&bytes);
    dot.append(s.as_str());
}

/// Append the decimal rendering of `n` to the DOT text.
fn append_i32(dot: &mut String, n: i32) {
    let bytes = crate::display::i64_to_bytes(n as i64);
    let s = bytes_to_string(&bytes);
    dot.append(s.as_str());
}

} // verus!

//! The Lama VM instruction set and its static properties.

use vstd::prelude::*;

verus! {

/// Binary operators of the `BINOP` instruction.
#[derive(Debug, Clone, Copy, PartialEq, Eq, Structural)]
pub enum Op {
    ADD,
    SUB,
    MUL,
    DIV,
    MOD,
    LT,
    LEQ,
    GT,
    GEQ,
    EQ,
    NEQ,
    AND,
    OR,
}

/// Scoping rule for a value addressed by `LOAD`, `LOADREF` and `STORE`.
#[derive(Debug, Clone, Copy, PartialEq, Eq, Structural)]
pub enum ValueRel {
    Global,
    Local,
    /// Function argument.
    Arg,
    /// Captured by closure.
    Capture,
}

/// Polarity of a conditional jump.
#[derive(Debug, Clone, Copy, PartialEq, Eq, Structural)]
pub enum CompareJumpKind {
    /// Jump when the operand is zero.
    ISZERO,
    /// Jump when the operand is non-zero.
    ISNONZERO,
}

/// Builtin functions reachable through `CALL`.
#[derive(Debug, Clone, Copy, PartialEq, Eq, Structural)]
pub enum Builtin {
    Lread,
    Lwrite,
    Llength,
    Lstring,
    Barray,
}

/// Pattern-matching predicate selected by `PATT`.
#[derive(Debug, Clone, Copy, PartialEq, Eq, Structural)]
pub enum PattKind {
    /// Both operands are strings holding the same bytes.
    BothAreStr,
    /// The operand is a string.
    IsStr,
    /// The operand is an array.
    IsArray,
    /// The operand is an S-expression.
    IsSExp,
    /// The operand has a boxed (pointer) representation.
    IsRef,
    /// The operand has an unboxed (small integer) representation.
    IsVal,
    /// The operand is a closure.
    IsLambda,
}

/// A decoded Lama VM instruction.
#[derive(Debug, Clone, PartialEq)]
pub enum Instruction {
    NOP,
    /// Marks the end of a procedure definition; returns the top value.
    END,
    /// Returns the top value to the caller of this procedure.
    RET,
    BINOP { op: Op },
    /// Pushes the boxed constant.
    CONST { value: i32 },
    /// Pushes the string found at the given string-table offset.
    STRING { index: i32 },
    /// Marks the start of a procedure with `args` arguments and `locals`
    /// locals; lays out a fresh call frame when executed.
    BEGIN { args: i32, locals: i32 },
    /// Like `BEGIN`, but the procedure may use captured variables.
    CBEGIN { args: i32, locals: i32 },
    /// Pushes a closure whose code starts at `offset`, capturing the
    /// described variables.
    CLOSURE { offset: i32, arity: i32, captured: Vec<(ValueRel, i32)> },
    /// Stores the top of the stack through the given relation.
    STORE { rel: ValueRel, index: i32 },
    /// Loads a value through the given relation.
    LOAD { rel: ValueRel, index: i32 },
    /// Loads a reference to a value through the given relation.
    LOADREF { rel: ValueRel, index: i32 },
    /// Calls a user function at `offset`, or a builtin when `builtin` holds.
    CALL { offset: Option<i32>, n: Option<i32>, name: Option<Builtin>, builtin: bool },
    /// Calls the closure found `arity` slots below the top of the stack.
    CALLC { arity: i32 },
    /// Raises a pattern-match failure at the given source position.
    FAIL { line: i32, column: i32 },
    /// Diagnostic marker for the source line `n`.
    LINE { n: i32 },
    /// Removes the top value from the stack.
    DROP,
    /// Duplicates the top value of the stack.
    DUP,
    /// Swaps the two top values on the stack.
    SWAP,
    /// Jumps to the given code-section offset.
    JMP { offset: i32 },
    /// Jumps to `offset` when the popped operand matches `kind`.
    CJMP { offset: i32, kind: CompareJumpKind },
    /// Indexes into an aggregate: pops the index, then the aggregate.
    ELEM,
    /// Indirect store through a reference; never emitted by the compiler.
    STI,
    /// Indirect store into an aggregate: pops value, index and aggregate.
    STA,
    /// Builds an S-expression with the tag at string-table offset
    /// `s_index` from the top `n_members` stack values.
    SEXP { s_index: i32, n_members: i32 },
    /// Tests for an S-expression with the given tag and member count.
    TAG { index: i32, n: i32 },
    /// Pattern-matching test, see [`PattKind`].
    PATT { kind: PattKind },
    /// Tests for an array of exactly `n` elements.
    ARRAY { n: i32 },
    /// Marks the end of the bytecode file.
    HALT,
}

/// The operator encoded by the low nibble `sub` of a `BINOP` opcode.
pub open spec fn spec_op_of(sub: u8) -> Option<Op> {
    match sub {
        0x1u8 => Some(Op::ADD),
        0x2u8 => Some(Op::SUB),
        0x3u8 => Some(Op::MUL),
        0x4u8 => Some(Op::DIV),
        0x5u8 => Some(Op::MOD),
        0x6u8 => Some(Op::LT),
        0x7u8 => Some(Op::LEQ),
        0x8u8 => Some(Op::GT),
        0x9u8 => Some(Op::GEQ),
        0xau8 => Some(Op::EQ),
        0xbu8 => Some(Op::NEQ),
        0xcu8 => Some(Op::AND),
        0xdu8 => Some(Op::OR),
        _ => None,
    }
}

/// The relation encoded by the low nibble `sub` of a load/store opcode.
pub open spec fn spec_rel_of(sub: u8) -> Option<ValueRel> {
    match sub {
        0x0u8 => Some(ValueRel::Global),
        0x1u8 => Some(ValueRel::Local),
        0x2u8 => Some(ValueRel::Arg),
        0x3u8 => Some(ValueRel::Capture),
        _ => None,
    }
}

/// The pattern kind encoded by the low nibble `sub` of a `PATT` opcode.
pub open spec fn spec_patt_of(sub: u8) -> Option<PattKind> {
    match sub {
        0x0u8 => Some(PattKind::BothAreStr),
        0x1u8 => Some(PattKind::IsStr),
        0x2u8 => Some(PattKind::IsArray),
        0x3u8 => Some(PattKind::IsSExp),
        0x4u8 => Some(PattKind::IsRef),
        0x5u8 => Some(PattKind::IsVal),
        0x6u8 => Some(PattKind::IsLambda),
        _ => None,
    }
}

/// The builtin encoded by the low nibble `sub` of a builtin-call opcode.
pub open spec fn spec_builtin_of(sub: u8) -> Option<Builtin> {
    match sub {
        0x0u8 => Some(Builtin::Lread),
        0x1u8 => Some(Builtin::Lwrite),
        0x2u8 => Some(Builtin::Llength),
        0x3u8 => Some(Builtin::Lstring),
        0x4u8 => Some(Builtin::Barray),
        _ => None,
    }
}

impl Op {
    /// The operator encoded by the low nibble `subopcode`, if any.
    pub fn from_subopcode(subopcode: u8) -> (r: Option<Op>)
        ensures
            r == spec_op_of(subopcode),
    {
        match subopcode {
            0x1 => Some(Op::ADD),
            0x2 => Some(Op::SUB),
            0x3 => Some(Op::MUL),
            0x4 => Some(Op::DIV),
            0x5 => Some(Op::MOD),
            0x6 => Some(Op::LT),
            0x7 => Some(Op::LEQ),
            0x8 => Some(Op::GT),
            0x9 => Some(Op::GEQ),
            0xa => Some(Op::EQ),
            0xb => Some(Op::NEQ),
            0xc => Some(Op::AND),
            0xd => Some(Op::OR),
            _ => None,
        }
    }
}

impl ValueRel {
    /// The relation encoded by the low nibble `subopcode`, if any.
    pub fn from_subopcode(subopcode: u8) -> (r: Option<ValueRel>)
        ensures
            r == spec_rel_of(subopcode),
    {
        match subopcode {
            0x0 => Some(ValueRel::Global),
            0x1 => Some(ValueRel::Local),
            0x2 => Some(ValueRel::Arg),
            0x3 => Some(ValueRel::Capture),
            _ => None,
        }
    }
}

impl PattKind {
    /// The pattern kind encoded by the low nibble `subopcode`, if any.
    pub fn from_subopcode(subopcode: u8) -> (r: Option<PattKind>)
        ensures
            r == spec_patt_of(subopcode),
    {
        match subopcode {
            0x0 => Some(PattKind::BothAreStr),
            0x1 => Some(PattKind::IsStr),
            0x2 => Some(PattKind::IsArray),
            0x3 => Some(PattKind::IsSExp),
            0x4 => Some(PattKind::IsRef),
            0x5 => Some(PattKind::IsVal),
            0x6 => Some(PattKind::IsLambda),
            _ => None,
        }
    }
}

impl Builtin {
    /// The builtin encoded by the low nibble `subopcode`, if any.
    pub fn from_subopcode(subopcode: u8) -> (r: Option<Builtin>)
        ensures
            r == spec_builtin_of(subopcode),
    {
        match subopcode {
            0x0 => Some(Builtin::Lread),
            0x1 => Some(Builtin::Lwrite),
            0x2 => Some(Builtin::Llength),
            0x3 => Some(Builtin::Lstring),
            0x4 => Some(Builtin::Barray),
            _ => None,
        }
    }
}

impl Instruction {
    /// Net operand-stack effect (pushes minus pops) of this instruction, as
    /// tabulated by the static verifier.
    pub open spec fn spec_stack_effect(self) -> int {
        match self {
            Instruction::NOP => 0,
            Instruction::END => 0,
            Instruction::RET => 0,
            Instruction::BINOP { .. } => -1,
            Instruction::CONST { .. } => 1,
            Instruction::STRING { .. } => 1,
            Instruction::BEGIN { args, locals } => 6 + args + locals,
            Instruction::CBEGIN { args, locals } => 6 + args + locals,
            Instruction::CLOSURE { .. } => 1,
            Instruction::STORE { .. } => 0,
            Instruction::LOAD { .. } => 1,
            Instruction::LOADREF { .. } => 1,
            Instruction::CALL { offset, n, name, builtin } => if !builtin {
                1
            } else {
                match name {
                    Some(Builtin::Barray) => match n {
                        Some(k) => 1 - k,
                        None => 1,
                    },
                    Some(Builtin::Lread) => 1,
                    _ => 0,
                }
            },
            Instruction::CALLC { .. } => 1,
            Instruction::FAIL { .. } => 0,
            Instruction::LINE { .. } => 0,
            Instruction::DROP => -1,
            Instruction::DUP => 1,
            Instruction::SWAP => 0,
            Instruction::JMP { .. } => 0,
            Instruction::CJMP { .. } => -1,
            Instruction::ELEM => -1,
            Instruction::STI => -1,
            Instruction::STA => -2,
            Instruction::SEXP { s_index, n_members } => 1 - n_members,
            Instruction::TAG { .. } => 0,
            Instruction::PATT { kind } => if kind == PattKind::BothAreStr {
                -1
            } else {
                0
            },
            Instruction::ARRAY { .. } => 0,
            Instruction::HALT => 0,
        }
    }

    /// Number of words this instruction pushes.
    pub open spec fn spec_push_effect(self) -> int {
        match self {
            Instruction::NOP => 0,
            Instruction::END => 1,
            Instruction::RET => 1,
            Instruction::BINOP { .. } => 1,
            Instruction::CONST { .. } => 1,
            Instruction::STRING { .. } => 1,
            Instruction::BEGIN { args, locals } => 6 + args + locals,
            Instruction::CBEGIN { args, locals } => 6 + args + locals,
            Instruction::CLOSURE { .. } => 1,
            Instruction::STORE { .. } => 1,
            Instruction::LOAD { .. } => 1,
            Instruction::LOADREF { .. } => 2,
            Instruction::CALL { offset, n, name, builtin } => 1,
            Instruction::CALLC { .. } => 2,
            Instruction::FAIL { .. } => 0,
            Instruction::LINE { .. } => 0,
            Instruction::DROP => 0,
            Instruction::DUP => 2,
            Instruction::SWAP => 2,
            Instruction::JMP { .. } => 0,
            Instruction::CJMP { .. } => 0,
            Instruction::ELEM => 1,
            Instruction::STI => 1,
            Instruction::STA => 1,
            Instruction::SEXP { .. } => 1,
            Instruction::TAG { .. } => 1,
            Instruction::PATT { .. } => 1,
            Instruction::ARRAY { .. } => 1,
            Instruction::HALT => 0,
        }
    }

    /// Net operand-stack effect (pushes minus pops) of this instruction.
    pub fn stack_size_effect(&self) -> (r: i64)
        ensures
            r as int == self.spec_stack_effect(),
    {
        match self {
            Instruction::NOP => 0,
            Instruction::END => 0,
            Instruction::RET => 0,
            Instruction::BINOP { .. } => -1,
            Instruction::CONST { .. } => 1,
            Instruction::STRING { .. } => 1,
            Instruction::BEGIN { args, locals } => 6 + (*args as i64) + (*locals as i64),
            Instruction::CBEGIN { args, locals } => 6 + (*args as i64) + (*locals as i64),
            Instruction::CLOSURE { .. } => 1,
            Instruction::STORE { .. } => 0,
            Instruction::LOAD { .. } => 1,
            Instruction::LOADREF { .. } => 1,
            Instruction::CALL { offset: _, n, name, builtin } => {
                if !*builtin {
                    1
                } else {
                    match name {
                        Some(Builtin::Barray) => match n {
                            Some(k) => 1 - (*k as i64),
                            None => 1,
                        },
                        Some(Builtin::Lread) => 1,
                        _ => 0,
                    }
                }
            },
            Instruction::CALLC { .. } => 1,
            Instruction::FAIL { .. } => 0,
            Instruction::LINE { .. } => 0,
            Instruction::DROP => -1,
            Instruction::DUP => 1,
            Instruction::SWAP => 0,
            Instruction::JMP { .. } => 0,
            Instruction::CJMP { .. } => -1,
            Instruction::ELEM => -1,
            Instruction::STI => -1,
            Instruction::STA => -2,
            Instruction::SEXP { s_index: _, n_members } => 1 - (*n_members as i64),
            Instruction::TAG { .. } => 0,
            Instruction::PATT { kind } => {
                match kind {
                    PattKind::BothAreStr => -1,
                    _ => 0,
                }
            },
            Instruction::ARRAY { .. } => 0,
            Instruction::HALT => 0,
        }
    }

    /// Number of words this instruction pushes.
    pub fn push_effect(&self) -> (r: i64)
        ensures
            r as int == self.spec_push_effect(),
    {
        match self {
            Instruction::NOP => 0,
            Instruction::END => 1,
            Instruction::RET => 1,
            Instruction::BINOP { .. } => 1,
            Instruction::CONST { .. } => 1,
            Instruction::STRING { .. } => 1,
            Instruction::BEGIN { args, locals } => 6 + (*args as i64) + (*locals as i64),
            Instruction::CBEGIN { args, locals } => 6 + (*args as i64) + (*locals as i64),
            Instruction::CLOSURE { .. } => 1,
            Instruction::STORE { .. } => 1,
            Instruction::LOAD { .. } => 1,
            Instruction::LOADREF { .. } => 2,
            Instruction::CALL { .. } => 1,
            Instruction::CALLC { .. } => 2,
            Instruction::FAIL { .. } => 0,
            Instruction::LINE { .. } => 0,
            Instruction::DROP => 0,
            Instruction::DUP => 2,
            Instruction::SWAP => 2,
            Instruction::JMP { .. } => 0,
            Instruction::CJMP { .. } => 0,
            Instruction::ELEM => 1,
            Instruction::STI => 1,
            Instruction::STA => 1,
            Instruction::SEXP { .. } => 1,
            Instruction::TAG { .. } => 1,
            Instruction::PATT { .. } => 1,
            Instruction::ARRAY { .. } => 1,
            Instruction::HALT => 0,
        }
    }

    /// Number of words this instruction pops (as a non-positive count).
    pub fn pop_effect(&self) -> (r: i64)
        ensures
            r as int == self.spec_stack_effect() - self.spec_push_effect(),
    {
        let total = self.stack_size_effect();
        let pushes = self.push_effect();
        total - pushes
    }
}

/// True of the instructions after which control never falls through.
pub open spec fn spec_is_terminal(i: Instruction) -> bool {
    match i {
        Instruction::RET => true,
        Instruction::END => true,
        Instruction::FAIL { .. } => true,
        Instruction::JMP { .. } => true,
        Instruction::HALT => true,
        _ => false,
    }
}

/// The jump target carried by `i`, when it is a jump.
pub open spec fn spec_jump_target(i: Instruction) -> Option<i32> {
    match i {
        Instruction::JMP { offset } => Some(offset),
        Instruction::CJMP { offset, kind } => Some(offset),
        _ => None,
    }
}

/// The code offset a non-builtin call in `i` transfers to, if any.
pub open spec fn spec_call_target(i: Instruction) -> Option<i32> {
    match i {
        Instruction::CALL { offset, n, name, builtin } => if builtin {
            None
        } else {
            offset
        },
        _ => None,
    }
}

/// The code offset of the closure body `i` constructs, if any.
pub open spec fn spec_closure_target(i: Instruction) -> Option<i32> {
    match i {
        Instruction::CLOSURE { offset, arity, captured } => Some(offset),
        _ => None,
    }
}

/// True of the instructions that end a basic block: terminals and calls.
pub open spec fn spec_is_split(i: Instruction) -> bool {
    spec_is_terminal(i) || i matches Instruction::CALL { .. } || i matches Instruction::CALLC {
        ..
    }
}

/// Structural equality of two instructions; capture lists are compared
/// element for element.
pub open spec fn spec_instr_eq(a: Instruction, b: Instruction) -> bool {
    match (a, b) {
        (Instruction::NOP, Instruction::NOP) => true,
        (Instruction::END, Instruction::END) => true,
        (Instruction::RET, Instruction::RET) => true,
        (Instruction::HALT, Instruction::HALT) => true,
        (Instruction::DROP, Instruction::DROP) => true,
        (Instruction::DUP, Instruction::DUP) => true,
        (Instruction::SWAP, Instruction::SWAP) => true,
        (Instruction::ELEM, Instruction::ELEM) => true,
        (Instruction::STI, Instruction::STI) => true,
        (Instruction::STA, Instruction::STA) => true,
        (Instruction::BINOP { op: x }, Instruction::BINOP { op: y }) => x == y,
        (Instruction::CONST { value: x }, Instruction::CONST { value: y }) => x == y,
        (Instruction::STRING { index: x }, Instruction::STRING { index: y }) => x == y,
        (
            Instruction::BEGIN { args: a1, locals: l1 },
            Instruction::BEGIN { args: a2, locals: l2 },
        ) => a1 == a2 && l1 == l2,
        (
            Instruction::CBEGIN { args: a1, locals: l1 },
            Instruction::CBEGIN { args: a2, locals: l2 },
        ) => a1 == a2 && l1 == l2,
        (
            Instruction::CLOSURE { offset: o1, arity: r1, captured: c1 },
            Instruction::CLOSURE { offset: o2, arity: r2, captured: c2 },
        ) => o1 == o2 && r1 == r2 && c1@ == c2@,
        (
            Instruction::STORE { rel: r1, index: i1 },
            Instruction::STORE { rel: r2, index: i2 },
        ) => r1 == r2 && i1 == i2,
        (Instruction::LOAD { rel: r1, index: i1 }, Instruction::LOAD { rel: r2, index: i2 }) => r1
            == r2 && i1 == i2,
        (
            Instruction::LOADREF { rel: r1, index: i1 },
            Instruction::LOADREF { rel: r2, index: i2 },
        ) => r1 == r2 && i1 == i2,
        (
            Instruction::CALL { offset: o1, n: n1, name: m1, builtin: b1 },
            Instruction::CALL { offset: o2, n: n2, name: m2, builtin: b2 },
        ) => o1 == o2 && n1 == n2 && m1 == m2 && b1 == b2,
        (Instruction::CALLC { arity: x }, Instruction::CALLC { arity: y }) => x == y,
        (
            Instruction::FAIL { line: l1, column: c1 },
            Instruction::FAIL { line: l2, column: c2 },
        ) => l1 == l2 && c1 == c2,
        (Instruction::LINE { n: x }, Instruction::LINE { n: y }) => x == y,
        (Instruction::JMP { offset: x }, Instruction::JMP { offset: y }) => x == y,
        (
            Instruction::CJMP { offset: o1, kind: k1 },
            Instruction::CJMP { offset: o2, kind: k2 },
        ) => o1 == o2 && k1 == k2,
        (
            Instruction::SEXP { s_index: s1, n_members: m1 },
            Instruction::SEXP { s_index: s2, n_members: m2 },
        ) => s1 == s2 && m1 == m2,
        (Instruction::TAG { index: i1, n: n1 }, Instruction::TAG { index: i2, n: n2 }) => i1 == i2
            && n1 == n2,
        (Instruction::PATT { kind: k1 }, Instruction::PATT { kind: k2 }) => k1 == k2,
        (Instruction::ARRAY { n: x }, Instruction::ARRAY { n: y }) => x == y,
        _ => false,
    }
}

/// Decide structural equality of two instructions.
pub fn instruction_eq(a: &Instruction, b: &Instruction) -> (r: bool)
    ensures
        r == spec_instr_eq(*a, *b),
{
    match (a, b) {
        (Instruction::NOP, Instruction::NOP) => true,
        (Instruction::END, Instruction::END) => true,
        (Instruction::RET, Instruction::RET) => true,
        (Instruction::HALT, Instruction::HALT) => true,
        (Instruction::DROP, Instruction::DROP) => true,
        (Instruction::DUP, Instruction::DUP) => true,
        (Instruction::SWAP, Instruction::SWAP) => true,
        (Instruction::ELEM, Instruction::ELEM) => true,
        (Instruction::STI, Instruction::STI) => true,
        (Instruction::STA, Instruction::STA) => true,
        (Instruction::BINOP { op: x }, Instruction::BINOP { op: y }) => x == y,
        (Instruction::CONST { value: x }, Instruction::CONST { value: y }) => x == y,
        (Instruction::STRING { index: x }, Instruction::STRING { index: y }) => x == y,
        (
            Instruction::BEGIN { args: a1, locals: l1 },
            Instruction::BEGIN { args: a2, locals: l2 },
        ) => a1 == a2 && l1 == l2,
        (
            Instruction::CBEGIN { args: a1, locals: l1 },
            Instruction::CBEGIN { args: a2, locals: l2 },
        ) => a1 == a2 && l1 == l2,
        (
            Instruction::CLOSURE { offset: o1, arity: r1, captured: c1 },
            Instruction::CLOSURE { offset: o2, arity: r2, captured: c2 },
        ) => o1 == o2 && r1 == r2 && captures_eq(c1, c2),
        (
            Instruction::STORE { rel: r1, index: i1 },
            Instruction::STORE { rel: r2, index: i2 },
        ) => r1 == r2 && i1 == i2,
        (Instruction::LOAD { rel: r1, index: i1 }, Instruction::LOAD { rel: r2, index: i2 }) => r1
            == r2 && i1 == i2,
        (
            Instruction::LOADREF { rel: r1, index: i1 },
            Instruction::LOADREF { rel: r2, index: i2 },
        ) => r1 == r2 && i1 == i2,
        (
            Instruction::CALL { offset: o1, n: n1, name: m1, builtin: b1 },
            Instruction::CALL { offset: o2, n: n2, name: m2, builtin: b2 },
        ) => opt_i32_eq(o1, o2) && opt_i32_eq(n1, n2) && opt_builtin_eq(m1, m2) && b1 == b2,
        (Instruction::CALLC { arity: x }, Instruction::CALLC { arity: y }) => x == y,
        (
            Instruction::FAIL { line: l1, column: c1 },
            Instruction::FAIL { line: l2, column: c2 },
        ) => l1 == l2 && c1 == c2,
        (Instruction::LINE { n: x }, Instruction::LINE { n: y }) => x == y,
        (Instruction::JMP { offset: x }, Instruction::JMP { offset: y }) => x == y,
        (
            Instruction::CJMP { offset: o1, kind: k1 },
            Instruction::CJMP { offset: o2, kind: k2 },
        ) => o1 == o2 && k1 == k2,
        (
            Instruction::SEXP { s_index: s1, n_members: m1 },
            Instruction::SEXP { s_index: s2, n_members: m2 },
        ) => s1 == s2 && m1 == m2,
        (Instruction::TAG { index: i1, n: n1 }, Instruction::TAG { index: i2, n: n2 }) => i1 == i2
            && n1 == n2,
        (Instruction::PATT { kind: k1 }, Instruction::PATT { kind: k2 }) => k1 == k2,
        (Instruction::ARRAY { n: x }, Instruction::ARRAY { n: y }) => x == y,
        _ => false,
    }
}

/// Decide equality of two optional immediates.
fn opt_i32_eq(a: &Option<i32>, b: &Option<i32>) -> (r: bool)
    ensures
        r == (*a == *b),
{
    match (a, b) {
        (Some(x), Some(y)) => x == y,
        (None, None) => true,
        _ => false,
    }
}

/// Decide equality of two optional builtin names.
fn opt_builtin_eq(a: &Option<Builtin>, b: &Option<Builtin>) -> (r: bool)
    ensures
        r == (*a == *b),
{
    match (a, b) {
        (Some(x), Some(y)) => x == y,
        (None, None) => true,
        _ => false,
    }
}

/// Decide element-wise equality of two capture lists.
fn captures_eq(a: &Vec<(ValueRel, i32)>, b: &Vec<(ValueRel, i32)>) -> (r: bool)
    ensures
        r == (a@ == b@),
{
    if a.len() != b.len() {
        proof {
            assert(a@.len() != b@.len());
        }
        return false;
    }
    let n = a.len();
    let mut i: usize = 0;
    while i < n
        invariant
            i <= n,
            n == a@.len(),
            n == b@.len(),
            forall|j: int| 0 <= j < i ==> a@[j] == b@[j],
        decreases n - i,
    {
        let (r1, x1) = a[i];
        let (r2, x2) = b[i];
        let same = match (r1, r2) {
            (ValueRel::Global, ValueRel::Global) => true,
            (ValueRel::Local, ValueRel::Local) => true,
            (ValueRel::Arg, ValueRel::Arg) => true,
            (ValueRel::Capture, ValueRel::Capture) => true,
            _ => false,
        };
        if !same || x1 != x2 {
            proof {
                assert(a@[i as int] != b@[i as int]);
                assert(a@ != b@);
            }
            return false;
        }
        i = i + 1;
    }
    proof {
        assert(a@ =~= b@);
    }
    true
}

} // verus!

//! The stack-machine interpreter.
//!
//! A single operand stack holds both data and call frames; every program
//! value on it is a tagged word (see [`crate::object`]).  The interpreter
//! fetches, decodes and dispatches instructions against a parsed image,
//! allocating aggregates in the managed heap and re-publishing the
//! operand-stack bounds after every stack mutation so a collector can
//! find its roots.
//!
//! Console input and output are modelled as queues: `Lread` consumes the
//! next pending input value and `Lwrite` appends to the output; the
//! front-end feeds and drains them.

use vstd::prelude::*;
use crate::bytecode::{Builtin, CompareJumpKind, Instruction, Op, PattKind, ValueRel};
use crate::bytefile::Bytefile;
use crate::decoder::{DecoderError, LeBytes, decode_at, take_le};
use crate::display::{bytes_to_string, display_word_bytes, spec_display_bytes};
use crate::frame::{FrameMetadata, spec_frame_at, spec_frame_readable};
use crate::heap::{Heap, HeapKind, HeapObject, tag_hash};
use crate::object::{MAX_HEAP_INDEX, Object, ObjectError};

verus! {

/// Ways in which loading or running a program can fail.
#[derive(Debug, PartialEq)]
pub enum InterpreterError {
    StackUnderflow,
    EndOfCodeSection,
    ReadingMoreThenCodeSection,
    InvalidOpcode(u8),
    InvalidType(String),
    /// An aggregate access at the given index, with the given length.
    OutOfBoundsAccess(usize, usize),
    InvalidByteSequence(usize),
    StringIndexOutOfBounds,
    InvalidStringPointer,
    InvalidUtf8String,
    InvalidCString,
    InvalidObjectPointer,
    /// A jump at `ip` to `offset` leaves a code section of the given
    /// length.
    InvalidJumpOffset(usize, i32, usize),
    NotEnoughArguments(&'static str),
    InvalidStoreIndex(ValueRel, i32, i64),
    InvalidLoadIndex(ValueRel, i32, i64),
    InvalidLengthForArray,
    ObjectError(ObjectError),
    /// A pattern match failed at the given source position; `obj` renders
    /// the offending value.
    Fail { line: usize, column: usize, obj: String },
    InvalidValueRel,
    TooMuchMembers(usize, usize),
    TooManyCaptures(usize),
    FileDoesNotExist(String),
    FileIsTooLarge(String),
    FileTypeError(String),
    DivisionByZero,
    SexpTagTooLong(usize),
    /// The managed heap ran out of addressable object slots.
    HeapExhausted,
    /// The driver's step budget ran out before the program stopped.
    StepBudgetExhausted,
}

/// Front-end switches for one interpreter run.
pub struct InterpreterOpts {
    /// Collect decoded instructions instead of executing them.
    pub parse_only: bool,
    /// Request step-by-step tracing from the front-end.
    pub verbose: bool,
}

impl InterpreterOpts {
    /// Options with the given parse-only and verbosity switches.
    pub fn new(parse_only: bool, verbose: bool) -> (r: InterpreterOpts)
        ensures
            r.parse_only == parse_only,
            r.verbose == verbose,
    {
        InterpreterOpts { parse_only, verbose }
    }
}

/// The tagged word boxing `v`, wrapping around on overflow; the result
/// always carries the small-integer tag.
pub open spec fn spec_box_wrap(v: i64) -> i64 {
    v.wrapping_mul(2).wrapping_add(1)
}

/// The mathematical result of a binary operator on two unboxed operands:
/// `None` on division or remainder by zero.  Arithmetic wraps to the
/// machine word; comparisons yield zero or one; the logical operators
/// test truthiness.
pub open spec fn spec_binop(op: Op, l: i64, r: i64) -> Option<i64> {
    match op {
        Op::ADD => Some(l.wrapping_add(r)),
        Op::SUB => Some(l.wrapping_sub(r)),
        Op::MUL => Some(l.wrapping_mul(r)),
        Op::DIV => l.checked_div(r),
        Op::MOD => l.checked_rem(r),
        Op::LT => Some(
            if l < r {
                1i64
            } else {
                0i64
            },
        ),
        Op::LEQ => Some(
            if l <= r {
                1i64
            } else {
                0i64
            },
        ),
        Op::GT => Some(
            if l > r {
                1i64
            } else {
                0i64
            },
        ),
        Op::GEQ => Some(
            if l >= r {
                1i64
            } else {
                0i64
            },
        ),
        Op::EQ => Some(
            if l == r {
                1i64
            } else {
                0i64
            },
        ),
        Op::NEQ => Some(
            if l != r {
                1i64
            } else {
                0i64
            },
        ),
        Op::AND => Some(
            if l != 0 && r != 0 {
                1i64
            } else {
                0i64
            },
        ),
        Op::OR => Some(
            if l != 0 || r != 0 {
                1i64
            } else {
                0i64
            },
        ),
    }
}

/// The stack-VM interpreter with its operand stack, globals, heap and
/// modelled console.
pub struct Interpreter {
    /// Single stack holding operands and call frames.
    pub operand_stack: Vec<Object>,
    /// Index of the slot just before the current call frame.
    pub frame_pointer: usize,
    /// The parsed image whose raw code section is interpreted.
    pub bf: Bytefile,
    /// Instruction pointer into the code section.
    pub ip: usize,
    /// Front-end switches.
    pub opts: InterpreterOpts,
    /// Decoded instructions, collected when `parse_only` is set.
    pub instructions: Vec<Instruction>,
    /// Global-variable slots.
    pub globals: Vec<Object>,
    /// The managed heap.
    pub heap: Heap,
    /// Values pending for `Lread`, consumed front to back.
    pub input: Vec<i64>,
    /// Number of input values already consumed.
    pub input_pos: usize,
    /// Values written by `Lwrite`, in order.
    pub output: Vec<i64>,
}

impl Interpreter {
    /// The published stack bounds cover exactly the live operand stack,
    /// the heap has room to address every object, and the input cursor
    /// is inside the input queue.
    pub open spec fn wf(self) -> bool {
        &&& self.heap.stack_bottom == 0
        &&& self.heap.stack_top == self.operand_stack@.len()
        &&& self.heap.objects@.len() <= MAX_HEAP_INDEX
        &&& self.input_pos <= self.input@.len()
    }

    /// Everything but the operand stack, the frame pointer and the
    /// instruction pointer is unchanged between `pre` and `post`.
    pub open spec fn spec_keeps_mem(pre: Interpreter, post: Interpreter) -> bool {
        &&& post.bf == pre.bf
        &&& post.opts == pre.opts
        &&& post.instructions == pre.instructions
        &&& post.globals == pre.globals
        &&& post.heap.objects == pre.heap.objects
        &&& post.input == pre.input
        &&& post.input_pos == pre.input_pos
        &&& post.output == pre.output
    }

    /// A fresh interpreter over `bf`, its operand stack primed with the
    /// synthetic pre-frame that lets `main`'s `BEGIN` run through the
    /// general call prologue.
    pub fn new(bf: Bytefile, opts: InterpreterOpts) -> (r: Interpreter)
        ensures
            r.wf(),
            r.bf == bf,
            r.opts == opts,
            r.frame_pointer == 0,
            r.ip == 0,
            r.operand_stack@.len() == 9,
            r.operand_stack@[2] == (Object::Unboxed(2i64)),
            forall|i: int|
                0 <= i < 9 && i != 2 ==> #[trigger] r.operand_stack@[i] == (Object::Unboxed(0i64)),
            r.globals@.len() == bf.global_area_size,
            r.heap.objects@.len() == 0,
            r.instructions@.len() == 0,
            r.output@.len() == 0,
            r.input@.len() == 0,
    {
        let mut operand_stack: Vec<Object> = Vec::new();
        operand_stack.push(Object::new_empty());  // frame-pointer slot
        operand_stack.push(Object::new_empty());  // closure slot
        operand_stack.push(Object::new_unboxed(2));  // argument count
        operand_stack.push(Object::new_empty());  // local count
        operand_stack.push(Object::new_empty());  // saved frame pointer
        operand_stack.push(Object::new_empty());  // saved instruction pointer
        operand_stack.push(Object::new_empty());  // argv
        operand_stack.push(Object::new_empty());  // argc
        operand_stack.push(Object::new_empty());  // current ip

        let global_area_size = bf.global_area_size as usize;
        let mut globals: Vec<Object> = Vec::new();
        let mut g: usize = 0;
        while g < global_area_size
            invariant
                g <= global_area_size,
                globals@.len() == g,
            decreases global_area_size - g,
        {
            globals.push(Object::new_empty());
            g = g + 1;
        }

        let mut heap = Heap::new();
        heap.publish_stack_bounds(0, operand_stack.len());

        Interpreter {
            operand_stack,
            frame_pointer: 0,
            bf,
            ip: 0,
            opts,
            instructions: Vec::new(),
            globals,
            heap,
            input: Vec::new(),
            input_pos: 0,
            output: Vec::new(),
        }
    }

    /// Re-publish the operand-stack bounds for the collector.  Mutating
    /// stack primitives call this as their last step.
    fn gc_sync(&mut self)
        ensures
            final(self).heap.stack_bottom == 0,
            final(self).heap.stack_top == final(self).operand_stack@.len(),
            final(self).heap.objects == old(self).heap.objects,
            final(self).operand_stack == old(self).operand_stack,
            final(self).frame_pointer == old(self).frame_pointer,
            final(self).ip == old(self).ip,
            final(self).bf == old(self).bf,
            final(self).opts == old(self).opts,
            final(self).instructions == old(self).instructions,
            final(self).globals == old(self).globals,
            final(self).input == old(self).input,
            final(self).input_pos == old(self).input_pos,
            final(self).output == old(self).output,
    {
        let top = self.operand_stack.len();
        self.heap.publish_stack_bounds(0, top);
    }

    /// Push onto the operand stack and re-publish the collector bounds.
    pub fn push(&mut self, obj: Object) -> (r: Result<(), InterpreterError>)
        ensures
            r is Ok,
            final(self).operand_stack@ == old(self).operand_stack@.push(obj),
            final(self).heap.stack_bottom == 0,
            final(self).heap.stack_top == final(self).operand_stack@.len(),
            Self::spec_keeps_mem_but_bounds(*old(self), *final(self)),
            final(self).frame_pointer == old(self).frame_pointer,
            final(self).ip == old(self).ip,
    {
        self.operand_stack.push(obj);
        self.gc_sync();
        Ok(())
    }

    /// Everything but the operand stack, the published bounds, the frame
    /// pointer and the instruction pointer is unchanged.
    pub open spec fn spec_keeps_mem_but_bounds(pre: Interpreter, post: Interpreter) -> bool {
        &&& post.bf == pre.bf
        &&& post.opts == pre.opts
        &&& post.instructions == pre.instructions
        &&& post.globals == pre.globals
        &&& post.heap.objects == pre.heap.objects
        &&& post.input == pre.input
        &&& post.input_pos == pre.input_pos
        &&& post.output == pre.output
    }

    /// Pop from the operand stack and re-publish the collector bounds;
    /// fails on an empty stack.
    pub fn pop(&mut self) -> (r: Result<Object, InterpreterError>)
        ensures
            Self::spec_keeps_mem_but_bounds(*old(self), *final(self)),
            final(self).frame_pointer == old(self).frame_pointer,
            final(self).ip == old(self).ip,
            final(self).heap.stack_bottom == 0,
            final(self).heap.stack_top == final(self).operand_stack@.len(),
            match r {
                Ok(o) => old(self).operand_stack@.len() > 0 && o == old(self).operand_stack@.last()
                    && final(self).operand_stack@ == old(self).operand_stack@.drop_last(),
                Err(e) => e == InterpreterError::StackUnderflow && old(self).operand_stack@.len() == 0 && final(self).operand_stack@ == old(self).operand_stack@,
            },
    {
        let popped = self.operand_stack.pop();
        self.gc_sync();
        match popped {
            Some(o) => {
                proof {
                    assert(self.operand_stack@ =~= old(self).operand_stack@.drop_last());
                }
                Ok(o)
            },
            None => Err(InterpreterError::StackUnderflow),
        }
    }

    /// Read the next `T`-sized little-endian value from the code section
    /// and advance the instruction pointer past it.
    fn next<T: LeBytes>(&mut self) -> (r: Result<T, InterpreterError>)
        requires
            old(self).ip <= old(self).bf.code_section@.len(),
        ensures
            final(self).ip <= final(self).bf.code_section@.len(),
            Self::spec_keeps_mem(*old(self), *final(self)),
            final(self).operand_stack == old(self).operand_stack,
            final(self).heap == old(self).heap,
            final(self).frame_pointer == old(self).frame_pointer,
            match r {
                Ok(v) => old(self).ip + T::spec_size() <= old(self).bf.code_section@.len() && v
                    == T::spec_from_le(old(self).bf.code_section@, old(self).ip as int)
                    && final(self).ip == old(self).ip + T::spec_size(),
                Err(e) => e == InterpreterError::ReadingMoreThenCodeSection && old(self).ip
                    + T::spec_size() > old(self).bf.code_section@.len() && final(self).ip == old(
                    self,
                ).ip,
            },
    {
        match take_le::<T>(&self.bf.code_section, &mut self.ip) {
            Ok(v) => Ok(v),
            Err(_) => Err(InterpreterError::ReadingMoreThenCodeSection),
        }
    }

    /// Decode the instruction whose opcode byte (already consumed) is
    /// `byte`, reading its immediates from the code section.
    fn decode(&mut self, byte: u8) -> (r: Result<Instruction, InterpreterError>)
        requires
            old(self).ip <= old(self).bf.code_section@.len(),
        ensures
            final(self).ip <= final(self).bf.code_section@.len(),
            Self::spec_keeps_mem(*old(self), *final(self)),
            final(self).operand_stack == old(self).operand_stack,
            final(self).heap == old(self).heap,
            final(self).frame_pointer == old(self).frame_pointer,
            match r {
                Ok(instr) => crate::decoder::spec_decode_err(
                    old(self).bf.code_section@,
                    byte,
                    old(self).ip as int,
                ) is None && crate::decoder::spec_decoded(
                    old(self).bf.code_section@,
                    byte,
                    old(self).ip as int,
                    instr,
                    final(self).ip as int,
                ),
                Err(e) => match crate::decoder::spec_decode_err(
                    old(self).bf.code_section@,
                    byte,
                    old(self).ip as int,
                ) {
                    Some(DecoderError::ReadingMoreThenCodeSection) => e
                        == InterpreterError::ReadingMoreThenCodeSection,
                    Some(DecoderError::InvalidOpcode(b)) => e == InterpreterError::InvalidOpcode(b),
                    None => false,
                },
            },
    {
        match decode_at(&self.bf.code_section, &mut self.ip, byte) {
            Ok(i) => Ok(i),
            Err(DecoderError::ReadingMoreThenCodeSection) => Err(
                InterpreterError::ReadingMoreThenCodeSection,
            ),
            Err(DecoderError::InvalidOpcode(b)) => Err(InterpreterError::InvalidOpcode(b)),
        }
    }

    /// `b` is `a` with only the instruction pointer changed.
    pub open spec fn spec_same_but_ip(a: Interpreter, b: Interpreter, ip: int) -> bool {
        &&& b.ip == ip
        &&& b.operand_stack == a.operand_stack
        &&& b.frame_pointer == a.frame_pointer
        &&& b.bf == a.bf
        &&& b.opts == a.opts
        &&& b.instructions == a.instructions
        &&& b.globals == a.globals
        &&& b.heap == a.heap
        &&& b.input == a.input
        &&& b.input_pos == a.input_pos
        &&& b.output == a.output
    }

    /// Everything but the decoded-instruction list and the instruction
    /// pointer is unchanged between `a` and `b`.
    pub open spec fn spec_same_but_collected(a: Interpreter, b: Interpreter) -> bool {
        &&& b.operand_stack == a.operand_stack
        &&& b.frame_pointer == a.frame_pointer
        &&& b.bf == a.bf
        &&& b.opts == a.opts
        &&& b.globals == a.globals
        &&& b.heap == a.heap
        &&& b.input == a.input
        &&& b.input_pos == a.input_pos
        &&& b.output == a.output
    }

    /// Witness form of one driver step: the opcode byte at `pre`'s
    /// instruction pointer decodes to `instr` ending at `end`, and from
    /// the fetched state `mid` the instruction is collected (parse-only
    /// mode) or successfully evaluated into `post`.
    pub open spec fn spec_step_wit(
        pre: Interpreter,
        post: Interpreter,
        instr: Instruction,
        end: int,
        mid: Interpreter,
    ) -> bool {
        let code = pre.bf.code_section@;
        &&& crate::decoder::spec_decoded(code, code[pre.ip as int], pre.ip + 1, instr, end)
        &&& Self::spec_same_but_ip(pre, mid, end)
        &&& if pre.opts.parse_only {
            &&& post.ip == end
            &&& post.instructions@ == pre.instructions@.push(instr)
            &&& Self::spec_same_but_collected(pre, post)
        } else {
            Self::spec_eval_post(mid, instr, post, Ok(()))
        }
    }

    /// One fetch-decode-dispatch step of the driver loop: the opcode byte
    /// at the instruction pointer decodes, and the decoded instruction is
    /// collected (parse-only mode) or successfully evaluated.
    pub open spec fn spec_run_step(pre: Interpreter, post: Interpreter) -> bool {
        &&& pre.ip < pre.bf.code_section@.len()
        &&& exists|instr: Instruction, end: int, mid: Interpreter|
            #[trigger] Self::spec_step_wit(pre, post, instr, end, mid)
    }

    /// Every adjacent pair of `trace` is one driver step; the trace
    /// starts at `pre` and ends at `post`.
    pub open spec fn spec_run_trace(
        pre: Interpreter,
        post: Interpreter,
        trace: Seq<Interpreter>,
    ) -> bool {
        &&& trace.len() >= 1
        &&& trace[0] == pre
        &&& trace[trace.len() - 1] == post
        &&& forall|i: int|
            0 <= i < trace.len() - 1 ==> Self::spec_run_step(#[trigger] trace[i], trace[i + 1])
    }

    /// A completed run: a step trace from `pre` to `post`, with at least
    /// one step when there was code to run, ending off the code section
    /// or at a pre-frame return or a halt marker.
    pub open spec fn spec_run_ok(pre: Interpreter, post: Interpreter, trace: Seq<Interpreter>) -> bool {
        &&& Self::spec_run_trace(pre, post, trace)
        &&& (pre.ip < pre.bf.code_section@.len() ==> trace.len() >= 2)
        &&& (post.ip >= post.bf.code_section@.len() || (!pre.opts.parse_only
            && (post.frame_pointer == 0 || (post.ip >= 1 && post.bf.code_section@[post.ip - 1]
            == 0xff))))
    }

    /// A failed run: a step trace from `pre` to the trace's last state,
    /// and then one failing step into `post` with error `e`.
    pub open spec fn spec_run_err(
        pre: Interpreter,
        post: Interpreter,
        e: InterpreterError,
        trace: Seq<Interpreter>,
    ) -> bool {
        &&& Self::spec_run_trace(pre, trace[trace.len() - 1], trace)
        &&& Self::spec_run_fail(trace[trace.len() - 1], post, e)
    }

    /// Witness form of a failing evaluation step: the instruction at
    /// `mid`'s instruction pointer decodes, and from the fetched state its
    /// evaluation fails with `e`, or succeeds but restores an instruction
    /// pointer past the code section.
    pub open spec fn spec_fail_wit(
        mid: Interpreter,
        post: Interpreter,
        e: InterpreterError,
        instr: Instruction,
        end: int,
        fetched: Interpreter,
    ) -> bool {
        let code = mid.bf.code_section@;
        &&& crate::decoder::spec_decoded(code, code[mid.ip as int], mid.ip + 1, instr, end)
        &&& Self::spec_same_but_ip(mid, fetched, end)
        &&& (Self::spec_eval_post(fetched, instr, post, Err(e)) || (e
            == InterpreterError::EndOfCodeSection && Self::spec_eval_post(
            fetched,
            instr,
            post,
            Ok(()),
        ) && post.ip > code.len()))
    }

    /// The way one driver step can fail from state `mid`, leaving state
    /// `post` with error `e`: the step budget ran out, the opcode at the
    /// instruction pointer does not decode, evaluation failed, or a
    /// return restored an instruction pointer past the code section.
    pub open spec fn spec_run_fail(
        mid: Interpreter,
        post: Interpreter,
        e: InterpreterError,
    ) -> bool {
        let code = mid.bf.code_section@;
        ||| (e == InterpreterError::StepBudgetExhausted && post == mid)
        ||| (mid.ip < code.len() && match crate::decoder::spec_decode_err(
            code,
            code[mid.ip as int],
            mid.ip + 1,
        ) {
            Some(DecoderError::ReadingMoreThenCodeSection) => e
                == InterpreterError::ReadingMoreThenCodeSection
                && Self::spec_same_but_collected(mid, post) && post.instructions
                == mid.instructions,
            Some(DecoderError::InvalidOpcode(b)) => e == InterpreterError::InvalidOpcode(b)
                && Self::spec_same_but_collected(mid, post) && post.instructions
                == mid.instructions,
            None => !mid.opts.parse_only && exists|instr: Instruction, end: int, fetched: Interpreter|
                #[trigger] Self::spec_fail_wit(mid, post, e, instr, end, fetched),
        })
    }

    /// Run the fetch-decode-dispatch loop until the code section is
    /// exhausted or the pre-frame is unwound by `END` or `RET`.
    #[verifier::spinoff_prover]
    #[verifier::rlimit(100)]
    pub fn run(&mut self) -> (r: Result<(), InterpreterError>)
        requires
            old(self).wf(),
            old(self).ip <= old(self).bf.code_section@.len(),
        ensures
            final(self).wf(),
            final(self).bf == old(self).bf,
            match r {
                Ok(()) => exists|trace: Seq<Interpreter>|
                    #[trigger] Self::spec_run_ok(*old(self), *final(self), trace),
                Err(e) => exists|trace: Seq<Interpreter>|
                    #[trigger] Self::spec_run_err(*old(self), *final(self), e, trace),
            },
    {
        let ghost start = *old(self);
        let mut budget: u64 = u64::MAX;
        let ghost mut trace: Seq<Interpreter> = seq![start];
        loop
            invariant
                self.wf(),
                self.ip <= self.bf.code_section@.len(),
                self.bf == start.bf,
                start == *old(self),
                Self::spec_run_trace(start, *self, trace),
                trace.len() == 1 ==> *self == start,
                self.opts == start.opts,
            decreases budget,
        {
            if budget == 0 {
                proof {
                    assert(Self::spec_run_fail(*self, *self, InterpreterError::StepBudgetExhausted));
                    assert(Self::spec_run_err(
                        start,
                        *self,
                        InterpreterError::StepBudgetExhausted,
                        trace,
                    ));
                }
                return Err(InterpreterError::StepBudgetExhausted);
            }
            budget = budget - 1;
            if self.ip >= self.bf.code_section.len() {
                proof {
                    if trace.len() == 1 {
                        assert(*self == start);
                    }
                    assert(Self::spec_run_ok(start, *self, trace));
                }
                return Ok(());
            }
            let ghost head = *self;
            let encoding = match self.next::<u8>() {
                Ok(b) => b,
                Err(e) => {
                    // One opcode byte is always available here: the loop
                    // already returned when the cursor reached the end.
                    proof {
                        assert(<u8 as LeBytes>::spec_size() == 1);
                        assert(false);
                    }
                    return Err(e);
                },
            };
            let instr = match self.decode(encoding) {
                Ok(i) => i,
                Err(e) => {
                    proof {
                        assert(Self::spec_run_fail(head, *self, e));
                        assert(Self::spec_run_err(start, *self, e, trace));
                    }
                    return Err(e);
                },
            };
            let ghost fetched = *self;
            let ghost end = self.ip as int;
            proof {
                assert(Self::spec_same_but_ip(head, fetched, end));
                assert(crate::decoder::spec_decoded(
                    head.bf.code_section@,
                    head.bf.code_section@[head.ip as int],
                    head.ip + 1,
                    instr,
                    end,
                ));
            }

            if self.opts.parse_only {
                self.instructions.push(instr);
                proof {
                    reveal(Interpreter::spec_eval_post);
                    assert(self.instructions@ =~= head.instructions@.push(instr));
                    assert(Self::spec_step_wit(head, *self, instr, end, fetched));
                    assert(Self::spec_run_step(head, *self));
                    let t2 = trace.push(*self);
                    assert forall|j: int|
                        0 <= j < t2.len() - 1 implies Self::spec_run_step(
                        #[trigger] t2[j],
                        t2[j + 1],
                    ) by {
                        if j < trace.len() - 1 {
                            assert(Self::spec_run_step(trace[j], trace[j + 1]));
                        }
                    }
                    trace = t2;
                }
            } else {
                let res = self.eval(&instr);
                match res {
                    Ok(u) => {
                        proof {
                            assert(res == Ok::<(), InterpreterError>(u));
                            assert(Self::spec_eval_post(fetched, instr, *self, Ok(())));
                        }
                    },
                    Err(e) => {
                        proof {
                            reveal(Interpreter::spec_eval_post);
                            assert(res == Err::<(), InterpreterError>(e));
                            assert(Self::spec_fail_wit(head, *self, e, instr, end, fetched));
                            assert(Self::spec_run_fail(head, *self, e));
                            assert(Self::spec_run_err(start, *self, e, trace));
                        }
                        return Err(e);
                    },
                }
                if self.ip > self.bf.code_section.len() {
                    proof {
                        reveal(Interpreter::spec_eval_post);
                        assert(Self::spec_fail_wit(
                            head,
                            *self,
                            InterpreterError::EndOfCodeSection,
                            instr,
                            end,
                            fetched,
                        ));
                        assert(Self::spec_run_fail(
                            head,
                            *self,
                            InterpreterError::EndOfCodeSection,
                        ));
                        assert(Self::spec_run_err(
                            start,
                            *self,
                            InterpreterError::EndOfCodeSection,
                            trace,
                        ));
                    }
                    return Err(InterpreterError::EndOfCodeSection);
                }
                proof {
                    reveal(Interpreter::spec_eval_post);
                    assert(Self::spec_step_wit(head, *self, instr, end, fetched));
                    assert(Self::spec_run_step(head, *self));
                    let t2 = trace.push(*self);
                    assert forall|j: int|
                        0 <= j < t2.len() - 1 implies Self::spec_run_step(
                        #[trigger] t2[j],
                        t2[j + 1],
                    ) by {
                        if j < trace.len() - 1 {
                            assert(Self::spec_run_step(trace[j], trace[j + 1]));
                        }
                    }
                    trace = t2;
                }
                let done = match instr {
                    Instruction::END => self.frame_pointer == 0,
                    Instruction::RET => self.frame_pointer == 0,
                    Instruction::HALT => true,
                    _ => false,
                };
                if done {
                    proof {
                        if instr is HALT {
                            assert(self.bf.code_section@[self.ip - 1] == 0xff);
                        }
                        assert(Self::spec_run_ok(start, *self, trace));
                    }
                    return Ok(());
                }
            }
        }
    }

    /// `states` interleaves `instrs`: each instruction evaluates
    /// successfully from one state to the next, carrying `pre` to `post`.
    pub open spec fn spec_evals_trace(
        pre: Interpreter,
        instrs: Seq<Instruction>,
        post: Interpreter,
        states: Seq<Interpreter>,
    ) -> bool {
        &&& states.len() == instrs.len() + 1
        &&& states[0] == pre
        &&& states[states.len() - 1] == post
        &&& forall|j: int|
            0 <= j < instrs.len() ==> Self::spec_eval_post(
                #[trigger] states[j],
                instrs[j],
                states[j + 1],
                Ok(()),
            )
    }

    /// Witness form of a failing program run: the first `k` instructions
    /// evaluate successfully along `states`, and instruction `k` fails
    /// with error `e`, leaving state `post`.
    pub open spec fn spec_evals_err_wit(
        pre: Interpreter,
        instrs: Seq<Instruction>,
        post: Interpreter,
        e: InterpreterError,
        k: int,
        states: Seq<Interpreter>,
    ) -> bool {
        &&& 0 <= k < instrs.len()
        &&& Self::spec_evals_trace(pre, instrs.subrange(0, k), states[states.len() - 1], states)
        &&& Self::spec_eval_post(states[states.len() - 1], instrs[k], post, Err(e))
    }

    /// Evaluate a pre-decoded instruction sequence, as the tests do.    /// Evaluate a pre-decoded instruction sequence, as the tests do.
    #[verifier::spinoff_prover]
    #[verifier::rlimit(100)]
    pub fn run_on_program(&mut self, program: Vec<Instruction>) -> (r: Result<
        (),
        InterpreterError,
    >)
        requires
            old(self).wf(),
        ensures
            final(self).wf(),
            final(self).bf == old(self).bf,
            match r {
                Ok(()) => exists|states: Seq<Interpreter>|
                    #[trigger] Self::spec_evals_trace(*old(self), program@, *final(self), states),
                Err(e) => exists|k: int, states: Seq<Interpreter>|
                    #[trigger] Self::spec_evals_err_wit(
                        *old(self),
                        program@,
                        *final(self),
                        e,
                        k,
                        states,
                    ),
            },
    {
        let ghost start = *old(self);
        let ghost mut states: Seq<Interpreter> = seq![start];
        proof {
            assert(program@.subrange(0, 0) =~= Seq::<Instruction>::empty());
        }
        let n = program.len();
        let mut i: usize = 0;
        while i < n
            invariant
                i <= n,
                n == program@.len(),
                self.wf(),
                self.bf == old(self).bf,
                start == *old(self),
                Self::spec_evals_trace(start, program@.subrange(0, i as int), *self, states),
            decreases n - i,
        {
            let ghost head = *self;
            let insn = &program[i];
            let res = self.eval(insn);
            match res {
                Ok(u) => {
                    proof {
                        assert(res == Ok::<(), InterpreterError>(u));
                        assert(Self::spec_eval_post(head, *insn, *self, Ok(())));
                    }
                },
                Err(e) => {
                    proof {
                        assert(res == Err::<(), InterpreterError>(e));
                        assert(Self::spec_eval_post(head, *insn, *self, Err(e)));
                        assert(*insn == program@[i as int]);
                        assert(Self::spec_evals_err_wit(
                            start,
                            program@,
                            *self,
                            e,
                            i as int,
                            states,
                        ));
                    }
                    return Err(e);
                },
            }
            proof {
                let t2 = states.push(*self);
                let instrs2 = program@.subrange(0, i + 1);
                assert(*insn == program@[i as int]);
                assert forall|j: int|
                    0 <= j < instrs2.len() implies Self::spec_eval_post(
                    #[trigger] t2[j],
                    instrs2[j],
                    t2[j + 1],
                    Ok(()),
                ) by {
                    if j < i as int {
                        assert(program@.subrange(0, i as int)[j] == instrs2[j]);
                        assert(Self::spec_eval_post(
                            states[j],
                            program@.subrange(0, i as int)[j],
                            states[j + 1],
                            Ok(()),
                        ));
                    } else {
                        assert(instrs2[j] == program@[i as int]);
                        assert(t2[j] == head);
                        assert(t2[j + 1] == *self);
                    }
                }
                states = t2;
                assert(Self::spec_evals_trace(start, instrs2, *self, states));
            }
            i = i + 1;
        }
        proof {
            assert(program@.subrange(0, n as int) =~= program@);
        }
        Ok(())
    }

    /// The full effect of evaluating one instruction: every state
    /// change, every success condition and every error, case by case.
    /// `Interpreter::eval` ensures exactly this; the drivers chain it
    /// without looking inside, so it is kept opaque.
    #[verifier::opaque]
    pub open spec fn spec_eval_post(
        pre: Interpreter,
        instr: Instruction,
        post: Interpreter,
        r: Result<(), InterpreterError>,
    ) -> bool {
        &&& post.bf == pre.bf
        &&& post.opts == pre.opts
        &&& post.instructions == pre.instructions
        &&& post.globals@.len() == pre.globals@.len()
        &&& (pre.wf() ==> post.wf())
        &&& ({
                let stack = pre.operand_stack@;
                let n = stack.len() as int;
                match instr {
                    Instruction::NOP => r is Ok && post == pre,
                    Instruction::HALT => r is Ok && post == pre,
                    Instruction::LINE { n: _ } => r is Ok && post == pre,
                    Instruction::CONST { value } => r is Ok && post.operand_stack@ == stack.push(
                        Object::Boxed((2 * value + 1) as i64),
                    ) && Self::spec_keeps_mem_but_bounds(pre, post) && post.frame_pointer
                        == pre.frame_pointer && post.ip == pre.ip,
                    Instruction::DROP => if n >= 1 {
                        r is Ok && post.operand_stack@ == stack.drop_last()
                            && Self::spec_keeps_mem_but_bounds(pre, post) && post.frame_pointer
                            == pre.frame_pointer && post.ip == pre.ip
                    } else {
                        r == Err::<(), InterpreterError>(InterpreterError::StackUnderflow)
                    },
                    Instruction::DUP => if n >= 1 {
                        r is Ok && post.operand_stack@ == stack.push(stack.last())
                            && Self::spec_keeps_mem_but_bounds(pre, post) && post.frame_pointer
                            == pre.frame_pointer && post.ip == pre.ip
                    } else {
                        r == Err::<(), InterpreterError>(InterpreterError::StackUnderflow)
                    },
                    Instruction::SWAP => if n >= 2 {
                        r is Ok && post.operand_stack@ == stack.update(n - 2, stack[n - 1]).update(
                            n - 1,
                            stack[n - 2],
                        ) && Self::spec_keeps_mem_but_bounds(pre, post) && post.frame_pointer
                            == pre.frame_pointer && post.ip == pre.ip
                    } else {
                        r == Err::<(), InterpreterError>(InterpreterError::StackUnderflow)
                    },
                    Instruction::BINOP { op } => if n >= 2 {
                        let lv = stack[n - 2].spec_unwrap() as i64;
                        let rv = stack[n - 1].spec_unwrap() as i64;
                        match spec_binop(op, lv, rv) {
                            Some(res) => r is Ok && post.operand_stack@ == stack.subrange(
                                0,
                                n - 2,
                            ).push(Object::Boxed(spec_box_wrap(res)))
                                && Self::spec_keeps_mem_but_bounds(pre, post) && post.frame_pointer
                                == pre.frame_pointer && post.ip == pre.ip,
                            None => r == Err::<(), InterpreterError>(
                                InterpreterError::DivisionByZero,
                            ),
                        }
                    } else {
                        r == Err::<(), InterpreterError>(InterpreterError::StackUnderflow)
                    },
                    Instruction::JMP { offset } => if 0 <= offset < pre.bf.code_section@.len() {
                        r is Ok && post.ip == offset && post.operand_stack == pre.operand_stack
                            && post.frame_pointer == pre.frame_pointer && Self::spec_keeps_mem(
                            pre,
                            post,
                        ) && post.heap == pre.heap
                    } else {
                        r == Err::<(), InterpreterError>(
                            InterpreterError::InvalidJumpOffset(
                                pre.ip,
                                offset,
                                pre.bf.code_section@.len() as usize,
                            ),
                        ) && post == pre
                    },
                    Instruction::CJMP { offset, kind } => if n >= 1 {
                        let v = stack.last().spec_unwrap();
                        let taken = (kind == CompareJumpKind::ISZERO && v == 0) || (kind
                            == CompareJumpKind::ISNONZERO && v != 0);
                        if taken {
                            if 0 <= offset < pre.bf.code_section@.len() {
                                r is Ok && post.operand_stack@ == stack.drop_last() && post.ip
                                    == offset && post.frame_pointer == pre.frame_pointer
                                    && Self::spec_keeps_mem_but_bounds(pre, post)
                            } else {
                                r == Err::<(), InterpreterError>(
                                    InterpreterError::InvalidJumpOffset(
                                        pre.ip,
                                        offset,
                                        pre.bf.code_section@.len() as usize,
                                    ),
                                )
                            }
                        } else {
                            r is Ok && post.operand_stack@ == stack.drop_last() && post.ip == pre.ip
                                && post.frame_pointer == pre.frame_pointer
                                && Self::spec_keeps_mem_but_bounds(pre, post)
                        }
                    } else {
                        r == Err::<(), InterpreterError>(InterpreterError::StackUnderflow)
                    },
                    Instruction::END | Instruction::RET => Self::spec_return_post(pre, post, r),
                    Instruction::CALL { offset, n: bn, name, builtin } => if !builtin {
                        match offset {
                            Some(o) => if 0 <= o < pre.bf.code_section@.len() {
                                r is Ok && post.operand_stack@ == stack.push(
                                    Object::Unboxed(pre.ip as i64),
                                ) && post.ip == o && post.frame_pointer == pre.frame_pointer
                                    && Self::spec_keeps_mem_but_bounds(pre, post)
                            } else {
                                r == Err::<(), InterpreterError>(
                                    InterpreterError::InvalidJumpOffset(
                                        pre.ip,
                                        o,
                                        pre.bf.code_section@.len() as usize,
                                    ),
                                )
                            },
                            None => r == Err::<(), InterpreterError>(
                                InterpreterError::NotEnoughArguments("CALL"),
                            ),
                        }
                    } else {
                        match name {
                            Some(Builtin::Lread) => Self::spec_lread_post(pre, post, r),
                            Some(Builtin::Lwrite) => Self::spec_lwrite_post(pre, post, r),
                            Some(Builtin::Llength) => Self::spec_llength_post(pre, post, r),
                            Some(Builtin::Lstring) => Self::spec_lstring_post(pre, post, r),
                            Some(Builtin::Barray) => match bn {
                                Some(k) => Self::spec_barray_post(pre, k, post, r),
                                None => r == Err::<(), InterpreterError>(
                                    InterpreterError::InvalidLengthForArray,
                                ),
                            },
                            None => r == Err::<(), InterpreterError>(
                                InterpreterError::NotEnoughArguments("CALL"),
                            ),
                        }
                    },
                    Instruction::STI => r == Err::<(), InterpreterError>(
                        InterpreterError::InvalidOpcode(0x13u8),
                    ) && post == pre,
                    Instruction::LOADREF { rel, index } => r == Err::<(), InterpreterError>(
                        InterpreterError::InvalidOpcode(0x30u8),
                    ) && post == pre,
                    Instruction::STRING { index } => Self::spec_string_post(pre, index, post, r),
                    Instruction::SEXP { s_index, n_members } => Self::spec_sexp_post(
                        pre,
                        s_index,
                        n_members,
                        post,
                        r,
                    ),
                    Instruction::STA => Self::spec_sta_post(pre, post, r),
                    Instruction::ELEM => Self::spec_elem_post(pre, post, r),
                    Instruction::BEGIN { args, locals } => Self::spec_begin_post(
                        pre,
                        args,
                        locals,
                        false,
                        post,
                        r,
                    ),
                    Instruction::CBEGIN { args, locals } => Self::spec_begin_post(
                        pre,
                        args,
                        locals,
                        true,
                        post,
                        r,
                    ),
                    Instruction::LOAD { rel, index } => Self::spec_load_post(
                        pre,
                        rel,
                        index,
                        post,
                        r,
                    ),
                    Instruction::STORE { rel, index } => Self::spec_store_post(
                        pre,
                        rel,
                        index,
                        post,
                        r,
                    ),
                    Instruction::CALLC { arity } => Self::spec_callc_post(pre, arity, post, r),
                    Instruction::CLOSURE { offset, arity, captured } => Self::spec_closure_post(
                        pre,
                        offset,
                        captured@,
                        post,
                        r,
                    ),
                    Instruction::TAG { index, n: tn } => Self::spec_tag_post(pre, index, tn, post, r),
                    Instruction::ARRAY { n: an } => Self::spec_array_post(pre, an, post, r),
                    Instruction::PATT { kind } => Self::spec_patt_post(pre, kind, post, r),
                    Instruction::FAIL { line, column } => Self::spec_fail_post(
                        pre,
                        line,
                        column,
                        post,
                        r,
                    ),
                }
            })
    }

    /// Evaluate one decoded instruction against the current state.
    ///
    /// `STI` is never emitted by the compiler and is refused; `LOADREF`
    /// is decoded but carries no evaluation rule and is refused likewise.
    #[verifier::spinoff_prover]
    #[verifier::rlimit(100)]
    fn eval(&mut self, instr: &Instruction) -> (r: Result<(), InterpreterError>)
        requires
            old(self).wf(),
        ensures
            final(self).wf(),
            final(self).bf == old(self).bf,
            final(self).opts == old(self).opts,
            final(self).instructions == old(self).instructions,
            final(self).globals@.len() == old(self).globals@.len(),
            Self::spec_eval_post(*old(self), *instr, *final(self), r),
    {
        proof {
            reveal(Interpreter::spec_eval_post);
        }
        match instr {
            Instruction::NOP => Ok(()),
            Instruction::HALT => Ok(()),
            Instruction::LINE { n: _ } => Ok(()),
            Instruction::CONST { value } => {
                self.push(Object::new_boxed(*value as i64))?;
                Ok(())
            },
            Instruction::DROP => {
                self.pop()?;
                Ok(())
            },
            Instruction::DUP => {
                let value = self.pop()?;
                self.push(value)?;
                self.push(value)?;
                proof {
                    assert(final(self).operand_stack@ =~= old(self).operand_stack@.push(
                        old(self).operand_stack@.last(),
                    ));
                }
                Ok(())
            },
            Instruction::SWAP => {
                let value1 = self.pop()?;
                let value2 = self.pop()?;
                self.push(value1)?;
                self.push(value2)?;
                proof {
                    let stack = old(self).operand_stack@;
                    let n = stack.len() as int;
                    assert(final(self).operand_stack@ =~= stack.update(n - 2, stack[n - 1]).update(
                        n - 1,
                        stack[n - 2],
                    ));
                }
                Ok(())
            },
            Instruction::BINOP { op } => self.eval_binop(*op),
            Instruction::JMP { offset } => {
                if *offset < 0 || *offset as usize >= self.bf.code_section.len() {
                    return Err(
                        InterpreterError::InvalidJumpOffset(
                            self.ip,
                            *offset,
                            self.bf.code_section.len(),
                        ),
                    );
                }
                self.ip = *offset as usize;
                Ok(())
            },
            Instruction::CJMP { offset, kind } => {
                let obj = self.pop()?;
                let value = obj.unwrap();
                let taken = match kind {
                    CompareJumpKind::ISZERO => value == 0,
                    CompareJumpKind::ISNONZERO => value != 0,
                };
                if taken {
                    if *offset < 0 || *offset as usize >= self.bf.code_section.len() {
                        return Err(
                            InterpreterError::InvalidJumpOffset(
                                self.ip,
                                *offset,
                                self.bf.code_section.len(),
                            ),
                        );
                    }
                    self.ip = *offset as usize;
                }
                Ok(())
            },
            Instruction::END | Instruction::RET => self.eval_return(),
            Instruction::STI => Err(InterpreterError::InvalidOpcode(0x13)),
            Instruction::LOADREF { rel: _, index: _ } => Err(
                InterpreterError::InvalidOpcode(0x30),
            ),
            Instruction::STRING { index } => self.eval_string(*index),
            Instruction::SEXP { s_index, n_members } => self.eval_sexp(*s_index, *n_members),
            Instruction::STA => self.eval_sta(),
            Instruction::ELEM => self.eval_elem(),
            Instruction::BEGIN { args, locals } => self.eval_begin(*args, *locals, false),
            Instruction::CBEGIN { args, locals } => self.eval_begin(*args, *locals, true),
            Instruction::LOAD { rel, index } => self.eval_load(*rel, *index),
            Instruction::STORE { rel, index } => self.eval_store(*rel, *index),
            Instruction::CALL { offset, n, name, builtin } => {
                if !*builtin {
                    let off = match offset {
                        Some(o) => *o,
                        None => {
                            return Err(InterpreterError::NotEnoughArguments("CALL"));
                        },
                    };
                    if off < 0 || off as usize >= self.bf.code_section.len() {
                        return Err(
                            InterpreterError::InvalidJumpOffset(
                                self.ip,
                                off,
                                self.bf.code_section.len(),
                            ),
                        );
                    }
                    let saved = self.ip;
                    self.push(Object::new_unboxed(saved as i64))?;
                    self.ip = off as usize;
                    Ok(())
                } else {
                    match name {
                        Some(Builtin::Lread) => self.eval_lread(),
                        Some(Builtin::Lwrite) => self.eval_lwrite(),
                        Some(Builtin::Llength) => self.eval_llength(),
                        Some(Builtin::Lstring) => self.eval_lstring(),
                        Some(Builtin::Barray) => {
                            let k = match n {
                                Some(k) => *k,
                                None => {
                                    return Err(InterpreterError::InvalidLengthForArray);
                                },
                            };
                            self.eval_barray(k)
                        },
                        None => Err(InterpreterError::NotEnoughArguments("CALL")),
                    }
                }
            },
            Instruction::CALLC { arity } => self.eval_callc(*arity),
            Instruction::CLOSURE { offset, arity: _, captured } => self.eval_closure(
                *offset,
                captured,
            ),
            Instruction::TAG { index, n } => self.eval_tag(*index, *n),
            Instruction::ARRAY { n } => self.eval_array(*n),
            Instruction::PATT { kind } => self.eval_patt(*kind),
            Instruction::FAIL { line, column } => self.eval_fail(*line, *column),
        }
    }

    /// The effect of this instruction on the interpreter state, as its
    /// evaluator ensures it.
    pub open spec fn spec_string_post(pre: Interpreter, index: i32, post: Interpreter, r: Result<(), InterpreterError>) -> bool {
        &&& (({
                        let strtab = pre.bf.string_table@;
                        let nul = crate::bytefile::spec_find_nul(strtab, index as int);
                        let hp = pre.heap.objects@;
                        if index < 0 || index >= strtab.len() || nul == strtab.len() {
                            r == Err::<(), InterpreterError>(InterpreterError::StringIndexOutOfBounds)
                        } else if hp.len() >= MAX_HEAP_INDEX {
                            r == Err::<(), InterpreterError>(InterpreterError::HeapExhausted)
                        } else {
                            &&& r is Ok
                            &&& post.heap.objects@.len() == hp.len() + 1
                            &&& post.heap.objects@[hp.len() as int] matches HeapObject::Str { bytes }
                                && bytes@ == strtab.subrange(index as int, nul + 1)
                            &&& post.operand_stack@ == pre.operand_stack@.push(
                                Object::Boxed((2 * hp.len()) as i64),
                            )
                            &&& post.frame_pointer == pre.frame_pointer
                            &&& post.ip == pre.ip
                            &&& post.globals == pre.globals
                            &&& post.output == pre.output
                        }
                    }))
    }

    /// The effect of this instruction on the interpreter state, as its
    /// evaluator ensures it.
    pub open spec fn spec_sexp_post(pre: Interpreter, s_index: i32, n_members: i32, post: Interpreter, r: Result<(), InterpreterError>) -> bool {
        &&& (({
                        let hp = pre.heap.objects@;
                        let stack = pre.operand_stack@;
                        let n = stack.len() as int;
                        let strtab = pre.bf.string_table@;
                        let nul = crate::bytefile::spec_find_nul(strtab, s_index as int);
                        let k = if n_members < 0 {
                            0int
                        } else {
                            n_members as int
                        };
                        if s_index < 0 || s_index >= strtab.len() || nul == strtab.len() {
                            r == Err::<(), InterpreterError>(InterpreterError::StringIndexOutOfBounds)
                        } else if nul - s_index > 10 {
                            r == Err::<(), InterpreterError>(
                                InterpreterError::SexpTagTooLong((nul - s_index) as usize),
                            )
                        } else if k > n {
                            r == Err::<(), InterpreterError>(InterpreterError::StackUnderflow)
                        } else if hp.len() >= MAX_HEAP_INDEX {
                            r == Err::<(), InterpreterError>(InterpreterError::HeapExhausted)
                        } else {
                            &&& r is Ok
                            &&& post.heap.objects@.len() == hp.len() + 1
                            &&& ({
                                let obj = post.heap.objects@[hp.len() as int];
                                obj matches HeapObject::Sexp { tag, elems } && tag as int
                                    == crate::heap::spec_tag_hash(strtab.subrange(s_index as int, nul))
                                    && elems@.len() == k && (forall|i: int|
                                    0 <= i < k ==> #[trigger] elems@[i] as int == stack[n - k
                                        + i].spec_raw())
                            })
                            &&& post.operand_stack@ == stack.subrange(0, n - k).push(
                                Object::Boxed((2 * hp.len()) as i64),
                            )
                            &&& post.frame_pointer == pre.frame_pointer
                            &&& post.ip == pre.ip
                        }
                    }))
    }

    /// The effect of this instruction on the interpreter state, as its
    /// evaluator ensures it.
    pub open spec fn spec_barray_post(pre: Interpreter, n: i32, post: Interpreter, r: Result<(), InterpreterError>) -> bool {
        &&& (({
                        let hp = pre.heap.objects@;
                        let stack = pre.operand_stack@;
                        let sn = stack.len() as int;
                        let k = if n < 0 {
                            0int
                        } else {
                            n as int
                        };
                        if k > sn {
                            r == Err::<(), InterpreterError>(InterpreterError::StackUnderflow)
                        } else if hp.len() >= MAX_HEAP_INDEX {
                            r == Err::<(), InterpreterError>(InterpreterError::HeapExhausted)
                        } else {
                            &&& r is Ok
                            &&& post.heap.objects@.len() == hp.len() + 1
                            &&& ({
                                let obj = post.heap.objects@[hp.len() as int];
                                obj matches HeapObject::Array { elems } && elems@.len() == k && (forall|
                                    i: int,
                                |
                                    0 <= i < k ==> #[trigger] elems@[i] as int == stack[sn - k
                                        + i].spec_raw())
                            })
                            &&& post.operand_stack@ == stack.subrange(0, sn - k).push(
                                Object::Boxed((2 * hp.len()) as i64),
                            )
                            &&& post.frame_pointer == pre.frame_pointer
                            &&& post.ip == pre.ip
                        }
                    }))
    }

    /// The effect of this instruction on the interpreter state, as its
    /// evaluator ensures it.
    pub open spec fn spec_lread_post(pre: Interpreter, post: Interpreter, r: Result<(), InterpreterError>) -> bool {
        &&& (r is Ok)
        &&& (({
                        let v = if pre.input_pos < pre.input@.len() {
                            pre.input@[pre.input_pos as int]
                        } else {
                            0i64
                        };
                        &&& post.operand_stack@ == pre.operand_stack@.push(
                            Object::Boxed(spec_box_wrap(v)),
                        )
                        &&& post.input_pos == (
                        if pre.input_pos < pre.input@.len() {
                            pre.input_pos + 1
                        } else {
                            pre.input_pos as int
                        })
                        &&& post.input == pre.input
                        &&& post.output == pre.output
                        &&& post.globals == pre.globals
                        &&& post.heap.objects == pre.heap.objects
                        &&& post.frame_pointer == pre.frame_pointer
                        &&& post.ip == pre.ip
                    }))
    }

    /// The effect of this instruction on the interpreter state, as its
    /// evaluator ensures it.
    pub open spec fn spec_lwrite_post(pre: Interpreter, post: Interpreter, r: Result<(), InterpreterError>) -> bool {
        &&& (({
                        let stack = pre.operand_stack@;
                        if stack.len() > 0 {
                            r is Ok && post.operand_stack@ == stack && post.output@ == pre.output@.push(
                                (stack.last().spec_unwrap() as i64),
                            ) && post.input == pre.input && post.input_pos == pre.input_pos && post.globals
                                == pre.globals && post.heap.objects == pre.heap.objects
                                && post.frame_pointer == pre.frame_pointer && post.ip == pre.ip
                        } else {
                            r == Err::<(), InterpreterError>(InterpreterError::StackUnderflow)
                        }
                    }))
    }

    /// The effect of this instruction on the interpreter state, as its
    /// evaluator ensures it.
    pub open spec fn spec_llength_post(pre: Interpreter, post: Interpreter, r: Result<(), InterpreterError>) -> bool {
        &&& (({
                        let stack = pre.operand_stack@;
                        let n = stack.len() as int;
                        if n < 1 {
                            r == Err::<(), InterpreterError>(InterpreterError::StackUnderflow)
                        } else if !(stack.last().spec_is_heap_ref() && stack.last().spec_heap_index()
                            < pre.heap.objects@.len()) {
                            r == Err::<(), InterpreterError>(InterpreterError::InvalidObjectPointer)
                        } else {
                            let len = pre.heap.objects@[stack.last().spec_heap_index()].spec_length();
                            &&& r is Ok
                            &&& post.operand_stack@ == stack.drop_last().push(
                                Object::Boxed(spec_box_wrap((len as i64))),
                            )
                            &&& Self::spec_keeps_mem_but_bounds(pre, post)
                            &&& post.frame_pointer == pre.frame_pointer
                            &&& post.ip == pre.ip
                        }
                    }))
    }

    /// The effect of this instruction on the interpreter state, as its
    /// evaluator ensures it.
    pub open spec fn spec_lstring_post(pre: Interpreter, post: Interpreter, r: Result<(), InterpreterError>) -> bool {
        let stack = pre.operand_stack@;
        let n = stack.len() as int;
        let hp = pre.heap.objects@;
        let rendered = spec_display_bytes(hp, stack.last().spec_raw());
        if n < 1 {
            r == Err::<(), InterpreterError>(InterpreterError::StackUnderflow)
        } else if exists|j: int| 0 <= j < rendered.len() && rendered[j] == 0 {
            r == Err::<(), InterpreterError>(InterpreterError::InvalidStringPointer)
        } else if hp.len() >= MAX_HEAP_INDEX {
            r == Err::<(), InterpreterError>(InterpreterError::HeapExhausted)
        } else {
            &&& r is Ok
            &&& post.heap.objects@.len() == hp.len() + 1
            &&& post.heap.objects@[hp.len() as int] matches HeapObject::Str { bytes } && bytes@
                == rendered.push(0u8)
            &&& post.operand_stack@ == stack.drop_last().push(
                Object::Boxed((2 * hp.len()) as i64),
            )
            &&& post.frame_pointer == pre.frame_pointer
            &&& post.ip == pre.ip
        }
    }

    /// The effect of this instruction on the interpreter state, as its
    /// evaluator ensures it.
    pub open spec fn spec_fail_post(pre: Interpreter, line: i32, column: i32, post: Interpreter, r: Result<(), InterpreterError>) -> bool {
        &&& (r is Err)
        &&& (pre.operand_stack@.len() > 0 ==> (r matches Err(InterpreterError::Fail {
                        line: l,
                        column: c,
                        obj,
                    }) && l as int == (line as usize) as int && c as int == (column as usize) as int))
    }

    /// The effect of this instruction on the interpreter state, as its
    /// evaluator ensures it.
    pub open spec fn spec_elem_post(pre: Interpreter, post: Interpreter, r: Result<(), InterpreterError>) -> bool {
        &&& (({
                        let stack = pre.operand_stack@;
                        let n = stack.len() as int;
                        if n < 2 {
                            r == Err::<(), InterpreterError>(InterpreterError::StackUnderflow)
                        } else if !(stack[n - 2].spec_is_heap_ref() && stack[n - 2].spec_heap_index()
                            < pre.heap.objects@.len()) {
                            r is Err
                        } else if !(0 <= stack[n - 1].spec_unwrap()
                            < pre.heap.objects@[stack[n - 2].spec_heap_index()].spec_length()) {
                            r matches Err(InterpreterError::OutOfBoundsAccess(i, l)) && l as int
                                == pre.heap.objects@[stack[n - 2].spec_heap_index()].spec_length()
                        } else {
                            let obj = pre.heap.objects@[stack[n - 2].spec_heap_index()];
                            let i = stack[n - 1].spec_unwrap();
                            let pushed = match obj {
                                HeapObject::Str { bytes } => Object::Boxed(
                                    spec_box_wrap(bytes@[i] as i64),
                                ),
                                HeapObject::Array { elems } => Object::Boxed(elems@[i]),
                                HeapObject::Sexp { tag, elems } => Object::Boxed(elems@[i]),
                                HeapObject::Closure { elems } => Object::Boxed(elems@[i]),
                            };
                            &&& r is Ok
                            &&& post.operand_stack@ == stack.subrange(0, n - 2).push(pushed)
                            &&& Self::spec_keeps_mem_but_bounds(pre, post)
                            &&& post.frame_pointer == pre.frame_pointer
                            &&& post.ip == pre.ip
                        }
                    }))
    }

    /// The effect of this instruction on the interpreter state, as its
    /// evaluator ensures it.
    pub open spec fn spec_sta_post(pre: Interpreter, post: Interpreter, r: Result<(), InterpreterError>) -> bool {
        &&& (r is Ok ==> ({
                        let stack = pre.operand_stack@;
                        let n = stack.len() as int;
                        let idx = stack[n - 3].spec_heap_index();
                        let iv = stack[n - 2].spec_unwrap();
                        let vraw = stack[n - 1].spec_raw() as i64;
                        let vbyte = (stack[n - 1].spec_unwrap() as i64) as u8;
                        &&& n >= 3
                        &&& stack[n - 3].spec_is_heap_ref()
                        &&& idx < pre.heap.objects@.len()
                        &&& 0 <= iv < pre.heap.objects@[idx].spec_length()
                        &&& post.operand_stack@ == stack.subrange(0, n - 3).push(stack[n - 3])
                        &&& post.heap.objects@.len() == pre.heap.objects@.len()
                        &&& (match (pre.heap.objects@[idx], post.heap.objects@[idx]) {
                            (HeapObject::Str { bytes: ob }, HeapObject::Str { bytes: nb }) => nb@ == ob@
                                .update(iv, vbyte),
                            (HeapObject::Array { elems: oe }, HeapObject::Array { elems: ne }) => ne@ == oe@
                                .update(iv, vraw),
                            (
                                HeapObject::Sexp { tag: ot, elems: oe },
                                HeapObject::Sexp { tag: nt, elems: ne },
                            ) => nt == ot && ne@ == oe@.update(iv, vraw),
                            (
                                HeapObject::Closure { elems: oe },
                                HeapObject::Closure { elems: ne },
                            ) => ne@ == oe@.update(iv, vraw),
                            _ => false,
                        })
                        &&& (forall|j: int|
                            0 <= j < pre.heap.objects@.len() && j != idx
                                ==> #[trigger] post.heap.objects@[j] == pre.heap.objects@[j])
                        &&& post.frame_pointer == pre.frame_pointer
                        &&& post.ip == pre.ip
                        &&& post.globals == pre.globals
                        &&& post.output == pre.output
                    }))
    }

    /// The effect of this instruction on the interpreter state, as its
    /// evaluator ensures it.
    pub open spec fn spec_begin_post(pre: Interpreter, args: i32, locals: i32, is_cbegin: bool, post: Interpreter, r: Result<(), InterpreterError>) -> bool {
        &&& (r is Ok ==> ({
                        let stack = pre.operand_stack@;
                        let n = stack.len() as int;
                        let a = (args as int) % 0x10000;
                        let nl = locals as int;
                        let top = if is_cbegin {
                            2int
                        } else {
                            1int
                        };
                        let fp = n - a - top - 1;
                        &&& args >= 0 && locals >= 0
                        &&& n >= a + top + 1
                        &&& post.frame_pointer == fp
                        &&& post.operand_stack@.len() == fp + 6 + a + nl
                        &&& post.operand_stack@.subrange(0, fp + 1) == stack.subrange(0, fp + 1)
                        &&& post.operand_stack@[fp + 1] == (
                        if is_cbegin {
                            stack[n - 1]
                        } else {
                            Object::Unboxed(0i64)
                        })
                        &&& post.operand_stack@[fp + 2] == (Object::Unboxed(a as i64))
                        &&& post.operand_stack@[fp + 3] == (Object::Unboxed(locals as i64))
                        &&& post.operand_stack@[fp + 4] == (Object::Unboxed(pre.frame_pointer as i64))
                        &&& post.operand_stack@[fp + 5] == (
                        if is_cbegin {
                            stack[n - 2]
                        } else {
                            stack[n - 1]
                        })
                        &&& (forall|i: int|
                            0 <= i < a ==> #[trigger] post.operand_stack@[fp + 6 + i] == stack[fp + 1 + i])
                        &&& (forall|i: int|
                            0 <= i < nl ==> #[trigger] post.operand_stack@[fp + 6 + a + i] == (
                            Object::Boxed(1i64)))
                        &&& post.ip == pre.ip
                        &&& Self::spec_keeps_mem_but_bounds(pre, post)
                    }))
    }

    /// The effect of this instruction on the interpreter state, as its
    /// evaluator ensures it.
    pub open spec fn spec_load_post(pre: Interpreter, rel: ValueRel, index: i32, post: Interpreter, r: Result<(), InterpreterError>) -> bool {
        &&& (r is Ok ==> ({
                        &&& post.operand_stack@.len() == pre.operand_stack@.len() + 1
                        &&& post.operand_stack@.drop_last() == pre.operand_stack@
                        &&& Self::spec_keeps_mem_but_bounds(pre, post)
                        &&& post.frame_pointer == pre.frame_pointer
                        &&& post.ip == pre.ip
                    }))
        &&& (rel == ValueRel::Global ==> ({
                        if 0 <= index < pre.globals@.len() {
                            r is Ok && post.operand_stack@ == pre.operand_stack@.push(
                                pre.globals@[index as int],
                            )
                        } else {
                            r == Err::<(), InterpreterError>(
                                InterpreterError::InvalidLoadIndex(
                                    ValueRel::Global,
                                    index,
                                    pre.globals@.len() as i64,
                                ),
                            )
                        }
                    }))
        &&& (rel == ValueRel::Arg && r is Ok ==> ({
                        let stack = pre.operand_stack@;
                        let fp = pre.frame_pointer as int;
                        &&& index >= 0
                        &&& fp + 6 + index < stack.len()
                        &&& post.operand_stack@ == stack.push(stack[fp + 6 + index])
                    }))
        &&& (rel == ValueRel::Local && r is Ok ==> ({
                        let stack = pre.operand_stack@;
                        let fp = pre.frame_pointer as int;
                        let na = spec_frame_at(stack, fp).n_args as int;
                        &&& index >= 0
                        &&& na >= 0
                        &&& fp + 6 + na + index < stack.len()
                        &&& post.operand_stack@ == stack.push(stack[fp + 6 + na + index])
                    }))
        &&& (rel == ValueRel::Capture && r is Ok ==> ({
                        let stack = pre.operand_stack@;
                        let fp = pre.frame_pointer as int;
                        &&& fp + 1 < stack.len()
                        &&& Self::spec_has_kind(pre, stack[fp + 1], HeapKind::Closure)
                        &&& 0 <= index + 1
                            < pre.heap.objects@[stack[fp + 1].spec_heap_index()]->Closure_elems@.len()
                        &&& post.operand_stack@ == stack.push(
                            Object::Boxed(
                                pre.heap.objects@[stack[fp + 1].spec_heap_index()]->Closure_elems@[index
                                    + 1],
                            ),
                        )
                    }))
    }

    /// The effect of this instruction on the interpreter state, as its
    /// evaluator ensures it.
    pub open spec fn spec_store_post(pre: Interpreter, rel: ValueRel, index: i32, post: Interpreter, r: Result<(), InterpreterError>) -> bool {
        &&& (rel == ValueRel::Global ==> ({
                        let stack = pre.operand_stack@;
                        let n = stack.len() as int;
                        if n < 1 {
                            r == Err::<(), InterpreterError>(InterpreterError::StackUnderflow)
                        } else if 0 <= index < pre.globals@.len() {
                            r is Ok && post.operand_stack@ == stack && post.globals@ == pre.globals@.update(
                                index as int,
                                stack.last(),
                            ) && post.heap.objects == pre.heap.objects && post.frame_pointer
                                == pre.frame_pointer && post.ip == pre.ip && post.output == pre.output
                        } else {
                            r == Err::<(), InterpreterError>(
                                InterpreterError::InvalidStoreIndex(
                                    ValueRel::Global,
                                    index,
                                    pre.globals@.len() as i64,
                                ),
                            )
                        }
                    }))
        &&& (rel == ValueRel::Local || rel == ValueRel::Arg ==> (r is Ok ==> ({
                        &&& post.operand_stack@.len() == pre.operand_stack@.len()
                        &&& post.operand_stack@.last() == pre.operand_stack@.last()
                        &&& Self::spec_keeps_mem_but_bounds(pre, post)
                        &&& post.frame_pointer == pre.frame_pointer
                        &&& post.ip == pre.ip
                    })))
        &&& (rel == ValueRel::Capture && r is Ok ==> ({
                        let stack = pre.operand_stack@;
                        let fp = pre.frame_pointer as int;
                        let cidx = stack[fp + 1].spec_heap_index();
                        &&& stack.len() > 0
                        &&& fp + 1 < stack.len() - 1
                        &&& Self::spec_has_kind(pre, stack[fp + 1], HeapKind::Closure)
                        &&& 0 <= index + 1 < pre.heap.objects@[cidx]->Closure_elems@.len()
                        &&& post.operand_stack@ == stack
                        &&& post.heap.objects@.len() == pre.heap.objects@.len()
                        &&& post.heap.objects@[cidx]->Closure_elems@
                            == pre.heap.objects@[cidx]->Closure_elems@.update(
                            index + 1,
                            (stack.last().spec_raw() as i64),
                        )
                        &&& post.heap.objects@[cidx] is Closure
                        &&& (forall|j: int|
                            0 <= j < pre.heap.objects@.len() && j != cidx
                                ==> #[trigger] post.heap.objects@[j] == pre.heap.objects@[j])
                        &&& post.frame_pointer == pre.frame_pointer
                        &&& post.ip == pre.ip
                    }))
    }

    /// The effect of this instruction on the interpreter state, as its
    /// evaluator ensures it.
    pub open spec fn spec_callc_post(pre: Interpreter, arity: i32, post: Interpreter, r: Result<(), InterpreterError>) -> bool {
        &&& (r is Ok ==> ({
                        let stack = pre.operand_stack@;
                        let n = stack.len() as int;
                        let a = arity as int;
                        let cpos = n - 1 - a;
                        &&& arity >= 0
                        &&& n >= a + 1
                        &&& stack[cpos].spec_is_heap_ref()
                        &&& Self::spec_has_kind(pre, stack[cpos], HeapKind::Closure)
                        &&& post.operand_stack@ == stack.remove(cpos).push(
                            Object::Unboxed(pre.ip as i64),
                        ).push(stack[cpos])
                        &&& Self::spec_keeps_mem_but_bounds(pre, post)
                        &&& post.frame_pointer == pre.frame_pointer
                        &&& post.ip as int
                            == pre.heap.objects@[stack[cpos].spec_heap_index()]->Closure_elems@[0]
                        &&& 0 <= post.ip < pre.bf.code_section@.len()
                    }))
    }

    /// The effect of this instruction on the interpreter state, as its
    /// evaluator ensures it.
    pub open spec fn spec_closure_post(pre: Interpreter, offset: i32, captured: Seq<(ValueRel, i32)>, post: Interpreter, r: Result<(), InterpreterError>) -> bool {
        &&& (r is Ok ==> ({
                        let hp = pre.heap.objects@;
                        &&& post.heap.objects@.len() == hp.len() + 1
                        &&& ({
                            let obj = post.heap.objects@[hp.len() as int];
                            obj matches HeapObject::Closure { elems } && elems@.len() == captured.len() + 1
                                && elems@[0] == offset as i64 && (forall|i: int|
                                0 <= i < captured.len() ==> Self::spec_capture_source(
                                    pre,
                                    (#[trigger] captured[i]).0,
                                    captured[i].1,
                                ) == Some(elems@[i + 1] as int))
                        })
                        &&& post.operand_stack@ == pre.operand_stack@.push(
                            Object::Boxed((2 * hp.len()) as i64),
                        )
                        &&& post.frame_pointer == pre.frame_pointer
                        &&& post.ip == pre.ip
                        &&& post.globals == pre.globals
                        &&& post.output == pre.output
                    }))
    }

    /// The effect of this instruction on the interpreter state, as its
    /// evaluator ensures it.
    pub open spec fn spec_tag_post(pre: Interpreter, index: i32, n: i32, post: Interpreter, r: Result<(), InterpreterError>) -> bool {
        &&& (({
                        let stack = pre.operand_stack@;
                        let sn = stack.len() as int;
                        let strtab = pre.bf.string_table@;
                        let nul = crate::bytefile::spec_find_nul(strtab, index as int);
                        if index < 0 || index >= strtab.len() || nul == strtab.len() {
                            r == Err::<(), InterpreterError>(InterpreterError::StringIndexOutOfBounds)
                        } else if nul - index > 10 {
                            r == Err::<(), InterpreterError>(
                                InterpreterError::SexpTagTooLong((nul - index) as usize),
                            )
                        } else if sn < 1 {
                            r == Err::<(), InterpreterError>(InterpreterError::StackUnderflow)
                        } else {
                            let hash = crate::heap::spec_tag_hash(strtab.subrange(index as int, nul));
                            let is_match = Self::spec_tag_match(pre, stack.last(), hash, n);
                            &&& r is Ok
                            &&& post.operand_stack@ == stack.drop_last().push(
                                Object::Boxed(
                                    if is_match {
                                        3i64
                                    } else {
                                        1i64
                                    },
                                ),
                            )
                            &&& Self::spec_keeps_mem_but_bounds(pre, post)
                            &&& post.frame_pointer == pre.frame_pointer
                            &&& post.ip == pre.ip
                        }
                    }))
    }

    /// The effect of this instruction on the interpreter state, as its
    /// evaluator ensures it.
    pub open spec fn spec_array_post(pre: Interpreter, n: i32, post: Interpreter, r: Result<(), InterpreterError>) -> bool {
        &&& (({
                        let stack = pre.operand_stack@;
                        let sn = stack.len() as int;
                        if sn >= 1 {
                            let is_match = stack.last().spec_is_heap_ref() && stack.last().spec_heap_index()
                                < pre.heap.objects@.len() && pre.heap.objects@[stack.last().spec_heap_index()]
                                is Array && pre.heap.objects@[stack.last().spec_heap_index()].spec_length()
                                == n && n >= 0;
                            r is Ok && post.operand_stack@ == stack.drop_last().push(
                                Object::Boxed(
                                    if is_match {
                                        3i64
                                    } else {
                                        1i64
                                    },
                                ),
                            ) && Self::spec_keeps_mem_but_bounds(pre, post) && post.frame_pointer
                                == pre.frame_pointer && post.ip == pre.ip
                        } else {
                            r == Err::<(), InterpreterError>(InterpreterError::StackUnderflow)
                        }
                    }))
    }

    /// The effect of this instruction on the interpreter state, as its
    /// evaluator ensures it.
    pub open spec fn spec_patt_post(pre: Interpreter, kind: PattKind, post: Interpreter, r: Result<(), InterpreterError>) -> bool {
        &&& (({
                        let stack = pre.operand_stack@;
                        let sn = stack.len() as int;
                        let pops = if kind == PattKind::BothAreStr {
                            2int
                        } else {
                            1int
                        };
                        if sn >= pops {
                            &&& r is Ok
                            &&& post.operand_stack@ == stack.subrange(0, sn - pops).push(
                                Object::Boxed(
                                    if Self::spec_patt_result(pre, kind) {
                                        3i64
                                    } else {
                                        1i64
                                    },
                                ),
                            )
                            &&& Self::spec_keeps_mem_but_bounds(pre, post)
                            &&& post.frame_pointer == pre.frame_pointer
                            &&& post.ip == pre.ip
                        } else {
                            r == Err::<(), InterpreterError>(InterpreterError::StackUnderflow)
                        }
                    }))
    }

    /// On a successful return the callee's frame (its five metadata words
    /// plus arguments and locals) is gone and the caller sees exactly one
    /// extra value: the callee's result.
    pub open spec fn spec_return_post(
        pre: Interpreter,
        post: Interpreter,
        r: Result<(), InterpreterError>,
    ) -> bool {
        let stack = pre.operand_stack@;
        let n = stack.len() as int;
        let fp = pre.frame_pointer as int;
        if n < 1 {
            r == Err::<(), InterpreterError>(InterpreterError::NotEnoughArguments("END"))
        } else {
            let popped = stack.drop_last();
            if !spec_frame_readable(popped, fp) {
                r == Err::<(), InterpreterError>(InterpreterError::NotEnoughArguments("END"))
            } else {
                let fm = spec_frame_at(popped, fp);
                let na = if fm.n_args < 0 {
                    0
                } else {
                    fm.n_args as int
                };
                let nl = if fm.n_locals < 0 {
                    0
                } else {
                    fm.n_locals as int
                };
                let pops = 5 + na + nl;
                if popped.len() < pops {
                    r == Err::<(), InterpreterError>(InterpreterError::StackUnderflow)
                } else {
                    r is Ok && post.operand_stack@ == popped.subrange(0, n - 1 - pops).push(
                        stack.last(),
                    ) && post.frame_pointer == fm.ret_frame_pointer && post.ip == fm.ret_ip
                        && Self::spec_keeps_mem_but_bounds(pre, post)
                    // The standard frame layout leaves the caller exactly
                    // one value above the unwound frame pointer.
                     && (n == fp + 7 + na + nl ==> post.operand_stack@.len() == fp + 2)
                }
            }
        }
    }

    /// Execute `END` or `RET`: return the top value to the caller,
    /// dismantling the callee's frame and restoring its saved frame and
    /// instruction pointers.
    fn eval_return(&mut self) -> (r: Result<(), InterpreterError>)
        requires
            old(self).wf(),
        ensures
            final(self).wf(),
            final(self).bf == old(self).bf,
            final(self).opts == old(self).opts,
            final(self).instructions == old(self).instructions,
            final(self).globals@.len() == old(self).globals@.len(),
            Self::spec_return_post(*old(self), *final(self), r),
    {
        let return_value = match self.pop() {
            Ok(o) => o,
            Err(_) => {
                return Err(InterpreterError::NotEnoughArguments("END"));
            },
        };
        let fm = match FrameMetadata::get_from_stack(&self.operand_stack, self.frame_pointer) {
            Some(fm) => fm,
            None => {
                return Err(InterpreterError::NotEnoughArguments("END"));
            },
        };
        let na: u64 = if fm.n_args < 0 {
            0
        } else {
            fm.n_args as u64
        };
        let nl: u64 = if fm.n_locals < 0 {
            0
        } else {
            fm.n_locals as u64
        };
        let stack_len = self.operand_stack.len() as u64;
        if stack_len < 5 || na > stack_len - 5 || nl > stack_len - 5 - na {
            return Err(InterpreterError::StackUnderflow);
        }
        let pops: usize = 5 + (na as usize) + (nl as usize);

        let ghost popped = old(self).operand_stack@.drop_last();
        let mut k: usize = 0;
        while k < pops
            invariant
                k <= pops,
                pops <= popped.len(),
                self.operand_stack@ == popped.subrange(0, popped.len() - k),
                Self::spec_keeps_mem_but_bounds(*old(self), *self),
                self.frame_pointer == old(self).frame_pointer,
                self.ip == old(self).ip,
                self.heap.stack_bottom == 0,
                self.heap.stack_top == self.operand_stack@.len(),
            decreases pops - k,
        {
            proof {
                assert(self.operand_stack@.len() == popped.len() - k);
            }
            let _ = match self.pop() {
                Ok(o) => o,
                Err(_) => {
                    return Err(InterpreterError::StackUnderflow);
                },
            };
            proof {
                assert(self.operand_stack@ =~= popped.subrange(0, popped.len() - (k + 1)));
            }
            k = k + 1;
        }

        self.frame_pointer = fm.ret_frame_pointer;
        self.ip = fm.ret_ip;
        self.push(return_value)?;
        Ok(())
    }

    /// Execute a `BINOP`: pop the right then the left operand, apply the
    /// operator to their unboxed values, and push the boxed result.
    fn eval_binop(&mut self, op: Op) -> (r: Result<(), InterpreterError>)
        requires
            old(self).wf(),
        ensures
            final(self).wf(),
            final(self).bf == old(self).bf,
            final(self).opts == old(self).opts,
            final(self).instructions == old(self).instructions,
            final(self).globals@.len() == old(self).globals@.len(),
            ({
                let stack = old(self).operand_stack@;
                let n = stack.len() as int;
                if n >= 2 {
                    let lv = stack[n - 2].spec_unwrap() as i64;
                    let rv = stack[n - 1].spec_unwrap() as i64;
                    match spec_binop(op, lv, rv) {
                        Some(res) => r is Ok && final(self).operand_stack@ == stack.subrange(
                            0,
                            n - 2,
                        ).push(Object::Boxed(spec_box_wrap(res))) && Self::spec_keeps_mem_but_bounds(
                            *old(self),
                            *final(self),
                        ) && final(self).frame_pointer == old(self).frame_pointer && final(self).ip
                            == old(self).ip,
                        None => r == Err::<(), InterpreterError>(InterpreterError::DivisionByZero),
                    }
                } else {
                    r == Err::<(), InterpreterError>(InterpreterError::StackUnderflow)
                }
            }),
    {
        let right = self.pop()?.unwrap();
        let left = self.pop()?.unwrap();
        let result: i64 = match op {
            Op::ADD => left.wrapping_add(right),
            Op::SUB => left.wrapping_sub(right),
            Op::MUL => left.wrapping_mul(right),
            Op::DIV => {
                match left.checked_div(right) {
                    Some(v) => v,
                    None => {
                        return Err(InterpreterError::DivisionByZero);
                    },
                }
            },
            Op::MOD => {
                match left.checked_rem(right) {
                    Some(v) => v,
                    None => {
                        return Err(InterpreterError::DivisionByZero);
                    },
                }
            },
            Op::LT => {
                if left < right {
                    1
                } else {
                    0
                }
            },
            Op::LEQ => {
                if left <= right {
                    1
                } else {
                    0
                }
            },
            Op::GT => {
                if left > right {
                    1
                } else {
                    0
                }
            },
            Op::GEQ => {
                if left >= right {
                    1
                } else {
                    0
                }
            },
            Op::EQ => {
                if left == right {
                    1
                } else {
                    0
                }
            },
            Op::NEQ => {
                if left != right {
                    1
                } else {
                    0
                }
            },
            Op::AND => {
                if left != 0 && right != 0 {
                    1
                } else {
                    0
                }
            },
            Op::OR => {
                if left != 0 || right != 0 {
                    1
                } else {
                    0
                }
            },
        };
        self.push(Object::Boxed(box_wrap(result)))?;
        proof {
            let stack = old(self).operand_stack@;
            let n = stack.len() as int;
            assert(final(self).operand_stack@ =~= stack.subrange(0, n - 2).push(
                Object::Boxed(spec_box_wrap(spec_binop(op, stack[n - 2].spec_unwrap() as i64, stack[n - 1].spec_unwrap() as i64)->Some_0)),
            ));
        }
        Ok(())
    }
}

impl Interpreter {
    /// Pop the top `k` values; the result holds them top first.
    fn pop_many(&mut self, k: usize) -> (r: Result<Vec<Object>, InterpreterError>)
        ensures
            Self::spec_keeps_mem_but_bounds(*old(self), *final(self)),
            final(self).frame_pointer == old(self).frame_pointer,
            final(self).ip == old(self).ip,
            final(self).heap.stack_bottom == 0,
            final(self).heap.stack_top == final(self).operand_stack@.len(),
            ({
                let stack = old(self).operand_stack@;
                let n = stack.len() as int;
                match r {
                    Ok(v) => k <= n && v@.len() == k && (forall|i: int|
                        0 <= i < k ==> #[trigger] v@[i] == stack[n - 1 - i]) && final(self).operand_stack@ == stack.subrange(0, n - k),
                    Err(e) => e == InterpreterError::StackUnderflow && k > n,
                }
            }),
    {
        let ghost stack = old(self).operand_stack@;
        let ghost n = stack.len() as int;
        proof {
            assert(stack.subrange(0, n) =~= stack);
        }
        self.gc_sync();
        if k > self.operand_stack.len() {
            return Err(InterpreterError::StackUnderflow);
        }
        let mut out: Vec<Object> = Vec::new();
        let mut i: usize = 0;
        while i < k
            invariant
                i <= k,
                k <= n,
                n == stack.len(),
                Self::spec_keeps_mem_but_bounds(*old(self), *self),
                self.frame_pointer == old(self).frame_pointer,
                self.ip == old(self).ip,
                self.heap.stack_bottom == 0,
                self.heap.stack_top == self.operand_stack@.len(),
                out@.len() == i,
                forall|j: int| 0 <= j < i ==> #[trigger] out@[j] == stack[n - 1 - j],
                self.operand_stack@ == stack.subrange(0, n - i),
            decreases k - i,
        {
            let ghost pre_pop = self.operand_stack@;
            let o = match self.pop() {
                Ok(o) => o,
                Err(e) => {
                    proof {
                        assert(pre_pop.len() == n - i);
                        assert(false);
                    }
                    return Err(e);
                },
            };
            proof {
                assert(pre_pop.len() == n - i);
                assert(o == pre_pop.last());
                assert(pre_pop.last() == pre_pop[n - i - 1]);
                assert(pre_pop[n - i - 1] == stack[n - i - 1]);
                assert(self.operand_stack@ =~= stack.subrange(0, n - (i + 1)));
            }
            out.push(o);
            proof {
                assert(out@[i as int] == stack[n - 1 - i]);
            }
            i = i + 1;
        }
        Ok(out)
    }

    /// Execute `STRING`: allocate a heap string from the table entry at
    /// the given byte offset and push a reference to it.
    fn eval_string(&mut self, index: i32) -> (r: Result<(), InterpreterError>)
        requires
            old(self).wf(),
        ensures
            final(self).wf(),
            final(self).bf == old(self).bf,
            final(self).opts == old(self).opts,
            final(self).instructions == old(self).instructions,
            final(self).globals@.len() == old(self).globals@.len(),
            Self::spec_string_post(*old(self), index, *final(self), r),
    {
        if index < 0 {
            return Err(InterpreterError::StringIndexOutOfBounds);
        }
        let bytes = match self.bf.get_string_at_offset(index as usize) {
            Ok(b) => b,
            Err(_) => {
                return Err(InterpreterError::StringIndexOutOfBounds);
            },
        };
        if self.heap.size() >= crate::object::MAX_HEAP_INDEX {
            return Err(InterpreterError::HeapExhausted);
        }
        let idx = self.heap.new_string(bytes);
        self.push(Object::from_heap_index(idx))?;
        Ok(())
    }

    /// Execute `SEXP`: pop the members, hash the constructor tag found at
    /// the given string-table offset, allocate the record and push a
    /// reference to it.  The popped values are stored as raw words with
    /// the topmost in the last slot.
    #[verifier::spinoff_prover]
    #[verifier::rlimit(60)]
    fn eval_sexp(&mut self, s_index: i32, n_members: i32) -> (r: Result<(), InterpreterError>)
        requires
            old(self).wf(),
        ensures
            final(self).wf(),
            final(self).bf == old(self).bf,
            final(self).opts == old(self).opts,
            final(self).instructions == old(self).instructions,
            final(self).globals@.len() == old(self).globals@.len(),
            Self::spec_sexp_post(*old(self), s_index, n_members, *final(self), r),
    {
        if s_index < 0 {
            return Err(InterpreterError::StringIndexOutOfBounds);
        }
        let tag_bytes = match self.bf.get_string_at_offset(s_index as usize) {
            Ok(b) => b,
            Err(_) => {
                return Err(InterpreterError::StringIndexOutOfBounds);
            },
        };
        proof {
            crate::bytefile::lemma_find_nul_range(self.bf.string_table@, s_index as int);
            crate::bytefile::lemma_find_nul_hits(self.bf.string_table@, s_index as int);
        }
        // The fetched bytes carry the terminator; the limit is on the
        // constructor name itself.
        if tag_bytes.len() - 1 > 10 {
            return Err(InterpreterError::SexpTagTooLong(tag_bytes.len() - 1));
        }
        // Strip the terminator before hashing the constructor name.
        let mut content = tag_bytes;
        if content.len() > 0 {
            let last = content.len() - 1;
            if content[last] == 0 {
                content.pop();
            }
        }
        proof {
            let strtab = self.bf.string_table@;
            let nul = crate::bytefile::spec_find_nul(strtab, s_index as int);
            assert(content@ =~= strtab.subrange(s_index as int, nul));
        }
        let hash = tag_hash(&content);

        let k: usize = if n_members < 0 {
            0
        } else {
            n_members as usize
        };
        let popped = match self.pop_many(k) {
            Ok(v) => v,
            Err(e) => {
                return Err(e);
            },
        };
        let mut elems: Vec<i64> = Vec::new();
        let mut i: usize = k;
        while i > 0
            invariant
                i <= k,
                popped@.len() == k,
                elems@.len() == k - i,
                forall|j: int| 0 <= j < k - i ==> #[trigger] elems@[j] == popped@[k - 1 - j].spec_raw(),
            decreases i,
        {
            i = i - 1;
            elems.push(popped[i].raw());
        }
        if self.heap.size() >= crate::object::MAX_HEAP_INDEX {
            return Err(InterpreterError::HeapExhausted);
        }
        let idx = self.heap.new_sexp(hash, elems);
        self.push(Object::from_heap_index(idx))?;
        Ok(())
    }

    /// Execute `CALL Barray n`: pop the `n` raw element words and push a
    /// fresh array holding them in stack order.
    fn eval_barray(&mut self, n: i32) -> (r: Result<(), InterpreterError>)
        requires
            old(self).wf(),
        ensures
            final(self).wf(),
            final(self).bf == old(self).bf,
            final(self).opts == old(self).opts,
            final(self).instructions == old(self).instructions,
            final(self).globals@.len() == old(self).globals@.len(),
            Self::spec_barray_post(*old(self), n, *final(self), r),
    {
        let k: usize = if n < 0 {
            0
        } else {
            n as usize
        };
        let popped = match self.pop_many(k) {
            Ok(v) => v,
            Err(e) => {
                return Err(e);
            },
        };
        let mut elems: Vec<i64> = Vec::new();
        let mut i: usize = k;
        while i > 0
            invariant
                i <= k,
                popped@.len() == k,
                elems@.len() == k - i,
                forall|j: int| 0 <= j < k - i ==> #[trigger] elems@[j] == popped@[k - 1 - j].spec_raw(),
            decreases i,
        {
            i = i - 1;
            elems.push(popped[i].raw());
        }
        if self.heap.size() >= crate::object::MAX_HEAP_INDEX {
            return Err(InterpreterError::HeapExhausted);
        }
        let idx = self.heap.new_array(elems);
        self.push(Object::from_heap_index(idx))?;
        Ok(())
    }

    /// Execute `CALL Lread`: push the next pending input value, boxed;
    /// an exhausted input queue reads as zero.
    fn eval_lread(&mut self) -> (r: Result<(), InterpreterError>)
        requires
            old(self).wf(),
        ensures
            final(self).wf(),
            final(self).bf == old(self).bf,
            final(self).opts == old(self).opts,
            final(self).instructions == old(self).instructions,
            final(self).globals@.len() == old(self).globals@.len(),
            Self::spec_lread_post(*old(self), *final(self), r),
    {
        let v: i64 = if self.input_pos < self.input.len() {
            let v = self.input[self.input_pos];
            self.input_pos = self.input_pos + 1;
            v
        } else {
            0
        };
        self.push(Object::Boxed(box_wrap(v)))?;
        Ok(())
    }

    /// Execute `CALL Lwrite`: append the popped value, unboxed, to the
    /// output queue, and leave the value on the stack.
    fn eval_lwrite(&mut self) -> (r: Result<(), InterpreterError>)
        requires
            old(self).wf(),
        ensures
            final(self).wf(),
            final(self).bf == old(self).bf,
            final(self).opts == old(self).opts,
            final(self).instructions == old(self).instructions,
            final(self).globals@.len() == old(self).globals@.len(),
            Self::spec_lwrite_post(*old(self), *final(self), r),
    {
        let obj = self.pop()?;
        self.output.push(obj.unwrap());
        self.push(obj)?;
        proof {
            assert(final(self).operand_stack@ =~= old(self).operand_stack@);
        }
        Ok(())
    }

    /// Execute `CALL Llength`: pop an aggregate reference and push its
    /// boxed element count.
    fn eval_llength(&mut self) -> (r: Result<(), InterpreterError>)
        requires
            old(self).wf(),
        ensures
            final(self).wf(),
            final(self).bf == old(self).bf,
            final(self).opts == old(self).opts,
            final(self).instructions == old(self).instructions,
            final(self).globals@.len() == old(self).globals@.len(),
            Self::spec_llength_post(*old(self), *final(self), r),
    {
        let obj = self.pop()?;
        let idx = match obj.as_ptr() {
            Some(i) => i,
            None => {
                return Err(InterpreterError::InvalidObjectPointer);
            },
        };
        if idx >= self.heap.size() {
            return Err(InterpreterError::InvalidObjectPointer);
        }
        let len = self.heap.length_of(idx);
        self.push(Object::Boxed(box_wrap(len as i64)))?;
        Ok(())
    }

    /// Execute `CALL Lstring`: pop a value, render it, refuse a
    /// rendering holding an interior terminator, and push a reference to
    /// the allocated heap string.
    #[verifier::loop_isolation(false)]
    fn eval_lstring(&mut self) -> (r: Result<(), InterpreterError>)
        requires
            old(self).wf(),
        ensures
            final(self).wf(),
            final(self).bf == old(self).bf,
            final(self).opts == old(self).opts,
            final(self).instructions == old(self).instructions,
            final(self).globals@.len() == old(self).globals@.len(),
            Self::spec_lstring_post(*old(self), *final(self), r),
    {
        let obj = self.pop()?;
        let mut bytes = display_word_bytes(&self.heap, obj.raw());
        // The rendering must form a well-terminated string: a NUL inside
        // it would truncate the stored value.
        let blen = bytes.len();
        let mut j: usize = 0;
        while j < blen
            invariant
                j <= blen,
                blen == bytes@.len(),
                forall|t: int| 0 <= t < j ==> bytes@[t] != 0,
            decreases blen - j,
        {
            if bytes[j] == 0 {
                return Err(InterpreterError::InvalidStringPointer);
            }
            j = j + 1;
        }
        bytes.push(0);
        if self.heap.size() >= crate::object::MAX_HEAP_INDEX {
            return Err(InterpreterError::HeapExhausted);
        }
        let idx = self.heap.new_string(bytes);
        self.push(Object::from_heap_index(idx))?;
        Ok(())
    }

    /// Execute `FAIL`: pop the value being matched and raise a
    /// match-failure diagnostic carrying its rendering.
    fn eval_fail(&mut self, line: i32, column: i32) -> (r: Result<(), InterpreterError>)
        requires
            old(self).wf(),
        ensures
            final(self).wf(),
            final(self).bf == old(self).bf,
            final(self).opts == old(self).opts,
            final(self).instructions == old(self).instructions,
            final(self).globals@.len() == old(self).globals@.len(),
            Self::spec_fail_post(*old(self), line, column, *final(self), r),
    {
        let obj = self.pop()?;
        let bytes = display_word_bytes(&self.heap, obj.raw());
        let rendered = bytes_to_string(&bytes);
        Err(
            InterpreterError::Fail {
                line: #[verifier::truncate] (line as usize),
                column: #[verifier::truncate] (column as usize),
                obj: rendered,
            },
        )
    }
}

impl Interpreter {
    /// Execute `ELEM`: pop an index, then an aggregate reference, and
    /// push the selected element.  String bytes come back boxed; array,
    /// record and closure slots keep their raw tagged word.
    fn eval_elem(&mut self) -> (r: Result<(), InterpreterError>)
        requires
            old(self).wf(),
        ensures
            final(self).wf(),
            final(self).bf == old(self).bf,
            final(self).opts == old(self).opts,
            final(self).instructions == old(self).instructions,
            final(self).globals@.len() == old(self).globals@.len(),
            Self::spec_elem_post(*old(self), *final(self), r),
    {
        let index_obj = self.pop()?;
        let obj = self.pop()?;
        let idx = match obj.as_ptr() {
            Some(i) => i,
            None => {
                return Err(
                    InterpreterError::InvalidType(
                        String::from_str("indexing into a type that is not an aggregate"),
                    ),
                );
            },
        };
        if idx >= self.heap.size() {
            return Err(InterpreterError::InvalidObjectPointer);
        }
        let length = self.heap.length_of(idx);
        let iv = index_obj.unwrap();
        if iv < 0 || iv as u64 >= length as u64 {
            return Err(
                InterpreterError::OutOfBoundsAccess(#[verifier::truncate] (iv as usize), length),
            );
        }
        let slot = iv as usize;
        let word = self.heap.get_slot(idx, slot);
        let pushed = match self.heap.kind_of(idx) {
            HeapKind::Str => Object::Boxed(box_wrap(word)),
            HeapKind::Array => Object::Boxed(word),
            HeapKind::Sexp => Object::Boxed(word),
            HeapKind::Closure => Object::Boxed(word),
        };
        self.push(pushed)?;
        proof {
            let stack = old(self).operand_stack@;
            let n = stack.len() as int;
            assert(self.operand_stack@ =~= stack.subrange(0, n - 2).push(pushed));
        }
        Ok(())
    }

    /// Execute `STA`: pop a value, an index and an aggregate reference;
    /// write the value into the selected slot (its low byte for a
    /// string) and push the aggregate back.
    fn eval_sta(&mut self) -> (r: Result<(), InterpreterError>)
        requires
            old(self).wf(),
        ensures
            final(self).wf(),
            final(self).bf == old(self).bf,
            final(self).opts == old(self).opts,
            final(self).instructions == old(self).instructions,
            final(self).globals@.len() == old(self).globals@.len(),
            Self::spec_sta_post(*old(self), *final(self), r),
    {
        let value_obj = self.pop()?;
        let index_obj = self.pop()?;
        let aggregate = self.pop()?;
        let idx = match aggregate.as_ptr() {
            Some(i) => i,
            None => {
                return Err(
                    InterpreterError::InvalidType(
                        String::from_str("Expected an aggregate type in STA instruction"),
                    ),
                );
            },
        };
        if idx >= self.heap.size() {
            return Err(InterpreterError::InvalidObjectPointer);
        }
        let length = self.heap.length_of(idx);
        let iv = index_obj.unwrap();
        if iv < 0 || iv as u64 >= length as u64 {
            return Err(
                InterpreterError::OutOfBoundsAccess(#[verifier::truncate] (iv as usize), length),
            );
        }
        let slot = iv as usize;
        let word = match self.heap.kind_of(idx) {
            HeapKind::Str => value_obj.unwrap(),
            _ => value_obj.raw(),
        };
        self.heap.set_slot(idx, slot, word);
        self.push(aggregate)?;
        proof {
            let stack = old(self).operand_stack@;
            let n = stack.len() as int;
            assert(self.operand_stack@ =~= stack.subrange(0, n - 3).push(aggregate));
        }
        Ok(())
    }

    /// Execute `BEGIN` or `CBEGIN`: collect the saved instruction
    /// pointer (and for `CBEGIN` the closure object), gather the callee's
    /// arguments, and lay out a fresh frame with zero-initialised locals.
    /// The upper half of the argument word carries the verifier's stack
    /// depth hint and is masked off.
    #[verifier::loop_isolation(false)]
    fn eval_begin(&mut self, args: i32, locals: i32, is_cbegin: bool) -> (r: Result<
        (),
        InterpreterError,
    >)
        requires
            old(self).wf(),
        ensures
            final(self).wf(),
            final(self).bf == old(self).bf,
            final(self).opts == old(self).opts,
            final(self).instructions == old(self).instructions,
            final(self).globals@.len() == old(self).globals@.len(),
            Self::spec_begin_post(*old(self), args, locals, is_cbegin, *final(self), r),
    {
        if args < 0 || locals < 0 {
            return Err(InterpreterError::NotEnoughArguments("BEGIN"));
        }
        let args_eff: i32 = args % 0x10000;
        let a = args_eff as usize;
        let nl = locals as usize;

        let closure_obj = if is_cbegin {
            match self.pop() {
                Ok(o) => o,
                Err(_) => {
                    return Err(InterpreterError::NotEnoughArguments("BEGIN"));
                },
            }
        } else {
            Object::new_empty()
        };
        let ret_ip = match self.pop() {
            Ok(o) => o,
            Err(_) => {
                return Err(InterpreterError::NotEnoughArguments("BEGIN"));
            },
        };
        let ghost s_after_tops = self.operand_stack@;
        let arguments = match self.pop_many(a) {
            Ok(v) => v,
            Err(_) => {
                return Err(InterpreterError::NotEnoughArguments("BEGIN"));
            },
        };
        let ghost s3 = self.operand_stack@;
        if self.operand_stack.len() == 0 {
            return Err(InterpreterError::NotEnoughArguments("BEGIN"));
        }
        let ret_frame_pointer = self.frame_pointer;
        self.frame_pointer = self.operand_stack.len() - 1;

        self.push(closure_obj)?;
        self.push(Object::new_unboxed(args_eff as i64))?;
        self.push(Object::new_unboxed(locals as i64))?;
        self.push(Object::new_unboxed(ret_frame_pointer as i64))?;
        self.push(ret_ip)?;

        let ghost mid = self.operand_stack@;
        let mut i: usize = a;
        while i > 0
            invariant
                i <= a,
                arguments@.len() == a,
                self.operand_stack@.len() == mid.len() + a - i,
                self.operand_stack@.subrange(0, mid.len() as int) == mid,
                forall|j: int|
                    0 <= j < a - i ==> #[trigger] self.operand_stack@[mid.len() + j]
                        == arguments@[a - 1 - j],
                Self::spec_keeps_mem_but_bounds(*old(self), *self),
                self.frame_pointer == mid.len() - 6,
                self.ip == old(self).ip,
                self.heap.stack_bottom == 0,
                self.heap.stack_top == self.operand_stack@.len(),
            decreases i,
        {
            i = i - 1;
            self.push(arguments[i])?;
            proof {
                assert(self.operand_stack@.subrange(0, mid.len() as int) =~= mid);
            }
        }
        let ghost with_args = self.operand_stack@;
        let mut l: usize = 0;
        while l < nl
            invariant
                l <= nl,
                self.operand_stack@.len() == with_args.len() + l,
                self.operand_stack@.subrange(0, with_args.len() as int) == with_args,
                forall|j: int|
                    0 <= j < l ==> #[trigger] self.operand_stack@[with_args.len() + j] == (
                    Object::Boxed(1i64)),
                Self::spec_keeps_mem_but_bounds(*old(self), *self),
                self.frame_pointer == mid.len() - 6,
                self.ip == old(self).ip,
                self.heap.stack_bottom == 0,
                self.heap.stack_top == self.operand_stack@.len(),
            decreases nl - l,
        {
            self.push(Object::new_boxed(0))?;
            proof {
                assert(self.operand_stack@.subrange(0, with_args.len() as int) =~= with_args);
            }
            l = l + 1;
        }
        proof {
            let pre = *old(self);
            let stack = pre.operand_stack@;
            let n = stack.len() as int;
            let topc: int = if is_cbegin {
                2
            } else {
                1
            };
            let fp = n - a - topc - 1;
            assert(s3.len() == fp + 1);
            assert forall|t: int| 0 <= t <= fp implies #[trigger] mid[t] == stack[t] by {
                assert(mid[t] == s3[t]);
                assert(s3[t] == s_after_tops[t]);
                assert(s_after_tops[t] == stack[t]);
            }
            assert forall|t: int| 0 <= t <= fp implies #[trigger] self.operand_stack@[t] == stack[t] by {
                assert(self.operand_stack@[t] == with_args[t]);
                assert(with_args[t] == mid[t]);
            }
            assert(self.operand_stack@.subrange(0, fp + 1) =~= stack.subrange(0, fp + 1));
            assert(mid[fp + 1] == closure_obj);
            assert(mid[fp + 2] == Object::Unboxed(args_eff as i64));
            assert(mid[fp + 3] == Object::Unboxed(locals as i64));
            assert(mid[fp + 4] == Object::Unboxed(ret_frame_pointer as i64));
            assert(mid[fp + 5] == ret_ip);
            assert forall|t: int|
                fp + 1 <= t <= fp + 5 implies #[trigger] self.operand_stack@[t] == mid[t] by {
                assert(self.operand_stack@[t] == with_args[t]);
                assert(with_args[t] == mid[t]);
            }
            assert forall|i2: int|
                0 <= i2 < a implies #[trigger] self.operand_stack@[fp + 6 + i2] == stack[fp + 1
                + i2] by {
                assert(self.operand_stack@[fp + 6 + i2] == with_args[fp + 6 + i2]);
                assert(with_args[mid.len() + i2] == arguments@[a - 1 - i2]);
                assert(arguments@[a - 1 - i2] == s_after_tops[s_after_tops.len() - 1 - (a - 1
                    - i2)]);
                assert(s_after_tops[fp + 1 + i2] == stack[fp + 1 + i2]);
            }
        }
        Ok(())
    }

    /// Execute `LOAD`: read a value through the given relation and push
    /// it.  Captured variables come back as raw tagged words.
    fn eval_load(&mut self, rel: ValueRel, index: i32) -> (r: Result<(), InterpreterError>)
        requires
            old(self).wf(),
        ensures
            final(self).wf(),
            final(self).bf == old(self).bf,
            final(self).opts == old(self).opts,
            final(self).instructions == old(self).instructions,
            final(self).globals@.len() == old(self).globals@.len(),
            Self::spec_load_post(*old(self), rel, index, *final(self), r),
    {
        match rel {
            ValueRel::Global => {
                if index < 0 || index as usize >= self.globals.len() {
                    return Err(
                        InterpreterError::InvalidLoadIndex(
                            ValueRel::Global,
                            index,
                            self.globals.len() as i64,
                        ),
                    );
                }
                let value = self.globals[index as usize];
                self.push(value)?;
                proof {
                    assert(self.operand_stack@.drop_last() =~= old(self).operand_stack@);
                }
                Ok(())
            },
            ValueRel::Arg => {
                let fm = match FrameMetadata::get_from_stack(
                    &self.operand_stack,
                    self.frame_pointer,
                ) {
                    Some(fm) => fm,
                    None => {
                        return Err(InterpreterError::NotEnoughArguments("LOAD"));
                    },
                };
                if index < 0 {
                    return Err(
                        InterpreterError::InvalidLoadIndex(ValueRel::Arg, index, fm.n_args),
                    );
                }
                let value = match fm.get_arg_at(
                    &self.operand_stack,
                    self.frame_pointer,
                    index as usize,
                ) {
                    Some(v) => *v,
                    None => {
                        return Err(
                            InterpreterError::InvalidLoadIndex(ValueRel::Arg, index, fm.n_args),
                        );
                    },
                };
                self.push(value)?;
                proof {
                    assert(self.operand_stack@.drop_last() =~= old(self).operand_stack@);
                }
                Ok(())
            },
            ValueRel::Local => {
                let fm = match FrameMetadata::get_from_stack(
                    &self.operand_stack,
                    self.frame_pointer,
                ) {
                    Some(fm) => fm,
                    None => {
                        return Err(InterpreterError::NotEnoughArguments("LOAD"));
                    },
                };
                if index < 0 || fm.n_args < 0 {
                    return Err(
                        InterpreterError::InvalidLoadIndex(ValueRel::Local, index, fm.n_locals),
                    );
                }
                let value = match fm.get_local_at(
                    &self.operand_stack,
                    self.frame_pointer,
                    index as usize,
                ) {
                    Some(v) => *v,
                    None => {
                        return Err(
                            InterpreterError::InvalidLoadIndex(ValueRel::Local, index, fm.n_locals),
                        );
                    },
                };
                self.push(value)?;
                proof {
                    assert(self.operand_stack@.drop_last() =~= old(self).operand_stack@);
                }
                Ok(())
            },
            ValueRel::Capture => {
                let word = match self.read_capture(index) {
                    Ok(w) => w,
                    Err(e) => {
                        return Err(e);
                    },
                };
                self.push(Object::Boxed(word))?;
                proof {
                    assert(self.operand_stack@.drop_last() =~= old(self).operand_stack@);
                }
                Ok(())
            },
        }
    }

    /// The raw word of capture slot `index` of the current frame's
    /// closure object.
    fn read_capture(&self, index: i32) -> (r: Result<i64, InterpreterError>)
        ensures
            r matches Ok(w) ==> ({
                let stack = self.operand_stack@;
                let fp = self.frame_pointer as int;
                &&& fp + 1 < stack.len()
                &&& stack[fp + 1].spec_is_heap_ref()
                &&& stack[fp + 1].spec_heap_index() < self.heap.objects@.len()
                &&& self.heap.objects@[stack[fp + 1].spec_heap_index()] is Closure
                &&& 0 <= index
                &&& index + 1 < self.heap.objects@[stack[fp + 1].spec_heap_index()]->Closure_elems@.len()
                &&& w == self.heap.objects@[stack[fp + 1].spec_heap_index()]->Closure_elems@[index
                    + 1]
            }),
    {
        let len = self.operand_stack.len();
        if self.frame_pointer >= len || len - self.frame_pointer < 2 {
            return Err(InterpreterError::NotEnoughArguments("LOAD"));
        }
        let closure_obj = self.operand_stack[self.frame_pointer + 1];
        let idx = match closure_obj.as_ptr() {
            Some(i) => i,
            None => {
                return Err(InterpreterError::InvalidObjectPointer);
            },
        };
        if idx >= self.heap.size() {
            return Err(InterpreterError::InvalidObjectPointer);
        }
        match self.heap.kind_of(idx) {
            HeapKind::Closure => {},
            _ => {
                return Err(InterpreterError::InvalidObjectPointer);
            },
        }
        let length = self.heap.length_of(idx);
        if index < 0 || index as u64 >= (length as u64) || (index as u64) + 1 >= (length as u64) {
            return Err(
                InterpreterError::InvalidLoadIndex(ValueRel::Capture, index, length as i64),
            );
        }
        Ok(self.heap.get_slot(idx, (index as usize) + 1))
    }

    /// Execute `STORE`: pop a value, write it through the given relation
    /// and leave it on top of the stack.
    fn eval_store(&mut self, rel: ValueRel, index: i32) -> (r: Result<(), InterpreterError>)
        requires
            old(self).wf(),
        ensures
            final(self).wf(),
            final(self).bf == old(self).bf,
            final(self).opts == old(self).opts,
            final(self).instructions == old(self).instructions,
            final(self).globals@.len() == old(self).globals@.len(),
            Self::spec_store_post(*old(self), rel, index, *final(self), r),
    {
        let value = self.pop()?;
        match rel {
            ValueRel::Global => {
                if index < 0 || index as usize >= self.globals.len() {
                    return Err(
                        InterpreterError::InvalidStoreIndex(
                            ValueRel::Global,
                            index,
                            self.globals.len() as i64,
                        ),
                    );
                }
                self.globals.set(index as usize, value);
                self.push(value)?;
                proof {
                    assert(final(self).operand_stack@ =~= old(self).operand_stack@);
                }
                Ok(())
            },
            ValueRel::Arg => {
                let mut fm = match FrameMetadata::get_from_stack(
                    &self.operand_stack,
                    self.frame_pointer,
                ) {
                    Some(fm) => fm,
                    None => {
                        return Err(InterpreterError::NotEnoughArguments("STORE"));
                    },
                };
                if index < 0 {
                    return Err(
                        InterpreterError::InvalidStoreIndex(ValueRel::Arg, index, fm.n_args),
                    );
                }
                let fp = self.frame_pointer;
                match fm.set_arg_at(&mut self.operand_stack, fp, index as usize, value) {
                    Ok(()) => {},
                    Err(_) => {
                        self.gc_sync();
                        return Err(
                            InterpreterError::InvalidStoreIndex(ValueRel::Arg, index, fm.n_args),
                        );
                    },
                }
                self.gc_sync();
                self.push(value)?;
                Ok(())
            },
            ValueRel::Local => {
                let mut fm = match FrameMetadata::get_from_stack(
                    &self.operand_stack,
                    self.frame_pointer,
                ) {
                    Some(fm) => fm,
                    None => {
                        return Err(InterpreterError::NotEnoughArguments("STORE"));
                    },
                };
                if index < 0 || fm.n_args < 0 {
                    return Err(
                        InterpreterError::InvalidStoreIndex(ValueRel::Local, index, fm.n_locals),
                    );
                }
                let fp = self.frame_pointer;
                match fm.set_local_at(&mut self.operand_stack, fp, index as usize, value) {
                    Ok(()) => {},
                    Err(_) => {
                        self.gc_sync();
                        return Err(
                            InterpreterError::InvalidStoreIndex(ValueRel::Local, index, fm.n_locals),
                        );
                    },
                }
                self.gc_sync();
                self.push(value)?;
                Ok(())
            },
            ValueRel::Capture => {
                let len = self.operand_stack.len();
                if self.frame_pointer >= len || len - self.frame_pointer < 2 {
                    return Err(InterpreterError::NotEnoughArguments("STORE"));
                }
                let closure_obj = self.operand_stack[self.frame_pointer + 1];
                let idx = match closure_obj.as_ptr() {
                    Some(i) => i,
                    None => {
                        return Err(InterpreterError::InvalidObjectPointer);
                    },
                };
                if idx >= self.heap.size() {
                    return Err(InterpreterError::InvalidObjectPointer);
                }
                match self.heap.kind_of(idx) {
                    HeapKind::Closure => {},
                    _ => {
                        return Err(InterpreterError::InvalidObjectPointer);
                    },
                }
                let length = self.heap.length_of(idx);
                if index < 0 || index as u64 >= (length as u64) || (index as u64) + 1 >= (
                length as u64) {
                    return Err(
                        InterpreterError::InvalidStoreIndex(ValueRel::Capture, index, length as i64),
                    );
                }
                self.heap.set_slot(idx, (index as usize) + 1, value.raw());
                self.push(value)?;
                proof {
                    assert(final(self).operand_stack@ =~= old(self).operand_stack@);
                }
                Ok(())
            },
        }
    }

    /// Execute `CALLC`: remove the closure object sitting `arity` slots
    /// below the top, push the saved instruction pointer and re-push the
    /// closure (both consumed by `CBEGIN`), and jump to the closure's
    /// entry offset.  An entry offset outside the code section is a
    /// caught fatal.
    fn eval_callc(&mut self, arity: i32) -> (r: Result<(), InterpreterError>)
        requires
            old(self).wf(),
        ensures
            final(self).wf(),
            final(self).bf == old(self).bf,
            final(self).opts == old(self).opts,
            final(self).instructions == old(self).instructions,
            final(self).globals@.len() == old(self).globals@.len(),
            Self::spec_callc_post(*old(self), arity, *final(self), r),
    {
        if arity < 0 {
            return Err(InterpreterError::NotEnoughArguments("CALLC"));
        }
        let len = self.operand_stack.len();
        if (arity as u64) >= (len as u64) {
            return Err(InterpreterError::StackUnderflow);
        }
        let cpos = len - 1 - (arity as usize);
        let closure_obj = self.operand_stack.remove(cpos);
        self.gc_sync();
        let idx = match closure_obj.as_ptr() {
            Some(i) => i,
            None => {
                return Err(InterpreterError::InvalidObjectPointer);
            },
        };
        if idx >= self.heap.size() {
            return Err(InterpreterError::InvalidObjectPointer);
        }
        match self.heap.kind_of(idx) {
            HeapKind::Closure => {},
            _ => {
                return Err(InterpreterError::InvalidObjectPointer);
            },
        }
        if self.heap.length_of(idx) == 0 {
            return Err(InterpreterError::InvalidObjectPointer);
        }
        let entry = self.heap.get_slot(idx, 0);
        if entry < 0 || (entry as u64) >= (self.bf.code_section.len() as u64) {
            return Err(
                InterpreterError::InvalidJumpOffset(
                    self.ip,
                    #[verifier::truncate] (entry as i32),
                    self.bf.code_section.len(),
                ),
            );
        }
        let saved = self.ip;
        self.push(Object::new_unboxed(saved as i64))?;
        self.push(closure_obj)?;
        self.ip = entry as usize;
        Ok(())
    }

    /// The raw word a closure-capture descriptor resolves to against the
    /// current frame, the globals or the current closure; `None` when the
    /// descriptor points outside them.
    pub open spec fn spec_capture_source(pre: Interpreter, rel: ValueRel, index: i32) -> Option<
        int,
    > {
        let stack = pre.operand_stack@;
        let fp = pre.frame_pointer as int;
        match rel {
            ValueRel::Global => if 0 <= index < pre.globals@.len() {
                Some(pre.globals@[index as int].spec_raw())
            } else {
                None
            },
            ValueRel::Arg => if index >= 0 && fp + 6 + index < stack.len() {
                Some(stack[fp + 6 + index].spec_raw())
            } else {
                None
            },
            ValueRel::Local => {
                let na = spec_frame_at(stack, fp).n_args as int;
                if index >= 0 && na >= 0 && fp + 6 + na + index < stack.len() {
                    Some(stack[fp + 6 + na + index].spec_raw())
                } else {
                    None
                }
            },
            ValueRel::Capture => if fp + 1 < stack.len() && Self::spec_has_kind(
                pre,
                stack[fp + 1],
                HeapKind::Closure,
            ) && 0 <= index + 1 < pre.heap.objects@[stack[fp
                + 1].spec_heap_index()]->Closure_elems@.len() {
                Some(
                    pre.heap.objects@[stack[fp + 1].spec_heap_index()]->Closure_elems@[index
                        + 1] as int,
                )
            } else {
                None
            },
        }
    }

    /// Execute `CLOSURE`: resolve each captured variable to its raw word
    /// through the current frame or the globals, allocate a closure whose
    /// first slot is the entry offset, and push a reference to it.
    fn eval_closure(&mut self, offset: i32, captured: &Vec<(ValueRel, i32)>) -> (r: Result<
        (),
        InterpreterError,
    >)
        requires
            old(self).wf(),
        ensures
            final(self).wf(),
            final(self).bf == old(self).bf,
            final(self).opts == old(self).opts,
            final(self).instructions == old(self).instructions,
            final(self).globals@.len() == old(self).globals@.len(),
            Self::spec_closure_post(*old(self), offset, captured@, *final(self), r),
    {
        let mut elems: Vec<i64> = Vec::new();
        elems.push(offset as i64);
        let ncaps = captured.len();
        let mut i: usize = 0;
        while i < ncaps
            invariant
                i <= ncaps,
                ncaps == captured@.len(),
                elems@.len() == i + 1,
                elems@[0] == offset as i64,
                forall|j: int|
                    0 <= j < i ==> Self::spec_capture_source(
                        *old(self),
                        (#[trigger] captured@[j]).0,
                        captured@[j].1,
                    ) == Some(elems@[j + 1] as int),
                *self == *old(self),
                old(self).wf(),
            decreases ncaps - i,
        {
            let (rel, index) = captured[i];
            let word: i64 = match rel {
                ValueRel::Global => {
                    if index < 0 || index as usize >= self.globals.len() {
                        return Err(
                            InterpreterError::InvalidLoadIndex(
                                ValueRel::Global,
                                index,
                                self.globals.len() as i64,
                            ),
                        );
                    }
                    self.globals[index as usize].raw()
                },
                ValueRel::Arg => {
                    let fm = match FrameMetadata::get_from_stack(
                        &self.operand_stack,
                        self.frame_pointer,
                    ) {
                        Some(fm) => fm,
                        None => {
                            return Err(InterpreterError::NotEnoughArguments("CLOSURE"));
                        },
                    };
                    if index < 0 {
                        return Err(
                            InterpreterError::InvalidLoadIndex(ValueRel::Arg, index, fm.n_args),
                        );
                    }
                    match fm.get_arg_at(&self.operand_stack, self.frame_pointer, index as usize) {
                        Some(v) => v.raw(),
                        None => {
                            return Err(
                                InterpreterError::InvalidLoadIndex(ValueRel::Arg, index, fm.n_args),
                            );
                        },
                    }
                },
                ValueRel::Local => {
                    let fm = match FrameMetadata::get_from_stack(
                        &self.operand_stack,
                        self.frame_pointer,
                    ) {
                        Some(fm) => fm,
                        None => {
                            return Err(InterpreterError::NotEnoughArguments("CLOSURE"));
                        },
                    };
                    if index < 0 || fm.n_args < 0 {
                        return Err(
                            InterpreterError::InvalidLoadIndex(ValueRel::Local, index, fm.n_locals),
                        );
                    }
                    match fm.get_local_at(&self.operand_stack, self.frame_pointer, index as usize) {
                        Some(v) => v.raw(),
                        None => {
                            return Err(
                                InterpreterError::InvalidLoadIndex(
                                    ValueRel::Local,
                                    index,
                                    fm.n_locals,
                                ),
                            );
                        },
                    }
                },
                ValueRel::Capture => {
                    match self.read_capture(index) {
                        Ok(w) => w,
                        Err(e) => {
                            return Err(e);
                        },
                    }
                },
            };
            elems.push(word);
            i = i + 1;
        }
        if self.heap.size() >= crate::object::MAX_HEAP_INDEX {
            return Err(InterpreterError::HeapExhausted);
        }
        let idx = self.heap.new_closure(elems);
        self.push(Object::from_heap_index(idx))?;
        Ok(())
    }

    /// The popped operand is an S-expression with exactly `n` members
    /// whose tag hash equals `hash`.
    pub open spec fn spec_tag_match(pre: Interpreter, o: Object, hash: int, n: i32) -> bool {
        &&& o.spec_is_heap_ref()
        &&& o.spec_heap_index() < pre.heap.objects@.len()
        &&& pre.heap.objects@[o.spec_heap_index()] is Sexp
        &&& n >= 0
        &&& pre.heap.objects@[o.spec_heap_index()].spec_length() == n
        &&& pre.heap.objects@[o.spec_heap_index()]->Sexp_tag as int == hash
    }

    /// Execute `TAG`: pop a value and push one exactly when it is an
    /// S-expression with the named constructor and member count.
    #[verifier::spinoff_prover]
    #[verifier::rlimit(60)]
    fn eval_tag(&mut self, index: i32, n: i32) -> (r: Result<(), InterpreterError>)
        requires
            old(self).wf(),
        ensures
            final(self).wf(),
            final(self).bf == old(self).bf,
            final(self).opts == old(self).opts,
            final(self).instructions == old(self).instructions,
            final(self).globals@.len() == old(self).globals@.len(),
            Self::spec_tag_post(*old(self), index, n, *final(self), r),
    {
        if index < 0 {
            return Err(InterpreterError::StringIndexOutOfBounds);
        }
        let tag_bytes = match self.bf.get_string_at_offset(index as usize) {
            Ok(b) => b,
            Err(_) => {
                return Err(InterpreterError::StringIndexOutOfBounds);
            },
        };
        proof {
            crate::bytefile::lemma_find_nul_range(self.bf.string_table@, index as int);
            crate::bytefile::lemma_find_nul_hits(self.bf.string_table@, index as int);
        }
        // The fetched bytes carry the terminator; the limit is on the
        // constructor name itself.
        if tag_bytes.len() - 1 > 10 {
            return Err(InterpreterError::SexpTagTooLong(tag_bytes.len() - 1));
        }
        let mut content = tag_bytes;
        if content.len() > 0 {
            let last = content.len() - 1;
            if content[last] == 0 {
                content.pop();
            }
        }
        proof {
            let strtab = self.bf.string_table@;
            let nul = crate::bytefile::spec_find_nul(strtab, index as int);
            assert(content@ =~= strtab.subrange(index as int, nul));
        }
        let hash = tag_hash(&content);

        let obj = self.pop()?;
        let matched: bool = match obj.as_ptr() {
            Some(idx) => {
                if idx < self.heap.size() {
                    match self.heap.kind_of(idx) {
                        HeapKind::Sexp => {
                            let len = self.heap.length_of(idx);
                            let t = self.heap.sexp_tag(idx);
                            n >= 0 && (len as u64) == (n as u64) && t == hash
                        },
                        _ => false,
                    }
                } else {
                    false
                }
            },
            None => false,
        };
        self.push(Object::new_boxed(if matched {
            1
        } else {
            0
        }))?;
        Ok(())
    }

    /// Execute `ARRAY`: pop a value and push one exactly when it is an
    /// array of exactly `n` elements.
    fn eval_array(&mut self, n: i32) -> (r: Result<(), InterpreterError>)
        requires
            old(self).wf(),
        ensures
            final(self).wf(),
            final(self).bf == old(self).bf,
            final(self).opts == old(self).opts,
            final(self).instructions == old(self).instructions,
            final(self).globals@.len() == old(self).globals@.len(),
            Self::spec_array_post(*old(self), n, *final(self), r),
    {
        let obj = self.pop()?;
        let matched: bool = match obj.as_ptr() {
            Some(idx) => {
                if idx < self.heap.size() {
                    match self.heap.kind_of(idx) {
                        HeapKind::Array => {
                            let len = self.heap.length_of(idx);
                            n >= 0 && (len as u64) == (n as u64)
                        },
                        _ => false,
                    }
                } else {
                    false
                }
            },
            None => false,
        };
        self.push(Object::new_boxed(if matched {
            1
        } else {
            0
        }))?;
        Ok(())
    }

    /// The operand is a heap reference to an object of the given kind.
    pub open spec fn spec_has_kind(pre: Interpreter, o: Object, kind: HeapKind) -> bool {
        &&& o.spec_is_heap_ref()
        &&& o.spec_heap_index() < pre.heap.objects@.len()
        &&& pre.heap.objects@[o.spec_heap_index()].spec_kind() == kind
    }

    /// Both operands are heap strings holding the same bytes.
    pub open spec fn spec_strings_match(pre: Interpreter, a: Object, b: Object) -> bool {
        &&& Self::spec_has_kind(pre, a, HeapKind::Str)
        &&& Self::spec_has_kind(pre, b, HeapKind::Str)
        &&& pre.heap.objects@[a.spec_heap_index()]->Str_bytes@
            == pre.heap.objects@[b.spec_heap_index()]->Str_bytes@
    }

    /// The predicate a `PATT` instruction evaluates over the popped
    /// operands: the top of the stack, and for the string-equality test
    /// also the value below it.
    pub open spec fn spec_patt_result(pre: Interpreter, kind: PattKind) -> bool {
        let stack = pre.operand_stack@;
        let sn = stack.len() as int;
        match kind {
            PattKind::BothAreStr => Self::spec_strings_match(pre, stack[sn - 1], stack[sn - 2]),
            PattKind::IsStr => Self::spec_has_kind(pre, stack[sn - 1], HeapKind::Str),
            PattKind::IsArray => Self::spec_has_kind(pre, stack[sn - 1], HeapKind::Array),
            PattKind::IsSExp => Self::spec_has_kind(pre, stack[sn - 1], HeapKind::Sexp),
            PattKind::IsLambda => Self::spec_has_kind(pre, stack[sn - 1], HeapKind::Closure),
            PattKind::IsRef => stack[sn - 1].spec_raw() % 2 == 0,
            PattKind::IsVal => stack[sn - 1].spec_raw() % 2 == 1,
        }
    }

    /// Execute `PATT`: pop one operand (two for the string-equality
    /// test) and push the boxed predicate result.
    fn eval_patt(&mut self, kind: PattKind) -> (r: Result<(), InterpreterError>)
        requires
            old(self).wf(),
        ensures
            final(self).wf(),
            final(self).bf == old(self).bf,
            final(self).opts == old(self).opts,
            final(self).instructions == old(self).instructions,
            final(self).globals@.len() == old(self).globals@.len(),
            Self::spec_patt_post(*old(self), kind, *final(self), r),
    {
        let result: bool = match kind {
            PattKind::BothAreStr => {
                let a = self.pop()?;
                let b = self.pop()?;
                self.strings_equal(a, b)
            },
            PattKind::IsStr => {
                let o = self.pop()?;
                self.has_kind(o, HeapKind::Str)
            },
            PattKind::IsArray => {
                let o = self.pop()?;
                self.has_kind(o, HeapKind::Array)
            },
            PattKind::IsSExp => {
                let o = self.pop()?;
                self.has_kind(o, HeapKind::Sexp)
            },
            PattKind::IsLambda => {
                let o = self.pop()?;
                self.has_kind(o, HeapKind::Closure)
            },
            PattKind::IsRef => {
                let o = self.pop()?;
                !crate::object::word_is_unboxed(o.raw())
            },
            PattKind::IsVal => {
                let o = self.pop()?;
                crate::object::word_is_unboxed(o.raw())
            },
        };
        self.push(Object::new_boxed(if result {
            1
        } else {
            0
        }))?;
        proof {
            let stack = old(self).operand_stack@;
            let sn = stack.len() as int;
            let pops: int = if kind == PattKind::BothAreStr {
                2
            } else {
                1
            };
            assert(self.operand_stack@ =~= stack.subrange(0, sn - pops).push(
                self.operand_stack@.last(),
            ));
        }
        Ok(())
    }

    /// True when the object is a heap reference of the given kind.
    fn has_kind(&self, o: Object, kind: HeapKind) -> (r: bool)
        ensures
            r == (o.spec_is_heap_ref() && o.spec_heap_index() < self.heap.objects@.len()
                && self.heap.objects@[o.spec_heap_index()].spec_kind() == kind),
    {
        match o.as_ptr() {
            Some(idx) => {
                if idx < self.heap.size() {
                    let k = self.heap.kind_of(idx);
                    match (k, kind) {
                        (HeapKind::Str, HeapKind::Str) => true,
                        (HeapKind::Array, HeapKind::Array) => true,
                        (HeapKind::Sexp, HeapKind::Sexp) => true,
                        (HeapKind::Closure, HeapKind::Closure) => true,
                        _ => false,
                    }
                } else {
                    false
                }
            },
            None => false,
        }
    }

    /// True when both objects are heap strings holding the same bytes.
    #[verifier::loop_isolation(false)]
    fn strings_equal(&self, a: Object, b: Object) -> (r: bool)
        ensures
            r == (a.spec_is_heap_ref() && b.spec_is_heap_ref() && a.spec_heap_index()
                < self.heap.objects@.len() && b.spec_heap_index() < self.heap.objects@.len()
                && self.heap.objects@[a.spec_heap_index()] is Str
                && self.heap.objects@[b.spec_heap_index()] is Str
                && self.heap.objects@[a.spec_heap_index()]->Str_bytes@
                == self.heap.objects@[b.spec_heap_index()]->Str_bytes@),
    {
        let ia = match a.as_ptr() {
            Some(i) => i,
            None => {
                return false;
            },
        };
        let ib = match b.as_ptr() {
            Some(i) => i,
            None => {
                return false;
            },
        };
        if ia >= self.heap.size() || ib >= self.heap.size() {
            return false;
        }
        match (self.heap.kind_of(ia), self.heap.kind_of(ib)) {
            (HeapKind::Str, HeapKind::Str) => {},
            _ => {
                return false;
            },
        }
        let ba = self.heap.string_bytes(ia);
        let bb = self.heap.string_bytes(ib);
        if ba.len() != bb.len() {
            proof {
                assert(ba@.len() != bb@.len());
            }
            return false;
        }
        let n = ba.len();
        let mut i: usize = 0;
        while i < n
            invariant
                i <= n,
                n == ba@.len(),
                n == bb@.len(),
                forall|j: int| 0 <= j < i ==> ba@[j] == bb@[j],
            decreases n - i,
        {
            if ba[i] != bb[i] {
                proof {
                    assert(ba@ != bb@);
                }
                return false;
            }
            i = i + 1;
        }
        proof {
            assert(ba@ =~= bb@);
        }
        true
    }
}

/// The tagged word boxing `v`, wrapping around on overflow.
pub fn box_wrap(v: i64) -> (w: i64)
    ensures
        w == spec_box_wrap(v),
{
    v.wrapping_mul(2).wrapping_add(1)
}

} // verus!

//! Image parsing, the value model, the walker and the static verifier.

use lama_rs::analyzer::Analyzer;
use lama_rs::bytecode::{Builtin, Instruction, ValueRel};
use lama_rs::bytefile::Bytefile;
use lama_rs::cfg::{Analyzer as CfgAnalyzer, InstructionTrace};
use lama_rs::decoder::{Decoder, DecoderError};
use lama_rs::interpreter::{Interpreter, InterpreterError, InterpreterOpts};
use lama_rs::object::{Object, word_is_unboxed};
use lama_rs::verifyer::{Verifier, VerifierError};
use lama_rs::{CONS_TAG_HASH, NIL_TAG_HASH};

/// Build an image: header, `(code_offset, name_offset)` pairs, string
/// table bytes, code bytes.
fn build_image(globals: u32, symbols: &[(u32, u32)], strings: &[u8], code: &[u8]) -> Vec<u8> {
    let mut out = Vec::new();
    out.extend_from_slice(&(strings.len() as u32).to_le_bytes());
    out.extend_from_slice(&globals.to_le_bytes());
    out.extend_from_slice(&(symbols.len() as u32).to_le_bytes());
    for (off, name) in symbols {
        out.extend_from_slice(&off.to_le_bytes());
        out.extend_from_slice(&name.to_le_bytes());
    }
    out.extend_from_slice(strings);
    out.extend_from_slice(code);
    out
}

#[test]
fn runtime_link_smoke_test() {
    assert_eq!(word_is_unboxed(0), false);
    assert_eq!(word_is_unboxed(1), true);
}

#[test]
fn test_creation() {
    let obj1 = Object::new_boxed(1);
    let obj2 = Object::new_unboxed(1);
    let obj3 = Object::new_empty();
    let obj4 = Object::new_boxed(2);

    if let Object::Boxed(v) = obj1 {
        assert_eq!(v, 3);
    }
    assert_eq!(obj1.unwrap(), 1);
    if let Object::Unboxed(v) = obj2 {
        assert_eq!(v, 1);
    }
    assert_eq!(obj2.unwrap(), 1);
    assert_eq!(obj3.unwrap(), 0);
    if let Object::Boxed(v) = obj4 {
        assert_eq!(v, 5);
    }
    assert_eq!(obj4.unwrap(), 2);
}

#[test]
fn boxing_round_trips_small_integers() {
    let samples: Vec<i64> = vec![0, 1, -1, 7, -7, 4611686018427387903, -4611686018427387904];
    for v in samples {
        assert_eq!(Object::new_boxed(v).unwrap(), v);
        assert!(word_is_unboxed(lama_rs::object::box_word(v)));
    }
}

#[test]
fn parse_minimal_file() {
    let data: Vec<u8> = vec![
        0x05, 0x00, 0x00, 0x00, 0x01, 0x00, 0x00, 0x00, 0x01, 0x00, 0x00, 0x00, 0x00, 0x00, 0x00,
        0x00, 0x00, 0x00, 0x00, 0x00, 0x6d, 0x61, 0x69, 0x6e, 0x00, 0x52, 0x02, 0x00, 0x00, 0x00,
        0x00, 0x00, 0x00, 0x00, 0x10, 0x02, 0x00, 0x00, 0x00, 0x10, 0x03, 0x00, 0x00, 0x00, 0x01,
        0x5a, 0x01, 0x00, 0x00, 0x00, 0x40, 0x00, 0x00, 0x00, 0x00, 0x18, 0x5a, 0x02, 0x00, 0x00,
        0x00, 0x5a, 0x04, 0x00, 0x00, 0x00, 0x20, 0x00, 0x00, 0x00, 0x00, 0x71, 0x16, 0xff,
    ];

    let bytefile = Bytefile::parse(data).unwrap();
    assert_eq!(bytefile.stringtab_size, 5);
    assert_eq!(bytefile.global_area_size, 1);
    assert_eq!(bytefile.public_symbols_number, 1);

    let main_str = bytefile.get_string_at(0).unwrap();
    assert_eq!(main_str, b"main\0".to_vec());
}

#[test]
fn parse_mirrors_every_image_section() {
    let strings = b"one\0two\0";
    let code = [0x52u8, 2, 0, 0, 0, 0, 0, 0, 0, 0x16, 0xff];
    let data = build_image(3, &[(0, 0), (9, 4)], strings, &code);
    let bf = Bytefile::parse(data.clone()).unwrap();

    assert_eq!(bf.string_table, strings.to_vec());
    assert_eq!(bf.code_section, code.to_vec());
    assert_eq!(bf.global_area_size, 3);
    assert_eq!(bf.public_symbols, vec![(0, 0), (9, 4)]);
    assert_eq!(&data[12 + 16..12 + 16 + strings.len()], &bf.string_table[..]);
    assert_eq!(&data[12 + 16 + strings.len()..], &bf.code_section[..]);
}

#[test]
fn parse_rejects_truncated_and_empty_images() {
    assert!(matches!(
        Bytefile::parse(vec![1, 2, 3]),
        Err(lama_rs::bytefile::BytefileError::UnexpectedEOF)
    ));
    let exact = build_image(0, &[], b"", b"");
    assert!(matches!(
        Bytefile::parse(exact),
        Err(lama_rs::bytefile::BytefileError::NoCodeSection)
    ));
}

#[test]
fn cons_and_nil_hash_to_the_baked_in_constants() {
    assert_eq!(lama_rs::heap::tag_hash(&b"cons".to_vec()), CONS_TAG_HASH);
    assert_eq!(lama_rs::heap::tag_hash(&b"nil".to_vec()), NIL_TAG_HASH);
}

#[test]
fn walker_marks_reachable_offsets_and_jump_targets() {
    // BEGIN 0 0 ; JMP 15 ; NOP at 14 (unreachable) ; NOP at 15 ; END
    let mut code: Vec<u8> = vec![0x52, 0, 0, 0, 0, 0, 0, 0, 0];
    code.push(0x15);
    code.extend_from_slice(&15i32.to_le_bytes());
    code.push(0x00);
    code.push(0x00);
    code.push(0x16);
    let data = build_image(0, &[(0, 0)], b"", &code);
    let bf = Bytefile::parse(data).unwrap();
    let mut analyzer = Analyzer::new(Decoder::new(bf));
    let rr = analyzer.get_reachables().unwrap();

    assert!(rr.is_reachable(0));
    assert!(rr.is_reachable(9));
    assert!(rr.is_reachable(15));
    assert!(!rr.is_reachable(14));
    assert!(rr.is_target(15));
    assert!(!rr.is_target(9));
}

#[test]
fn verifier_rejects_backward_jump_out_of_the_code_section() {
    let mut code: Vec<u8> = vec![0x15];
    code.extend_from_slice(&(-1i32).to_le_bytes());
    let data = build_image(0, &[(0, 0)], b"", &code);
    let bf = Bytefile::parse(data).unwrap();
    let mut verifier = Verifier::new(Decoder::new(bf));
    let result = verifier.verify();
    assert!(matches!(result, Err(VerifierError::InvalidJumpOffset(0, -1, 5))));
}

#[test]
fn verifier_rejects_jump_to_the_code_section_end() {
    let mut code: Vec<u8> = vec![0x15];
    code.extend_from_slice(&5i32.to_le_bytes());
    let data = build_image(0, &[(0, 0)], b"", &code);
    let bf = Bytefile::parse(data).unwrap();
    let mut verifier = Verifier::new(Decoder::new(bf));
    let result = verifier.verify();
    assert!(matches!(result, Err(VerifierError::InvalidJumpOffset(0, 5, 5))));
}

#[test]
fn verifier_rejects_an_eleven_byte_sexp_tag() {
    // SEXP with the eleven-character tag "abcdefghijk", zero members.
    let mut code: Vec<u8> = vec![0x12];
    code.extend_from_slice(&0i32.to_le_bytes());
    code.extend_from_slice(&0i32.to_le_bytes());
    code.push(0x16);
    let data = build_image(0, &[(0, 0)], b"abcdefghijk\0", &code);
    let bf = Bytefile::parse(data).unwrap();
    let mut verifier = Verifier::new(Decoder::new(bf));
    let result = verifier.verify();
    assert!(matches!(result, Err(VerifierError::SexpTagTooLong(11))));

    // A ten-character tag is the longest accepted one.
    let mut code2: Vec<u8> = vec![0x12];
    code2.extend_from_slice(&0i32.to_le_bytes());
    code2.extend_from_slice(&0i32.to_le_bytes());
    code2.push(0x16);
    let data2 = build_image(0, &[(0, 0)], b"abcdefghij\0", &code2);
    let bf2 = Bytefile::parse(data2).unwrap();
    let mut verifier2 = Verifier::new(Decoder::new(bf2));
    assert!(verifier2.verify().is_ok());
}

#[test]
fn verifier_rejects_a_global_store_at_the_area_size() {
    let mut code: Vec<u8> = vec![0x40];
    code.extend_from_slice(&1i32.to_le_bytes());
    code.push(0x16);
    let data = build_image(1, &[(0, 0)], b"", &code);
    let bf = Bytefile::parse(data).unwrap();
    let mut verifier = Verifier::new(Decoder::new(bf));
    let result = verifier.verify();
    assert!(matches!(
        result,
        Err(VerifierError::InvalidStoreIndex(ValueRel::Global, 1, 1))
    ));
}

#[test]
fn verifier_accepts_the_minimal_program_and_bounds_depths() {
    let data = build_image(
        1,
        &[(0, 0)],
        b"main\0",
        &[
            0x52, 2, 0, 0, 0, 0, 0, 0, 0, // BEGIN 2 0
            0x10, 2, 0, 0, 0, // CONST 2
            0x10, 3, 0, 0, 0, // CONST 3
            0x01, // BINOP ADD
            0x40, 0, 0, 0, 0, // STORE Global 0
            0x18, // DROP
            0x20, 0, 0, 0, 0, // LOAD Global 0
            0x71, // CALL Lwrite
            0x16, // END
        ],
    );
    let bf = Bytefile::parse(data).unwrap();
    let mut verifier = Verifier::new(Decoder::new(bf));
    let (vr, rr) = verifier.verify().unwrap();
    assert_eq!(vr.stack_depths.len(), 33);
    assert!(vr.stack_depths.iter().all(|&d| (0..=0x7fff_ffff).contains(&d)));
    assert!(rr.is_reachable(0));
}

#[test]
fn constant_add_and_write_prints_five() {
    let data = build_image(
        1,
        &[(0, 0)],
        b"main\0",
        &[
            0x52, 2, 0, 0, 0, 0, 0, 0, 0, // BEGIN 2 0
            0x10, 2, 0, 0, 0, // CONST 2
            0x10, 3, 0, 0, 0, // CONST 3
            0x01, // BINOP ADD
            0x40, 0, 0, 0, 0, // STORE Global 0
            0x18, // DROP
            0x20, 0, 0, 0, 0, // LOAD Global 0
            0x71, // CALL Lwrite
            0x16, // END
        ],
    );
    let bf = Bytefile::parse(data).unwrap();
    let mut interp = Interpreter::new(bf, InterpreterOpts::new(false, false));
    interp.run().unwrap();
    assert_eq!(interp.output, vec![5]);
}

#[test]
fn cons_list_construction_builds_a_tagged_record() {
    let program = vec![
        Instruction::CONST { value: 1 },
        Instruction::CONST { value: 2 },
        Instruction::SEXP { s_index: 5, n_members: 0 },
        Instruction::SEXP { s_index: 0, n_members: 2 },
        Instruction::SEXP { s_index: 0, n_members: 2 },
    ];
    let mut interp = Interpreter::new(Bytefile::new_dummy(), InterpreterOpts::new(false, false));
    interp.bf.put_string(b"cons".to_vec());
    interp.bf.put_string(b"nil".to_vec());
    interp.run_on_program(program).unwrap();

    let obj = interp.pop().unwrap();
    let idx = obj.as_ptr().unwrap();
    assert_eq!(interp.heap.sexp_tag(idx), CONS_TAG_HASH);
    assert_eq!(interp.heap.length_of(idx), 2);
}

#[test]
fn array_length_leaves_box_two_above_the_array() {
    let program = vec![
        Instruction::CONST { value: 2 },
        Instruction::CONST { value: 3 },
        Instruction::CALL { offset: None, n: Some(2), name: Some(Builtin::Barray), builtin: true },
        Instruction::DUP,
        Instruction::CALL { offset: None, n: None, name: Some(Builtin::Llength), builtin: true },
    ];
    let mut interp = Interpreter::new(Bytefile::new_dummy(), InterpreterOpts::new(false, false));
    interp.run_on_program(program).unwrap();
    let len = interp.pop().unwrap();
    assert_eq!(len, Object::new_boxed(2));
    let arr = interp.pop().unwrap();
    let idx = arr.as_ptr().unwrap();
    assert_eq!(interp.heap.length_of(idx), 2);
    assert_eq!(lama_rs::object::unbox_word(interp.heap.get_slot(idx, 0)), 2);
    assert_eq!(lama_rs::object::unbox_word(interp.heap.get_slot(idx, 1)), 3);
}

#[test]
fn elem_out_of_bounds_on_an_empty_array_is_fatal() {
    let program = vec![
        Instruction::CALL { offset: None, n: Some(0), name: Some(Builtin::Barray), builtin: true },
        Instruction::DUP,
        Instruction::CONST { value: 1 },
        Instruction::ELEM,
    ];
    let mut interp = Interpreter::new(Bytefile::new_dummy(), InterpreterOpts::new(false, false));
    let result = interp.run_on_program(program);
    assert_eq!(result, Err(InterpreterError::OutOfBoundsAccess(1, 0)));
}

#[test]
fn closure_capture_and_call_reach_the_captured_word() {
    // A frame with one local holding box(7); the closure captures it.
    let program = vec![
        Instruction::CONST { value: 0 },  // saved instruction pointer
        Instruction::BEGIN { args: 0, locals: 1 },
        Instruction::CONST { value: 7 },
        Instruction::STORE { rel: ValueRel::Local, index: 0 },
        Instruction::DROP,
        Instruction::CLOSURE { offset: 3, arity: 1, captured: vec![(ValueRel::Local, 0)] },
    ];
    let mut interp = Interpreter::new(Bytefile::new_dummy(), InterpreterOpts::new(false, false));
    interp.run_on_program(program).unwrap();

    // The captured slot holds box(7).
    let top = interp.pop().unwrap();
    let idx = top.as_ptr().unwrap();
    assert_eq!(interp.heap.get_slot(idx, 0), 3);
    assert_eq!(lama_rs::object::unbox_word(interp.heap.get_slot(idx, 1)), 7);
    interp.push(top).unwrap();

    // Calling it jumps to the closure body, where the capture is loadable.
    let call = vec![
        Instruction::CALLC { arity: 0 },
        Instruction::CBEGIN { args: 0, locals: 0 },
        Instruction::LOAD { rel: ValueRel::Capture, index: 0 },
    ];
    interp.run_on_program(call).unwrap();
    assert_eq!(interp.ip, 3);
    assert_eq!(interp.pop().unwrap().unwrap(), 7);
}

#[test]
fn callc_through_a_corrupt_entry_offset_is_a_caught_fatal() {
    let program = vec![
        Instruction::CONST { value: 0 },
        Instruction::BEGIN { args: 0, locals: 0 },
        Instruction::CLOSURE { offset: -5, arity: 0, captured: vec![] },
        Instruction::CALLC { arity: 0 },
    ];
    let mut interp = Interpreter::new(Bytefile::new_dummy(), InterpreterOpts::new(false, false));
    let result = interp.run_on_program(program);
    assert!(matches!(result, Err(InterpreterError::InvalidJumpOffset(_, -5, 100))));
}

#[test]
fn a_call_returns_exactly_one_value_to_the_caller() {
    let mut interp = Interpreter::new(Bytefile::new_dummy(), InterpreterOpts::new(false, false));
    interp
        .run_on_program(vec![Instruction::CONST { value: 42 }])
        .unwrap();
    let before_call = interp.operand_stack.len();

    let call = vec![
        Instruction::CONST { value: 41 }, // the callee's one argument
        Instruction::CONST { value: 0 },  // saved instruction pointer
        Instruction::BEGIN { args: 1, locals: 2 },
        Instruction::CONST { value: 99 }, // return value
        Instruction::END,
    ];
    interp.run_on_program(call).unwrap();

    // The frame and its argument are gone; only the result was added.
    assert_eq!(interp.operand_stack.len(), before_call + 1);
    assert_eq!(interp.pop().unwrap().unwrap(), 99);
    assert_eq!(interp.pop().unwrap().unwrap(), 42);
}

#[test]
fn published_stack_bounds_track_the_operand_stack() {
    let mut interp = Interpreter::new(Bytefile::new_dummy(), InterpreterOpts::new(false, false));
    assert_eq!(interp.heap.stack_bottom, 0);
    assert_eq!(interp.heap.stack_top, interp.operand_stack.len());
    interp.push(Object::new_boxed(1)).unwrap();
    assert_eq!(interp.heap.stack_top, interp.operand_stack.len());
    interp.pop().unwrap();
    assert_eq!(interp.heap.stack_top, interp.operand_stack.len());
}

#[test]
fn string_instruction_with_an_empty_table_is_rejected() {
    let mut interp = Interpreter::new(Bytefile::new_dummy(), InterpreterOpts::new(false, false));
    let result = interp.run_on_program(vec![Instruction::STRING { index: 0 }]);
    assert_eq!(result, Err(InterpreterError::StringIndexOutOfBounds));
}

#[test]
fn sti_is_refused() {
    let mut interp = Interpreter::new(Bytefile::new_dummy(), InterpreterOpts::new(false, false));
    let result = interp.run_on_program(vec![Instruction::STI]);
    assert_eq!(result, Err(InterpreterError::InvalidOpcode(0x13)));
}

#[test]
fn decoder_reports_invalid_opcodes_and_truncation() {
    // 0x0e: group zero, above the highest operator nibble.
    let data = build_image(0, &[(0, 0)], b"", &[0x0e]);
    let bf = Bytefile::parse(data).unwrap();
    let mut dec = Decoder::new(bf);
    let byte = dec.next::<u8>().unwrap();
    assert_eq!(dec.decode(byte), Err(DecoderError::InvalidOpcode(0x0e)));

    // CONST with a truncated immediate.
    let data2 = build_image(0, &[(0, 0)], b"", &[0x10, 1, 2]);
    let bf2 = Bytefile::parse(data2).unwrap();
    let mut dec2 = Decoder::new(bf2);
    let byte2 = dec2.next::<u8>().unwrap();
    assert_eq!(dec2.decode(byte2), Err(DecoderError::ReadingMoreThenCodeSection));
}

#[test]
fn decoder_reads_closure_capture_records() {
    let mut code: Vec<u8> = vec![0x54];
    code.extend_from_slice(&7i32.to_le_bytes());
    code.extend_from_slice(&2i32.to_le_bytes());
    code.push(1); // Local
    code.extend_from_slice(&4i32.to_le_bytes());
    code.push(0); // Global
    code.extend_from_slice(&9i32.to_le_bytes());
    let data = build_image(0, &[(0, 0)], b"", &code);
    let bf = Bytefile::parse(data).unwrap();
    let mut dec = Decoder::new(bf);
    let byte = dec.next::<u8>().unwrap();
    let instr = dec.decode(byte).unwrap();
    assert_eq!(
        instr,
        Instruction::CLOSURE {
            offset: 7,
            arity: 2,
            captured: vec![(ValueRel::Local, 4), (ValueRel::Global, 9)],
        }
    );
}

#[test]
fn cfg_splits_functions_and_blocks_and_renders_dot() {
    let traces = vec![
        InstructionTrace { instruction: Instruction::BEGIN { args: 0, locals: 0 }, offset: 0 },
        InstructionTrace {
            instruction: Instruction::CJMP {
                offset: 19,
                kind: lama_rs::bytecode::CompareJumpKind::ISZERO,
            },
            offset: 9,
        },
        InstructionTrace { instruction: Instruction::CONST { value: 1 }, offset: 14 },
        InstructionTrace { instruction: Instruction::NOP, offset: 19 },
        InstructionTrace { instruction: Instruction::END, offset: 20 },
    ];
    let mut analyzer = CfgAnalyzer::new();
    analyzer.build_cfg(traces);
    let functions = analyzer.get_functions();
    assert_eq!(functions.len(), 1);
    assert!(functions[0].reachable);
    assert_eq!(functions[0].blocks.len(), 3);
    assert_eq!(functions[0].blocks[1].offset, 14);
    assert_eq!(functions[0].blocks[2].offset, 19);
    assert_eq!(functions[0].blocks[2].predecessors, vec![0]);

    let freq = analyzer.get_frequency();
    let mut found_const = false;
    for (name, count) in &freq.frequency {
        if name == "CONST" {
            assert_eq!(*count, 1);
            found_const = true;
        }
    }
    assert!(found_const);

    let dot = analyzer.cfg_to_dot();
    assert!(dot.starts_with("digraph CFG {"));
    assert!(dot.contains("F0B0 -> F0B2"));
}

#[test]
fn cfg_verify_bytecode_checks_image_limits() {
    let data = build_image(1, &[(0, 0)], b"ab\0", &[0x52, 0, 0, 0, 0, 0, 0, 0, 0, 0x16]);
    let bf = Bytefile::parse(data).unwrap();

    let good = vec![InstructionTrace {
        instruction: Instruction::STORE { rel: ValueRel::Global, index: 0 },
        offset: 0,
    }];
    let mut analyzer = CfgAnalyzer::new();
    analyzer.build_cfg(vec![
        InstructionTrace {
            instruction: Instruction::BEGIN { args: 0, locals: 0 },
            offset: 0,
        },
        good[0].clone(),
        InstructionTrace { instruction: Instruction::END, offset: 6 },
    ]);
    assert!(analyzer.verify_bytecode(&bf).is_ok());

    let mut bad = CfgAnalyzer::new();
    bad.build_cfg(vec![
        InstructionTrace {
            instruction: Instruction::BEGIN { args: 0, locals: 0 },
            offset: 0,
        },
        InstructionTrace {
            instruction: Instruction::JMP { offset: 1000 },
            offset: 9,
        },
        InstructionTrace { instruction: Instruction::END, offset: 14 },
    ]);
    assert!(matches!(
        bad.verify_bytecode(&bf),
        Err(InterpreterError::InvalidJumpOffset(9, 1000, 10))
    ));
}

#[test]
fn walker_frequency_counts_instructions_and_pairs() {
    let data = build_image(
        1,
        &[(0, 0)],
        b"main\0",
        &[
            0x52, 2, 0, 0, 0, 0, 0, 0, 0, // BEGIN 2 0
            0x10, 2, 0, 0, 0, // CONST 2
            0x10, 3, 0, 0, 0, // CONST 3
            0x01, // BINOP ADD
            0x18, // DROP
            0x16, // END
        ],
    );
    let bf = Bytefile::parse(data).unwrap();
    let mut analyzer = Analyzer::new(Decoder::new(bf));
    let freq = analyzer.get_frequency().unwrap();

    // BEGIN, CONST, CONST, BINOP, DROP, END were each counted once or
    // twice; at least the two CONSTs share one identifier.
    let mut const_count = 0u32;
    for (i, instr) in freq.instruction_to_id.iter().enumerate() {
        if *instr == (Instruction::CONST { value: 2 }) {
            let key = ((i % 256) * 256) as u16;
            const_count = *freq.frequency.get(&key).unwrap();
        }
    }
    assert_eq!(const_count, 1);
    assert!(freq.instruction_to_id.len() >= 5);
}

#[test]
fn patched_depth_hints_are_masked_off_by_the_interpreter() {
    let code: Vec<u8> = vec![
        0x52, 2, 0, 0, 0, 0, 0, 0, 0, // BEGIN 2 0
        0x10, 2, 0, 0, 0, // CONST 2
        0x10, 3, 0, 0, 0, // CONST 3
        0x01, // BINOP ADD
        0x40, 0, 0, 0, 0, // STORE Global 0
        0x18, // DROP
        0x20, 0, 0, 0, 0, // LOAD Global 0
        0x71, // CALL Lwrite
        0x16, // END
    ];
    let data = build_image(1, &[(0, 0)], b"main\0", &code);

    let bf = Bytefile::parse(data.clone()).unwrap();
    let mut verifier = Verifier::new(Decoder::new(bf));
    let (vr, _) = verifier.verify().unwrap();

    let mut patched = Bytefile::parse(data).unwrap();
    lama_rs::verifyer::patch_stack_depths(&mut patched, &vr.stack_depths);

    // The maximum height inside main lands in the upper half of the
    // `BEGIN` argument word; the argument count survives in the lower.
    let word = lama_rs::bytefile::read_le32(&patched.code_section, 1);
    assert_eq!(word & 0xffff, 2);
    assert!(word >> 16 > 0);

    let mut interp = Interpreter::new(patched, InterpreterOpts::new(false, false));
    interp.run().unwrap();
    assert_eq!(interp.output, vec![5]);
}

#[test]
fn verifier_reports_stack_underflow_and_bad_begin_args() {
    // DROP at the entry point drives the abstract height below zero.
    let data = build_image(0, &[(0, 0)], b"", &[0x18, 0x16]);
    let bf = Bytefile::parse(data).unwrap();
    let mut verifier = Verifier::new(Decoder::new(bf));
    assert!(matches!(verifier.verify(), Err(VerifierError::StackUnderflow(1))));

    // BEGIN with an argument count beyond the parameter limit.
    let mut code: Vec<u8> = vec![0x52];
    code.extend_from_slice(&0x1_0000i32.to_le_bytes());
    code.extend_from_slice(&0i32.to_le_bytes());
    code.push(0x16);
    let data2 = build_image(0, &[(0, 0)], b"", &code);
    let bf2 = Bytefile::parse(data2).unwrap();
    let mut verifier2 = Verifier::new(Decoder::new(bf2));
    assert!(matches!(verifier2.verify(), Err(VerifierError::InvalidBeginArgs(0x1_0000))));
}

#[test]
fn verifier_reports_oversized_member_and_capture_counts() {
    // An ARRAY member count just over the limit is rejected.
    let mut code: Vec<u8> = vec![0x52, 0, 0, 0, 0, 0, 0, 0, 0, 0x58];
    code.extend_from_slice(&0x1_0000i32.to_le_bytes());
    code.push(0x16);
    let data = build_image(0, &[(0, 0)], b"ab\0", &code);
    let bf = Bytefile::parse(data).unwrap();
    let mut verifier = Verifier::new(Decoder::new(bf));
    assert!(matches!(verifier.verify(), Err(VerifierError::TooMuchMembers(0x1_0000, 0xffff))));

    // A count of exactly the limit is accepted.
    let mut code2: Vec<u8> = vec![0x52, 0, 0, 0, 0, 0, 0, 0, 0, 0x58];
    code2.extend_from_slice(&0xffffi32.to_le_bytes());
    code2.push(0x16);
    let data2 = build_image(0, &[(0, 0)], b"ab\0", &code2);
    let bf2 = Bytefile::parse(data2).unwrap();
    let mut verifier2 = Verifier::new(Decoder::new(bf2));
    assert!(verifier2.verify().is_ok());
}

#[test]
fn verifier_rejects_sti_and_loadref() {
    // STI inside a function body.
    let data = build_image(0, &[(0, 0)], b"", &[0x52, 0, 0, 0, 0, 0, 0, 0, 0, 0x13, 0x16]);
    let bf = Bytefile::parse(data).unwrap();
    let mut verifier = Verifier::new(Decoder::new(bf));
    assert!(matches!(
        verifier.verify(),
        Err(VerifierError::DecoderError(DecoderError::InvalidOpcode(0x13)))
    ));

    // LOADREF Global 0.
    let mut code2: Vec<u8> = vec![0x52, 0, 0, 0, 0, 0, 0, 0, 0, 0x30];
    code2.extend_from_slice(&0i32.to_le_bytes());
    code2.push(0x16);
    let data2 = build_image(1, &[(0, 0)], b"", &code2);
    let bf2 = Bytefile::parse(data2).unwrap();
    let mut verifier2 = Verifier::new(Decoder::new(bf2));
    assert!(matches!(
        verifier2.verify(),
        Err(VerifierError::DecoderError(DecoderError::InvalidOpcode(0x30)))
    ));
}

#[test]
fn frame_setters_refuse_the_slot_past_the_last() {
    // BEGIN 2 2, then store at index == n_args / n_locals: both refused.
    let program = vec![
        Instruction::CONST { value: 2 },
        Instruction::CONST { value: 2 },
        Instruction::CONST { value: 2 },
        Instruction::CONST { value: 2 },
        Instruction::BEGIN { args: 2, locals: 2 },
        Instruction::CONST { value: 3 },
        Instruction::STORE { rel: ValueRel::Arg, index: 2 },
    ];
    let mut interp = Interpreter::new(Bytefile::new_dummy(), InterpreterOpts::new(false, false));
    assert_eq!(
        interp.run_on_program(program),
        Err(InterpreterError::InvalidStoreIndex(ValueRel::Arg, 2, 2))
    );

    let program2 = vec![
        Instruction::CONST { value: 2 },
        Instruction::CONST { value: 2 },
        Instruction::CONST { value: 2 },
        Instruction::CONST { value: 2 },
        Instruction::BEGIN { args: 2, locals: 2 },
        Instruction::CONST { value: 3 },
        Instruction::STORE { rel: ValueRel::Local, index: 2 },
    ];
    let mut interp2 = Interpreter::new(Bytefile::new_dummy(), InterpreterOpts::new(false, false));
    assert_eq!(
        interp2.run_on_program(program2),
        Err(InterpreterError::InvalidStoreIndex(ValueRel::Local, 2, 2))
    );
}

#[test]
fn builtin_length_of_a_small_integer_is_refused() {
    let program = vec![
        Instruction::CONST { value: 5 },
        Instruction::CALL { offset: None, n: None, name: Some(Builtin::Llength), builtin: true },
    ];
    let mut interp = Interpreter::new(Bytefile::new_dummy(), InterpreterOpts::new(false, false));
    assert_eq!(
        interp.run_on_program(program),
        Err(InterpreterError::InvalidObjectPointer)
    );
}

#[test]
fn elem_on_a_small_integer_is_a_type_error() {
    let program = vec![
        Instruction::CONST { value: 5 },
        Instruction::CONST { value: 0 },
        Instruction::ELEM,
    ];
    let mut interp = Interpreter::new(Bytefile::new_dummy(), InterpreterOpts::new(false, false));
    assert!(matches!(
        interp.run_on_program(program),
        Err(InterpreterError::InvalidType(_))
    ));
}

#[test]
fn sta_writes_through_an_aggregate_and_returns_it() {
    let program = vec![
        Instruction::CONST { value: 2 },
        Instruction::CONST { value: 3 },
        Instruction::CALL { offset: None, n: Some(2), name: Some(Builtin::Barray), builtin: true },
        Instruction::CONST { value: 1 }, // index
        Instruction::CONST { value: 9 }, // value
        Instruction::STA,
        Instruction::CONST { value: 1 },
        Instruction::ELEM,
    ];
    let mut interp = Interpreter::new(Bytefile::new_dummy(), InterpreterOpts::new(false, false));
    interp.run_on_program(program).unwrap();
    assert_eq!(interp.pop().unwrap().unwrap(), 9);
}

#[test]
fn store_and_load_through_a_capture_slot() {
    let program = vec![
        Instruction::CONST { value: 0 },
        Instruction::BEGIN { args: 0, locals: 0 },
        Instruction::CLOSURE { offset: 3, arity: 1, captured: vec![(ValueRel::Global, 0)] },
        Instruction::CALLC { arity: 0 },
        Instruction::CBEGIN { args: 0, locals: 0 },
        Instruction::CONST { value: 8 },
        Instruction::STORE { rel: ValueRel::Capture, index: 0 },
        Instruction::DROP,
        Instruction::LOAD { rel: ValueRel::Capture, index: 0 },
    ];
    let mut interp = Interpreter::new(Bytefile::new_dummy(), InterpreterOpts::new(false, false));
    interp.run_on_program(program).unwrap();
    assert_eq!(interp.pop().unwrap().unwrap(), 8);
}

#[test]
fn lstring_refuses_a_rendering_with_an_interior_terminator() {
    // Write a NUL into a heap string, then ask for its rendering.
    let program = vec![
        Instruction::STRING { index: 0 },
        Instruction::CONST { value: 0 }, // index
        Instruction::CONST { value: 0 }, // value: the NUL byte
        Instruction::STA,
        Instruction::CALL { offset: None, n: None, name: Some(Builtin::Lstring), builtin: true },
    ];
    let mut interp = Interpreter::new(Bytefile::new_dummy(), InterpreterOpts::new(false, false));
    interp.bf.put_string(b"ab".to_vec());
    assert_eq!(
        interp.run_on_program(program),
        Err(InterpreterError::InvalidStringPointer)
    );
}

#[test]
fn string_table_lookup_by_ordinal_reports_missing_strings() {
    let mut bf = Bytefile::new_dummy();
    bf.put_string(b"one".to_vec());
    bf.put_string(b"two".to_vec());
    assert_eq!(bf.get_string_at(0).unwrap(), b"one\0".to_vec());
    assert_eq!(bf.get_string_at(1).unwrap(), b"two\0".to_vec());
    assert!(matches!(
        bf.get_string_at(2),
        Err(lama_rs::bytefile::BytefileError::InvalidStringIndexInStringTable)
    ));
}

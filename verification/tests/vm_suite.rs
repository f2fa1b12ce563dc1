//! The interpreter suite run against the library from the outside.

use lama_rs::bytecode::{Builtin, CompareJumpKind, Instruction, Op, ValueRel};
use lama_rs::bytefile::Bytefile;
use lama_rs::frame::FrameMetadata;
use lama_rs::interpreter::{Interpreter, InterpreterError, InterpreterOpts};

fn sample_image() -> Vec<u8> {
    vec![
        0x05, 0x00, 0x00, 0x00, 0x01, 0x00, 0x00, 0x00, 0x01, 0x00, 0x00, 0x00, 0x00, 0x00, 0x00,
        0x00, 0x00, 0x00, 0x00, 0x00, 0x6d, 0x61, 0x69, 0x6e, 0x00, 0x52, 0x02, 0x00, 0x00, 0x00,
        0x00, 0x00, 0x00, 0x00, 0x10, 0x02, 0x00, 0x00, 0x00, 0x10, 0x03, 0x00, 0x00, 0x00, 0x01,
        0x5a, 0x01, 0x00, 0x00, 0x00, 0x40, 0x00, 0x00, 0x00, 0x00, 0x18, 0x5a, 0x02, 0x00, 0x00,
        0x00, 0x5a, 0x04, 0x00, 0x00, 0x00, 0x20, 0x00, 0x00, 0x00, 0x00, 0x71, 0x16, 0xff,
    ]
}

#[test]
fn tests_test_decoder_minimal() {
    let bytefile = Bytefile::parse(sample_image()).unwrap();
    let mut interp = Interpreter::new(bytefile, InterpreterOpts { parse_only: true, verbose: true });
    interp.run().unwrap();

    assert_eq!(interp.instructions[0], Instruction::BEGIN { args: 2, locals: 0 });
    assert_eq!(interp.instructions[1], Instruction::CONST { value: 2 });
    assert_eq!(interp.instructions[2], Instruction::CONST { value: 3 });
    assert_eq!(interp.instructions[3], Instruction::BINOP { op: Op::ADD });
    assert_eq!(
        interp.instructions[5],
        Instruction::STORE { rel: ValueRel::Global, index: 0 }
    );
    assert_eq!(interp.instructions[6], Instruction::DROP);
    assert_eq!(
        interp.instructions[9],
        Instruction::LOAD { rel: ValueRel::Global, index: 0 }
    );
    assert_eq!(
        interp.instructions[10],
        Instruction::CALL { offset: None, n: None, name: Some(Builtin::Lwrite), builtin: true }
    );
    assert_eq!(interp.instructions[11], Instruction::END);
}

#[test]
fn tests_test_binops_eval() {
    let mut programs = Vec::new();
    let subopcodes: Vec<u8> = (1u8..=13u8).collect();
    for i in subopcodes {
        programs.push(vec![
            Instruction::CONST { value: 2 },
            Instruction::CONST { value: 3 },
            Instruction::BINOP { op: Op::from_subopcode(i).unwrap() },
        ]);
    }
    programs.push(vec![
        Instruction::CONST { value: 0 },
        Instruction::CONST { value: 0 },
        Instruction::BINOP { op: Op::AND },
    ]);
    programs.push(vec![
        Instruction::CONST { value: 0 },
        Instruction::CONST { value: 1 },
        Instruction::BINOP { op: Op::OR },
    ]);
    programs.push(vec![
        Instruction::CONST { value: 0 },
        Instruction::CONST { value: 0 },
        Instruction::BINOP { op: Op::OR },
    ]);
    programs.push(vec![
        Instruction::CONST { value: 1 },
        Instruction::CONST { value: 1 },
        Instruction::BINOP { op: Op::EQ },
    ]);
    programs.push(vec![
        Instruction::CONST { value: 1 },
        Instruction::CONST { value: 1 },
        Instruction::BINOP { op: Op::NEQ },
    ]);

    let expected_results: Vec<i64> = vec![5, -1, 6, 0, 2, 1, 1, 0, 0, 0, 1, 1, 1, 0, 1, 0, 1, 0];
    assert_eq!(programs.len(), expected_results.len());

    for (program, expected) in programs.into_iter().zip(expected_results) {
        let mut interp = Interpreter::new(Bytefile::new_dummy(), InterpreterOpts::new(false, true));
        interp.run_on_program(program).unwrap();
        let top = interp.pop().unwrap();
        assert_eq!(top.unwrap(), expected);
    }
}

#[test]
fn tests_test_string_eval() {
    let mut programs = Vec::new();
    programs.push(vec![Instruction::STRING { index: 0 }]);
    programs.push(vec![Instruction::STRING { index: 5 }]);

    let expected_results: Vec<Vec<u8>> = vec![b"main\0".to_vec(), b"Hello, world!\0".to_vec()];
    assert_eq!(programs.len(), expected_results.len());

    for (program, expected) in programs.into_iter().zip(expected_results) {
        let mut interp = Interpreter::new(Bytefile::new_dummy(), InterpreterOpts::new(false, true));
        interp.bf.put_string(b"main".to_vec());
        interp.bf.put_string(b"Hello, world!".to_vec());

        interp.run_on_program(program).unwrap();

        let obj = interp.pop().unwrap();
        let idx = obj.as_ptr().unwrap();
        assert_eq!(interp.heap.string_bytes(idx), expected);
    }
}

#[test]
fn tests_test_sexp_cons_nil_eval() {
    let mut programs = Vec::new();
    programs.push(vec![Instruction::SEXP { s_index: 5, n_members: 0 }]);
    programs.push(vec![
        Instruction::CONST { value: 1 },
        Instruction::SEXP { s_index: 5, n_members: 0 },
        Instruction::SEXP { s_index: 0, n_members: 2 },
    ]);
    programs.push(vec![
        Instruction::CONST { value: 1 },
        Instruction::CONST { value: 2 },
        Instruction::SEXP { s_index: 5, n_members: 0 },
        Instruction::SEXP { s_index: 0, n_members: 2 },
        Instruction::SEXP { s_index: 0, n_members: 2 },
    ]);

    struct Expect {
        tag: i64,
        contents: Vec<i64>,
    }

    let expected_results = vec![
        Expect { tag: lama_rs::heap::tag_hash(&b"Nil".to_vec()), contents: vec![] },
        Expect { tag: lama_rs::heap::tag_hash(&b"Cons".to_vec()), contents: vec![1] },
        Expect { tag: lama_rs::heap::tag_hash(&b"Cons".to_vec()), contents: vec![1, 2] },
    ];
    assert_eq!(programs.len(), expected_results.len());

    for (program, expected) in programs.into_iter().zip(expected_results) {
        let mut interp = Interpreter::new(Bytefile::new_dummy(), InterpreterOpts::new(false, true));
        interp.bf.put_string(b"Cons".to_vec());
        interp.bf.put_string(b"Nil".to_vec());

        interp.run_on_program(program).unwrap();

        let obj = interp.pop().unwrap();
        let idx = obj.as_ptr().unwrap();
        assert_eq!(interp.heap.sexp_tag(idx), expected.tag);
        for (i, el) in expected.contents.iter().enumerate() {
            if i % 2 != 0 {
                continue;
            }
            let word = interp.heap.get_slot(idx, i);
            assert_eq!(lama_rs::object::unbox_word(word), *el);
        }
    }
}

#[test]
fn tests_test_invalid_jump_offset() {
    let mut programs = Vec::new();
    programs.push(vec![Instruction::JMP { offset: -1 }]);
    programs.push(vec![Instruction::JMP { offset: 10000 }]);

    let expected_results = vec![
        Err(InterpreterError::InvalidJumpOffset(0, -1, 100)),
        Err(InterpreterError::InvalidJumpOffset(0, 10000, 100)),
    ];
    assert_eq!(programs.len(), expected_results.len());

    for (program, expected) in programs.into_iter().zip(expected_results) {
        let mut interp = Interpreter::new(Bytefile::new_dummy(), InterpreterOpts::new(false, true));
        let result = interp.run_on_program(program);
        assert!(result.is_err());
        assert_eq!(result, expected);
    }
}

#[test]
fn tests_test_invalid_frame_move() {
    let mut programs = Vec::new();
    programs.push(vec![Instruction::CONST { value: 1 }, Instruction::END]);
    programs.push(vec![Instruction::BEGIN { args: 10, locals: 0 }]);

    let expected_results = vec![
        Err(InterpreterError::NotEnoughArguments("END")),
        Err(InterpreterError::NotEnoughArguments("BEGIN")),
    ];
    assert_eq!(programs.len(), expected_results.len());

    for (program, expected) in programs.into_iter().zip(expected_results) {
        let mut interp = Interpreter::new(Bytefile::new_dummy(), InterpreterOpts::new(false, true));
        interp.operand_stack.clear();
        let result = interp.run_on_program(program);
        assert!(result.is_err());
        assert_eq!(result, expected);
    }
}

#[test]
fn tests_test_frame_move_args_and_locals() {
    let mut programs = Vec::new();
    programs.push(vec![
        Instruction::CONST { value: 2 },
        Instruction::CONST { value: 2 },
        Instruction::CONST { value: 2 },
        Instruction::CONST { value: 2 },
        Instruction::BEGIN { args: 2, locals: 2 },
    ]);
    programs.push(vec![
        Instruction::CONST { value: 2 },
        Instruction::CONST { value: 2 },
        Instruction::CONST { value: 2 },
        Instruction::CONST { value: 2 },
        Instruction::BEGIN { args: 2, locals: 2 },
        Instruction::CONST { value: 3 },
        Instruction::STORE { rel: ValueRel::Local, index: 0 },
        Instruction::CONST { value: 4 },
        Instruction::STORE { rel: ValueRel::Local, index: 1 },
    ]);
    programs.push(vec![
        Instruction::CONST { value: 2 },
        Instruction::CONST { value: 2 },
        Instruction::CONST { value: 2 },
        Instruction::CONST { value: 2 },
        Instruction::BEGIN { args: 2, locals: 2 },
        Instruction::CONST { value: 3 },
        Instruction::STORE { rel: ValueRel::Arg, index: 0 },
        Instruction::CONST { value: 4 },
        Instruction::STORE { rel: ValueRel::Arg, index: 1 },
    ]);

    struct ExpectValue {
        metadata: FrameMetadata,
        args: Vec<i64>,
        locals: Vec<i64>,
    }

    let expected_results = vec![
        ExpectValue {
            metadata: FrameMetadata::new(2, 2, 0, 2),
            args: vec![2, 2],
            locals: vec![0, 0],
        },
        ExpectValue {
            metadata: FrameMetadata::new(2, 2, 0, 2),
            args: vec![2, 2],
            locals: vec![3, 4],
        },
        ExpectValue {
            metadata: FrameMetadata::new(2, 2, 0, 2),
            args: vec![3, 4],
            locals: vec![0, 0],
        },
    ];
    assert_eq!(programs.len(), expected_results.len());

    for (program, expected) in programs.into_iter().zip(expected_results) {
        let mut interp =
            Interpreter::new(Bytefile::new_dummy(), InterpreterOpts::new(false, false));
        interp.run_on_program(program).unwrap();

        let frame =
            FrameMetadata::get_from_stack(&interp.operand_stack, interp.frame_pointer).unwrap();
        assert_eq!(frame, expected.metadata);
        assert_eq!(
            frame.get_local_at(&interp.operand_stack, interp.frame_pointer, 0).unwrap().unwrap(),
            expected.locals[0]
        );
        assert_eq!(
            frame.get_local_at(&interp.operand_stack, interp.frame_pointer, 1).unwrap().unwrap(),
            expected.locals[1]
        );
        assert_eq!(
            frame.get_arg_at(&interp.operand_stack, interp.frame_pointer, 0).unwrap().unwrap(),
            expected.args[0]
        );
        assert_eq!(
            frame.get_arg_at(&interp.operand_stack, interp.frame_pointer, 1).unwrap().unwrap(),
            expected.args[1]
        );
    }
}

#[test]
fn tests_test_invalid_args_and_locals_assignment() {
    let mut programs = Vec::new();
    programs.push(vec![
        Instruction::CONST { value: 2 },
        Instruction::CONST { value: 2 },
        Instruction::CONST { value: 2 },
        Instruction::CONST { value: 2 },
        Instruction::BEGIN { args: 2, locals: 2 },
        Instruction::CONST { value: 3 },
        Instruction::STORE { rel: ValueRel::Local, index: 3 },
    ]);
    programs.push(vec![
        Instruction::CONST { value: 2 },
        Instruction::CONST { value: 2 },
        Instruction::CONST { value: 2 },
        Instruction::CONST { value: 2 },
        Instruction::BEGIN { args: 2, locals: 2 },
        Instruction::CONST { value: 3 },
        Instruction::STORE { rel: ValueRel::Arg, index: 3 },
    ]);

    let expected_results = vec![
        Err(InterpreterError::InvalidStoreIndex(ValueRel::Local, 3, 2)),
        Err(InterpreterError::InvalidStoreIndex(ValueRel::Arg, 3, 2)),
    ];
    assert_eq!(programs.len(), expected_results.len());

    for (program, expected) in programs.into_iter().zip(expected_results) {
        let mut interp =
            Interpreter::new(Bytefile::new_dummy(), InterpreterOpts::new(false, false));
        let result = interp.run_on_program(program);
        assert!(result.is_err());
        assert_eq!(result, expected);
    }
}

#[test]
fn tests_test_arg_and_local_load() {
    let mut programs = Vec::new();
    programs.push(vec![
        Instruction::CONST { value: 2 },
        Instruction::CONST { value: 2 },
        Instruction::CONST { value: 2 },
        Instruction::CONST { value: 2 },
        Instruction::BEGIN { args: 2, locals: 2 },
        Instruction::LOAD { rel: ValueRel::Local, index: 0 },
    ]);
    programs.push(vec![
        Instruction::CONST { value: 2 },
        Instruction::CONST { value: 3 },
        Instruction::CONST { value: 4 },
        Instruction::CONST { value: 5 },
        Instruction::CONST { value: 2 },
        Instruction::BEGIN { args: 4, locals: 2 },
        Instruction::LOAD { rel: ValueRel::Arg, index: 3 },
    ]);
    programs.push(vec![
        Instruction::CONST { value: 2 },
        Instruction::CONST { value: 2 },
        Instruction::CONST { value: 2 },
        Instruction::CONST { value: 2 },
        Instruction::CONST { value: 2 },
        Instruction::BEGIN { args: 4, locals: 2 },
        Instruction::CONST { value: 3 },
        Instruction::STORE { rel: ValueRel::Arg, index: 0 },
        Instruction::LOAD { rel: ValueRel::Arg, index: 0 },
    ]);
    programs.push(vec![
        Instruction::CONST { value: 2 },
        Instruction::CONST { value: 2 },
        Instruction::CONST { value: 2 },
        Instruction::CONST { value: 2 },
        Instruction::BEGIN { args: 2, locals: 2 },
        Instruction::CONST { value: 3 },
        Instruction::STORE { rel: ValueRel::Local, index: 0 },
        Instruction::LOAD { rel: ValueRel::Local, index: 0 },
    ]);

    let expected_results: Vec<i64> = vec![0, 5, 3, 3];
    assert_eq!(programs.len(), expected_results.len());

    for (program, expected) in programs.into_iter().zip(expected_results) {
        let mut interp =
            Interpreter::new(Bytefile::new_dummy(), InterpreterOpts::new(false, false));
        interp.run_on_program(program).unwrap();
        let obj = interp.pop().unwrap();
        assert_eq!(obj.unwrap(), expected);
    }
}

#[test]
fn tests_test_drop() {
    let program = vec![
        Instruction::CONST { value: 2 },
        Instruction::CONST { value: 3 },
        Instruction::DROP,
    ];
    let mut interp = Interpreter::new(Bytefile::new_dummy(), InterpreterOpts::new(false, false));
    interp.run_on_program(program).unwrap();
    let obj = interp.pop().unwrap();
    assert_eq!(obj.unwrap(), 2);
}

#[test]
fn tests_test_dup() {
    let program = vec![
        Instruction::CONST { value: 2 },
        Instruction::CONST { value: 3 },
        Instruction::DUP,
    ];
    let mut interp = Interpreter::new(Bytefile::new_dummy(), InterpreterOpts::new(false, false));
    interp.run_on_program(program).unwrap();
    let (obj1, obj2) = (interp.pop().unwrap(), interp.pop().unwrap());
    assert_eq!(obj1.unwrap(), 3);
    assert_eq!(obj2.unwrap(), 3);
}

#[test]
fn tests_test_swap() {
    let program = vec![
        Instruction::CONST { value: 2 },
        Instruction::CONST { value: 3 },
        Instruction::SWAP,
    ];
    let mut interp = Interpreter::new(Bytefile::new_dummy(), InterpreterOpts::new(false, false));
    interp.run_on_program(program).unwrap();
    let (obj1, obj2) = (interp.pop().unwrap(), interp.pop().unwrap());
    assert_eq!(obj1.unwrap(), 2);
    assert_eq!(obj2.unwrap(), 3);
}

#[test]
fn tests_test_array() {
    let mut programs = Vec::new();
    programs.push(vec![
        Instruction::CONST { value: 2 },
        Instruction::CONST { value: 3 },
        Instruction::CALL { offset: None, n: Some(0), name: Some(Builtin::Barray), builtin: true },
        Instruction::DUP,
        Instruction::CALL { offset: None, n: None, name: Some(Builtin::Llength), builtin: true },
    ]);
    programs.push(vec![
        Instruction::CONST { value: 2 },
        Instruction::CONST { value: 3 },
        Instruction::CALL { offset: None, n: Some(2), name: Some(Builtin::Barray), builtin: true },
        Instruction::DUP,
        Instruction::CALL { offset: None, n: None, name: Some(Builtin::Llength), builtin: true },
    ]);

    let expected_results: Vec<Vec<i64>> = vec![vec![], vec![2, 3]];
    assert_eq!(programs.len(), expected_results.len());

    for (program, expected) in programs.into_iter().zip(expected_results) {
        let mut interp = Interpreter::new(Bytefile::new_dummy(), InterpreterOpts::new(false, true));
        interp.bf.put_string(b"main".to_vec());
        interp.run_on_program(program).unwrap();

        let (len, obj) = (interp.pop().unwrap(), interp.pop().unwrap());
        assert_eq!(len.unwrap() as usize, expected.len());
        let idx = obj.as_ptr().unwrap();
        for (i, &value) in expected.iter().enumerate() {
            let word = interp.heap.get_slot(idx, i);
            assert_eq!(lama_rs::object::unbox_word(word), value);
        }
    }
}

#[test]
fn tests_test_builtin_functions() {
    let mut programs = Vec::new();
    programs.push(vec![
        Instruction::CONST { value: 2 },
        Instruction::CONST { value: 3 },
        Instruction::CONST { value: 1 },
        Instruction::SEXP { s_index: 5, n_members: 0 },
        Instruction::SEXP { s_index: 0, n_members: 2 },
        Instruction::SEXP { s_index: 0, n_members: 2 },
        Instruction::DUP,
        Instruction::CALL { offset: None, n: None, name: Some(Builtin::Llength), builtin: true },
    ]);
    programs.push(vec![
        Instruction::STRING { index: 0 },
        Instruction::CALL { offset: None, n: None, name: Some(Builtin::Llength), builtin: true },
    ]);

    let expected_results: Vec<i64> = vec![2, 4];
    assert_eq!(programs.len(), expected_results.len());

    for (program, expected) in programs.into_iter().zip(expected_results) {
        let mut interp = Interpreter::new(Bytefile::new_dummy(), InterpreterOpts::new(false, true));
        interp.bf.put_string(b"Cons".to_vec());
        interp.bf.put_string(b"Nil".to_vec());
        interp.run_on_program(program).unwrap();
        let obj = interp.pop().unwrap();
        assert_eq!(obj.unwrap(), expected);
    }
}

#[test]
fn tests_test_conditional_jump() {
    let mut programs = Vec::new();
    programs.push(vec![
        Instruction::CONST { value: 1 },
        Instruction::CJMP { offset: 10, kind: CompareJumpKind::ISNONZERO },
        Instruction::CONST { value: 1 },
    ]);
    programs.push(vec![
        Instruction::CONST { value: 0 },
        Instruction::CJMP { offset: 10, kind: CompareJumpKind::ISNONZERO },
        Instruction::CONST { value: 1 },
    ]);
    programs.push(vec![
        Instruction::CONST { value: 1 },
        Instruction::CJMP { offset: 10, kind: CompareJumpKind::ISZERO },
        Instruction::CONST { value: 1 },
    ]);
    programs.push(vec![
        Instruction::CONST { value: 0 },
        Instruction::CJMP { offset: 10, kind: CompareJumpKind::ISZERO },
        Instruction::CONST { value: 1 },
    ]);

    let expected_results: Vec<usize> = vec![10, 0, 0, 10];
    assert_eq!(programs.len(), expected_results.len());

    for (program, expected) in programs.into_iter().zip(expected_results) {
        let mut interp = Interpreter::new(Bytefile::new_dummy(), InterpreterOpts::new(false, true));
        interp.run_on_program(program).unwrap();
        assert_eq!(interp.ip, expected);
    }
}

#[test]
fn tests_test_elem() {
    let mut programs = Vec::new();
    programs.push(vec![
        Instruction::CONST { value: 2 },
        Instruction::CONST { value: 3 },
        Instruction::CALL { offset: None, n: Some(2), name: Some(Builtin::Barray), builtin: true },
        Instruction::DUP,
        Instruction::CONST { value: 1 },
        Instruction::ELEM,
    ]);
    programs.push(vec![
        Instruction::CONST { value: 2 },
        Instruction::CONST { value: 3 },
        Instruction::CALL { offset: None, n: Some(2), name: Some(Builtin::Barray), builtin: true },
        Instruction::DUP,
        Instruction::CONST { value: 0 },
        Instruction::ELEM,
    ]);
    programs.push(vec![
        Instruction::CONST { value: 2 },
        Instruction::CONST { value: 3 },
        Instruction::STRING { index: 0 },
        Instruction::DUP,
        Instruction::CONST { value: 0 },
        Instruction::ELEM,
    ]);

    let expected_results: Vec<i64> = vec![3, 2, 109];
    assert_eq!(programs.len(), expected_results.len());

    for (program, expected) in programs.into_iter().zip(expected_results) {
        let mut interp = Interpreter::new(Bytefile::new_dummy(), InterpreterOpts::new(false, true));
        interp.bf.put_string(b"main".to_vec());
        interp.run_on_program(program).unwrap();
        let obj = interp.pop().unwrap();
        assert_eq!(obj.unwrap(), expected);
    }
}

#[test]
fn tests_test_invalid_elem() {
    let mut programs = Vec::new();
    programs.push(vec![
        Instruction::CONST { value: 2 },
        Instruction::CONST { value: 3 },
        Instruction::CALL { offset: None, n: Some(0), name: Some(Builtin::Barray), builtin: true },
        Instruction::DUP,
        Instruction::CONST { value: 1 },
        Instruction::ELEM,
    ]);
    programs.push(vec![
        Instruction::CONST { value: 2 },
        Instruction::CONST { value: 3 },
        Instruction::CALL { offset: None, n: Some(2), name: Some(Builtin::Barray), builtin: true },
        Instruction::DUP,
        Instruction::CONST { value: 3 },
        Instruction::ELEM,
    ]);

    let expected_results = vec![
        InterpreterError::OutOfBoundsAccess(1, 0),
        InterpreterError::OutOfBoundsAccess(3, 2),
    ];
    assert_eq!(programs.len(), expected_results.len());

    for (program, expected) in programs.into_iter().zip(expected_results) {
        let mut interp = Interpreter::new(Bytefile::new_dummy(), InterpreterOpts::new(false, true));
        interp.bf.put_string(b"main".to_vec());
        let result = interp.run_on_program(program);
        assert!(result.is_err());
        assert_eq!(result.unwrap_err(), expected);
    }
}

#[test]
fn tests_test_array_tag() {
    let mut programs = Vec::new();
    programs.push(vec![
        Instruction::CONST { value: 2 },
        Instruction::CONST { value: 3 },
        Instruction::CALL { offset: None, n: Some(0), name: Some(Builtin::Barray), builtin: true },
        Instruction::DUP,
        Instruction::ARRAY { n: 0 },
    ]);
    programs.push(vec![
        Instruction::CONST { value: 2 },
        Instruction::CONST { value: 3 },
        Instruction::CALL { offset: None, n: Some(2), name: Some(Builtin::Barray), builtin: true },
        Instruction::DUP,
        Instruction::ARRAY { n: 2 },
    ]);
    programs.push(vec![
        Instruction::CONST { value: 2 },
        Instruction::CONST { value: 3 },
        Instruction::CALL { offset: None, n: Some(2), name: Some(Builtin::Barray), builtin: true },
        Instruction::DUP,
        Instruction::ARRAY { n: 3 },
    ]);
    programs.push(vec![
        Instruction::CONST { value: 2 },
        Instruction::CONST { value: 3 },
        Instruction::ARRAY { n: 0 },
    ]);

    let expected_results: Vec<i64> = vec![1, 1, 0, 0];
    assert_eq!(programs.len(), expected_results.len());

    for (program, expected) in programs.into_iter().zip(expected_results) {
        let mut interp = Interpreter::new(Bytefile::new_dummy(), InterpreterOpts::new(false, true));
        interp.bf.put_string(b"main".to_vec());
        interp.run_on_program(program).unwrap();
        let obj = interp.pop().unwrap();
        assert_eq!(obj.unwrap(), expected);
    }
}


//! Tests for the word machine: the rotate-immediate encoder, the
//! emitter and decoder round trip, the executor, and the interpreter.

use belgium::assemble::{disassemble, encode_node, reassemble, Assemble, Decoded, DecodedOperand, Program};
use belgium::cpu::{encode_immediate, Comparison, Operand, WordNode, COUNTER, IMMEDIATE};
use belgium::eval::Eval;
use belgium::memory::Memory;
use belgium::storage::{iter, Storage};
use belgium::vm::execute;

fn fresh_stores(mem_size: usize) -> (Memory, Memory) {
    let mem = Memory::create(String::from("memory"), mem_size);
    let regs = Memory::create(String::from("register"), 18);
    (mem, regs)
}

fn run_to_halt(mem: &mut Memory, regs: &mut Memory) {
    loop {
        match execute(mem, regs) {
            Ok(true) => {}
            Ok(false) => break,
            Err(e) => panic!("runtime error: {}", e.message),
        }
    }
}

#[test]
fn byte_values_encode_with_rotation_zero() {
    for v in [0u32, 1, 128, 255] {
        assert_eq!(encode_immediate(v), Some(IMMEDIATE | v));
    }
}

#[test]
fn rotated_value_encodes_with_smallest_rotation() {
    // 256 is one bit above the byte range: only rotating left by 24
    // (rotation index 12) brings it back under 256.
    assert_eq!(encode_immediate(256), Some(IMMEDIATE | (12 << 8) | 1));
}

#[test]
fn unrepresentable_value_has_no_encoding() {
    assert_eq!(encode_immediate(257), None);
}

#[test]
fn mov_of_bad_number_reports_bad_number() {
    let prog = Program {
        nodes: vec![WordNode::Mov(0, Operand::Literal(257))],
        labels: vec![],
    };
    let (mut mem, _) = fresh_stores(8);
    let err = prog.assemble(&mut mem).unwrap_err();
    assert_eq!(err.message, "Bad number");
}

#[test]
fn branch_to_missing_label_reports_unknown_label() {
    let prog = Program {
        nodes: vec![WordNode::B(Comparison::Unset, String::from("nowhere"))],
        labels: vec![],
    };
    let (mut mem, _) = fresh_stores(8);
    let err = prog.assemble(&mut mem).unwrap_err();
    assert_eq!(err.message, "Unknown label nowhere");
}

#[test]
fn assembled_words_disassemble_and_reassemble_identically() {
    let labels = vec![(String::from("lbl"), 3usize)];
    let nodes = vec![
        WordNode::Ldr(1, 100),
        WordNode::Str(2, 7),
        WordNode::Add(3, 4, Operand::Literal(256)),
        WordNode::Sub(1, 2, Operand::Register(5)),
        WordNode::Mov(0, Operand::Literal(9)),
        WordNode::Cmp(1, Operand::Register(0)),
        WordNode::B(Comparison::Equal, String::from("lbl")),
        WordNode::And(1, 2, Operand::Literal(3)),
        WordNode::Orr(1, 2, Operand::Register(3)),
        WordNode::Eor(1, 2, Operand::Literal(0xFF)),
        WordNode::Mvn(4, Operand::Literal(1)),
        WordNode::Lsl(1, 1, Operand::Literal(4)),
        WordNode::Lsr(1, 1, Operand::Register(2)),
        WordNode::Halt,
    ];
    let prog = Program { nodes, labels };
    let mut mem = Memory::create(String::from("memory"), 32);
    prog.assemble(&mut mem).unwrap();
    for i in 0..14u32 {
        let w = mem.get(i).unwrap();
        let d = disassemble(w).unwrap_or_else(|| panic!("word {} did not disassemble", i));
        let back = reassemble(&d).unwrap();
        assert_eq!(back, w, "round trip failed at node {}", i);
    }
}

#[test]
fn disassemble_reads_the_packed_fields() {
    let prog = Program {
        nodes: vec![WordNode::Mov(2, Operand::Literal(256))],
        labels: vec![],
    };
    let mut mem = Memory::create(String::from("memory"), 4);
    prog.assemble(&mut mem).unwrap();
    let w = mem.get(0).unwrap();
    assert_eq!(disassemble(w), Some(Decoded::Mov(2, DecodedOperand::Immediate(256))));
}

#[test]
fn mov_then_add_computes_one() {
    let prog = Program {
        nodes: vec![
            WordNode::Mov(0, Operand::Literal(0)),
            WordNode::Add(0, 0, Operand::Literal(1)),
            WordNode::Halt,
        ],
        labels: vec![],
    };
    let (mut mem, mut regs) = fresh_stores(8);
    prog.assemble(&mut mem).unwrap();
    run_to_halt(&mut mem, &mut regs);
    assert_eq!(regs.get(0).unwrap(), 1);
}

#[test]
fn equal_comparison_takes_conditional_branch() {
    // cmp r0, #0 ; beq skip ; mov r0, #7 ; skip: halt
    let prog = Program {
        nodes: vec![
            WordNode::Cmp(0, Operand::Literal(0)),
            WordNode::B(Comparison::Equal, String::from("skip")),
            WordNode::Mov(0, Operand::Literal(7)),
            WordNode::Halt,
        ],
        labels: vec![(String::from("skip"), 3)],
    };
    let (mut mem, mut regs) = fresh_stores(8);
    prog.assemble(&mut mem).unwrap();
    run_to_halt(&mut mem, &mut regs);
    assert_eq!(regs.get(0).unwrap(), 0);
}

#[test]
fn branch_lands_on_label_position() {
    let prog = Program {
        nodes: vec![
            WordNode::B(Comparison::Unset, String::from("go")),
            WordNode::Halt,
            WordNode::Halt,
            WordNode::Mov(1, Operand::Literal(5)),
            WordNode::Halt,
        ],
        labels: vec![(String::from("go"), 3)],
    };
    let (mut mem, mut regs) = fresh_stores(8);
    prog.assemble(&mut mem).unwrap();
    // One step: the branch must set the counter to the label position.
    assert!(execute(&mut mem, &mut regs).unwrap());
    assert_eq!(regs.get(COUNTER).unwrap(), 3);
    run_to_halt(&mut mem, &mut regs);
    assert_eq!(regs.get(1).unwrap(), 5);
}

#[test]
fn store_and_load_round_memory() {
    // mov r1, #42 ; str r1, 6 ; ldr r2, 6 ; halt
    let prog = Program {
        nodes: vec![
            WordNode::Mov(1, Operand::Literal(42)),
            WordNode::Str(1, 6),
            WordNode::Ldr(2, 6),
            WordNode::Halt,
        ],
        labels: vec![],
    };
    let (mut mem, mut regs) = fresh_stores(8);
    prog.assemble(&mut mem).unwrap();
    run_to_halt(&mut mem, &mut regs);
    assert_eq!(regs.get(2).unwrap(), 42);
    assert_eq!(mem.get(6).unwrap(), 42);
}

#[test]
fn undefined_word_stops_execution() {
    let (mut mem, mut regs) = fresh_stores(4);
    // Word zero has no defined operation.
    match execute(&mut mem, &mut regs) {
        Err(e) => assert_eq!(e.message, "Unknown instruction"),
        other => panic!("expected an error, got {:?}", other.is_ok()),
    }
}

#[test]
fn eval_runs_the_syntax_tree_directly() {
    let nodes = vec![
        WordNode::Mov(0, Operand::Literal(3)),
        WordNode::Add(0, 0, Operand::Literal(4)),
        WordNode::Cmp(0, Operand::Literal(7)),
        WordNode::B(Comparison::Equal, String::from("done")),
        WordNode::Mov(1, Operand::Literal(99)),
        WordNode::Halt,
    ];
    let labels = vec![(String::from("done"), 5usize)];
    let (mut mem, mut regs) = fresh_stores(8);
    nodes.eval(&labels, &mut regs, &mut mem, 100).unwrap();
    assert_eq!(regs.get(0).unwrap(), 7);
    assert_eq!(regs.get(1).unwrap(), 0);
}

#[test]
fn eval_without_halt_runs_out_of_instructions() {
    let nodes = vec![WordNode::Mov(0, Operand::Literal(1))];
    let labels: Vec<(String, usize)> = vec![];
    let (mut mem, mut regs) = fresh_stores(4);
    let err = nodes.eval(&labels, &mut regs, &mut mem, 100).unwrap_err();
    assert_eq!(err.message, "Out of instructions");
}

#[test]
fn eval_with_spent_fuel_stops() {
    let nodes = vec![WordNode::B(Comparison::Unset, String::from("loop"))];
    let labels = vec![(String::from("loop"), 0usize)];
    let (mut mem, mut regs) = fresh_stores(4);
    let err = nodes.eval(&labels, &mut regs, &mut mem, 10).unwrap_err();
    assert_eq!(err.message, "Out of fuel");
}

#[test]
fn eval_bad_label_fails() {
    let nodes = vec![WordNode::B(Comparison::Unset, String::from("gone"))];
    let labels: Vec<(String, usize)> = vec![];
    let (mut mem, mut regs) = fresh_stores(4);
    let err = nodes.eval(&labels, &mut regs, &mut mem, 10).unwrap_err();
    assert_eq!(err.message, "Bad Label gone");
}

#[test]
fn storage_iter_lists_contents_in_order() {
    let mut mem = Memory::create(String::from("memory"), 3);
    mem.set(1, 11).unwrap();
    mem.set(2, 22).unwrap();
    let all = iter(&mem);
    assert_eq!(all, vec![(0, 0), (1, 11), (2, 22)]);
}

#[test]
fn memory_rejects_out_of_range_access() {
    let mut mem = Memory::create(String::from("memory"), 2);
    assert_eq!(mem.get(2).unwrap_err().message, "Invalid index 2 into memory");
    assert_eq!(mem.set(13, 1).unwrap_err().message, "Invalid index 13 into memory");
    assert_eq!(mem.count(), 2);
}

#[test]
fn eval_names_the_store_and_index_of_a_bad_register() {
    let nodes = vec![WordNode::Mov(20, Operand::Literal(1))];
    let labels: Vec<(String, usize)> = vec![];
    let (mut mem, mut regs) = fresh_stores(4);
    let err = nodes.eval(&labels, &mut regs, &mut mem, 10).unwrap_err();
    assert_eq!(err.message, "Invalid index 20 into register");
}

#[test]
fn execute_names_the_store_of_a_bad_fetch() {
    // An empty memory cannot even be fetched from.
    let mut mem = Memory::create(String::from("memory"), 0);
    let mut regs = Memory::create(String::from("register"), 18);
    let err = execute(&mut mem, &mut regs).unwrap_err();
    assert_eq!(err.message, "Invalid index 0 into memory");
}

#[test]
fn memory_journals_observed_writes_once_each() {
    let mut mem = Memory::create(String::from("memory"), 4);
    mem.set(0, 1).unwrap();
    assert_eq!(mem.take_events().len(), 0);
    mem.add_observer();
    mem.set(1, 5).unwrap();
    mem.set(1, 6).unwrap();
    let events = mem.take_events();
    assert_eq!(events.len(), 2);
    assert_eq!((events[0].idx, events[0].val), (1, 5));
    assert_eq!((events[1].idx, events[1].val), (1, 6));
}

#[test]
fn encode_node_packs_the_documented_fields() {
    let labels: Vec<(String, usize)> = vec![];
    assert_eq!(
        encode_node(&WordNode::Ldr(1, 100), &labels).unwrap(),
        0x0010_0000 | (1 << 16) | 100
    );
    assert_eq!(
        encode_node(&WordNode::Add(3, 4, Operand::Register(5)), &labels).unwrap(),
        0x0040_0000 | (4 << 16) | (3 << 12) | 5
    );
    assert_eq!(encode_node(&WordNode::Halt, &labels).unwrap(), 0x00F0_0000);
}

#[test]
fn words_the_encoder_cannot_produce_do_not_disassemble() {
    // A condition code on a non-branch operation.
    assert_eq!(disassemble(0x1040_0000), None);
    // The indirect flag, which the emitter never sets.
    assert_eq!(disassemble(0x0210_0000), None);
    // An undefined operation nibble.
    assert_eq!(disassemble(0x0000_0007), None);
    // Stray bits around a halt.
    assert_eq!(disassemble(0x00F0_0001), None);
}

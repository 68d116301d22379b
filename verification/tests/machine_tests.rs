//! Scenario tests for the byte machine: the ALU flag contract, the
//! stack discipline, branches, subroutines, and change observation.

use belgium::machine::{Machine, Response, COUNTER, SP, STATUS};

fn run_steps(machine: &mut Machine, n: usize) {
    for _ in 0..n {
        match machine.step(None) {
            Ok(Response::Normal) => {}
            other => panic!("unexpected response: {:?}", other),
        }
    }
}

#[test]
fn ldi_then_add_gives_one_with_clear_flags() {
    // ldi r0, 0 ; ldi r1, 1 ; add r1 -> r0
    let mut m = Machine::new();
    m.set_mem(0, 0b1101_0000); // ldi r0
    m.set_mem(1, 0);
    m.set_mem(2, 0b1101_0001); // ldi r1
    m.set_mem(3, 1);
    m.set_mem(4, 0b0001_0100); // add r1, r0
    run_steps(&mut m, 3);
    assert_eq!(m.reg(0).unwrap(), 1);
    assert!(!m.z());
    assert!(!m.n());
    assert!(!m.c());
    assert!(!m.v());
}

#[test]
fn inc_wraps_to_zero_with_carry_and_zero_flags() {
    // ldi r0, 0xFF ; inc r0
    let mut m = Machine::new();
    m.set_mem(0, 0b1101_0000);
    m.set_mem(1, 0xFF);
    m.set_mem(2, 0b1000_1100); // inc r0
    run_steps(&mut m, 2);
    assert_eq!(m.reg(0).unwrap(), 0);
    assert!(m.c());
    assert!(m.z());
    assert!(!m.n());
    assert!(!m.v());
}

#[test]
fn cmp_equal_takes_beq() {
    // cmp r0, r0 ; beq 9
    let mut m = Machine::new();
    m.set_mem(0, 0b0111_0000); // cmp r0, r0
    m.set_mem(1, 0b1110_0000); // beq
    m.set_mem(2, 9);
    run_steps(&mut m, 2);
    assert_eq!(m.reg(COUNTER).unwrap(), 9);
}

#[test]
fn push_then_pop_restores_register_and_stack_pointer() {
    // ldi r0, 5 ; push r0 ; ldi r0, 7 ; pop r0
    let mut m = Machine::new();
    m.set_mem(0, 0b1101_0000);
    m.set_mem(1, 5);
    m.set_mem(2, 0b1100_0000); // push r0
    m.set_mem(3, 0b1101_0000);
    m.set_mem(4, 7);
    m.set_mem(5, 0b1100_0100); // pop r0
    run_steps(&mut m, 4);
    assert_eq!(m.reg(0).unwrap(), 5);
    assert_eq!(m.reg(SP).unwrap(), 0);
}

#[test]
fn halt_stops_after_one_step_changing_nothing() {
    let mut m = Machine::new();
    m.set_mem(0, 0b1101_0100); // halt
    match m.step(None) {
        Ok(Response::Halt) => {}
        other => panic!("expected halt, got {:?}", other),
    }
    for i in 0..7 {
        assert_eq!(m.reg(i).unwrap(), 0);
    }
}

#[test]
fn move_updates_zero_and_negative_from_value() {
    // ldi r1, 0x80 ; move r1 -> r0
    let mut m = Machine::new();
    m.set_mem(0, 0b1101_0001);
    m.set_mem(1, 0x80);
    m.set_mem(2, 0b0000_0100); // move r1, r0
    run_steps(&mut m, 2);
    assert_eq!(m.reg(0).unwrap(), 0x80);
    assert!(m.n());
    assert!(!m.z());
    assert!(!m.c());
    assert!(!m.v());
}

#[test]
fn sub_equal_values_sets_zero_and_carry() {
    // ldi r0, 9 ; ldi r1, 9 ; sub r1, r0  (r0 <- r1 - r0 convention: left + !right + 1)
    let mut m = Machine::new();
    m.set_mem(0, 0b1101_0000);
    m.set_mem(1, 9);
    m.set_mem(2, 0b1101_0001);
    m.set_mem(3, 9);
    m.set_mem(4, 0b0011_0100); // sub r1, r0
    run_steps(&mut m, 3);
    assert_eq!(m.reg(0).unwrap(), 0);
    assert!(m.z());
    assert!(m.c());
}

#[test]
fn shifts_move_bits_and_carry() {
    // ldi r0, 0b1000_0001 ; shr r0
    let mut m = Machine::new();
    m.set_mem(0, 0b1101_0000);
    m.set_mem(1, 0b1000_0001);
    m.set_mem(2, 0b1001_0000); // shr r0
    run_steps(&mut m, 2);
    assert_eq!(m.reg(0).unwrap(), 0b0100_0000);
    assert!(m.c());
}

#[test]
fn rol_rotates_top_bit_around() {
    let mut m = Machine::new();
    m.set_mem(0, 0b1101_0000);
    m.set_mem(1, 0b1000_0000);
    m.set_mem(2, 0b1001_1100); // rol r0
    run_steps(&mut m, 2);
    assert_eq!(m.reg(0).unwrap(), 1);
    assert!(m.c());
}

#[test]
fn jsr_jumps_and_rts_returns() {
    // jsr 5 ; (return lands at 2) ... at 5: rts
    let mut m = Machine::new();
    m.set_mem(0, 0b1101_0110); // jsr
    m.set_mem(1, 5);
    m.set_mem(5, 0b1101_0111); // rts
    run_steps(&mut m, 1);
    assert_eq!(m.reg(COUNTER).unwrap(), 5);
    run_steps(&mut m, 1);
    assert_eq!(m.reg(COUNTER).unwrap(), 2);
    assert_eq!(m.reg(SP).unwrap(), 0);
}

#[test]
fn store_writes_register_to_low_memory() {
    // ldi r1, 42 ; st r0, r1 writes memory[0] from r1
    let mut m = Machine::new();
    m.set_mem(0, 0b1101_0001);
    m.set_mem(1, 42);
    m.set_mem(2, 0b1010_0001); // st r0, r1
    run_steps(&mut m, 2);
    assert_eq!(m.mem(0), 42);
}

#[test]
fn unknown_instruction_reports_error() {
    let mut m = Machine::new();
    m.set_mem(0, 0b1101_1100); // undefined extended sub-opcode
    match m.step(None) {
        Err(Response::UnknownInstruction) => {}
        other => panic!("expected unknown instruction, got {:?}", other),
    }
}

#[test]
fn bad_register_is_rejected() {
    let m = Machine::new();
    assert!(m.reg(7).is_err());
    let mut m = Machine::new();
    assert!(m.set_reg(9, 1).is_err());
}

#[test]
fn observers_see_each_successful_set_once() {
    let mut m = Machine::new();
    m.add_mem_observer();
    m.set_mem(3, 7);
    m.set_mem(3, 8);
    let events = m.take_mem_events();
    assert_eq!(events.len(), 2);
    assert_eq!((events[0].idx, events[0].val), (3, 7));
    assert_eq!((events[1].idx, events[1].val), (3, 8));
    // Drained: nothing left.
    assert_eq!(m.take_mem_events().len(), 0);
}

#[test]
fn unobserved_sets_are_not_journaled() {
    let mut m = Machine::new();
    m.set_mem(3, 7);
    assert_eq!(m.take_mem_events().len(), 0);
    m.add_reg_observer();
    m.set_reg(1, 4).unwrap();
    let events = m.take_reg_events();
    assert_eq!(events.len(), 1);
    assert_eq!((events[0].idx, events[0].val), (1, 4));
}

#[test]
fn stack_push_and_pop_wrap_downward() {
    let mut m = Machine::new();
    m.stack_push(42).unwrap();
    assert_eq!(m.reg(SP).unwrap(), 255);
    assert_eq!(m.mem(255), 42);
    assert_eq!(m.stack_pop().unwrap(), 42);
    assert_eq!(m.reg(SP).unwrap(), 0);
}

#[test]
fn pushall_and_popall_move_all_four_registers() {
    let mut m = Machine::new();
    for i in 0..4 {
        m.set_reg(i, 10 + i).unwrap();
    }
    m.set_mem(0, 0b1100_1110); // pushall
    run_steps(&mut m, 1);
    assert_eq!(m.reg(SP).unwrap(), 252);
    for i in 0..4 {
        m.set_reg(i, 0).unwrap();
    }
    m.set_mem(1, 0b1100_1111); // popall
    run_steps(&mut m, 1);
    for i in 0..4 {
        assert_eq!(m.reg(i).unwrap(), 10 + i);
    }
    assert_eq!(m.reg(SP).unwrap(), 0);
}

#[test]
fn status_flag_accessors_read_their_bits() {
    let mut m = Machine::new();
    m.set_reg(STATUS, 0b1000_1111).unwrap();
    assert!(m.c());
    assert!(m.v());
    assert!(m.z());
    assert!(m.n());
    assert!(m.interrupt_enable());
    assert_eq!(m.status(), 0b1000_1111);
}

#[test]
fn iter_mem_lists_every_cell() {
    let mut m = Machine::new();
    m.set_mem(10, 99);
    let cells = m.iter_mem();
    assert_eq!(cells.len(), 256);
    assert_eq!(cells[10], (10, 99));
    assert_eq!(cells[0], (0, 0));
}

#[test]
fn injected_interrupt_enters_and_rti_returns() {
    let mut m = Machine::new();
    m.set_reg(STATUS, 0b1000_0000).unwrap(); // enable interrupts
    m.set_mem(0, 0b1101_1000); // ioi
    m.set_mem(0xF0, 0x20); // vector table: handler address
    m.set_mem(0xF1, 0b1000_0000); // vector table: handler status
    m.set_mem(0x20, 0b1101_1001); // rti
    match m.step(Some(0)) {
        Ok(Response::Normal) => {}
        other => panic!("unexpected response: {:?}", other),
    }
    assert_eq!(m.reg(COUNTER).unwrap(), 0x20);
    assert_eq!(m.reg(SP).unwrap(), 254);
    assert_eq!(m.status(), 0b1000_0000);
    // The stack holds the interrupted counter and status.
    assert_eq!(m.mem(255), 0);
    assert_eq!(m.mem(254), 0b1000_0000);
    match m.step(None) {
        Ok(Response::Normal) => {}
        other => panic!("unexpected response: {:?}", other),
    }
    assert_eq!(m.reg(COUNTER).unwrap(), 0);
    assert_eq!(m.reg(SP).unwrap(), 0);
}

#[test]
fn ioi_with_interrupts_disabled_does_nothing() {
    let mut m = Machine::new();
    m.set_mem(0, 0b1101_1000); // ioi
    match m.step(None) {
        Ok(Response::Normal) => {}
        other => panic!("unexpected response: {:?}", other),
    }
    assert_eq!(m.reg(COUNTER).unwrap(), 1);
    assert_eq!(m.reg(SP).unwrap(), 0);
}

#[test]
fn wait_stops_the_run() {
    let mut m = Machine::new();
    m.set_mem(0, 0b1101_0101); // wait
    match m.step(None) {
        Ok(Response::Wait) => {}
        other => panic!("expected wait, got {:?}", other),
    }
}

#[test]
fn default_machine_matches_a_fresh_one() {
    let m = Machine::default();
    assert_eq!(m.reg(0).unwrap(), 0);
    assert_eq!(m.mem(255), 0);
    assert_eq!(m.status(), 0);
}

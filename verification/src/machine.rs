//! The byte machine: 256 bytes of memory, seven registers, and a
//! single-step fetch-decode-execute core.
//!
//! The machine's abstract state is [`MState`]: the memory and register
//! contents as sequences of bytes. Every mutating operation is
//! specified as a pure transformation of that state, and [`Machine::step`]
//! is proved to implement the transition function [`spec_step`].
//!
//! Change observation: hosts attach observers conceptually by turning
//! on journaling ([`Machine::add_mem_observer`], [`Machine::add_reg_observer`]).
//! While journaling is on, every successful write appends exactly one
//! [`ChangeEvent`] carrying the written value; the host drains the
//! journal and forwards each event to its [`Observer`]s.

use vstd::prelude::*;

use crate::alu::{spec_alu_step, ALU};
use crate::opcodes::{
    spec_op1, spec_op2, spec_operation, spec_subop, BEQ_BZ, OPERATION, BGE, BGT, BHI, BHS_BCS, BLE, BLO_BCC,
    BLS, BLT, BMI, BNE_BNZ, BPL, BR, BVC, BVS, LDI_INTERRUPT, NOP, OP_BRANCH, OP_CRC, OP_HALT,
    OP_IOI, OP_JSR, OP_LDI_0, OP_LDI_1, OP_LDI_2, OP_LDI_3, OP_LOAD, OP_LOAD_C, OP_OSIX, OP_RAND,
    OP_RTI, OP_RTS, OP_STACK, OP_STORE, OP_WAIT,
};
use crate::stack::spec_stack_step;

verus! {

/// Number of memory cells.
pub const MEM_SIZE: usize = 256;

/// Number of registers: four general purpose plus three special.
pub const REG_SIZE: u8 = 7;

/// Register index of the program counter.
pub const COUNTER: u8 = 4;

/// Register index of the status register.
pub const STATUS: u8 = 5;

/// Register index of the stack pointer.
pub const SP: u8 = 6;

/// Outcome of a machine step, or the failure that stopped it.
#[derive(Clone, Copy, PartialEq, Eq, Structural, Debug)]
pub enum Response {
    /// The instruction completed and the machine can continue.
    Normal,
    /// A `halt` instruction was reached.
    Halt,
    /// A `wait` instruction was reached.
    Wait,
    /// The instruction byte has no defined meaning.
    UnknownInstruction,
    /// A register index outside the register file was used.
    BadRegister,
}

/// One observed write: the index written and the value it now holds.
#[derive(Clone, Copy, PartialEq, Eq, Structural, Debug)]
pub struct ChangeEvent {
    pub idx: u8,
    pub val: u8,
}

/// A sink for change events. The machine itself only journals events
/// (see [`Machine::add_mem_observer`]); a host forwards each journaled
/// event to every observer it holds, so observers run entirely outside
/// the core.
pub trait Observer<T> {
    /// Called once for each observed change.
    fn notify(&self, evt: T);
}

/// The abstract state of the byte machine.
pub ghost struct MState {
    /// Contents of the 256 memory cells.
    pub mem: Seq<u8>,
    /// Contents of the seven registers.
    pub regs: Seq<u8>,
}

/// Addition of bytes, wrapping modulo 256.
pub open spec fn wadd(a: u8, b: u8) -> u8 {
    if a + b > 255 {
        (a + b - 256) as u8
    } else {
        (a + b) as u8
    }
}

/// Subtraction of bytes, wrapping modulo 256.
pub open spec fn wsub(a: u8, b: u8) -> u8 {
    if a < b {
        (a - b + 256) as u8
    } else {
        (a - b) as u8
    }
}

impl MState {
    /// The state has the fixed memory and register file sizes.
    pub open spec fn wf(self) -> bool {
        self.mem.len() == MEM_SIZE && self.regs.len() == REG_SIZE
    }

    /// The memory byte at address `a`.
    pub open spec fn m(self, a: u8) -> u8 {
        self.mem[a as int]
    }

    /// The register `i`.
    pub open spec fn r(self, i: u8) -> u8 {
        self.regs[i as int]
    }

    /// The state with memory cell `a` set to `v`.
    pub open spec fn with_mem(self, a: u8, v: u8) -> MState {
        MState { mem: self.mem.update(a as int, v), regs: self.regs }
    }

    /// The state with register `i` set to `v`.
    pub open spec fn with_reg(self, i: u8, v: u8) -> MState {
        MState { mem: self.mem, regs: self.regs.update(i as int, v) }
    }

    /// The program counter.
    pub open spec fn pc(self) -> u8 {
        self.r(COUNTER)
    }

    /// The state with the program counter advanced by one, wrapping.
    pub open spec fn advanced(self) -> MState {
        self.with_reg(COUNTER, wadd(self.pc(), 1))
    }

    /// The carry flag.
    pub open spec fn c(self) -> bool {
        self.r(STATUS) & 0b0000_1000 != 0
    }

    /// The overflow flag.
    pub open spec fn v(self) -> bool {
        self.r(STATUS) & 0b0000_0100 != 0
    }

    /// The zero flag.
    pub open spec fn z(self) -> bool {
        self.r(STATUS) & 0b0000_0010 != 0
    }

    /// The negative flag.
    pub open spec fn n(self) -> bool {
        self.r(STATUS) & 0b0000_0001 != 0
    }

    /// The interrupt-enable flag.
    pub open spec fn interrupt_enable(self) -> bool {
        self.r(STATUS) & 0b1000_0000 != 0
    }

    /// The state after pushing `v`: the stack pointer moves down one
    /// cell and the pushed value is written there.
    pub open spec fn pushed(self, v: u8) -> MState {
        self.with_reg(SP, wsub(self.r(SP), 1)).with_mem(wsub(self.r(SP), 1), v)
    }

    /// The value a pop returns: the byte the stack pointer points at.
    pub open spec fn pop_value(self) -> u8 {
        self.m(self.r(SP))
    }

    /// The state after popping: the stack pointer moves up one cell.
    pub open spec fn popped(self) -> MState {
        self.with_reg(SP, wadd(self.r(SP), 1))
    }
}

/// The byte machine.
pub struct Machine {
    memory: Vec<u8>,
    registers: Vec<u8>,
    mem_log: Vec<ChangeEvent>,
    reg_log: Vec<ChangeEvent>,
    mem_observed: bool,
    reg_observed: bool,
}

impl View for Machine {
    type V = MState;

    closed spec fn view(&self) -> MState {
        MState { mem: self.memory@, regs: self.registers@ }
    }
}

impl Default for Machine {
    /// The same machine [`Machine::new`] builds.
    fn default() -> (r: Self)
        ensures
            r@.wf(),
            r@.mem == Seq::new(MEM_SIZE as nat, |i: int| 0u8),
            r@.regs == Seq::new(REG_SIZE as nat, |i: int| 0u8),
            r.mem_events() == Seq::<ChangeEvent>::empty(),
            r.reg_events() == Seq::<ChangeEvent>::empty(),
            !r.mem_observed(),
            !r.reg_observed(),
    {
        Self::new()
    }
}

impl Machine {
    /// The journal of memory change events not yet drained.
    pub closed spec fn mem_events(self) -> Seq<ChangeEvent> {
        self.mem_log@
    }

    /// The journal of register change events not yet drained.
    pub closed spec fn reg_events(self) -> Seq<ChangeEvent> {
        self.reg_log@
    }

    /// Whether memory changes are being journaled.
    pub closed spec fn mem_observed(self) -> bool {
        self.mem_observed
    }

    /// Whether register changes are being journaled.
    pub closed spec fn reg_observed(self) -> bool {
        self.reg_observed
    }

    /// Journals may have grown at the end but lose nothing, and the
    /// observation switches are unchanged.
    pub open spec fn logs_extended(self, other: Machine) -> bool {
        &&& self.mem_events().len() <= other.mem_events().len()
        &&& forall|i: int|
            0 <= i < self.mem_events().len() ==> self.mem_events()[i] == other.mem_events()[i]
        &&& self.reg_events().len() <= other.reg_events().len()
        &&& forall|i: int|
            0 <= i < self.reg_events().len() ==> self.reg_events()[i] == other.reg_events()[i]
        &&& self.mem_observed() == other.mem_observed()
        &&& self.reg_observed() == other.reg_observed()
    }

    /// A fresh machine: all memory cells and registers hold zero, no
    /// observers are attached, and the journals are empty.
    pub fn new() -> (r: Self)
        ensures
            r@.wf(),
            r@.mem == Seq::new(MEM_SIZE as nat, |i: int| 0u8),
            r@.regs == Seq::new(REG_SIZE as nat, |i: int| 0u8),
            r.mem_events() == Seq::<ChangeEvent>::empty(),
            r.reg_events() == Seq::<ChangeEvent>::empty(),
            !r.mem_observed(),
            !r.reg_observed(),
    {
        let mut memory: Vec<u8> = Vec::new();
        let mut i: usize = 0;
        while i < MEM_SIZE
            invariant
                i <= MEM_SIZE,
                memory@.len() == i,
                forall|k: int| 0 <= k < i ==> memory@[k] == 0u8,
            decreases MEM_SIZE - i,
        {
            memory.push(0);
            i = i + 1;
        }
        let mut registers: Vec<u8> = Vec::new();
        let mut j: usize = 0;
        while j < REG_SIZE as usize
            invariant
                j <= REG_SIZE as usize,
                registers@.len() == j,
                forall|k: int| 0 <= k < j ==> registers@[k] == 0u8,
            decreases REG_SIZE as usize - j,
        {
            registers.push(0);
            j = j + 1;
        }
        let r = Self {
            memory,
            registers,
            mem_log: Vec::new(),
            reg_log: Vec::new(),
            mem_observed: false,
            reg_observed: false,
        };
        proof {
            assert(r@.mem =~= Seq::new(MEM_SIZE as nat, |i: int| 0u8));
            assert(r@.regs =~= Seq::new(REG_SIZE as nat, |i: int| 0u8));
        }
        r
    }

    /// Attach a memory observer: turns on journaling of memory writes.
    pub fn add_mem_observer(&mut self)
        ensures
            final(self)@ == old(self)@,
            final(self).mem_observed(),
            final(self).reg_observed() == old(self).reg_observed(),
            final(self).mem_events() == old(self).mem_events(),
            final(self).reg_events() == old(self).reg_events(),
    {
        self.mem_observed = true;
    }

    /// Attach a register observer: turns on journaling of register
    /// writes.
    pub fn add_reg_observer(&mut self)
        ensures
            final(self)@ == old(self)@,
            final(self).reg_observed(),
            final(self).mem_observed() == old(self).mem_observed(),
            final(self).mem_events() == old(self).mem_events(),
            final(self).reg_events() == old(self).reg_events(),
    {
        self.reg_observed = true;
    }

    /// Drain the journal of memory change events, in the order the
    /// writes happened.
    pub fn take_mem_events(&mut self) -> (r: Vec<ChangeEvent>)
        ensures
            r@ == old(self).mem_events(),
            final(self)@ == old(self)@,
            final(self).mem_events() == Seq::<ChangeEvent>::empty(),
            final(self).reg_events() == old(self).reg_events(),
            final(self).mem_observed() == old(self).mem_observed(),
            final(self).reg_observed() == old(self).reg_observed(),
    {
        let mut taken: Vec<ChangeEvent> = Vec::new();
        core::mem::swap(&mut taken, &mut self.mem_log);
        taken
    }

    /// Drain the journal of register change events, in the order the
    /// writes happened.
    pub fn take_reg_events(&mut self) -> (r: Vec<ChangeEvent>)
        ensures
            r@ == old(self).reg_events(),
            final(self)@ == old(self)@,
            final(self).reg_events() == Seq::<ChangeEvent>::empty(),
            final(self).mem_events() == old(self).mem_events(),
            final(self).mem_observed() == old(self).mem_observed(),
            final(self).reg_observed() == old(self).reg_observed(),
    {
        let mut taken: Vec<ChangeEvent> = Vec::new();
        core::mem::swap(&mut taken, &mut self.reg_log);
        taken
    }

    /// Write a memory cell. While a memory observer is attached,
    /// journals exactly one event holding the written value.
    pub fn set_mem(&mut self, i: u8, v: u8)
        requires
            old(self)@.wf(),
        ensures
            final(self)@ == old(self)@.with_mem(i, v),
            final(self)@.wf(),
            final(self).mem_events() == if old(self).mem_observed() {
                old(self).mem_events().push(ChangeEvent { idx: i, val: v })
            } else {
                old(self).mem_events()
            },
            final(self).reg_events() == old(self).reg_events(),
            final(self).mem_observed() == old(self).mem_observed(),
            final(self).reg_observed() == old(self).reg_observed(),
    {
        self.memory.set(i as usize, v);
        if self.mem_observed {
            self.mem_log.push(ChangeEvent { idx: i, val: v });
        }
    }

    /// Read a memory cell.
    pub fn mem(&self, i: u8) -> (r: u8)
        requires
            self@.wf(),
        ensures
            r == self@.m(i),
    {
        self.memory[i as usize]
    }

    /// Write a register. Fails, changing nothing, exactly when `i` is
    /// not a register of the file. While a register observer is
    /// attached, a successful write journals exactly one event holding
    /// the written value.
    pub fn set_reg(&mut self, i: u8, v: u8) -> (r: Result<(), Response>)
        requires
            old(self)@.wf(),
        ensures
            i < REG_SIZE ==> r == Ok::<(), Response>(()) && final(self)@ == old(self)@.with_reg(
                i,
                v,
            ),
            i >= REG_SIZE ==> r == Err::<(), Response>(Response::BadRegister) && final(self)@
                == old(self)@,
            final(self)@.wf(),
            final(self).reg_events() == if i < REG_SIZE && old(self).reg_observed() {
                old(self).reg_events().push(ChangeEvent { idx: i, val: v })
            } else {
                old(self).reg_events()
            },
            final(self).mem_events() == old(self).mem_events(),
            final(self).mem_observed() == old(self).mem_observed(),
            final(self).reg_observed() == old(self).reg_observed(),
    {
        if i >= REG_SIZE {
            Err(Response::BadRegister)
        } else {
            self.registers.set(i as usize, v);
            if self.reg_observed {
                self.reg_log.push(ChangeEvent { idx: i, val: v });
            }
            Ok(())
        }
    }

    /// Read a register. Fails exactly when `i` is not a register of
    /// the file.
    pub fn reg(&self, i: u8) -> (r: Result<u8, Response>)
        requires
            self@.wf(),
        ensures
            i < REG_SIZE ==> r == Ok::<u8, Response>(self@.r(i)),
            i >= REG_SIZE ==> r == Err::<u8, Response>(Response::BadRegister),
    {
        if i >= REG_SIZE {
            Err(Response::BadRegister)
        } else {
            Ok(self.registers[i as usize])
        }
    }

    /// Advance the program counter by one, wrapping at the end of the
    /// address space.
    pub(crate) fn advance_counter(&mut self) -> (r: Result<(), Response>)
        requires
            old(self)@.wf(),
        ensures
            r == Ok::<(), Response>(()),
            final(self)@ == old(self)@.advanced(),
            final(self)@.wf(),
            old(self).logs_extended(*final(self)),
            final(self).mem_events() == old(self).mem_events(),
    {
        let current = match self.reg(COUNTER) {
            Ok(c) => c,
            Err(e) => { return Err(e) },
        };
        let r = self.set_reg(COUNTER, current.wrapping_add(1));
        proof {
            assert(wadd(old(self)@.pc(), 1) == vstd::wrapping::u8_specs::wrapping_add(
                old(self)@.pc(),
                1,
            ));
        }
        r
    }

    /// The status register, holding the interrupt-enable bit and the
    /// C, V, Z and N flags in its low nibble.
    pub fn status(&self) -> (r: u8)
        requires
            self@.wf(),
        ensures
            r == self@.r(STATUS),
    {
        self.registers[STATUS as usize]
    }

    /// The carry flag.
    pub fn c(&self) -> (r: bool)
        requires
            self@.wf(),
        ensures
            r == self@.c(),
    {
        self.status() & 0b0000_1000 != 0
    }

    /// The overflow flag.
    pub fn v(&self) -> (r: bool)
        requires
            self@.wf(),
        ensures
            r == self@.v(),
    {
        self.status() & 0b0000_0100 != 0
    }

    /// The zero flag.
    pub fn z(&self) -> (r: bool)
        requires
            self@.wf(),
        ensures
            r == self@.z(),
    {
        self.status() & 0b0000_0010 != 0
    }

    /// The negative flag.
    pub fn n(&self) -> (r: bool)
        requires
            self@.wf(),
        ensures
            r == self@.n(),
    {
        self.status() & 0b0000_0001 != 0
    }

    /// The interrupt-enable flag.
    pub fn interrupt_enable(&self) -> (r: bool)
        requires
            self@.wf(),
        ensures
            r == self@.interrupt_enable(),
    {
        self.status() & 0b1000_0000 != 0
    }

    /// All memory cells with their addresses, in address order.
    pub fn iter_mem(&self) -> (r: Vec<(u8, u8)>)
        requires
            self@.wf(),
        ensures
            r@.len() == MEM_SIZE,
            forall|k: int| 0 <= k < MEM_SIZE ==> r@[k] == (k as u8, self@.mem[k]),
    {
        let mut out: Vec<(u8, u8)> = Vec::new();
        let mut i: usize = 0;
        while i < MEM_SIZE
            invariant
                self@.wf(),
                i <= MEM_SIZE,
                out@.len() == i,
                forall|k: int| 0 <= k < i ==> out@[k] == (k as u8, self@.mem[k]),
            decreases MEM_SIZE - i,
        {
            out.push((i as u8, self.memory[i]));
            i = i + 1;
        }
        out
    }

    /// Execute one branch-class instruction: the byte after the
    /// opcode is the target, taken when the condition code holds of
    /// the status flags.
    pub fn handle_branch(&mut self, instruction: u8) -> (r: Result<(), Response>)
        requires
            old(self)@.wf(),
        ensures
            r is Ok,
            final(self)@ == spec_branch_step(old(self)@, instruction),
            final(self)@.wf(),
            old(self).logs_extended(*final(self)),
            final(self).mem_events() == old(self).mem_events(),
    {
        let z = self.z();
        let c = self.c();
        let n = self.n();
        let v = self.v();

        self.advance_counter()?;

        let pc = match self.reg(COUNTER) {
            Ok(x) => x,
            Err(e) => { return Err(e) },
        };
        let address = self.mem(pc);

        let cond = instruction & 0b0000_1111;
        let jump = if cond == BEQ_BZ {
            z
        } else if cond == BNE_BNZ {
            !z
        } else if cond == BHS_BCS {
            c
        } else if cond == BLO_BCC {
            !c
        } else if cond == BMI {
            n
        } else if cond == BPL {
            !n
        } else if cond == BVS {
            v
        } else if cond == BVC {
            !v
        } else if cond == BHI {
            c && !z
        } else if cond == BLS {
            !c || z
        } else if cond == BGE {
            (v && n) || (!v && !z && !n) || z
        } else if cond == BLT {
            (!v && n) || (v && !z && !n)
        } else if cond == BGT {
            (v && n) || (!v && !z && !n)
        } else if cond == BLE {
            z || (!v && n) || (v && !z && !n)
        } else if cond == BR {
            true
        } else {
            // NOP
            false
        };

        if jump {
            self.set_reg(COUNTER, address.wrapping_sub(1))?;
        }
        Ok(())
    }

    /// Execute one of the interrupt-class instructions: software
    /// interrupt entry (`ioi`), interrupt return (`rti`), or the
    /// supervisor call (`osix`).
    pub fn handle_interrupt(&mut self, instruction: u8, interrupt: Option<u8>) -> (r: Result<
        (),
        Response,
    >)
        requires
            old(self)@.wf(),
            spec_subop(instruction) == OP_IOI || spec_subop(instruction) == OP_RTI || spec_subop(
                instruction,
            ) == OP_OSIX,
        ensures
            r is Ok,
            final(self)@ == spec_interrupt_step(old(self)@, instruction, interrupt),
            final(self)@.wf(),
            old(self).logs_extended(*final(self)),
    {
        let sub = instruction & 0b0000_1111;
        if sub == OP_IOI {
            if self.interrupt_enable() {
                let vector = match interrupt {
                    Some(vector) => vector,
                    None => {
                        self.advance_counter()?;
                        0
                    },
                };
                let pc = match self.reg(COUNTER) {
                    Ok(x) => x,
                    Err(e) => { return Err(e) },
                };
                self.stack_push(pc)?;
                let twice = vector.wrapping_add(vector);
                let new_pc = self.mem(0xF0u8.wrapping_add(twice));
                self.set_reg(COUNTER, new_pc)?;

                let status = match self.reg(STATUS) {
                    Ok(x) => x,
                    Err(e) => { return Err(e) },
                };
                self.stack_push(status)?;
                let new_status = self.mem(0xF1u8.wrapping_add(twice));
                self.set_reg(STATUS, new_status)?;

                let pc2 = match self.reg(COUNTER) {
                    Ok(x) => x,
                    Err(e) => { return Err(e) },
                };
                self.set_reg(COUNTER, pc2.wrapping_sub(1))?;
            }
            Ok(())
        } else if sub == OP_RTI {
            let status = self.stack_pop()?;
            self.set_reg(STATUS, status)?;

            let counter = self.stack_pop()?;
            self.set_reg(COUNTER, counter)?;

            self.set_reg(COUNTER, counter.wrapping_sub(1))?;
            Ok(())
        } else {
            // OP_OSIX
            if self.interrupt_enable() {
                self.advance_counter()?;
                let pc = match self.reg(COUNTER) {
                    Ok(x) => x,
                    Err(e) => { return Err(e) },
                };
                let new_ps = self.mem(pc) | (self.mem(0xF1) & 0b1000_0000);
                self.advance_counter()?;

                let pc2 = match self.reg(COUNTER) {
                    Ok(x) => x,
                    Err(e) => { return Err(e) },
                };
                self.stack_push(pc2)?;
                let entry = self.mem(0xF0);
                self.set_reg(COUNTER, entry)?;

                let enable = self.mem(0xF1) & 0b1000_0000;
                let status = match self.reg(STATUS) {
                    Ok(x) => x,
                    Err(e) => { return Err(e) },
                };
                self.stack_push(status)?;
                self.set_reg(STATUS, new_ps | enable)?;
            } else {
                self.advance_counter()?;
                self.advance_counter()?;
            }

            let pc3 = match self.reg(COUNTER) {
                Ok(x) => x,
                Err(e) => { return Err(e) },
            };
            self.set_reg(COUNTER, pc3.wrapping_sub(1))?;
            Ok(())
        }
    }

    /// Execute one instruction: fetch the byte the program counter
    /// points at, decode it, perform it, and advance the counter. The
    /// whole transition, including the response, is pinned down by
    /// [`spec_step`].
    pub fn step(&mut self, interrupt: Option<u8>) -> (r: Result<Response, Response>)
        requires
            old(self)@.wf(),
        ensures
            final(self)@.wf(),
            (final(self)@, r) == spec_step(old(self)@, interrupt),
            old(self).logs_extended(*final(self)),
            r is Err ==> final(self).mem_events() == old(self).mem_events()
                && final(self).reg_events() == old(self).reg_events(),
    {
        let pc = match self.reg(COUNTER) {
            Ok(x) => x,
            Err(e) => { return Err(e) },
        };
        let instruction = self.mem(pc);
        let operation = instruction & OPERATION;
        proof {
            crate::opcodes::lemma_field_bounds(instruction);
        }

        if operation < OP_STORE {
            match self.process_alu(instruction) {
                Ok(()) => {},
                Err(_) => { return Err(Response::UnknownInstruction) },
            }
        } else if operation == OP_LOAD || operation == OP_LOAD_C {
            let address = crate::opcodes::op1(instruction);
            let target = crate::opcodes::op2(instruction);
            let addr_val = match self.reg(address) {
                Ok(x) => x,
                Err(e) => { return Err(e) },
            };
            let v = self.mem(addr_val);
            self.set_reg(target, v)?;
        } else if operation == LDI_INTERRUPT {
            let sub = instruction & 0b0000_1111;
            if sub == OP_LDI_0 || sub == OP_LDI_1 || sub == OP_LDI_2 || sub == OP_LDI_3 {
                self.advance_counter()?;

                let target = crate::opcodes::op2(instruction);
                let addr = match self.reg(COUNTER) {
                    Ok(x) => x,
                    Err(e) => { return Err(e) },
                };
                let v = self.mem(addr);
                self.set_reg(target, v)?;
            } else if sub == OP_HALT {
                return Ok(Response::Halt);
            } else if sub == OP_WAIT {
                return Ok(Response::Wait);
            } else if sub == OP_JSR {
                self.advance_counter()?;

                let pc1 = match self.reg(COUNTER) {
                    Ok(x) => x,
                    Err(e) => { return Err(e) },
                };
                let address = self.mem(pc1);

                self.stack_push(pc1.wrapping_add(1))?;

                // The end-of-step advance is counteracted here.
                self.set_reg(COUNTER, address.wrapping_sub(1))?;
            } else if sub == OP_RTS {
                let address = self.stack_pop()?;

                // The end-of-step advance is counteracted here.
                self.set_reg(COUNTER, address.wrapping_sub(1))?;
            } else if sub == OP_CRC {
                let temp = pc.wrapping_add(1);
                let counter = self.stack_pop()?;
                self.set_reg(COUNTER, counter)?;
                self.stack_push(temp)?;
            } else if sub == OP_RAND {
                // A hook for a random byte; not exercised.
            } else if sub == OP_IOI || sub == OP_RTI || sub == OP_OSIX {
                self.handle_interrupt(instruction, interrupt)?;
            } else {
                return Err(Response::UnknownInstruction);
            }
        } else if operation == OP_STORE {
            let address = crate::opcodes::op1(instruction);
            let source = crate::opcodes::op2(instruction);
            let v = match self.reg(source) {
                Ok(x) => x,
                Err(e) => { return Err(e) },
            };
            self.set_mem(address, v);
        } else if operation == OP_STACK {
            self.handle_stack(instruction)?;
        } else if operation == OP_BRANCH {
            self.handle_branch(instruction)?;
        } else {
            proof {
                let i = instruction;
                assert(false) by (bit_vector)
                    requires
                        !(i & 0b1111_0000 < 0xA0),
                        i & 0b1111_0000 != 0xA0,
                        i & 0b1111_0000 != 0xB0,
                        i & 0b1111_0000 != 0xC0,
                        i & 0b1111_0000 != 0xD0,
                        i & 0b1111_0000 != 0xE0,
                        i & 0b1111_0000 != 0xF0,
                ;
            }
            return Err(Response::UnknownInstruction);
        }

        self.advance_counter()?;

        Ok(Response::Normal)
    }
}

/// Whether a branch with the given condition code is taken in state
/// `s`, as a predicate over the N, Z, C and V flags.
pub open spec fn spec_branch_taken(cond: u8, s: MState) -> bool {
    if cond == BEQ_BZ {
        s.z()
    } else if cond == BNE_BNZ {
        !s.z()
    } else if cond == BHS_BCS {
        s.c()
    } else if cond == BLO_BCC {
        !s.c()
    } else if cond == BMI {
        s.n()
    } else if cond == BPL {
        !s.n()
    } else if cond == BVS {
        s.v()
    } else if cond == BVC {
        !s.v()
    } else if cond == BHI {
        s.c() && !s.z()
    } else if cond == BLS {
        !s.c() || s.z()
    } else if cond == BGE {
        (s.v() && s.n()) || (!s.v() && !s.z() && !s.n()) || s.z()
    } else if cond == BLT {
        (!s.v() && s.n()) || (s.v() && !s.z() && !s.n())
    } else if cond == BGT {
        (s.v() && s.n()) || (!s.v() && !s.z() && !s.n())
    } else if cond == BLE {
        s.z() || (!s.v() && s.n()) || (s.v() && !s.z() && !s.n())
    } else if cond == BR {
        true
    } else {
        // NOP
        false
    }
}

/// The state after one branch-class instruction, before the
/// end-of-step advance: the counter first advances onto the target
/// byte; when the branch is taken the counter is set one before the
/// target, so that the end-of-step advance lands on it.
pub open spec fn spec_branch_step(s: MState, ins: u8) -> MState {
    let s1 = s.advanced();
    let address = s1.m(s1.pc());
    if spec_branch_taken(ins & 0b0000_1111, s) {
        s1.with_reg(COUNTER, wsub(address, 1))
    } else {
        s1
    }
}

/// The state after one interrupt-class instruction (`ioi`, `rti` or
/// `osix`), before the end-of-step advance.
pub open spec fn spec_interrupt_step(s: MState, ins: u8, interrupt: Option<u8>) -> MState {
    let sub = spec_subop(ins);
    if sub == OP_IOI {
        if !s.interrupt_enable() {
            s
        } else {
            let vec = if interrupt is Some {
                interrupt->0
            } else {
                0u8
            };
            let s0 = if interrupt is Some {
                s
            } else {
                s.advanced()
            };
            let twice = wadd(vec, vec);
            let s1 = s0.pushed(s0.pc());
            let s2 = s1.with_reg(COUNTER, s1.m(wadd(0xF0, twice)));
            let s3 = s2.pushed(s2.r(STATUS));
            let s4 = s3.with_reg(STATUS, s3.m(wadd(0xF1, twice)));
            s4.with_reg(COUNTER, wsub(s4.pc(), 1))
        }
    } else if sub == OP_RTI {
        let status = s.pop_value();
        let s1 = s.popped().with_reg(STATUS, status);
        let counter = s1.pop_value();
        let s2 = s1.popped().with_reg(COUNTER, counter);
        s2.with_reg(COUNTER, wsub(counter, 1))
    } else {
        // OP_OSIX
        if s.interrupt_enable() {
            let s1 = s.advanced();
            let new_ps = s1.m(s1.pc()) | (s1.m(0xF1) & 0b1000_0000);
            let s2 = s1.advanced();
            let s3 = s2.pushed(s2.pc());
            let s4 = s3.with_reg(COUNTER, s3.m(0xF0));
            let enable = s4.m(0xF1) & 0b1000_0000;
            let s5 = s4.pushed(s4.r(STATUS));
            let s6 = s5.with_reg(STATUS, new_ps | enable);
            s6.with_reg(COUNTER, wsub(s6.pc(), 1))
        } else {
            let s1 = s.advanced().advanced();
            s1.with_reg(COUNTER, wsub(s1.pc(), 1))
        }
    }
}

/// The transition function of the byte machine: the state after one
/// step and the response the step reports. A step that fails leaves
/// the state exactly as it was.
pub open spec fn spec_step(s: MState, interrupt: Option<u8>) -> (MState, Result<
    Response,
    Response,
>) {
    let ins = s.m(s.pc());
    let op = spec_operation(ins);
    if op < OP_STORE {
        (spec_alu_step(s, ins).advanced(), Ok(Response::Normal))
    } else if op == OP_LOAD || op == OP_LOAD_C {
        (s.with_reg(spec_op2(ins), s.m(s.r(spec_op1(ins)))).advanced(), Ok(Response::Normal))
    } else if op == LDI_INTERRUPT {
        let sub = spec_subop(ins);
        if sub == OP_LDI_0 || sub == OP_LDI_1 || sub == OP_LDI_2 || sub == OP_LDI_3 {
            let s1 = s.advanced();
            (s1.with_reg(spec_op2(ins), s1.m(s1.pc())).advanced(), Ok(Response::Normal))
        } else if sub == OP_HALT {
            (s, Ok(Response::Halt))
        } else if sub == OP_WAIT {
            (s, Ok(Response::Wait))
        } else if sub == OP_JSR {
            let s1 = s.advanced();
            let address = s1.m(s1.pc());
            let s2 = s1.pushed(wadd(s1.pc(), 1));
            (s2.with_reg(COUNTER, wsub(address, 1)).advanced(), Ok(Response::Normal))
        } else if sub == OP_RTS {
            let address = s.pop_value();
            (s.popped().with_reg(COUNTER, wsub(address, 1)).advanced(), Ok(Response::Normal))
        } else if sub == OP_CRC {
            let temp = wadd(s.pc(), 1);
            let counter = s.pop_value();
            let s1 = s.popped().with_reg(COUNTER, counter);
            (s1.pushed(temp).advanced(), Ok(Response::Normal))
        } else if sub == OP_RAND {
            (s.advanced(), Ok(Response::Normal))
        } else if sub == OP_IOI || sub == OP_RTI || sub == OP_OSIX {
            (spec_interrupt_step(s, ins, interrupt).advanced(), Ok(Response::Normal))
        } else {
            (s, Err(Response::UnknownInstruction))
        }
    } else if op == OP_STORE {
        (s.with_mem(spec_op1(ins), s.r(spec_op2(ins))).advanced(), Ok(Response::Normal))
    } else if op == OP_STACK {
        (spec_stack_step(s, ins).advanced(), Ok(Response::Normal))
    } else {
        // OP_BRANCH
        (spec_branch_step(s, ins).advanced(), Ok(Response::Normal))
    }
}

} // verus!

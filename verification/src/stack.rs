//! Stack discipline of the byte machine.
//!
//! The stack grows downward from the stack pointer: a push
//! pre-decrements `SP` and writes, a pop reads and post-increments.
//! All stack-pointer arithmetic wraps over a byte.

use vstd::prelude::*;

use crate::machine::{
    spec_step, wadd, wsub, MState, Machine, Response, COUNTER, SP, STATUS,
};
use crate::opcodes::{
    spec_op2, ADDSP, ADDSP_SETSP_PUSHALL_POPALL, LDSA, OP_STACK, POP, POPALL, PUSH, PUSHALL,
    SETSP,
};

verus! {

/// The machine state after one stack-class instruction, before the
/// end-of-step advance of the program counter.
pub open spec fn spec_stack_step(s: MState, ins: u8) -> MState {
    let rn = spec_op2(ins);
    let sp = s.r(SP);
    let sub = ins & 0b0000_1100;
    if sub == PUSH {
        s.pushed(s.r(rn))
    } else if sub == POP {
        s.popped().with_reg(rn, s.pop_value())
    } else if sub == LDSA {
        let s1 = s.advanced();
        s1.with_reg(rn, wadd(sp, s1.m(s1.pc())))
    } else {
        let low = ins & 0b0000_0011;
        if low == ADDSP {
            let s1 = s.advanced();
            s1.with_reg(SP, wadd(sp, s1.m(s1.pc())))
        } else if low == SETSP {
            let s1 = s.advanced();
            s1.with_reg(SP, s1.m(s1.pc()))
        } else if low == PUSHALL {
            let s1 = s.pushed(s.r(3));
            let s2 = s1.pushed(s1.r(2));
            let s3 = s2.pushed(s2.r(1));
            s3.pushed(s3.r(0))
        } else {
            // POPALL
            let s1 = s.with_reg(0, s.m(sp)).with_reg(SP, wadd(sp, 1));
            let s2 = s1.with_reg(1, s1.m(wadd(sp, 1))).with_reg(SP, wadd(sp, 2));
            let s3 = s2.with_reg(2, s2.m(wadd(sp, 2))).with_reg(SP, wadd(sp, 3));
            s3.with_reg(3, s3.m(wadd(sp, 3))).with_reg(SP, wadd(sp, 4))
        }
    }
}

impl Machine {
    /// Push a byte: the stack pointer moves down one cell, wrapping,
    /// and the byte is written there.
    pub fn stack_push(&mut self, v: u8) -> (r: Result<(), Response>)
        requires
            old(self)@.wf(),
        ensures
            r is Ok,
            final(self)@ == old(self)@.pushed(v),
            final(self)@.wf(),
            old(self).logs_extended(*final(self)),
    {
        let sp = match self.reg(SP) {
            Ok(v) => v,
            Err(e) => { return Err(e) },
        };
        let sp = sp.wrapping_sub(1);
        self.set_reg(SP, sp)?;
        self.set_mem(sp, v);
        Ok(())
    }

    /// Pop a byte: the cell the stack pointer points at is read, and
    /// the pointer moves up one cell, wrapping.
    pub fn stack_pop(&mut self) -> (r: Result<u8, Response>)
        requires
            old(self)@.wf(),
        ensures
            r == Ok::<u8, Response>(old(self)@.pop_value()),
            final(self)@ == old(self)@.popped(),
            final(self)@.wf(),
            old(self).logs_extended(*final(self)),
            final(self).mem_events() == old(self).mem_events(),
    {
        let sp = match self.reg(SP) {
            Ok(v) => v,
            Err(e) => { return Err(e) },
        };
        let v = self.mem(sp);
        self.set_reg(SP, sp.wrapping_add(1))?;
        Ok(v)
    }

    /// Execute one stack-class instruction: push, pop, stack-relative
    /// load, stack-pointer arithmetic, or pushing or popping all four
    /// general-purpose registers.
    pub fn handle_stack(&mut self, instruction: u8) -> (r: Result<(), Response>)
        requires
            old(self)@.wf(),
        ensures
            r is Ok,
            final(self)@ == spec_stack_step(old(self)@, instruction),
            final(self)@.wf(),
            old(self).logs_extended(*final(self)),
    {
        proof {
            crate::opcodes::lemma_field_bounds(instruction);
        }
        let rn = crate::opcodes::op2(instruction);
        let sp = match self.reg(SP) {
            Ok(v) => v,
            Err(e) => { return Err(e) },
        };

        let sub = instruction & 0b0000_1100;
        if sub == PUSH {
            let v = match self.reg(rn) {
                Ok(v) => v,
                Err(e) => { return Err(e) },
            };
            self.stack_push(v)?;
        } else if sub == POP {
            let v = self.stack_pop()?;
            self.set_reg(rn, v)?;
        } else if sub == LDSA {
            self.advance_counter()?;
            let pc = match self.reg(COUNTER) {
                Ok(v) => v,
                Err(e) => { return Err(e) },
            };
            let offset = self.mem(pc);
            self.set_reg(rn, sp.wrapping_add(offset))?;
        } else {
            let low = instruction & 0b0000_0011;
            if low == ADDSP {
                self.advance_counter()?;
                let pc = match self.reg(COUNTER) {
                    Ok(v) => v,
                    Err(e) => { return Err(e) },
                };
                let offset = self.mem(pc);
                self.set_reg(SP, sp.wrapping_add(offset))?;
            } else if low == SETSP {
                self.advance_counter()?;
                let pc = match self.reg(COUNTER) {
                    Ok(v) => v,
                    Err(e) => { return Err(e) },
                };
                let v = self.mem(pc);
                self.set_reg(SP, v)?;
            } else if low == PUSHALL {
                let v3 = match self.reg(3) {
                    Ok(v) => v,
                    Err(e) => { return Err(e) },
                };
                self.stack_push(v3)?;
                let v2 = match self.reg(2) {
                    Ok(v) => v,
                    Err(e) => { return Err(e) },
                };
                self.stack_push(v2)?;
                let v1 = match self.reg(1) {
                    Ok(v) => v,
                    Err(e) => { return Err(e) },
                };
                self.stack_push(v1)?;
                let v0 = match self.reg(0) {
                    Ok(v) => v,
                    Err(e) => { return Err(e) },
                };
                self.stack_push(v0)?;
            } else {
                // POPALL
                let m0 = self.mem(sp);
                self.set_reg(0, m0)?;
                self.set_reg(SP, sp.wrapping_add(1))?;
                let m1 = self.mem(sp.wrapping_add(1));
                self.set_reg(1, m1)?;
                self.set_reg(SP, sp.wrapping_add(2))?;
                let m2 = self.mem(sp.wrapping_add(2));
                self.set_reg(2, m2)?;
                self.set_reg(SP, sp.wrapping_add(3))?;
                let m3 = self.mem(sp.wrapping_add(3));
                self.set_reg(3, m3)?;
                self.set_reg(SP, sp.wrapping_add(4))?;
            }
        }
        Ok(())
    }
}

/// A push followed by a pop of the same register is the identity on
/// that register, on the status register, and on the stack pointer:
/// after the two steps only the program counter (advanced past the
/// two instructions) and the stack cell below the original stack
/// pointer (now holding the pushed value) differ from the initial
/// state. The stack cell written must not be one of the two
/// instruction bytes, else the pop would re-read a modified program.
pub proof fn lemma_push_pop_identity(s: MState, rn: u8)
    requires
        s.wf(),
        rn < 4,
        s.m(s.pc()) == OP_STACK | PUSH | rn,
        s.m(wadd(s.pc(), 1)) == OP_STACK | POP | rn,
        wsub(s.r(SP), 1) != s.pc(),
        wsub(s.r(SP), 1) != wadd(s.pc(), 1),
    ensures
        ({
            let (s1, r1) = spec_step(s, None);
            let (s2, r2) = spec_step(s1, None);
            &&& r1 == Ok::<Response, Response>(Response::Normal)
            &&& r2 == Ok::<Response, Response>(Response::Normal)
            &&& s2.regs =~= s.regs.update(COUNTER as int, wadd(wadd(s.pc(), 1), 1))
            &&& s2.mem =~= s.mem.update(wsub(s.r(SP), 1) as int, s.r(rn))
            &&& s2.r(rn) == s.r(rn)
            &&& s2.r(STATUS) == s.r(STATUS)
            &&& s2.r(SP) == s.r(SP)
        }),
{
    let ins1 = s.m(s.pc());
    let ins2 = s.m(wadd(s.pc(), 1));
    assert(ins1 & 0b1111_0000 == 0xC0 && ins1 & 0b0000_1100 == 0 && ins1 & 0b0000_0011 == rn
        && ins2 & 0b1111_0000 == 0xC0 && ins2 & 0b0000_1100 == 0b0100 && ins2 & 0b0000_0011 == rn)
        by (bit_vector)
        requires
            rn < 4,
            ins1 == 0xC0u8 | 0x00u8 | rn,
            ins2 == 0xC0u8 | 0x04u8 | rn,
    ;
    let (s1, r1) = spec_step(s, None);
    assert(s1 == s.pushed(s.r(rn)).advanced());
    let (s2, r2) = spec_step(s1, None);
    assert(s1.pc() == wadd(s.pc(), 1));
    assert(s1.m(s1.pc()) == ins2);
    assert(s2 == s1.popped().with_reg(rn, s1.pop_value()).advanced());
    assert(s1.pop_value() == s.r(rn));
    assert(s2.regs =~= s.regs.update(COUNTER as int, wadd(wadd(s.pc(), 1), 1)));
    assert(s2.mem =~= s.mem.update(wsub(s.r(SP), 1) as int, s.r(rn)));
}

} // verus!

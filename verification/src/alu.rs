//! The arithmetic-logic unit of the byte machine.
//!
//! The ALU is specified as a pure function [`spec_alu`] from the
//! instruction, the two operand values and the carry-in to the result
//! byte, the new C and V flags, and whether the result is written
//! back. The Z and N flags are always derived from the result: Z
//! holds exactly when the result is zero, N exactly when its top bit
//! is set ([`lemma_zn_flags`]).

use vstd::prelude::*;

use crate::machine::{wadd, wsub, MState, Machine, STATUS};
use crate::opcodes::{
    spec_op1, spec_op2, spec_operation, DEC, INC, NEG, NOT, OP_ADD, OP_ADDC, OP_AND, OP_CMP,
    OP_MOVE, OP_NOT_NEG_INC_DEC, OP_OR, OP_SHIFT, OP_STORE, OP_SUB, OP_XOR, ROL, SHLA, SHR, SHRA,
};
use crate::stream::Error;

verus! {

/// The outcome of one ALU operation: the result byte, the carry and
/// overflow flags, and whether the result is written to the second
/// operand register.
pub ghost struct AluOut {
    pub result: u8,
    pub c: bool,
    pub v: bool,
    pub write: bool,
}

/// Signed overflow of an addition `a + b (+ carry)` whose truncated
/// result is `r`: both addends have the same sign and the result has
/// the other one.
pub open spec fn signed_overflow(a: u8, b: u8, r: u8) -> bool {
    (a < 128 && b < 128 && r >= 128) || (a >= 128 && b >= 128 && r < 128)
}

/// The status byte after an ALU operation: the high nibble is kept,
/// and the low nibble holds carry (bit 3), overflow (bit 2), zero
/// (bit 1) and negative (bit 0), the last two derived from the result.
pub open spec fn spec_flags_byte(old_status: u8, c: bool, v: bool, result: u8) -> u8 {
    (old_status & 0b1111_0000) | (if c {
        0b1000u8
    } else {
        0u8
    }) | (if v {
        0b0100u8
    } else {
        0u8
    }) | (if result == 0 {
        0b0010u8
    } else {
        0u8
    }) | (if result >= 128 {
        0b0001u8
    } else {
        0u8
    })
}

/// What one ALU operation computes, given the instruction, the values
/// of its two operand registers, and the carry-in flag.
pub open spec fn spec_alu(ins: u8, left: u8, right: u8, cin: bool) -> AluOut {
    let op = spec_operation(ins);
    if op == OP_MOVE {
        AluOut { result: left, c: false, v: false, write: true }
    } else if op == OP_ADD || op == OP_ADDC || op == OP_SUB || op == OP_CMP {
        let rhs = if op == OP_SUB || op == OP_CMP {
            !right
        } else {
            right
        };
        let carry_in: u8 = if op == OP_SUB || op == OP_CMP {
            1
        } else if op == OP_ADDC && cin {
            1
        } else {
            0
        };
        let total = left + rhs + carry_in;
        let result = (total % 256) as u8;
        AluOut {
            result,
            c: total > 255,
            v: signed_overflow(left, rhs, result),
            write: op != OP_CMP,
        }
    } else if op == OP_AND {
        AluOut { result: left & right, c: false, v: false, write: true }
    } else if op == OP_OR {
        AluOut { result: left | right, c: false, v: false, write: true }
    } else if op == OP_XOR {
        AluOut { result: left ^ right, c: false, v: false, write: true }
    } else if op == OP_NOT_NEG_INC_DEC {
        let sub = ins & 0b0000_1100;
        if sub == NOT {
            AluOut { result: !right, c: false, v: false, write: true }
        } else if sub == NEG {
            AluOut {
                result: ((256 - right) % 256) as u8,
                c: false,
                v: right == 0x80,
                write: true,
            }
        } else if sub == INC {
            AluOut { result: wadd(right, 1), c: right == 255, v: right == 0x7F, write: true }
        } else {
            AluOut { result: wsub(right, 1), c: right == 0, v: right == 0x80, write: true }
        }
    } else {
        // OP_SHIFT
        let sub = ins & 0b0000_1100;
        if sub == SHR {
            AluOut { result: right / 2, c: right % 2 == 1, v: false, write: true }
        } else if sub == SHRA {
            AluOut {
                result: (right / 2) | (right & 0b1000_0000),
                c: right % 2 == 1,
                v: false,
                write: true,
            }
        } else if sub == SHLA {
            let result = ((2 * right) % 256) as u8;
            AluOut {
                result,
                c: right >= 128,
                v: (result >= 128) != (right >= 128),
                write: true,
            }
        } else {
            // ROL
            let result = (((2 * right) % 256) + if right >= 128 {
                1int
            } else {
                0int
            }) as u8;
            AluOut { result, c: right >= 128, v: false, write: true }
        }
    }
}

/// The machine state after one ALU instruction: the status register
/// takes the new flags, and the result, when the operation writes one,
/// goes to the second operand register.
pub open spec fn spec_alu_step(s: MState, ins: u8) -> MState {
    let left = s.r(spec_op1(ins));
    let right = s.r(spec_op2(ins));
    let out = spec_alu(ins, left, right, s.c());
    let s1 = s.with_reg(STATUS, spec_flags_byte(s.r(STATUS), out.c, out.v, out.result));
    if out.write {
        s1.with_reg(spec_op2(ins), out.result)
    } else {
        s1
    }
}

/// After any ALU operation the zero flag holds exactly when the
/// result is zero, and the negative flag exactly when the result's
/// top bit is set.
pub proof fn lemma_zn_flags(ins: u8, left: u8, right: u8, cin: bool, old_status: u8)
    ensures
        ({
            let out = spec_alu(ins, left, right, cin);
            let st = spec_flags_byte(old_status, out.c, out.v, out.result);
            (st & 0b0000_0010 != 0 <==> out.result == 0) && (st & 0b0000_0001 != 0 <==> out.result
                >= 128)
        }),
{
    let out = spec_alu(ins, left, right, cin);
    let st = spec_flags_byte(old_status, out.c, out.v, out.result);
    let h = old_status & 0b1111_0000;
    let cb: u8 = if out.c {
        0b1000
    } else {
        0
    };
    let vb: u8 = if out.v {
        0b0100
    } else {
        0
    };
    let zb: u8 = if out.result == 0 {
        0b0010
    } else {
        0
    };
    let nb: u8 = if out.result >= 128 {
        0b0001
    } else {
        0
    };
    assert(h & 0b0000_1111 == 0) by (bit_vector)
        requires
            h == old_status & 0b1111_0000,
    ;
    assert((h | cb | vb | zb | nb) & 0b0000_0010 == zb && (h | cb | vb | zb | nb) & 0b0000_0001
        == nb) by (bit_vector)
        requires
            h & 0b0000_1111 == 0,
            cb == 0 || cb == 0b1000,
            vb == 0 || vb == 0b0100,
            zb == 0 || zb == 0b0010,
            nb == 0 || nb == 0b0001,
    ;
}

/// The ALU face of the machine: processing one ALU instruction in
/// place.
pub trait ALU: Sized {
    /// The machine state the ALU reads and writes.
    spec fn alu_state(&self) -> MState;

    /// The bookkeeping (change journals and observation switches) that
    /// an ALU operation must respect.
    spec fn alu_bookkeeping_ok(pre: Self, post: Self) -> bool;

    /// The bookkeeping is untouched, as a rejected instruction must
    /// leave it.
    spec fn alu_bookkeeping_same(pre: Self, post: Self) -> bool;

    /// Process one ALU instruction: exactly the instructions whose
    /// operation class lies below `OP_STORE` are ALU instructions, and
    /// on them the machine state becomes [`spec_alu_step`] of the old
    /// one. On any other instruction nothing changes and an error
    /// comes back.
    fn process_alu(&mut self, instruction: u8) -> (r: Result<(), Error>)
        requires
            old(self).alu_state().wf(),
        ensures
            final(self).alu_state().wf(),
            spec_operation(instruction) < OP_STORE ==> r is Ok && final(self).alu_state()
                == spec_alu_step(old(self).alu_state(), instruction),
            spec_operation(instruction) >= OP_STORE ==> r is Err && final(self).alu_state() == old(
                self,
            ).alu_state() && Self::alu_bookkeeping_same(*old(self), *final(self)),
            Self::alu_bookkeeping_ok(*old(self), *final(self)),
    ;
}

impl Machine {
    /// Fold the carry, overflow and result of an ALU operation into
    /// the status register, keeping the high nibble.
    fn handle_status(&mut self, carry: bool, overflow: bool, value: u8) -> (r: Result<(), Error>)
        requires
            old(self)@.wf(),
        ensures
            r is Ok,
            final(self)@ == old(self)@.with_reg(
                STATUS,
                spec_flags_byte(old(self)@.r(STATUS), carry, overflow, value),
            ),
            final(self)@.wf(),
            old(self).logs_extended(*final(self)),
            final(self).mem_events() == old(self).mem_events(),
    {
        let c: u8 = if carry {
            0b1000
        } else {
            0
        };
        let v: u8 = if overflow {
            0b0100
        } else {
            0
        };
        let z: u8 = if value == 0 {
            0b0010
        } else {
            0
        };
        let n: u8 = if value >= 128 {
            0b0001
        } else {
            0
        };
        match self.set_reg(STATUS, (self.status() & 0b1111_0000) | c | v | z | n) {
            Ok(()) => Ok(()),
            Err(_) => Err(Error::plain(String::new())),
        }
    }
}

impl ALU for Machine {
    open spec fn alu_state(&self) -> MState {
        self@
    }

    open spec fn alu_bookkeeping_ok(pre: Machine, post: Machine) -> bool {
        pre.logs_extended(post) && post.mem_events() == pre.mem_events()
    }

    open spec fn alu_bookkeeping_same(pre: Machine, post: Machine) -> bool {
        post.mem_events() == pre.mem_events() && post.reg_events() == pre.reg_events()
            && post.mem_observed() == pre.mem_observed() && post.reg_observed()
            == pre.reg_observed()
    }

    fn process_alu(&mut self, instruction: u8) -> (r: Result<(), Error>) {
        let op = crate::opcodes::operation(instruction);
        let reg_left = crate::opcodes::op1(instruction);
        let reg_right = crate::opcodes::op2(instruction);
        proof {
            crate::opcodes::lemma_field_bounds(instruction);
        }
        let val_left = match self.reg(reg_left) {
            Ok(v) => v,
            Err(_) => { return Err(Error::plain(String::new())) },
        };
        let val_right = match self.reg(reg_right) {
            Ok(v) => v,
            Err(_) => { return Err(Error::plain(String::new())) },
        };

        if op == OP_MOVE {
            self.handle_status(false, false, val_left)?;
            match self.set_reg(reg_right, val_left) {
                Ok(()) => Ok(()),
                Err(_) => Err(Error::plain(String::new())),
            }
        } else if op == OP_ADD || op == OP_ADDC || op == OP_SUB || op == OP_CMP {
            let (carry_in, rhs): (u8, u8) = if op == OP_SUB || op == OP_CMP {
                (1, !val_right)
            } else if op == OP_ADDC && self.c() {
                (1, val_right)
            } else {
                (0, val_right)
            };
            let total: u16 = val_left as u16 + rhs as u16 + carry_in as u16;
            let result: u8 = (total % 256) as u8;
            let carry = total > 255;
            let over = (val_left < 128 && rhs < 128 && result >= 128) || (val_left >= 128 && rhs
                >= 128 && result < 128);
            self.handle_status(carry, over, result)?;
            if op != OP_CMP {
                match self.set_reg(reg_right, result) {
                    Ok(()) => Ok(()),
                    Err(_) => Err(Error::plain(String::new())),
                }
            } else {
                Ok(())
            }
        } else if op == OP_AND || op == OP_OR || op == OP_XOR {
            let value = if op == OP_AND {
                val_left & val_right
            } else if op == OP_OR {
                val_left | val_right
            } else {
                val_left ^ val_right
            };
            self.handle_status(false, false, value)?;
            match self.set_reg(reg_right, value) {
                Ok(()) => Ok(()),
                Err(_) => Err(Error::plain(String::new())),
            }
        } else if op == OP_NOT_NEG_INC_DEC {
            let sub = instruction & 0b0000_1100;
            let (result, carry, over): (u8, bool, bool) = if sub == NOT {
                (!val_right, false, false)
            } else if sub == NEG {
                (((256u16 - val_right as u16) % 256) as u8, false, val_right == 0x80)
            } else if sub == INC {
                (val_right.wrapping_add(1), val_right == 255, val_right == 0x7F)
            } else {
                (val_right.wrapping_sub(1), val_right == 0, val_right == 0x80)
            };
            self.handle_status(carry, over, result)?;
            match self.set_reg(reg_right, result) {
                Ok(()) => Ok(()),
                Err(_) => Err(Error::plain(String::new())),
            }
        } else if op == OP_SHIFT {
            let sub = instruction & 0b0000_1100;
            let (result, carry, over): (u8, bool, bool) = if sub == SHR {
                (val_right / 2, val_right % 2 == 1, false)
            } else if sub == SHRA {
                ((val_right / 2) | (val_right & 0b1000_0000), val_right % 2 == 1, false)
            } else if sub == SHLA {
                let result = ((2 * val_right as u16) % 256) as u8;
                (result, val_right >= 128, (result >= 128) != (val_right >= 128))
            } else {
                let result = (((2 * val_right as u16) % 256) + if val_right >= 128 {
                    1
                } else {
                    0
                }) as u8;
                (result, val_right >= 128, false)
            };
            self.handle_status(carry, over, result)?;
            match self.set_reg(reg_right, result) {
                Ok(()) => Ok(()),
                Err(_) => Err(Error::plain(String::new())),
            }
        } else {
            proof {
                let i = instruction;
                assert(i & 0b1111_0000 >= 0xA0) by (bit_vector)
                    requires
                        i & 0b1111_0000 != 0x00,
                        i & 0b1111_0000 != 0x10,
                        i & 0b1111_0000 != 0x20,
                        i & 0b1111_0000 != 0x30,
                        i & 0b1111_0000 != 0x40,
                        i & 0b1111_0000 != 0x50,
                        i & 0b1111_0000 != 0x60,
                        i & 0b1111_0000 != 0x70,
                        i & 0b1111_0000 != 0x80,
                        i & 0b1111_0000 != 0x90,
                ;
            }
            Err(Error::plain(String::from_str("Not an ALU instruction")))
        }
    }
}

} // verus!

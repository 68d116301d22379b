//! The word machine's single-step executor.
//!
//! One step performs the classical micro-sequence: latch the counter
//! into the address register, advance the counter, fetch through the
//! memory buffer into the current-instruction register, then perform
//! the decoded operation. The whole transition is pinned down by
//! [`spec_execute`].

use vstd::prelude::*;

use crate::cpu::{
    rotr32, spec_cond, spec_data, spec_dest, spec_offset, spec_op, spec_shift, spec_source, ADD,
    ADDRESS, AND, B, CIR, CMP, COND, COND_EQ, COND_GT, COND_LT, COND_NE, COND_NONE, COUNTER, DATA,
    DEST, EOR, HALT, IMMEDIATE, INDIRECT, LDR, LSL, LSR, MBUFF, MOV, MVN, OFFSET, OPERATION, ORR,
    SHIFT, SOURCE, STATUS, STR, SUB,
};
use crate::storage::Storage;
use crate::stream::Error;

verus! {

/// The abstract state of the word machine: main memory and the
/// register file.
pub ghost struct WState {
    pub mem: Seq<u32>,
    pub regs: Seq<u32>,
}

/// What stopped a failing step: an access to a register or memory
/// word that does not exist, or an instruction word with no defined
/// operation.
#[derive(Clone, Copy, PartialEq, Eq, Structural, Debug)]
pub enum WFail {
    RegAccess(u32),
    MemAccess(u32),
    Unknown,
}

/// How a step ended: ready for another step, stopped at `HALT`, or
/// failed, with what failed.
#[derive(Clone, Copy, PartialEq, Eq, Structural, Debug)]
pub enum WOutcome {
    Continue,
    Halted,
    Failed(WFail),
}

/// The message a failing step reports: out-of-range accesses carry
/// the store's own message, an undefined operation its fixed one.
pub open spec fn spec_w_fail_message(f: WFail, mem_name: Seq<char>, reg_name: Seq<char>) -> Seq<
    char,
> {
    match f {
        WFail::RegAccess(i) => crate::storage::spec_bad_index_message(i, reg_name),
        WFail::MemAccess(i) => crate::storage::spec_bad_index_message(i, mem_name),
        WFail::Unknown => "Unknown instruction"@,
    }
}

/// Addition of words, wrapping modulo 2^32.
pub open spec fn wadd32(a: u32, b: u32) -> u32 {
    if a + b > 0xFFFF_FFFF {
        (a + b - 0x1_0000_0000) as u32
    } else {
        (a + b) as u32
    }
}

/// Subtraction of words, wrapping modulo 2^32.
pub open spec fn wsub32(a: u32, b: u32) -> u32 {
    if a < b {
        (a - b + 0x1_0000_0000) as u32
    } else {
        (a - b) as u32
    }
}

/// Logical left shift; amounts of 32 or more clear the word.
pub open spec fn shl32(x: u32, k: u32) -> u32 {
    if k >= 32 {
        0
    } else {
        x << k
    }
}

/// Logical right shift; amounts of 32 or more clear the word.
pub open spec fn shr32(x: u32, k: u32) -> u32 {
    if k >= 32 {
        0
    } else {
        x >> k
    }
}

impl WState {
    /// The register `i`.
    pub open spec fn r(self, i: u32) -> u32 {
        self.regs[i as int]
    }

    /// The state with register `i` set to `v`.
    pub open spec fn wr(self, i: u32, v: u32) -> WState {
        WState { mem: self.mem, regs: self.regs.update(i as int, v) }
    }

    /// The state with memory word `a` set to `v`.
    pub open spec fn wm(self, a: u32, v: u32) -> WState {
        WState { mem: self.mem.update(a as int, v), regs: self.regs }
    }
}

/// The operand of a decoded instruction: the rotated immediate when
/// the immediate flag is set, else the contents of the register the
/// data byte names. `None` when that register does not exist.
pub open spec fn spec_decode(regs: Seq<u32>, w: u32) -> Option<u32> {
    if w & IMMEDIATE == 0 {
        if (spec_data(w) as int) < regs.len() {
            Some(regs[spec_data(w) as int])
        } else {
            None
        }
    } else {
        Some(rotr32(spec_data(w), (spec_shift(w) * 2) as u32))
    }
}

/// The operation the fetched instruction performs, on the state just
/// after the fetch sequence.
pub open spec fn spec_exec_op(s: WState, cir: u32) -> (WState, WOutcome) {
    let op = spec_op(cir);
    let src = spec_source(cir);
    let dest = spec_dest(cir);
    if op == LDR || op == STR {
        let memf = spec_offset(cir);
        let indirect_bad = cir & INDIRECT != 0 && (memf as int) >= s.regs.len();
        if indirect_bad {
            (s, WOutcome::Failed(WFail::RegAccess(memf)))
        } else {
            let s4 = if cir & INDIRECT == 0 {
                s.wr(ADDRESS, memf)
            } else {
                s.wr(ADDRESS, s.r(memf))
            };
            let addr = s4.r(ADDRESS);
            if op == LDR {
                if (addr as int) >= s4.mem.len() {
                    (s4, WOutcome::Failed(WFail::MemAccess(addr)))
                } else {
                    let s5 = s4.wr(MBUFF, s4.mem[addr as int]);
                    (s5.wr(src, s5.r(MBUFF)), WOutcome::Continue)
                }
            } else {
                let s5 = s4.wr(MBUFF, s4.r(src));
                if (addr as int) >= s5.mem.len() {
                    (s5, WOutcome::Failed(WFail::MemAccess(addr)))
                } else {
                    (s5.wm(addr, s5.r(MBUFF)), WOutcome::Continue)
                }
            }
        }
    } else if op == ADD || op == SUB || op == AND || op == ORR || op == EOR || op == LSR || op
        == LSL {
        match spec_decode(s.regs, cir) {
            Option::None => (s, WOutcome::Failed(WFail::RegAccess(spec_data(cir)))),
            Option::Some(operand) => {
                let a = s.r(src);
                let v = if op == ADD {
                    wadd32(a, operand)
                } else if op == SUB {
                    wsub32(a, operand)
                } else if op == AND {
                    a & operand
                } else if op == ORR {
                    a | operand
                } else if op == EOR {
                    a ^ operand
                } else if op == LSR {
                    shr32(a, operand)
                } else {
                    shl32(a, operand)
                };
                (s.wr(dest, v), WOutcome::Continue)
            },
        }
    } else if op == MOV || op == MVN {
        match spec_decode(s.regs, cir) {
            Option::None => (s, WOutcome::Failed(WFail::RegAccess(spec_data(cir)))),
            Option::Some(operand) => (
                s.wr(
                    dest,
                    if op == MOV {
                        operand
                    } else {
                        !operand
                    },
                ),
                WOutcome::Continue,
            ),
        }
    } else if op == CMP {
        match spec_decode(s.regs, cir) {
            Option::None => (s, WOutcome::Failed(WFail::RegAccess(spec_data(cir)))),
            Option::Some(operand) => {
                let val = s.r(src);
                let flag = if val == operand {
                    COND_EQ
                } else if val < operand {
                    COND_LT
                } else {
                    COND_GT
                };
                (s.wr(STATUS, flag), WOutcome::Continue)
            },
        }
    } else if op == B {
        let offset = spec_offset(cir);
        let cond = spec_cond(cir);
        if cond == COND_NONE {
            (s.wr(COUNTER, offset), WOutcome::Continue)
        } else {
            let status = s.r(STATUS) & COND;
            if cond == status || (cond == COND_NE && status != COND_EQ) {
                (s.wr(COUNTER, offset), WOutcome::Continue)
            } else {
                (s, WOutcome::Continue)
            }
        }
    } else if op == HALT {
        (s, WOutcome::Halted)
    } else {
        (s, WOutcome::Failed(WFail::Unknown))
    }
}

/// The transition function of the word machine: one full
/// fetch-decode-execute step from state `s`.
pub open spec fn spec_execute(s: WState) -> (WState, WOutcome) {
    let s0 = s.wr(ADDRESS, s.r(COUNTER));
    let s1 = s0.wr(COUNTER, wadd32(s0.r(COUNTER), 1));
    let addr = s1.r(ADDRESS);
    if (addr as int) >= s1.mem.len() {
        (s1, WOutcome::Failed(WFail::MemAccess(addr)))
    } else {
        let s2 = s1.wr(MBUFF, s1.mem[addr as int]);
        let cir = s2.r(MBUFF);
        let s3 = s2.wr(CIR, cir);
        spec_exec_op(s3, cir)
    }
}

/// Execute one instruction of the word machine. Returns `Ok(true)` to
/// continue, `Ok(false)` on `HALT`, and an error on a bad access or
/// an undefined instruction; the resulting store contents and the
/// outcome are pinned down by [`spec_execute`].
pub fn execute<M: Storage, R: Storage>(memory: &mut M, regs: &mut R) -> (r: Result<bool, Error>)
    requires
        old(regs).contents().len() >= 18,
    ensures
        ({
            let (t, oc) = spec_execute(
                WState { mem: old(memory).contents(), regs: old(regs).contents() },
            );
            &&& final(memory).contents() == t.mem
            &&& final(regs).contents() == t.regs
            &&& match r {
                Ok(b) => (b && oc is Continue) || (!b && oc is Halted),
                Err(e) => (oc matches WOutcome::Failed(f) && e.message@ == spec_w_fail_message(
                    f,
                    old(memory).store_name(),
                    old(regs).store_name(),
                )),
            }
        }),
        crate::storage::events_extended(*old(memory), *final(memory)),
        crate::storage::events_extended(*old(regs), *final(regs)),
{
    let pc = match regs.get(COUNTER) {
        Ok(v) => v,
        Err(e) => { return Err(e) },
    };
    match regs.set(ADDRESS, pc) {
        Ok(()) => {},
        Err(e) => { return Err(e) },
    }
    match regs.set(COUNTER, pc.wrapping_add(1)) {
        Ok(()) => {},
        Err(e) => { return Err(e) },
    }

    let addr = match regs.get(ADDRESS) {
        Ok(v) => v,
        Err(e) => { return Err(e) },
    };
    let fetched = match memory.get(addr) {
        Ok(v) => v,
        Err(e) => { return Err(e) },
    };
    match regs.set(MBUFF, fetched) {
        Ok(()) => {},
        Err(e) => { return Err(e) },
    }
    let cir = match regs.get(MBUFF) {
        Ok(v) => v,
        Err(e) => { return Err(e) },
    };
    match regs.set(CIR, cir) {
        Ok(()) => {},
        Err(e) => { return Err(e) },
    }

    proof {
        crate::cpu::lemma_word_field_bounds(cir);
    }
    let op = cir & OPERATION;
    if op == LDR || op == STR {
        let src = (cir & SOURCE) >> 16;
        let memf = cir & OFFSET;

        if cir & INDIRECT == 0 {
            match regs.set(ADDRESS, memf) {
                Ok(()) => {},
                Err(e) => { return Err(e) },
            }
        } else {
            let indirect = match regs.get(memf) {
                Ok(v) => v,
                Err(e) => { return Err(e) },
            };
            match regs.set(ADDRESS, indirect) {
                Ok(()) => {},
                Err(e) => { return Err(e) },
            }
        }
        let addr2 = match regs.get(ADDRESS) {
            Ok(v) => v,
            Err(e) => { return Err(e) },
        };
        if op == LDR {
            let loaded = match memory.get(addr2) {
                Ok(v) => v,
                Err(e) => { return Err(e) },
            };
            match regs.set(MBUFF, loaded) {
                Ok(()) => {},
                Err(e) => { return Err(e) },
            }
            let buffered = match regs.get(MBUFF) {
                Ok(v) => v,
                Err(e) => { return Err(e) },
            };
            match regs.set(src, buffered) {
                Ok(()) => {},
                Err(e) => { return Err(e) },
            }
        } else {
            let stored = match regs.get(src) {
                Ok(v) => v,
                Err(e) => { return Err(e) },
            };
            match regs.set(MBUFF, stored) {
                Ok(()) => {},
                Err(e) => { return Err(e) },
            }
            let buffered = match regs.get(MBUFF) {
                Ok(v) => v,
                Err(e) => { return Err(e) },
            };
            match memory.set(addr2, buffered) {
                Ok(()) => {},
                Err(e) => { return Err(e) },
            }
        }
        Ok(true)
    } else if op == ADD || op == SUB || op == AND || op == ORR || op == EOR || op == LSR || op
        == LSL {
        let src = (cir & SOURCE) >> 16;
        let dest = (cir & DEST) >> 12;
        let operand = decode(cir, regs)?;
        let a = match regs.get(src) {
            Ok(v) => v,
            Err(e) => { return Err(e) },
        };
        let v = if op == ADD {
            a.wrapping_add(operand)
        } else if op == SUB {
            a.wrapping_sub(operand)
        } else if op == AND {
            a & operand
        } else if op == ORR {
            a | operand
        } else if op == EOR {
            a ^ operand
        } else if op == LSR {
            if operand >= 32 {
                0
            } else {
                a >> operand
            }
        } else {
            if operand >= 32 {
                0
            } else {
                a << operand
            }
        };
        match regs.set(dest, v) {
            Ok(()) => Ok(true),
            Err(e) => Err(e),
        }
    } else if op == MOV || op == MVN {
        let dest = (cir & DEST) >> 12;
        let operand = decode(cir, regs)?;
        let v = if op == MOV {
            operand
        } else {
            !operand
        };
        match regs.set(dest, v) {
            Ok(()) => Ok(true),
            Err(e) => Err(e),
        }
    } else if op == CMP {
        let src = (cir & SOURCE) >> 16;
        let operand = decode(cir, regs)?;
        let val = match regs.get(src) {
            Ok(v) => v,
            Err(e) => { return Err(e) },
        };
        let flag = if val == operand {
            COND_EQ
        } else if val < operand {
            COND_LT
        } else {
            COND_GT
        };
        match regs.set(STATUS, flag) {
            Ok(()) => Ok(true),
            Err(e) => Err(e),
        }
    } else if op == B {
        let offset = cir & OFFSET;
        let cond = cir & COND;
        if cond == COND_NONE {
            match regs.set(COUNTER, offset) {
                Ok(()) => Ok(true),
                Err(e) => Err(e),
            }
        } else {
            let status = match regs.get(STATUS) {
                Ok(v) => v,
                Err(e) => { return Err(e) },
            };
            let status = status & COND;
            if cond == status || (cond == COND_NE && status != COND_EQ) {
                match regs.set(COUNTER, offset) {
                    Ok(()) => Ok(true),
                    Err(e) => Err(e),
                }
            } else {
                Ok(true)
            }
        }
    } else if op == HALT {
        Ok(false)
    } else {
        Err(Error::plain(String::from_str("Unknown instruction")))
    }
}

/// Decode the operand field of an instruction: the rotated immediate
/// when the immediate flag is set, else the register the data byte
/// names.
pub fn decode<R: Storage>(n: u32, regs: &mut R) -> (r: Result<u32, Error>)
    ensures
        final(regs).contents() == old(regs).contents(),
        final(regs).events() == old(regs).events(),
        final(regs).observing() == old(regs).observing(),
        match spec_decode(old(regs).contents(), n) {
            Option::Some(v) => r == Ok::<u32, Error>(v),
            Option::None => (r matches Err(e) && e.message@
                == crate::storage::spec_bad_index_message(spec_data(n), old(regs).store_name())),
        },
        final(regs).store_name() == old(regs).store_name(),
{
    let shift = (n & SHIFT) >> 8;
    let data = n & DATA;
    if n & IMMEDIATE == 0 {
        regs.get(data)
    } else {
        proof {
            assert((n & 0x0000_0F00) >> 8 < 16) by (bit_vector);
        }
        Ok(rotate_right_data(data, shift * 2))
    }
}

/// Rotate the data byte right by the doubled rotation amount.
fn rotate_right_data(x: u32, k: u32) -> (r: u32)
    requires
        k < 32,
    ensures
        r == rotr32(x, k),
{
    crate::cpu::rotate_right(x, k)
}

} // verus!

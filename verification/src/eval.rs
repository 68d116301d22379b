//! Direct interpretation of the word machine's syntax tree.
//!
//! The interpreter runs nodes in order, recording the outcome of each
//! comparison and branching on it, until `Halt`, a bad access, or the
//! end of the program. Its behaviour is pinned down by the small-step
//! function [`spec_eval_step`]: the interpreter's result is exactly a
//! finite chain of those steps ending in a terminal one.

use vstd::prelude::*;

use crate::assemble::spec_lookup;
use crate::cpu::{Comparison, Operand, WordNode};
use crate::storage::{events_extended, Storage};
use crate::stream::Error;
use crate::vm::{shl32, shr32, wadd32, wsub32};

verus! {

/// The interpreter's state: register and memory contents, the last
/// recorded comparison, and the index of the next node.
pub ghost struct EState {
    pub regs: Seq<u32>,
    pub mem: Seq<u32>,
    pub last: Comparison,
    pub idx: int,
}

/// What stopped a failing step: an access to a register or memory
/// word that does not exist, a branch to a label not in the table,
/// or running past the end of the program.
pub ghost enum EFail {
    RegAccess(u32),
    MemAccess(u32),
    BadLabel(Seq<char>),
    OffEnd,
}

/// One interpreter step: continue in a new state, finish successfully,
/// or fail, with what failed. Failing steps change nothing.
pub ghost enum EStep {
    Next(EState),
    Done(EState),
    Fail(EState, EFail),
}

/// How a finished run ended: at `Halt`, or at a failing step.
pub ghost enum EEnd {
    Halted,
    Failed(EFail),
}

/// What fails when an operand cannot be read: the register it names.
/// A literal operand never fails.
pub open spec fn operand_fail(o: Operand) -> EFail {
    match o {
        Operand::Register(r) => EFail::RegAccess(r),
        Operand::Literal(v) => EFail::OffEnd,
    }
}

/// The message a failing step reports: out-of-range accesses carry
/// the store's own message, the rest their fixed ones.
pub open spec fn spec_e_fail_message(f: EFail, reg_name: Seq<char>, mem_name: Seq<char>) -> Seq<
    char,
> {
    match f {
        EFail::RegAccess(i) => crate::storage::spec_bad_index_message(i, reg_name),
        EFail::MemAccess(i) => crate::storage::spec_bad_index_message(i, mem_name),
        EFail::BadLabel(l) => "Bad Label "@ + l,
        EFail::OffEnd => "Out of instructions"@,
    }
}

/// The value of an operand against a register file: a literal is
/// itself, a register operand reads the register, and `None` names a
/// register that does not exist.
pub open spec fn spec_operand_value(regs: Seq<u32>, o: Operand) -> Option<u32> {
    match o {
        Operand::Register(r) => if (r as int) < regs.len() {
            Some(regs[r as int])
        } else {
            None
        },
        Operand::Literal(v) => Some(v),
    }
}

/// What a three-address node computes from its source value and its
/// operand value.
pub open spec fn spec_binop_value(n: WordNode, a: u32, v: u32) -> u32 {
    match n {
        WordNode::Add(_, _, _) => wadd32(a, v),
        WordNode::Sub(_, _, _) => wsub32(a, v),
        WordNode::And(_, _, _) => a & v,
        WordNode::Orr(_, _, _) => a | v,
        WordNode::Eor(_, _, _) => a ^ v,
        WordNode::Lsl(_, _, _) => shl32(a, v),
        WordNode::Lsr(_, _, _) => shr32(a, v),
        _ => 0,
    }
}

/// Whether a branch with the given condition is taken after the last
/// recorded comparison: an unconditional branch always is, `NotEqual`
/// whenever the last comparison was not `Equal`, the rest on their
/// exact outcome.
pub open spec fn spec_branch_taken_e(cond: Comparison, last: Comparison) -> bool {
    match cond {
        Comparison::Unset => true,
        Comparison::Equal => last == Comparison::Equal,
        Comparison::NotEqual => last != Comparison::Equal,
        Comparison::Less => last == Comparison::Less,
        Comparison::Greater => last == Comparison::Greater,
    }
}

/// One step of the interpreter on state `s`. Running past the end of
/// the program fails; every register write clears the recorded
/// comparison; a taken branch moves to the label's position.
pub open spec fn spec_eval_step(
    prog: Seq<WordNode>,
    lbls: Seq<(String, usize)>,
    s: EState,
) -> EStep {
    if s.idx < 0 || s.idx >= prog.len() {
        EStep::Fail(s, EFail::OffEnd)
    } else {
        let n = prog[s.idx];
        match n {
            WordNode::Ldr(reg, memref) => if (memref as int) >= s.mem.len() {
                EStep::Fail(s, EFail::MemAccess(memref))
            } else if (reg as int) >= s.regs.len() {
                EStep::Fail(s, EFail::RegAccess(reg))
            } else {
                EStep::Next(
                    EState {
                        regs: s.regs.update(reg as int, s.mem[memref as int]),
                        mem: s.mem,
                        last: Comparison::Unset,
                        idx: s.idx + 1,
                    },
                )
            },
            WordNode::Str(reg, memref) => if (reg as int) >= s.regs.len() {
                EStep::Fail(s, EFail::RegAccess(reg))
            } else if (memref as int) >= s.mem.len() {
                EStep::Fail(s, EFail::MemAccess(memref))
            } else {
                EStep::Next(
                    EState {
                        regs: s.regs,
                        mem: s.mem.update(memref as int, s.regs[reg as int]),
                        last: Comparison::Unset,
                        idx: s.idx + 1,
                    },
                )
            },
            WordNode::Add(dest, src, o) => spec_binop_step(prog, s, dest, src, o),
            WordNode::Sub(dest, src, o) => spec_binop_step(prog, s, dest, src, o),
            WordNode::And(dest, src, o) => spec_binop_step(prog, s, dest, src, o),
            WordNode::Orr(dest, src, o) => spec_binop_step(prog, s, dest, src, o),
            WordNode::Eor(dest, src, o) => spec_binop_step(prog, s, dest, src, o),
            WordNode::Lsl(dest, src, o) => spec_binop_step(prog, s, dest, src, o),
            WordNode::Lsr(dest, src, o) => spec_binop_step(prog, s, dest, src, o),
            WordNode::Mov(dest, o) => match spec_operand_value(s.regs, o) {
                Option::None => EStep::Fail(s, operand_fail(o)),
                Option::Some(v) => if (dest as int) >= s.regs.len() {
                    EStep::Fail(s, EFail::RegAccess(dest))
                } else {
                    EStep::Next(
                        EState {
                            regs: s.regs.update(dest as int, v),
                            mem: s.mem,
                            last: Comparison::Unset,
                            idx: s.idx + 1,
                        },
                    )
                },
            },
            WordNode::Mvn(dest, o) => match spec_operand_value(s.regs, o) {
                Option::None => EStep::Fail(s, operand_fail(o)),
                Option::Some(v) => if (dest as int) >= s.regs.len() {
                    EStep::Fail(s, EFail::RegAccess(dest))
                } else {
                    EStep::Next(
                        EState {
                            regs: s.regs.update(dest as int, !v),
                            mem: s.mem,
                            last: Comparison::Unset,
                            idx: s.idx + 1,
                        },
                    )
                },
            },
            WordNode::Cmp(a, o) => if (a as int) >= s.regs.len() {
                EStep::Fail(s, EFail::RegAccess(a))
            } else {
                match spec_operand_value(s.regs, o) {
                    Option::None => EStep::Fail(s, operand_fail(o)),
                    Option::Some(v) => {
                        let av = s.regs[a as int];
                        let outcome = if av == v {
                            Comparison::Equal
                        } else if av < v {
                            Comparison::Less
                        } else {
                            Comparison::Greater
                        };
                        EStep::Next(
                            EState { regs: s.regs, mem: s.mem, last: outcome, idx: s.idx + 1 },
                        )
                    },
                }
            },
            WordNode::B(cond, target) => if !spec_branch_taken_e(cond, s.last) {
                EStep::Next(
                    EState { regs: s.regs, mem: s.mem, last: Comparison::Unset, idx: s.idx + 1 },
                )
            } else {
                match spec_lookup(lbls, target@) {
                    Option::None => EStep::Fail(s, EFail::BadLabel(target@)),
                    Option::Some(pos) => EStep::Next(
                        EState {
                            regs: s.regs,
                            mem: s.mem,
                            last: Comparison::Unset,
                            idx: pos as int,
                        },
                    ),
                }
            },
            WordNode::Halt => EStep::Done(s),
        }
    }
}

/// The step a three-address node makes: read the source register and
/// the operand, fail on a bad register, else write the computed value
/// to the destination.
pub open spec fn spec_binop_step(
    prog: Seq<WordNode>,
    s: EState,
    dest: u32,
    src: u32,
    o: Operand,
) -> EStep {
    if (src as int) >= s.regs.len() {
        EStep::Fail(s, EFail::RegAccess(src))
    } else {
        match spec_operand_value(s.regs, o) {
            Option::None => EStep::Fail(s, operand_fail(o)),
            Option::Some(v) => if (dest as int) >= s.regs.len() {
                EStep::Fail(s, EFail::RegAccess(dest))
            } else {
                EStep::Next(
                    EState {
                        regs: s.regs.update(
                            dest as int,
                            spec_binop_value(prog[s.idx], s.regs[src as int], v),
                        ),
                        mem: s.mem,
                        last: Comparison::Unset,
                        idx: s.idx + 1,
                    },
                )
            },
        }
    }
}

/// The state after exactly `k` continuing steps from `s0`, if the
/// interpreter gets that far without stopping.
pub open spec fn spec_steps(
    prog: Seq<WordNode>,
    lbls: Seq<(String, usize)>,
    s0: EState,
    k: nat,
) -> Option<EState>
    decreases k,
{
    if k == 0 {
        Some(s0)
    } else {
        match spec_eval_step(prog, lbls, s0) {
            EStep::Next(t) => spec_steps(prog, lbls, t, (k - 1) as nat),
            _ => None,
        }
    }
}

/// The interpreter's result when it terminates within `n` steps: the
/// final state and how the run ended. `None` when `n` steps do not
/// reach an end.
pub open spec fn spec_run(
    prog: Seq<WordNode>,
    lbls: Seq<(String, usize)>,
    s: EState,
    n: nat,
) -> Option<(EState, EEnd)>
    decreases n,
{
    match spec_eval_step(prog, lbls, s) {
        EStep::Done(t) => Some((t, EEnd::Halted)),
        EStep::Fail(t, f) => Some((t, EEnd::Failed(f))),
        EStep::Next(t) => if n == 0 {
            None
        } else {
            spec_run(prog, lbls, t, (n - 1) as nat)
        },
    }
}

/// Extending a chain of continuing steps by one more.
proof fn lemma_steps_snoc(
    prog: Seq<WordNode>,
    lbls: Seq<(String, usize)>,
    s0: EState,
    k: nat,
    s: EState,
    t: EState,
)
    requires
        spec_steps(prog, lbls, s0, k) == Some(s),
        spec_eval_step(prog, lbls, s) == EStep::Next(t),
    ensures
        spec_steps(prog, lbls, s0, k + 1) == Some(t),
    decreases k,
{
    if k == 0 {
        assert(spec_steps(prog, lbls, t, 0) == Some(t));
    } else {
        match spec_eval_step(prog, lbls, s0) {
            EStep::Next(u) => {
                lemma_steps_snoc(prog, lbls, u, (k - 1) as nat, s, t);
                assert(spec_steps(prog, lbls, u, ((k - 1) as nat) + 1) == Some(t));
            },
            _ => {},
        }
    }
}

/// A chain of continuing steps that reaches a terminal step is a
/// complete run, under any fuel at least as large.
proof fn lemma_steps_run(
    prog: Seq<WordNode>,
    lbls: Seq<(String, usize)>,
    s0: EState,
    k: nat,
    s: EState,
    n: nat,
)
    requires
        spec_steps(prog, lbls, s0, k) == Some(s),
        spec_eval_step(prog, lbls, s) is Done || spec_eval_step(prog, lbls, s) is Fail,
        k <= n,
    ensures
        ({
            let terminal = match spec_eval_step(prog, lbls, s) {
                EStep::Done(t) => Some((t, EEnd::Halted)),
                EStep::Fail(t, f) => Some((t, EEnd::Failed(f))),
                EStep::Next(t) => None,
            };
            spec_run(prog, lbls, s0, n) == terminal
        }),
    decreases k,
{
    if k == 0 {
    } else {
        match spec_eval_step(prog, lbls, s0) {
            EStep::Next(u) => {
                lemma_steps_run(prog, lbls, u, (k - 1) as nat, s, (n - 1) as nat);
            },
            _ => {},
        }
    }
}

/// A chain of continuing steps as long as the fuel, with one more
/// continuing step ahead, means the run does not finish in the fuel.
proof fn lemma_run_out(
    prog: Seq<WordNode>,
    lbls: Seq<(String, usize)>,
    s0: EState,
    fuel: nat,
    s: EState,
)
    requires
        spec_steps(prog, lbls, s0, fuel) == Some(s),
        spec_eval_step(prog, lbls, s) is Next,
    ensures
        spec_run(prog, lbls, s0, fuel) is None,
    decreases fuel,
{
    if fuel == 0 {
    } else {
        match spec_eval_step(prog, lbls, s0) {
            EStep::Next(u) => {
                lemma_run_out(prog, lbls, u, (fuel - 1) as nat, s);
            },
            _ => {},
        }
    }
}

impl Operand {
    /// The operand's value against a register file; fails exactly when
    /// a register operand names a register outside it.
    pub fn value<R: Storage>(&self, regs: &R) -> (r: Result<u32, Error>)
        ensures
            match spec_operand_value(regs.contents(), *self) {
                Option::Some(v) => r matches Ok(w) && w == v,
                Option::None => (r matches Err(e) && *self matches Operand::Register(n)
                    && e.message@ == crate::storage::spec_bad_index_message(
                    n,
                    regs.store_name(),
                )),
            },
    {
        match self {
            Operand::Register(n) => regs.get(*n),
            Operand::Literal(v) => Ok(*v),
        }
    }
}

/// Interpreting a program of word nodes directly.
pub trait Eval {
    /// The nodes interpreted.
    spec fn eval_prog(&self) -> Seq<WordNode>;

    /// Run the program from its first node against the given label
    /// table, registers and memory, for at most `fuel` continuing
    /// steps. When the run ends within the fuel, the outcome is
    /// exactly what the chain of [`spec_eval_step`] steps gives:
    /// `Ok` at `Halt`, an error at a failing step. When the fuel runs
    /// out, an error comes back and the stores hold the state after
    /// exactly `fuel` steps.
    fn eval<R: Storage, M: Storage>(
        &self,
        lbls: &Vec<(String, usize)>,
        regs: &mut R,
        mem: &mut M,
        fuel: usize,
    ) -> (r: Result<(), Error>)
        ensures
            ({
                let init = EState {
                    regs: old(regs).contents(),
                    mem: old(mem).contents(),
                    last: Comparison::Unset,
                    idx: 0,
                };
                match spec_run(self.eval_prog(), lbls@, init, fuel as nat) {
                    Option::Some(end) => final(regs).contents() == end.0.regs
                        && final(mem).contents() == end.0.mem && (match end.1 {
                        EEnd::Halted => r is Ok,
                        EEnd::Failed(f) => (r matches Err(e) && e.message@
                            == spec_e_fail_message(
                            f,
                            old(regs).store_name(),
                            old(mem).store_name(),
                        )),
                    }),
                    Option::None => (r matches Err(e) && e.message@ == "Out of fuel"@) && (
                    spec_steps(self.eval_prog(), lbls@, init, fuel as nat) matches Some(t)
                        && final(regs).contents() == t.regs && final(mem).contents() == t.mem),
                }
            }),
            events_extended(*old(regs), *final(regs)),
            events_extended(*old(mem), *final(mem)),
    ;
}

impl Eval for Vec<WordNode> {
    open spec fn eval_prog(&self) -> Seq<WordNode> {
        self@
    }

    #[verifier::rlimit(80)]
    fn eval<R: Storage, M: Storage>(
        &self,
        lbls: &Vec<(String, usize)>,
        regs: &mut R,
        mem: &mut M,
        fuel: usize,
    ) -> (r: Result<(), Error>) {
        let ghost prog = self@;
        let ghost lblsv = lbls@;
        let ghost init = EState {
            regs: regs.contents(),
            mem: mem.contents(),
            last: Comparison::Unset,
            idx: 0,
        };
        let mut last: Comparison = Comparison::Unset;
        let mut idx: usize = 0;
        let ghost mut k: nat = 0;
        let ghost mut cur: EState = init;
        let mut steps: usize = 0;
        let mut res: Result<(), Error> = Ok(());
        let mut out_of_fuel: bool = false;

        loop
            invariant_except_break
                !out_of_fuel,
                k <= fuel,
                steps == k,
                spec_steps(prog, lblsv, init, k) == Some(cur),
                cur.regs == regs.contents(),
                cur.mem == mem.contents(),
                cur.last == last,
                cur.idx == idx as int,
                prog == self@,
                lblsv == lbls@,
                regs.store_name() == old(regs).store_name(),
                mem.store_name() == old(mem).store_name(),
                events_extended(*old(regs), *regs),
                events_extended(*old(mem), *mem),
            ensures
                ({
                    match spec_run(prog, lblsv, init, fuel as nat) {
                        Option::Some(end) => regs.contents() == end.0.regs && mem.contents()
                            == end.0.mem && (match end.1 {
                            EEnd::Halted => res is Ok,
                            EEnd::Failed(f) => (res matches Err(e) && e.message@
                                == spec_e_fail_message(
                                f,
                                old(regs).store_name(),
                                old(mem).store_name(),
                            )),
                        }),
                        Option::None => (res matches Err(e) && e.message@ == "Out of fuel"@) && (
                        spec_steps(prog, lblsv, init, fuel as nat) matches Some(t)
                            && regs.contents() == t.regs && mem.contents() == t.mem),
                    }
                }),
                events_extended(*old(regs), *regs),
                events_extended(*old(mem), *mem),
            decreases fuel - k,
        {
            if idx >= self.len() {
                proof {
                    lemma_steps_run(prog, lblsv, init, k, cur, fuel as nat);
                }
                res = Err(Error::plain(String::from_str("Out of instructions")));
                break ;
            }
            let node = &self[idx];
            let mut failed: Option<Error> = None;
            match node {
                WordNode::Ldr(reg, memref) => {
                    match mem.get(*memref) {
                        Err(e) => { failed = Some(e) },
                        Ok(v) => {
                            if (*reg as usize) >= regs.count() {
                                match regs.set(*reg, v) {
                                    Err(e) => { failed = Some(e) },
                                    Ok(_) => { failed = Some(Error::plain(String::new())) },
                                }
                            } else {
                                if steps == fuel {
                                    proof { assert(spec_eval_step(prog, lblsv, cur) is Next); } out_of_fuel = true;
                                } else {
                                    let _ = regs.set(*reg, v);
                                    last = Comparison::Unset;
                                    proof {
                                        let t = EState {
                                            regs: cur.regs.update(
                                                *reg as int,
                                                cur.mem[*memref as int],
                                            ),
                                            mem: cur.mem,
                                            last: Comparison::Unset,
                                            idx: cur.idx + 1,
                                        };
                                        lemma_steps_snoc(prog, lblsv, init, k, cur, t);
                                        k = k + 1;
                                        cur = t;
                                    }
                                    steps = steps + 1;
                                    idx = idx + 1;
                                    continue ;
                                }
                            }
                        },
                    }
                },
                WordNode::Str(reg, memref) => {
                    match regs.get(*reg) {
                        Err(e) => { failed = Some(e) },
                        Ok(v) => {
                            if (*memref as usize) >= mem.count() {
                                match mem.set(*memref, v) {
                                    Err(e) => { failed = Some(e) },
                                    Ok(_) => { failed = Some(Error::plain(String::new())) },
                                }
                            } else {
                                if steps == fuel {
                                    proof { assert(spec_eval_step(prog, lblsv, cur) is Next); } out_of_fuel = true;
                                } else {
                                    let _ = mem.set(*memref, v);
                                    last = Comparison::Unset;
                                    proof {
                                        let t = EState {
                                            regs: cur.regs,
                                            mem: cur.mem.update(
                                                *memref as int,
                                                cur.regs[*reg as int],
                                            ),
                                            last: Comparison::Unset,
                                            idx: cur.idx + 1,
                                        };
                                        lemma_steps_snoc(prog, lblsv, init, k, cur, t);
                                        k = k + 1;
                                        cur = t;
                                    }
                                    steps = steps + 1;
                                    idx = idx + 1;
                                    continue ;
                                }
                            }
                        },
                    }
                },
                WordNode::Add(dest, src, o) | WordNode::Sub(dest, src, o) | WordNode::And(
                    dest,
                    src,
                    o,
                ) | WordNode::Orr(dest, src, o) | WordNode::Eor(dest, src, o) | WordNode::Lsl(
                    dest,
                    src,
                    o,
                ) | WordNode::Lsr(dest, src, o) => {
                    match regs.get(*src) {
                        Err(e) => { failed = Some(e) },
                        Ok(a) => {
                            match o.value(regs) {
                                Err(e) => { failed = Some(e) },
                                Ok(v) => {
                                    if (*dest as usize) >= regs.count() {
                                        match regs.set(*dest, a) {
                                            Err(e) => { failed = Some(e) },
                                            Ok(_) => {
                                                failed = Some(Error::plain(String::new()))
                                            },
                                        }
                                    } else {
                                        if steps == fuel {
                                            proof { assert(spec_eval_step(prog, lblsv, cur) is Next); } out_of_fuel = true;
                                        } else {
                                            let computed = match node {
                                                WordNode::Add(_, _, _) => a.wrapping_add(v),
                                                WordNode::Sub(_, _, _) => a.wrapping_sub(v),
                                                WordNode::And(_, _, _) => a & v,
                                                WordNode::Orr(_, _, _) => a | v,
                                                WordNode::Eor(_, _, _) => a ^ v,
                                                WordNode::Lsl(_, _, _) => if v >= 32 {
                                                    0
                                                } else {
                                                    a << v
                                                },
                                                _ => if v >= 32 {
                                                    0
                                                } else {
                                                    a >> v
                                                },
                                            };
                                            let _ = regs.set(*dest, computed);
                                            last = Comparison::Unset;
                                            proof {
                                                let t = EState {
                                                    regs: cur.regs.update(
                                                        *dest as int,
                                                        spec_binop_value(
                                                            prog[cur.idx],
                                                            cur.regs[*src as int],
                                                            spec_operand_value(cur.regs, *o)->0,
                                                        ),
                                                    ),
                                                    mem: cur.mem,
                                                    last: Comparison::Unset,
                                                    idx: cur.idx + 1,
                                                };
                                                lemma_steps_snoc(prog, lblsv, init, k, cur, t);
                                                k = k + 1;
                                                cur = t;
                                            }
                                            steps = steps + 1;
                                            idx = idx + 1;
                                            continue ;
                                        }
                                    }
                                },
                            }
                        },
                    }
                },
                WordNode::Mov(dest, o) | WordNode::Mvn(dest, o) => {
                    match o.value(regs) {
                        Err(e) => { failed = Some(e) },
                        Ok(v) => {
                            if (*dest as usize) >= regs.count() {
                                match regs.set(*dest, v) {
                                    Err(e) => { failed = Some(e) },
                                    Ok(_) => { failed = Some(Error::plain(String::new())) },
                                }
                            } else {
                                if steps == fuel {
                                    proof { assert(spec_eval_step(prog, lblsv, cur) is Next); } out_of_fuel = true;
                                } else {
                                    let computed = match node {
                                        WordNode::Mov(_, _) => v,
                                        _ => !v,
                                    };
                                    let _ = regs.set(*dest, computed);
                                    last = Comparison::Unset;
                                    proof {
                                        let t = EState {
                                            regs: cur.regs.update(*dest as int, computed),
                                            mem: cur.mem,
                                            last: Comparison::Unset,
                                            idx: cur.idx + 1,
                                        };
                                        lemma_steps_snoc(prog, lblsv, init, k, cur, t);
                                        k = k + 1;
                                        cur = t;
                                    }
                                    steps = steps + 1;
                                    idx = idx + 1;
                                    continue ;
                                }
                            }
                        },
                    }
                },
                WordNode::Cmp(a, o) => {
                    match regs.get(*a) {
                        Err(e) => { failed = Some(e) },
                        Ok(av) => {
                            match o.value(regs) {
                                Err(e) => { failed = Some(e) },
                                Ok(v) => {
                                    if steps == fuel {
                                        proof { assert(spec_eval_step(prog, lblsv, cur) is Next); } out_of_fuel = true;
                                    } else {
                                        last = if av == v {
                                            Comparison::Equal
                                        } else if av < v {
                                            Comparison::Less
                                        } else {
                                            Comparison::Greater
                                        };
                                        proof {
                                            let t = EState {
                                                regs: cur.regs,
                                                mem: cur.mem,
                                                last: last,
                                                idx: cur.idx + 1,
                                            };
                                            lemma_steps_snoc(prog, lblsv, init, k, cur, t);
                                            k = k + 1;
                                            cur = t;
                                        }
                                        steps = steps + 1;
                                        idx = idx + 1;
                                        continue ;
                                    }
                                },
                            }
                        },
                    }
                },
                WordNode::B(cond, target) => {
                    let taken = match cond {
                        Comparison::Unset => true,
                        Comparison::Equal => matches!(last, Comparison::Equal),
                        Comparison::NotEqual => !matches!(last, Comparison::Equal),
                        Comparison::Less => matches!(last, Comparison::Less),
                        Comparison::Greater => matches!(last, Comparison::Greater),
                    };
                    if !taken {
                        if steps == fuel {
                            proof { assert(spec_eval_step(prog, lblsv, cur) is Next); } out_of_fuel = true;
                        } else {
                            last = Comparison::Unset;
                            proof {
                                let t = EState {
                                    regs: cur.regs,
                                    mem: cur.mem,
                                    last: Comparison::Unset,
                                    idx: cur.idx + 1,
                                };
                                lemma_steps_snoc(prog, lblsv, init, k, cur, t);
                                k = k + 1;
                                cur = t;
                            }
                            steps = steps + 1;
                            idx = idx + 1;
                            continue ;
                        }
                    } else {
                        match crate::assemble::lookup(lbls, target) {
                            Option::None => {
                                failed = Some(
                                    Error::plain(
                                        String::from_str("Bad Label ").concat(target.as_str()),
                                    ),
                                );
                            },
                            Option::Some(pos) => {
                                if steps == fuel {
                                    proof { assert(spec_eval_step(prog, lblsv, cur) is Next); } out_of_fuel = true;
                                } else {
                                    last = Comparison::Unset;
                                    proof {
                                        let t = EState {
                                            regs: cur.regs,
                                            mem: cur.mem,
                                            last: Comparison::Unset,
                                            idx: pos as int,
                                        };
                                        lemma_steps_snoc(prog, lblsv, init, k, cur, t);
                                        k = k + 1;
                                        cur = t;
                                    }
                                    steps = steps + 1;
                                    idx = pos;
                                    continue ;
                                }
                            },
                        }
                    }
                },
                WordNode::Halt => {
                    proof {
                        lemma_steps_run(prog, lblsv, init, k, cur, fuel as nat);
                    }
                    res = Ok(());
                    break ;
                },
            }
            if out_of_fuel {
                // The next step would continue, but the fuel is spent:
                // the stores hold the state after exactly `fuel`
                // steps.
                proof {
                    assert(k == fuel as nat);
                    assert(spec_steps(prog, lblsv, init, fuel as nat) == Some(cur));
                    assert(spec_eval_step(prog, lblsv, cur) is Next);
                    lemma_run_out(prog, lblsv, init, fuel as nat, cur);
                }
                res = Err(Error::plain(String::from_str("Out of fuel")));
                break ;
            }
            // The step failed: the state is unchanged and the run
            // ends here.
            let e = match failed {
                Some(e) => e,
                None => Error::plain(String::new()),
            };
            proof {
                lemma_steps_run(prog, lblsv, init, k, cur, fuel as nat);
            }
            res = Err(e);
            break ;
        }
        res
    }
}

} // verus!

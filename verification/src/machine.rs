//! The execution engine: an operand stack, a stack of call frames with
//! per-frame locals, and a fetch-decode-execute loop driven by a small-step
//! specification semantics.

use crate::assemble::{assemble, spec_assemble, Program};
use crate::instr::{AsmError, AsmErrorV, ExecFault, FaultV, Instr, InstrV};
use crate::operand::{spec_display, Operand, OperandV};
use crate::text::str_eq;
use vstd::prelude::*;
use vstd::string::*;

verus! {

/// The local bindings a sequence of (name, value) records denotes; a later
/// record for the same name wins.
pub open spec fn locals_view(s: Seq<(String, Operand)>) -> Map<Seq<char>, OperandV>
    decreases s.len(),
{
    if s.len() == 0 {
        Map::empty()
    } else {
        locals_view(s.drop_last()).insert(s.last().0@, s.last().1@)
    }
}

/// One activation: its return position and its local-variable bindings.
pub struct Frame {
    pub ret: usize,
    pub locals: Vec<(String, Operand)>,
}

/// Mathematical model of a [`Frame`].
#[verifier::ext_equal]
pub struct FrameV {
    pub ret: int,
    pub locals: Map<Seq<char>, OperandV>,
}

impl View for Frame {
    type V = FrameV;

    open spec fn view(&self) -> FrameV {
        FrameV { ret: self.ret as int, locals: locals_view(self.locals@) }
    }
}

/// An observable side effect of execution, in emission order.
#[derive(Clone, Debug, PartialEq)]
pub enum Effect {
    /// Text emitted by `PRINT`, with no trailing newline.
    Print(String),
    /// A diagnostic line emitted by a channel or spawn instruction.
    Log(String),
    /// A request to start the two fixed background counting tasks; the tasks
    /// ignore the operands popped by `SPAWN`.
    SpawnTasks,
}

/// Mathematical model of an [`Effect`].
pub enum EffectV {
    Print(Seq<char>),
    Log(Seq<char>),
    SpawnTasks,
}

impl View for Effect {
    type V = EffectV;

    open spec fn view(&self) -> EffectV {
        match self {
            Effect::Print(s) => EffectV::Print(s@),
            Effect::Log(s) => EffectV::Log(s@),
            Effect::SpawnTasks => EffectV::SpawnTasks,
        }
    }
}

pub open spec fn stack_view(s: Seq<Operand>) -> Seq<OperandV> {
    s.map_values(|o: Operand| o@)
}

pub open spec fn frames_view(s: Seq<Frame>) -> Seq<FrameV> {
    s.map_values(|f: Frame| f@)
}

pub open spec fn effects_view(s: Seq<Effect>) -> Seq<EffectV> {
    s.map_values(|e: Effect| e@)
}

/// The machine: program counter, operand stack, frame stack, and the
/// effects emitted so far. Owned by one run and discarded afterwards.
pub struct Machine {
    pub pc: usize,
    pub stack: Vec<Operand>,
    pub frames: Vec<Frame>,
    pub effects: Vec<Effect>,
}

/// Mathematical model of a [`Machine`] state.
#[verifier::ext_equal]
pub struct StateV {
    pub pc: int,
    pub stack: Seq<OperandV>,
    pub frames: Seq<FrameV>,
    pub effects: Seq<EffectV>,
}

impl View for Machine {
    type V = StateV;

    open spec fn view(&self) -> StateV {
        StateV {
            pc: self.pc as int,
            stack: stack_view(self.stack@),
            frames: frames_view(self.frames@),
            effects: effects_view(self.effects@),
        }
    }
}

/// The state a run starts from: program counter zero, empty operand stack,
/// one frame with empty locals, no effects.
pub open spec fn init_state() -> StateV {
    StateV {
        pc: 0,
        stack: Seq::empty(),
        frames: seq![FrameV { ret: 0, locals: Map::empty() }],
        effects: Seq::empty(),
    }
}

/// The diagnostic line `SEND_CHANNEL` emits.
pub open spec fn send_log(ch: OperandV, val: OperandV) -> Seq<char> {
    "SEND (ch="@ + spec_display(ch) + ", val="@ + spec_display(val) + ")"@
}

/// The diagnostic line `RECV_CHANNEL` emits.
pub open spec fn recv_log(ch: OperandV) -> Seq<char> {
    "RECV (ch="@ + spec_display(ch) + ")"@
}

/// The diagnostic line `SPAWN` emits.
pub open spec fn spawn_log(f1: OperandV, f2: OperandV) -> Seq<char> {
    "SPAWN (func1="@ + spec_display(f1) + ", func2="@ + spec_display(f2) + ")"@
}

/// The fixed placeholder text `RECV_CHANNEL` pushes, whatever the channel
/// name and whether anything was ever sent.
pub open spec fn recv_value() -> OperandV {
    OperandV::S("recv_channel_value"@)
}

/// One step of the machine at a valid program counter: the next state, or
/// the execution fault that aborts the run.
pub open spec fn spec_step(prog: Seq<InstrV>, st: StateV) -> Result<StateV, FaultV>
    recommends
        0 <= st.pc < prog.len(),
        st.frames.len() >= 1,
{
    match prog[st.pc] {
        InstrV::LoadVal(v) => Ok(
            StateV { pc: st.pc + 1, stack: st.stack.push(v), frames: st.frames, effects: st.effects },
        ),
        InstrV::Push(v) => Ok(
            StateV { pc: st.pc + 1, stack: st.stack.push(v), frames: st.frames, effects: st.effects },
        ),
        InstrV::WriteVar(a) => if st.stack.len() == 0 {
            Err(FaultV::StackUnderflow)
        } else {
            match a {
                OperandV::S(name) => {
                    let fr = st.frames.last();
                    let fr2 = FrameV { ret: fr.ret, locals: fr.locals.insert(name, st.stack.last()) };
                    Ok(
                        StateV {
                            pc: st.pc + 1,
                            stack: st.stack.drop_last(),
                            frames: st.frames.drop_last().push(fr2),
                            effects: st.effects,
                        },
                    )
                },
                _ => Err(FaultV::KindMismatch),
            }
        },
        InstrV::ReadVar(a) => match a {
            OperandV::S(name) => {
                let fr = st.frames.last();
                if fr.locals.contains_key(name) {
                    Ok(
                        StateV {
                            pc: st.pc + 1,
                            stack: st.stack.push(fr.locals[name]),
                            frames: st.frames,
                            effects: st.effects,
                        },
                    )
                } else {
                    Err(FaultV::UnboundVariable(name))
                }
            },
            _ => Err(FaultV::KindMismatch),
        },
        InstrV::Add => if st.stack.len() < 2 {
            Err(FaultV::StackUnderflow)
        } else {
            match (st.stack[st.stack.len() - 2], st.stack.last()) {
                (OperandV::I(l), OperandV::I(r)) => if i64::MIN <= l + r <= i64::MAX {
                    Ok(
                        StateV {
                            pc: st.pc + 1,
                            stack: st.stack.take(st.stack.len() - 2).push(OperandV::I(l + r)),
                            frames: st.frames,
                            effects: st.effects,
                        },
                    )
                } else {
                    Err(FaultV::ArithmeticOverflow)
                },
                _ => Err(FaultV::KindMismatch),
            }
        },
        InstrV::Multiply => if st.stack.len() < 2 {
            Err(FaultV::StackUnderflow)
        } else {
            match (st.stack[st.stack.len() - 2], st.stack.last()) {
                (OperandV::I(l), OperandV::I(r)) => if i64::MIN <= l * r <= i64::MAX {
                    Ok(
                        StateV {
                            pc: st.pc + 1,
                            stack: st.stack.take(st.stack.len() - 2).push(OperandV::I(l * r)),
                            frames: st.frames,
                            effects: st.effects,
                        },
                    )
                } else {
                    Err(FaultV::ArithmeticOverflow)
                },
                _ => Err(FaultV::KindMismatch),
            }
        },
        InstrV::CmpLt => if st.stack.len() < 2 {
            Err(FaultV::StackUnderflow)
        } else {
            match (st.stack[st.stack.len() - 2], st.stack.last()) {
                (OperandV::I(l), OperandV::I(r)) => Ok(
                    StateV {
                        pc: st.pc + 1,
                        stack: st.stack.take(st.stack.len() - 2).push(OperandV::B(l < r)),
                        frames: st.frames,
                        effects: st.effects,
                    },
                ),
                _ => Err(FaultV::KindMismatch),
            }
        },
        InstrV::PopJumpIfFalse(a, t) => if st.stack.len() == 0 {
            Err(FaultV::StackUnderflow)
        } else {
            match st.stack.last() {
                OperandV::B(b) => if b {
                    Ok(
                        StateV {
                            pc: st.pc + 1,
                            stack: st.stack.drop_last(),
                            frames: st.frames,
                            effects: st.effects,
                        },
                    )
                } else {
                    match a {
                        OperandV::S(name) => match t {
                            Some(tv) => Ok(
                                StateV {
                                    pc: tv,
                                    stack: st.stack.drop_last(),
                                    frames: st.frames,
                                    effects: st.effects,
                                },
                            ),
                            None => Err(FaultV::UnresolvedLabel(name)),
                        },
                        _ => Err(FaultV::KindMismatch),
                    }
                },
                _ => Err(FaultV::KindMismatch),
            }
        },
        InstrV::Jump(a, t) => match a {
            OperandV::S(name) => match t {
                Some(tv) => Ok(
                    StateV { pc: tv, stack: st.stack, frames: st.frames, effects: st.effects },
                ),
                None => Err(FaultV::UnresolvedLabel(name)),
            },
            _ => Err(FaultV::KindMismatch),
        },
        InstrV::Print(_) => if st.stack.len() == 0 {
            Err(FaultV::StackUnderflow)
        } else {
            Ok(
                StateV {
                    pc: st.pc + 1,
                    stack: st.stack.drop_last(),
                    frames: st.frames,
                    effects: st.effects.push(EffectV::Print(spec_display(st.stack.last()))),
                },
            )
        },
        InstrV::SendChannel => if st.stack.len() < 2 {
            Err(FaultV::StackUnderflow)
        } else {
            Ok(
                StateV {
                    pc: st.pc + 1,
                    stack: st.stack.take(st.stack.len() - 2),
                    frames: st.frames,
                    effects: st.effects.push(
                        EffectV::Log(send_log(st.stack.last(), st.stack[st.stack.len() - 2])),
                    ),
                },
            )
        },
        InstrV::RecvChannel => if st.stack.len() == 0 {
            Err(FaultV::StackUnderflow)
        } else {
            Ok(
                StateV {
                    pc: st.pc + 1,
                    stack: st.stack.drop_last().push(recv_value()),
                    frames: st.frames,
                    effects: st.effects.push(EffectV::Log(recv_log(st.stack.last()))),
                },
            )
        },
        InstrV::Spawn => if st.stack.len() < 2 {
            Err(FaultV::StackUnderflow)
        } else {
            Ok(
                StateV {
                    pc: st.pc + 1,
                    stack: st.stack.take(st.stack.len() - 2),
                    frames: st.frames,
                    effects: st.effects.push(
                        EffectV::Log(spawn_log(st.stack.last(), st.stack[st.stack.len() - 2])),
                    ).push(EffectV::SpawnTasks),
                },
            )
        },
        InstrV::ReturnValue => if st.frames.len() <= 1 {
            Ok(
                StateV {
                    pc: prog.len() as int,
                    stack: st.stack,
                    frames: st.frames,
                    effects: st.effects,
                },
            )
        } else {
            Ok(
                StateV {
                    pc: st.frames.last().ret,
                    stack: st.stack,
                    frames: st.frames.drop_last(),
                    effects: st.effects,
                },
            )
        },
    }
}

/// A run observed after a given number of steps: still running, halted
/// (the program counter left the program), or aborted by a fault.
pub enum RunV {
    Running(StateV),
    Halted(StateV),
    Faulted(FaultV),
}

/// Iterating [`spec_step`] for at most `fuel` steps from `st`.
pub open spec fn spec_run(prog: Seq<InstrV>, st: StateV, fuel: nat) -> RunV
    decreases fuel,
{
    if st.pc < 0 || st.pc >= prog.len() {
        RunV::Halted(st)
    } else if fuel == 0 {
        RunV::Running(st)
    } else {
        match spec_step(prog, st) {
            Ok(st2) => spec_run(prog, st2, (fuel - 1) as nat),
            Err(f) => RunV::Faulted(f),
        }
    }
}

/// One more unit of fuel advances a still-running run by exactly one step.
pub proof fn lemma_run_extend(prog: Seq<InstrV>, st: StateV, n: nat)
    requires
        spec_run(prog, st, n) is Running,
    ensures
        spec_run(prog, st, n + 1) == spec_run(prog, spec_run(prog, st, n)->Running_0, 1),
    decreases n,
{
    if n > 0 {
        lemma_run_extend(prog, spec_step(prog, st)->Ok_0, (n - 1) as nat);
    }
}

/// A run that has halted or faulted stays so under any additional fuel.
pub proof fn lemma_run_stable(prog: Seq<InstrV>, st: StateV, n: nat, m: nat)
    requires
        n <= m,
        !(spec_run(prog, st, n) is Running),
    ensures
        spec_run(prog, st, m) == spec_run(prog, st, n),
    decreases n,
{
    if st.pc < 0 || st.pc >= prog.len() {
    } else if n == 0 {
    } else {
        match spec_step(prog, st) {
            Ok(st2) => {
                lemma_run_stable(prog, st2, (n - 1) as nat, (m - 1) as nat);
            },
            Err(_) => {},
        }
    }
}

impl Machine {
    /// A fresh machine: program counter zero, empty operand stack, one frame
    /// with empty locals, no effects.
    pub fn new() -> (m: Machine)
        ensures
            m@ == init_state(),
    {
        let m = Machine {
            pc: 0,
            stack: Vec::new(),
            frames: vec![Frame { ret: 0, locals: Vec::new() }],
            effects: Vec::new(),
        };
        proof {
            assert(locals_view(Seq::<(String, Operand)>::empty()) =~= Map::<
                Seq<char>,
                OperandV,
            >::empty());
            assert(m@ =~~= init_state());
        }
        m
    }
}

/// Looks a variable up in a frame's bindings; a later binding wins.
fn locals_get(locals: &Vec<(String, Operand)>, name: &str) -> (r: Option<Operand>)
    ensures
        match r {
            Some(v) => locals_view(locals@).contains_key(name@) && v@ == locals_view(
                locals@,
            ).index(name@),
            None => !locals_view(locals@).contains_key(name@),
        },
{
    let mut i: usize = locals.len();
    proof {
        assert(locals@.take(locals@.len() as int) =~= locals@);
    }
    while i > 0
        invariant
            i <= locals@.len(),
            locals_view(locals@).contains_key(name@) == locals_view(
                locals@.take(i as int),
            ).contains_key(name@),
            locals_view(locals@).contains_key(name@) ==> locals_view(locals@)[name@]
                == locals_view(locals@.take(i as int))[name@],
        decreases i,
    {
        i = i - 1;
        proof {
            assert(locals@.take(i + 1).drop_last() =~= locals@.take(i as int));
            assert(locals@.take(i + 1).last() == locals@[i as int]);
        }
        let hit = str_eq(locals[i].0.as_str(), name);
        if hit {
            return Some(locals[i].1.dup());
        }
    }
    proof {
        assert(locals@.take(0) =~= Seq::<(String, Operand)>::empty());
    }
    None
}

/// The product of two 64-bit integers stays far inside the 128-bit range.
proof fn lemma_mul_i64_in_i128(a: int, b: int)
    by (nonlinear_arith)
    requires
        -0x8000_0000_0000_0000 <= a <= 0x7fff_ffff_ffff_ffff,
        -0x8000_0000_0000_0000 <= b <= 0x7fff_ffff_ffff_ffff,
    ensures
        -0x4000_0000_0000_0000_0000_0000_0000_0000 <= a * b
            <= 0x4000_0000_0000_0000_0000_0000_0000_0000,
{
}

/// Executes the instruction at the current program counter, exactly as
/// [`spec_step`] describes.
fn step_instr(prog: &Program, m: &mut Machine) -> (r: Result<(), ExecFault>)
    requires
        old(m)@.pc < prog@.len(),
        old(m)@.frames.len() >= 1,
    ensures
        match r {
            Ok(_) => spec_step(prog@, old(m)@) == Ok::<StateV, FaultV>(final(m)@)
                && final(m)@.frames.len() >= 1,
            Err(f) => spec_step(prog@, old(m)@) == Err::<StateV, FaultV>(f@),
        },
{
    let plen = prog.instrs.len();
    let ins = &prog.instrs[m.pc];
    proof {
        assert(m@.pc + 1 <= plen);
        assert(ins@ == prog@[m@.pc]);
    }
    match ins {
        Instr::LoadVal(v) => {
            m.stack.push(v.dup());
            m.pc = m.pc + 1;
            proof {
                assert(stack_view(m.stack@) =~= stack_view(old(m).stack@).push(v@));
                assert(spec_step(prog@, old(m)@) == Ok::<StateV, FaultV>(m@)) by {
                    assert(m@ =~= spec_step(prog@, old(m)@)->Ok_0);
                }
            }
            Ok(())
        },
        Instr::Push(v) => {
            m.stack.push(v.dup());
            m.pc = m.pc + 1;
            proof {
                assert(stack_view(m.stack@) =~= stack_view(old(m).stack@).push(v@));
                assert(m@ =~= spec_step(prog@, old(m)@)->Ok_0);
            }
            Ok(())
        },
        Instr::WriteVar(a) => {
            let val = match m.stack.pop() {
                Some(v) => v,
                None => {
                    return Err(ExecFault::StackUnderflow);
                },
            };
            match a {
                Operand::S(name) => {
                    let mut fr = m.frames.pop().unwrap();
                    let ghost locals0 = fr.locals@;
                    let ghost fr0 = fr@;
                    proof {
                        assert(fr0 == frames_view(old(m).frames@).last());
                    }
                    fr.locals.push((name.clone(), val));
                    proof {
                        assert(fr.locals@.drop_last() =~= locals0);
                        assert(fr.locals@.last().0@ == name@);
                        assert(fr.locals@.last().1 == val);
                        assert(fr@ =~~= FrameV {
                            ret: fr0.ret,
                            locals: fr0.locals.insert(name@, val@),
                        });
                    }
                    m.frames.push(fr);
                    m.pc = m.pc + 1;
                    proof {
                        assert(stack_view(m.stack@) =~= stack_view(old(m).stack@).drop_last());
                        assert(frames_view(m.frames@) =~= frames_view(
                            old(m).frames@,
                        ).drop_last().push(m.frames@.last()@));
                        assert(stack_view(old(m).stack@).last() == old(m).stack@.last()@);
                        assert(m@ =~~= spec_step(prog@, old(m)@)->Ok_0);
                    }
                    Ok(())
                },
                _ => Err(ExecFault::KindMismatch),
            }
        },
        Instr::ReadVar(a) => {
            match a {
                Operand::S(name) => {
                    let fl = m.frames.len();
                    proof {
                        assert(m.frames@[fl - 1]@ == frames_view(m.frames@).last());
                    }
                    match locals_get(&m.frames[fl - 1].locals, name.as_str()) {
                        Some(v) => {
                            m.stack.push(v);
                            m.pc = m.pc + 1;
                            proof {
                                assert(stack_view(m.stack@) =~= stack_view(
                                    old(m).stack@,
                                ).push(m.stack@.last()@));
                                assert(m@ =~= spec_step(prog@, old(m)@)->Ok_0);
                            }
                            Ok(())
                        },
                        None => Err(ExecFault::UnboundVariable(name.clone())),
                    }
                },
                _ => Err(ExecFault::KindMismatch),
            }
        },
        Instr::Add => {
            let rhs = match m.stack.pop() {
                Some(v) => v,
                None => {
                    return Err(ExecFault::StackUnderflow);
                },
            };
            let lhs = match m.stack.pop() {
                Some(v) => v,
                None => {
                    return Err(ExecFault::StackUnderflow);
                },
            };
            proof {
                assert(lhs@ == stack_view(old(m).stack@)[old(m).stack@.len() - 2]);
                assert(rhs@ == stack_view(old(m).stack@).last());
            }
            match (lhs, rhs) {
                (Operand::I(a), Operand::I(b)) => {
                    let sum: i128 = (a as i128) + (b as i128);
                    if sum >= i64::MIN as i128 && sum <= i64::MAX as i128 {
                        m.stack.push(Operand::I(sum as i64));
                        m.pc = m.pc + 1;
                        proof {
                            assert(stack_view(m.stack@) =~= stack_view(old(m).stack@).take(
                                old(m).stack@.len() - 2,
                            ).push(OperandV::I(a + b)));
                            assert(m@ =~= spec_step(prog@, old(m)@)->Ok_0);
                        }
                        Ok(())
                    } else {
                        Err(ExecFault::ArithmeticOverflow)
                    }
                },
                _ => Err(ExecFault::KindMismatch),
            }
        },
        Instr::Multiply => {
            let rhs = match m.stack.pop() {
                Some(v) => v,
                None => {
                    return Err(ExecFault::StackUnderflow);
                },
            };
            let lhs = match m.stack.pop() {
                Some(v) => v,
                None => {
                    return Err(ExecFault::StackUnderflow);
                },
            };
            proof {
                assert(lhs@ == stack_view(old(m).stack@)[old(m).stack@.len() - 2]);
                assert(rhs@ == stack_view(old(m).stack@).last());
            }
            match (lhs, rhs) {
                (Operand::I(a), Operand::I(b)) => {
                    proof {
                        lemma_mul_i64_in_i128(a as int, b as int);
                    }
                    let product: i128 = (a as i128) * (b as i128);
                    if product >= i64::MIN as i128 && product <= i64::MAX as i128 {
                        m.stack.push(Operand::I(product as i64));
                        m.pc = m.pc + 1;
                        proof {
                            assert(stack_view(m.stack@) =~= stack_view(old(m).stack@).take(
                                old(m).stack@.len() - 2,
                            ).push(OperandV::I(a * b)));
                            assert(m@ =~= spec_step(prog@, old(m)@)->Ok_0);
                        }
                        Ok(())
                    } else {
                        Err(ExecFault::ArithmeticOverflow)
                    }
                },
                _ => Err(ExecFault::KindMismatch),
            }
        },
        Instr::CmpLt => {
            let rhs = match m.stack.pop() {
                Some(v) => v,
                None => {
                    return Err(ExecFault::StackUnderflow);
                },
            };
            let lhs = match m.stack.pop() {
                Some(v) => v,
                None => {
                    return Err(ExecFault::StackUnderflow);
                },
            };
            proof {
                assert(lhs@ == stack_view(old(m).stack@)[old(m).stack@.len() - 2]);
                assert(rhs@ == stack_view(old(m).stack@).last());
            }
            match (lhs, rhs) {
                (Operand::I(a), Operand::I(b)) => {
                    m.stack.push(Operand::B(a < b));
                    m.pc = m.pc + 1;
                    proof {
                        assert(stack_view(m.stack@) =~= stack_view(old(m).stack@).take(
                            old(m).stack@.len() - 2,
                        ).push(OperandV::B((a as int) < (b as int))));
                        assert(m@ =~= spec_step(prog@, old(m)@)->Ok_0);
                    }
                    Ok(())
                },
                _ => Err(ExecFault::KindMismatch),
            }
        },
        Instr::PopJumpIfFalse(a, t) => {
            let cond = match m.stack.pop() {
                Some(v) => v,
                None => {
                    return Err(ExecFault::StackUnderflow);
                },
            };
            proof {
                assert(cond@ == stack_view(old(m).stack@).last());
                assert(stack_view(m.stack@) =~= stack_view(old(m).stack@).drop_last());
            }
            match cond {
                Operand::B(b) => {
                    if b {
                        m.pc = m.pc + 1;
                        proof {
                            assert(m@ =~= spec_step(prog@, old(m)@)->Ok_0);
                        }
                        Ok(())
                    } else {
                        match a {
                            Operand::S(name) => match t {
                                Some(tv) => {
                                    m.pc = *tv;
                                    proof {
                                        assert(m@ =~= spec_step(prog@, old(m)@)->Ok_0);
                                    }
                                    Ok(())
                                },
                                None => Err(ExecFault::UnresolvedLabel(name.clone())),
                            },
                            _ => Err(ExecFault::KindMismatch),
                        }
                    }
                },
                _ => Err(ExecFault::KindMismatch),
            }
        },
        Instr::Jump(a, t) => {
            match a {
                Operand::S(name) => match t {
                    Some(tv) => {
                        m.pc = *tv;
                        proof {
                            assert(m@ =~= spec_step(prog@, old(m)@)->Ok_0);
                        }
                        Ok(())
                    },
                    None => Err(ExecFault::UnresolvedLabel(name.clone())),
                },
                _ => Err(ExecFault::KindMismatch),
            }
        },
        Instr::Print(_) => {
            let val = match m.stack.pop() {
                Some(v) => v,
                None => {
                    return Err(ExecFault::StackUnderflow);
                },
            };
            proof {
                assert(val@ == stack_view(old(m).stack@).last());
            }
            m.effects.push(Effect::Print(val.display_text()));
            m.pc = m.pc + 1;
            proof {
                assert(stack_view(m.stack@) =~= stack_view(old(m).stack@).drop_last());
                assert(effects_view(m.effects@) =~= effects_view(old(m).effects@).push(
                    m.effects@.last()@,
                ));
                assert(m@ =~= spec_step(prog@, old(m)@)->Ok_0);
            }
            Ok(())
        },
        Instr::SendChannel => {
            let ch = match m.stack.pop() {
                Some(v) => v,
                None => {
                    return Err(ExecFault::StackUnderflow);
                },
            };
            let val = match m.stack.pop() {
                Some(v) => v,
                None => {
                    return Err(ExecFault::StackUnderflow);
                },
            };
            proof {
                assert(ch@ == stack_view(old(m).stack@).last());
                assert(val@ == stack_view(old(m).stack@)[old(m).stack@.len() - 2]);
                assert(stack_view(m.stack@) =~= stack_view(old(m).stack@).take(
                    old(m).stack@.len() - 2,
                ));
            }
            let mut msg = String::from_str("SEND (ch=");
            let cht = ch.display_text();
            msg.append(cht.as_str());
            msg.append(", val=");
            let valt = val.display_text();
            msg.append(valt.as_str());
            msg.append(")");
            proof {
                assert(msg@ =~= send_log(ch@, val@));
            }
            m.effects.push(Effect::Log(msg));
            m.pc = m.pc + 1;
            proof {
                assert(effects_view(m.effects@) =~= effects_view(old(m).effects@).push(
                    m.effects@.last()@,
                ));
                assert(m@ =~= spec_step(prog@, old(m)@)->Ok_0);
            }
            Ok(())
        },
        Instr::RecvChannel => {
            let ch = match m.stack.pop() {
                Some(v) => v,
                None => {
                    return Err(ExecFault::StackUnderflow);
                },
            };
            proof {
                assert(ch@ == stack_view(old(m).stack@).last());
            }
            let mut msg = String::from_str("RECV (ch=");
            let cht = ch.display_text();
            msg.append(cht.as_str());
            msg.append(")");
            proof {
                assert(msg@ =~= recv_log(ch@));
            }
            m.effects.push(Effect::Log(msg));
            m.stack.push(Operand::S(String::from_str("recv_channel_value")));
            m.pc = m.pc + 1;
            proof {
                assert(stack_view(m.stack@) =~= stack_view(old(m).stack@).drop_last().push(
                    recv_value(),
                ));
                assert(effects_view(m.effects@) =~= effects_view(old(m).effects@).push(
                    m.effects@.last()@,
                ));
                assert(m@ =~= spec_step(prog@, old(m)@)->Ok_0);
            }
            Ok(())
        },
        Instr::Spawn => {
            let f1 = match m.stack.pop() {
                Some(v) => v,
                None => {
                    return Err(ExecFault::StackUnderflow);
                },
            };
            let f2 = match m.stack.pop() {
                Some(v) => v,
                None => {
                    return Err(ExecFault::StackUnderflow);
                },
            };
            proof {
                assert(f1@ == stack_view(old(m).stack@).last());
                assert(f2@ == stack_view(old(m).stack@)[old(m).stack@.len() - 2]);
                assert(stack_view(m.stack@) =~= stack_view(old(m).stack@).take(
                    old(m).stack@.len() - 2,
                ));
            }
            let mut msg = String::from_str("SPAWN (func1=");
            let f1t = f1.display_text();
            msg.append(f1t.as_str());
            msg.append(", func2=");
            let f2t = f2.display_text();
            msg.append(f2t.as_str());
            msg.append(")");
            proof {
                assert(msg@ =~= spawn_log(f1@, f2@));
            }
            m.effects.push(Effect::Log(msg));
            m.effects.push(Effect::SpawnTasks);
            m.pc = m.pc + 1;
            proof {
                assert(effects_view(m.effects@) =~= effects_view(old(m).effects@).push(
                    EffectV::Log(spawn_log(f1@, f2@)),
                ).push(EffectV::SpawnTasks));
                assert(m@ =~= spec_step(prog@, old(m)@)->Ok_0);
            }
            Ok(())
        },
        Instr::ReturnValue => {
            if m.frames.len() <= 1 {
                m.pc = prog.instrs.len();
                proof {
                    assert(m@ =~= spec_step(prog@, old(m)@)->Ok_0);
                }
                Ok(())
            } else {
                let fr = m.frames.pop().unwrap();
                m.pc = fr.ret;
                proof {
                    assert(fr@ == frames_view(old(m).frames@).last());
                    assert(frames_view(m.frames@) =~= frames_view(old(m).frames@).drop_last());
                    assert(m@ =~= spec_step(prog@, old(m)@)->Ok_0);
                }
                Ok(())
            }
        },
    }
}

/// The outcome of a halted run: the display text of the top of the operand
/// stack (or nothing when the stack ended empty), and the effects emitted in
/// order.
#[derive(Clone, Debug, PartialEq)]
pub struct RunOutput {
    pub value: Option<String>,
    pub effects: Vec<Effect>,
}

/// Mathematical model of a [`RunOutput`].
#[verifier::ext_equal]
pub struct RunOutputV {
    pub value: Option<Seq<char>>,
    pub effects: Seq<EffectV>,
}

impl View for RunOutput {
    type V = RunOutputV;

    open spec fn view(&self) -> RunOutputV {
        RunOutputV {
            value: match &self.value {
                Some(s) => Some(s@),
                None => None,
            },
            effects: effects_view(self.effects@),
        }
    }
}

/// The reported value of a halted stack: nothing when empty, else the
/// display text of the top value.
pub open spec fn spec_value_of(stack: Seq<OperandV>) -> Option<Seq<char>> {
    if stack.len() == 0 {
        None
    } else {
        Some(spec_display(stack.last()))
    }
}

/// The run from the initial state halts within `n` steps with outcome `out`.
pub open spec fn halts_with(prog: Seq<InstrV>, n: nat, out: RunOutputV) -> bool {
    match spec_run(prog, init_state(), n) {
        RunV::Halted(st) => out.value == spec_value_of(st.stack) && out.effects == st.effects,
        _ => false,
    }
}

/// The run from the initial state faults within `n` steps with fault `f`.
pub open spec fn faults_with(prog: Seq<InstrV>, n: nat, f: FaultV) -> bool {
    spec_run(prog, init_state(), n) == RunV::Faulted(f)
}

/// A run cut short: the step budget ran out before the machine halted.
#[derive(Clone, Debug, PartialEq)]
pub enum ExecStatus {
    Halted(RunOutput),
    OutOfSteps,
}

/// Drives the machine from the initial state for at most `max_steps` steps.
pub fn execute(prog: &Program, max_steps: u64) -> (r: Result<ExecStatus, ExecFault>)
    ensures
        match r {
            Ok(ExecStatus::Halted(out)) => exists|n: nat| #[trigger] halts_with(prog@, n, out@),
            Ok(ExecStatus::OutOfSteps) => spec_run(prog@, init_state(), max_steps as nat)
                is Running,
            Err(f) => exists|n: nat| #[trigger] faults_with(prog@, n, f@),
        },
{
    let mut m = Machine::new();
    let mut steps: u64 = 0;
    while m.pc < prog.instrs.len() && steps < max_steps
        invariant
            steps <= max_steps,
            m@.frames.len() >= 1,
            prog@.len() == prog.instrs@.len(),
            spec_run(prog@, init_state(), steps as nat) == (if m@.pc < prog@.len() {
                RunV::Running(m@)
            } else {
                RunV::Halted(m@)
            }),
        decreases max_steps - steps,
    {
        let ghost pre = m@;
        match step_instr(prog, &mut m) {
            Ok(_) => {},
            Err(f) => {
                proof {
                    lemma_run_extend(prog@, init_state(), steps as nat);
                    assert(spec_run(prog@, init_state(), (steps + 1) as nat) == RunV::Faulted(
                        f@,
                    ));
                    assert(faults_with(prog@, (steps + 1) as nat, f@));
                }
                return Err(f);
            },
        }
        proof {
            lemma_run_extend(prog@, init_state(), steps as nat);
            assert(spec_run(prog@, m@, 0) == (if m@.pc < prog@.len() {
                RunV::Running(m@)
            } else {
                RunV::Halted(m@)
            }));
            assert(spec_run(prog@, pre, 1) == (if m@.pc < prog@.len() {
                RunV::Running(m@)
            } else {
                RunV::Halted(m@)
            }));
        }
        steps = steps + 1;
    }
    if m.pc < prog.instrs.len() {
        return Ok(ExecStatus::OutOfSteps);
    }
    let value = if m.stack.is_empty() {
        None
    } else {
        proof {
            assert(stack_view(m.stack@).last() == m.stack@.last()@);
        }
        let top = m.stack.pop().unwrap();
        Some(top.display_text())
    };
    let out = RunOutput { value, effects: m.effects };
    proof {
        assert(halts_with(prog@, steps as nat, out@));
    }
    Ok(ExecStatus::Halted(out))
}

/// A fault of a whole run: the program text was rejected at assembly, the
/// execution aborted with a typed fault, or the step budget ran out before
/// the machine halted.
#[derive(Clone, Debug, PartialEq)]
pub enum VmError {
    Assembly(AsmError),
    Exec(ExecFault),
    StepLimit,
}

/// Mathematical model of a [`VmError`].
pub enum VmErrorV {
    Assembly(AsmErrorV),
    Exec(FaultV),
    StepLimit,
}

impl View for VmError {
    type V = VmErrorV;

    open spec fn view(&self) -> VmErrorV {
        match self {
            VmError::Assembly(e) => VmErrorV::Assembly(e@),
            VmError::Exec(f) => VmErrorV::Exec(f@),
            VmError::StepLimit => VmErrorV::StepLimit,
        }
    }
}

/// Assembles and runs a whole program text: an assembly fault is reported
/// without executing anything; otherwise the machine runs from the initial
/// state until it halts, faults, or exhausts the largest step budget.
pub fn run_machine(byte_code: &str) -> (r: Result<RunOutput, VmError>)
    ensures
        match spec_assemble(byte_code@) {
            Err(e) => r matches Err(VmError::Assembly(ae)) && ae@ == e,
            Ok(prog) => match r {
                Ok(out) => exists|n: nat| #[trigger] halts_with(prog, n, out@),
                Err(VmError::Exec(f)) => exists|n: nat| #[trigger] faults_with(prog, n, f@),
                Err(VmError::StepLimit) => spec_run(prog, init_state(), u64::MAX as nat)
                    is Running,
                Err(VmError::Assembly(_)) => false,
            },
        },
{
    match assemble(byte_code) {
        Err(e) => Err(VmError::Assembly(e)),
        Ok(p) => match execute(&p, u64::MAX) {
            Ok(ExecStatus::Halted(out)) => Ok(out),
            Ok(ExecStatus::OutOfSteps) => Err(VmError::StepLimit),
            Err(f) => Err(VmError::Exec(f)),
        },
    }
}

} // verus!

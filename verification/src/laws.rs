//! Laws of the machine, proved from the specification semantics.

use crate::assemble::spec_assemble;
use crate::instr::{AsmErrorV, FaultV, InstrV};
use crate::machine::{
    halts_with, init_state, lemma_run_stable, spec_run, spec_step, EffectV, RunOutputV, RunV,
    StateV,
};
use crate::operand::OperandV;
use vstd::prelude::*;

verus! {

/// Whether a program holds no channel or spawn instruction.
pub open spec fn channel_free(prog: Seq<InstrV>) -> bool {
    forall|i: int|
        0 <= i < prog.len() ==> !((#[trigger] prog[i]) is SendChannel || prog[i] is RecvChannel
            || prog[i] is Spawn)
}

/// Whether every effect is a `PRINT` emission.
pub open spec fn prints_only(effects: Seq<EffectV>) -> bool {
    forall|i: int| 0 <= i < effects.len() ==> (#[trigger] effects[i]) is Print
}

proof fn lemma_step_prints_only(prog: Seq<InstrV>, st: StateV)
    requires
        channel_free(prog),
        prints_only(st.effects),
        0 <= st.pc < prog.len(),
    ensures
        spec_step(prog, st) matches Ok(st2) ==> prints_only(st2.effects),
{
    assert(!(prog[st.pc] is SendChannel) && !(prog[st.pc] is RecvChannel) && !(prog[st.pc]
        is Spawn));
    match spec_step(prog, st) {
        Ok(st2) => {
            assert(prints_only(st2.effects));
        },
        Err(_) => {},
    }
}

proof fn lemma_run_prints_only(prog: Seq<InstrV>, st: StateV, n: nat)
    requires
        channel_free(prog),
        prints_only(st.effects),
    ensures
        spec_run(prog, st, n) matches RunV::Running(s2) ==> prints_only(s2.effects),
        spec_run(prog, st, n) matches RunV::Halted(s2) ==> prints_only(s2.effects),
    decreases n,
{
    if st.pc < 0 || st.pc >= prog.len() {
    } else if n == 0 {
    } else {
        lemma_step_prints_only(prog, st);
        match spec_step(prog, st) {
            Ok(st2) => {
                lemma_run_prints_only(prog, st2, (n - 1) as nat);
            },
            Err(_) => {},
        }
    }
}

/// A program that holds no channel or spawn instruction has no side effect
/// but `PRINT`: every effect of its halted outcome is a print emission.
pub proof fn lemma_channel_free_prints_only(prog: Seq<InstrV>, n: nat, out: RunOutputV)
    requires
        channel_free(prog),
        halts_with(prog, n, out),
    ensures
        prints_only(out.effects),
{
    lemma_run_prints_only(prog, init_state(), n);
}

/// Execution is deterministic: two halted outcomes of the same program are
/// the same outcome, whatever step counts observed them.
pub proof fn lemma_run_deterministic(prog: Seq<InstrV>, n1: nat, n2: nat, out1: RunOutputV, out2: RunOutputV)
    requires
        halts_with(prog, n1, out1),
        halts_with(prog, n2, out2),
    ensures
        out1 == out2,
{
    if n1 <= n2 {
        lemma_run_stable(prog, init_state(), n1, n2);
    } else {
        lemma_run_stable(prog, init_state(), n2, n1);
    }
    assert(out1 =~= out2);
}

/// `RECV_CHANNEL` pushes the fixed placeholder text, whatever channel-name
/// operand was supplied and whether anything was ever sent.
pub proof fn lemma_recv_channel_fixed(prog: Seq<InstrV>, st: StateV)
    requires
        0 <= st.pc < prog.len(),
        prog[st.pc] is RecvChannel,
        spec_step(prog, st) is Ok,
    ensures
        spec_step(prog, st)->Ok_0.stack.last() == OperandV::S("recv_channel_value"@),
{
}

/// Reading a variable with no binding in the current frame is an execution
/// fault, not a value.
pub proof fn lemma_unbound_read_faults(prog: Seq<InstrV>, st: StateV, name: Seq<char>)
    requires
        0 <= st.pc < prog.len(),
        st.frames.len() >= 1,
        prog[st.pc] == InstrV::ReadVar(OperandV::S(name)),
        !st.frames.last().locals.contains_key(name),
    ensures
        spec_step(prog, st) == Err::<StateV, FaultV>(FaultV::UnboundVariable(name)),
{
}

/// A binary arithmetic or comparison instruction against fewer than two
/// stacked values is an execution fault, never a silently wrong number.
pub proof fn lemma_binary_underflow_faults(prog: Seq<InstrV>, st: StateV)
    requires
        0 <= st.pc < prog.len(),
        prog[st.pc] is Add || prog[st.pc] is Multiply || prog[st.pc] is CmpLt,
        st.stack.len() < 2,
    ensures
        spec_step(prog, st) == Err::<StateV, FaultV>(FaultV::StackUnderflow),
{
}

/// Assembly is a pure function of the program text: assembling the same
/// text twice yields the same instruction sequence, with every label
/// resolved to the same target, independent of prior runs.
pub proof fn lemma_assemble_idempotent(
    text: Seq<char>,
    r1: Result<Seq<InstrV>, AsmErrorV>,
    r2: Result<Seq<InstrV>, AsmErrorV>,
)
    requires
        r1 == spec_assemble(text),
        r2 == spec_assemble(text),
    ensures
        r1 == r2,
{
}

} // verus!

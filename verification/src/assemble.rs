//! Two-pass assembly: pass one turns each non-blank line into an instruction
//! record while collecting label positions; pass two resolves every label
//! argument of a jump-class instruction to a concrete instruction index.
//! A label that stays unresolved is not rejected here: the fault surfaces
//! only when the jump itself executes.

use crate::instr::{AsmError, AsmErrorV, Instr, InstrV, target_view};
use crate::operand::{Operand, OperandV};
use crate::text::{
    int_literal_val, literal_strip, parses_as_i64, parse_i64_str, split_on, split_str, str_eq,
    trim_str, trimmed, views_of,
};
use vstd::prelude::*;
use vstd::string::*;

verus! {

/// The literal operand denoted by an argument token: a signed integer when
/// the token reads as one, otherwise the token as text with a single pair of
/// surrounding single quotes removed.
pub open spec fn literal_operand(tok: Seq<char>) -> OperandV {
    if parses_as_i64(tok) {
        OperandV::I(int_literal_val(tok))
    } else {
        OperandV::S(literal_strip(tok))
    }
}

/// The instruction named by a mnemonic, given its argument slot; a mnemonic
/// that names no instruction, or one given the wrong number of arguments,
/// is an assembly fault.
pub open spec fn spec_instr_for(name: Seq<char>, arg: Option<OperandV>) -> Result<
    InstrV,
    AsmErrorV,
> {
    if name == "LOAD_VAL"@ {
        match arg {
            Some(a) => Ok(InstrV::LoadVal(a)),
            None => Err(AsmErrorV::WrongArity(name)),
        }
    } else if name == "WRITE_VAR"@ {
        match arg {
            Some(a) => Ok(InstrV::WriteVar(a)),
            None => Err(AsmErrorV::WrongArity(name)),
        }
    } else if name == "READ_VAR"@ {
        match arg {
            Some(a) => Ok(InstrV::ReadVar(a)),
            None => Err(AsmErrorV::WrongArity(name)),
        }
    } else if name == "ADD"@ {
        match arg {
            None => Ok(InstrV::Add),
            Some(_) => Err(AsmErrorV::WrongArity(name)),
        }
    } else if name == "MULTIPLY"@ {
        match arg {
            None => Ok(InstrV::Multiply),
            Some(_) => Err(AsmErrorV::WrongArity(name)),
        }
    } else if name == "RETURN_VALUE"@ {
        match arg {
            None => Ok(InstrV::ReturnValue),
            Some(_) => Err(AsmErrorV::WrongArity(name)),
        }
    } else if name == "CMP_LT"@ {
        match arg {
            None => Ok(InstrV::CmpLt),
            Some(_) => Err(AsmErrorV::WrongArity(name)),
        }
    } else if name == "POP_JUMP_IF_FALSE"@ {
        match arg {
            Some(a) => Ok(InstrV::PopJumpIfFalse(a, None)),
            None => Err(AsmErrorV::WrongArity(name)),
        }
    } else if name == "PRINT"@ {
        match arg {
            Some(a) => Ok(InstrV::Print(a)),
            None => Err(AsmErrorV::WrongArity(name)),
        }
    } else if name == "JUMP"@ {
        match arg {
            Some(a) => Ok(InstrV::Jump(a, None)),
            None => Err(AsmErrorV::WrongArity(name)),
        }
    } else if name == "PUSH"@ {
        match arg {
            Some(a) => Ok(InstrV::Push(a)),
            None => Err(AsmErrorV::WrongArity(name)),
        }
    } else if name == "SEND_CHANNEL"@ {
        match arg {
            None => Ok(InstrV::SendChannel),
            Some(_) => Err(AsmErrorV::WrongArity(name)),
        }
    } else if name == "RECV_CHANNEL"@ {
        match arg {
            None => Ok(InstrV::RecvChannel),
            Some(_) => Err(AsmErrorV::WrongArity(name)),
        }
    } else if name == "SPAWN"@ {
        match arg {
            None => Ok(InstrV::Spawn),
            Some(_) => Err(AsmErrorV::WrongArity(name)),
        }
    } else {
        Err(AsmErrorV::UnknownInstruction(name))
    }
}

/// Assembler state after some prefix of the lines: the instructions emitted
/// so far and the label positions collected so far.
#[verifier::ext_equal]
pub struct AsmStateV {
    pub instrs: Seq<InstrV>,
    pub labels: Map<Seq<char>, int>,
}

pub open spec fn init_asm_state() -> AsmStateV {
    AsmStateV { instrs: Seq::empty(), labels: Map::empty() }
}

/// The effect of one source line on the assembler state: a blank line is
/// skipped, a `LABEL` line records the position of the next emission, any
/// other one- or two-token line emits an instruction, and any other token
/// count is an assembly fault carrying the raw line text.
pub open spec fn spec_asm_line(st: AsmStateV, line: Seq<char>) -> Result<AsmStateV, AsmErrorV> {
    let t = trimmed(line);
    if t.len() == 0 {
        Ok(st)
    } else {
        let toks = split_on(t, ' ');
        if toks.len() == 1 {
            match spec_instr_for(trimmed(toks[0]), None) {
                Ok(i) => Ok(AsmStateV { instrs: st.instrs.push(i), labels: st.labels }),
                Err(e) => Err(e),
            }
        } else if toks.len() == 2 {
            let name = trimmed(toks[0]);
            let arg = trimmed(toks[1]);
            if name == "LABEL"@ {
                Ok(
                    AsmStateV {
                        instrs: st.instrs,
                        labels: st.labels.insert(arg, st.instrs.len() as int),
                    },
                )
            } else {
                match spec_instr_for(name, Some(literal_operand(arg))) {
                    Ok(i) => Ok(AsmStateV { instrs: st.instrs.push(i), labels: st.labels }),
                    Err(e) => Err(e),
                }
            }
        } else {
            Err(AsmErrorV::BadLine(line))
        }
    }
}

/// Folding [`spec_asm_line`] over the lines in order; the first faulting
/// line aborts assembly, and no partial program is produced.
pub open spec fn spec_asm_lines(st: AsmStateV, lines: Seq<Seq<char>>) -> Result<
    AsmStateV,
    AsmErrorV,
>
    decreases lines.len(),
{
    if lines.len() == 0 {
        Ok(st)
    } else {
        match spec_asm_line(st, lines[0]) {
            Ok(st2) => spec_asm_lines(st2, lines.drop_first()),
            Err(e) => Err(e),
        }
    }
}

/// The instruction index a jump argument resolves to: the recorded position
/// of the label it names, or nothing when the argument is not text or names
/// no recorded label.
pub open spec fn resolved_target(a: OperandV, labels: Map<Seq<char>, int>) -> Option<int> {
    match a {
        OperandV::S(n) => if labels.contains_key(n) {
            Some(labels[n])
        } else {
            None
        },
        _ => None,
    }
}

pub open spec fn resolve_instr(i: InstrV, labels: Map<Seq<char>, int>) -> InstrV {
    match i {
        InstrV::Jump(a, _) => InstrV::Jump(a, resolved_target(a, labels)),
        InstrV::PopJumpIfFalse(a, _) => InstrV::PopJumpIfFalse(a, resolved_target(a, labels)),
        _ => i,
    }
}

pub open spec fn spec_resolve(instrs: Seq<InstrV>, labels: Map<Seq<char>, int>) -> Seq<InstrV> {
    instrs.map_values(|i: InstrV| resolve_instr(i, labels))
}

/// The assembled form of a whole program text: the lines folded in order,
/// then every jump target resolved against the collected labels.
pub open spec fn spec_assemble(text: Seq<char>) -> Result<Seq<InstrV>, AsmErrorV> {
    match spec_asm_lines(init_asm_state(), split_on(text, '\n')) {
        Ok(st) => Ok(spec_resolve(st.instrs, st.labels)),
        Err(e) => Err(e),
    }
}

/// The views of a sequence of instructions.
pub open spec fn instrs_view(s: Seq<Instr>) -> Seq<InstrV> {
    s.map_values(|i: Instr| i@)
}

/// The label table a sequence of (name, position) records denotes; a later
/// record for the same name wins.
pub open spec fn labels_view(s: Seq<(String, usize)>) -> Map<Seq<char>, int>
    decreases s.len(),
{
    if s.len() == 0 {
        Map::empty()
    } else {
        labels_view(s.drop_last()).insert(s.last().0@, s.last().1 as int)
    }
}

/// An assembled program: the executable instruction sequence.
#[derive(Clone, Debug, PartialEq)]
pub struct Program {
    pub instrs: Vec<Instr>,
}

impl View for Program {
    type V = Seq<InstrV>;

    open spec fn view(&self) -> Seq<InstrV> {
        instrs_view(self.instrs@)
    }
}

/// Pass-one state: emitted instructions and collected label positions.
pub struct AsmState {
    pub instrs: Vec<Instr>,
    pub labels: Vec<(String, usize)>,
}

impl View for AsmState {
    type V = AsmStateV;

    open spec fn view(&self) -> AsmStateV {
        AsmStateV { instrs: instrs_view(self.instrs@), labels: labels_view(self.labels@) }
    }
}

impl Instr {
    /// A copy with the same value.
    pub fn dup(&self) -> (r: Instr)
        ensures
            r@ == self@,
    {
        match self {
            Instr::LoadVal(a) => Instr::LoadVal(a.dup()),
            Instr::WriteVar(a) => Instr::WriteVar(a.dup()),
            Instr::ReadVar(a) => Instr::ReadVar(a.dup()),
            Instr::Add => Instr::Add,
            Instr::Multiply => Instr::Multiply,
            Instr::CmpLt => Instr::CmpLt,
            Instr::PopJumpIfFalse(a, t) => Instr::PopJumpIfFalse(a.dup(), *t),
            Instr::Jump(a, t) => Instr::Jump(a.dup(), *t),
            Instr::Print(a) => Instr::Print(a.dup()),
            Instr::Push(a) => Instr::Push(a.dup()),
            Instr::SendChannel => Instr::SendChannel,
            Instr::RecvChannel => Instr::RecvChannel,
            Instr::Spawn => Instr::Spawn,
            Instr::ReturnValue => Instr::ReturnValue,
        }
    }
}

/// The literal operand an argument token denotes, as [`literal_operand`]
/// describes.
fn literal_operand_exec(tok: String) -> (r: Operand)
    ensures
        r@ == literal_operand(tok@),
{
    match parse_i64_str(tok.as_str()) {
        Some(n) => Operand::I(n),
        None => {
            let l = tok.as_str().unicode_len();
            if l >= 2 && tok.as_str().get_char(0) == '\'' && tok.as_str().get_char(l - 1) == '\''
            {
                Operand::S(String::from_str(tok.as_str().substring_char(1, l - 1)))
            } else {
                Operand::S(tok)
            }
        },
    }
}

/// The view of an optional operand argument.
pub open spec fn opt_operand_view(a: Option<Operand>) -> Option<OperandV> {
    match a {
        Some(x) => Some(x@),
        None => None,
    }
}

/// Builds the instruction a mnemonic names, as [`spec_instr_for`] describes.
fn instr_for(name: String, arg: Option<Operand>) -> (r: Result<Instr, AsmError>)
    ensures
        match r {
            Ok(i) => spec_instr_for(name@, opt_operand_view(arg)) == Ok::<InstrV, AsmErrorV>(i@),
            Err(e) => spec_instr_for(name@, opt_operand_view(arg)) == Err::<InstrV, AsmErrorV>(
                e@,
            ),
        },
{
    if str_eq(name.as_str(), "LOAD_VAL") {
        match arg {
            Some(a) => Ok(Instr::LoadVal(a)),
            None => Err(AsmError::WrongArity(name)),
        }
    } else if str_eq(name.as_str(), "WRITE_VAR") {
        match arg {
            Some(a) => Ok(Instr::WriteVar(a)),
            None => Err(AsmError::WrongArity(name)),
        }
    } else if str_eq(name.as_str(), "READ_VAR") {
        match arg {
            Some(a) => Ok(Instr::ReadVar(a)),
            None => Err(AsmError::WrongArity(name)),
        }
    } else if str_eq(name.as_str(), "ADD") {
        match arg {
            None => Ok(Instr::Add),
            Some(_) => Err(AsmError::WrongArity(name)),
        }
    } else if str_eq(name.as_str(), "MULTIPLY") {
        match arg {
            None => Ok(Instr::Multiply),
            Some(_) => Err(AsmError::WrongArity(name)),
        }
    } else if str_eq(name.as_str(), "RETURN_VALUE") {
        match arg {
            None => Ok(Instr::ReturnValue),
            Some(_) => Err(AsmError::WrongArity(name)),
        }
    } else if str_eq(name.as_str(), "CMP_LT") {
        match arg {
            None => Ok(Instr::CmpLt),
            Some(_) => Err(AsmError::WrongArity(name)),
        }
    } else if str_eq(name.as_str(), "POP_JUMP_IF_FALSE") {
        match arg {
            Some(a) => Ok(Instr::PopJumpIfFalse(a, None)),
            None => Err(AsmError::WrongArity(name)),
        }
    } else if str_eq(name.as_str(), "PRINT") {
        match arg {
            Some(a) => Ok(Instr::Print(a)),
            None => Err(AsmError::WrongArity(name)),
        }
    } else if str_eq(name.as_str(), "JUMP") {
        match arg {
            Some(a) => Ok(Instr::Jump(a, None)),
            None => Err(AsmError::WrongArity(name)),
        }
    } else if str_eq(name.as_str(), "PUSH") {
        match arg {
            Some(a) => Ok(Instr::Push(a, )),
            None => Err(AsmError::WrongArity(name)),
        }
    } else if str_eq(name.as_str(), "SEND_CHANNEL") {
        match arg {
            None => Ok(Instr::SendChannel),
            Some(_) => Err(AsmError::WrongArity(name)),
        }
    } else if str_eq(name.as_str(), "RECV_CHANNEL") {
        match arg {
            None => Ok(Instr::RecvChannel),
            Some(_) => Err(AsmError::WrongArity(name)),
        }
    } else if str_eq(name.as_str(), "SPAWN") {
        match arg {
            None => Ok(Instr::Spawn),
            Some(_) => Err(AsmError::WrongArity(name)),
        }
    } else {
        Err(AsmError::UnknownInstruction(name))
    }
}

/// Consumes one source line, as [`spec_asm_line`] describes.
fn parse_line(st: &mut AsmState, line: &str) -> (r: Result<(), AsmError>)
    ensures
        match r {
            Ok(_) => spec_asm_line(old(st)@, line@) == Ok::<AsmStateV, AsmErrorV>(final(st)@),
            Err(e) => spec_asm_line(old(st)@, line@) == Err::<AsmStateV, AsmErrorV>(e@),
        },
{
    let t = trim_str(line);
    if t.as_str().unicode_len() == 0 {
        return Ok(());
    }
    let toks = split_str(t.as_str(), ' ');
    proof {
        assert(views_of(toks@) == split_on(trimmed(line@), ' '));
        assert(toks@.len() == views_of(toks@).len());
    }
    if toks.len() == 1 {
        let name = trim_str(toks[0].as_str());
        proof {
            assert(views_of(toks@)[0] == toks@[0]@);
        }
        match instr_for(name, None) {
            Ok(ins) => {
                proof {
                    assert(instrs_view(st.instrs@.push(ins)) =~= instrs_view(st.instrs@)
                        + seq![ins@]);
                }
                st.instrs.push(ins);
                proof {
                    assert(st@ =~= AsmStateV {
                        instrs: old(st)@.instrs.push(ins@),
                        labels: old(st)@.labels,
                    });
                }
                Ok(())
            },
            Err(e) => Err(e),
        }
    } else if toks.len() == 2 {
        let name = trim_str(toks[0].as_str());
        let arg = trim_str(toks[1].as_str());
        proof {
            assert(views_of(toks@)[0] == toks@[0]@);
            assert(views_of(toks@)[1] == toks@[1]@);
        }
        if str_eq(name.as_str(), "LABEL") {
            let pos = st.instrs.len();
            proof {
                assert(st.labels@.push((arg, pos)).drop_last() =~= st.labels@);
            }
            st.labels.push((arg, pos));
            proof {
                assert(st@ =~= AsmStateV {
                    instrs: old(st)@.instrs,
                    labels: old(st)@.labels.insert(arg@, old(st)@.instrs.len() as int),
                });
            }
            Ok(())
        } else {
            let op = literal_operand_exec(arg);
            match instr_for(name, Some(op)) {
                Ok(ins) => {
                    proof {
                        assert(instrs_view(st.instrs@.push(ins)) =~= instrs_view(st.instrs@)
                            + seq![ins@]);
                    }
                    st.instrs.push(ins);
                    proof {
                        assert(st@ =~= AsmStateV {
                            instrs: old(st)@.instrs.push(ins@),
                            labels: old(st)@.labels,
                        });
                    }
                    Ok(())
                },
                Err(e) => Err(e),
            }
        }
    } else {
        Err(AsmError::BadLine(String::from_str(line)))
    }
}

/// Looks a label name up in the collected positions; a later record for the
/// same name wins.
fn labels_get(labels: &Vec<(String, usize)>, name: &str) -> (r: Option<usize>)
    ensures
        match r {
            Some(t) => labels_view(labels@).contains_key(name@) && labels_view(labels@)[name@]
                == t as int,
            None => !labels_view(labels@).contains_key(name@),
        },
{
    let mut i: usize = labels.len();
    proof {
        assert(labels@.take(labels@.len() as int) =~= labels@);
    }
    while i > 0
        invariant
            i <= labels@.len(),
            labels_view(labels@).contains_key(name@) == labels_view(
                labels@.take(i as int),
            ).contains_key(name@),
            labels_view(labels@).contains_key(name@) ==> labels_view(labels@)[name@]
                == labels_view(labels@.take(i as int))[name@],
        decreases i,
    {
        i = i - 1;
        proof {
            assert(labels@.take(i + 1).drop_last() =~= labels@.take(i as int));
            assert(labels@.take(i + 1).last() == labels@[i as int]);
        }
        let hit = str_eq(labels[i].0.as_str(), name);
        if hit {
            return Some(labels[i].1);
        }
    }
    proof {
        assert(labels@.take(0) =~= Seq::<(String, usize)>::empty());
    }
    None
}

/// The resolved target of a jump argument, as [`resolved_target`] describes.
fn resolved_target_exec(a: &Operand, labels: &Vec<(String, usize)>) -> (r: Option<usize>)
    ensures
        target_view(r) == resolved_target(a@, labels_view(labels@)),
{
    match a {
        Operand::S(s) => labels_get(labels, s.as_str()),
        _ => None,
    }
}

/// Pass two: replaces every jump argument with its resolved instruction
/// index, as [`spec_resolve`] describes.
fn resolve_program(st: AsmState) -> (p: Program)
    ensures
        p@ == spec_resolve(instrs_view(st.instrs@), labels_view(st.labels@)),
{
    let ghost target = spec_resolve(instrs_view(st.instrs@), labels_view(st.labels@));
    let mut out: Vec<Instr> = Vec::new();
    let mut i: usize = 0;
    proof {
        assert(instrs_view(out@) =~= target.take(0));
    }
    while i < st.instrs.len()
        invariant
            i <= st.instrs@.len(),
            target == spec_resolve(instrs_view(st.instrs@), labels_view(st.labels@)),
            target.len() == st.instrs@.len(),
            instrs_view(out@) == target.take(i as int),
        decreases st.instrs@.len() - i,
    {
        let ins = &st.instrs[i];
        let resolved: Instr = match ins {
            Instr::Jump(a, _) => {
                let t = resolved_target_exec(a, &st.labels);
                Instr::Jump(a.dup(), t)
            },
            Instr::PopJumpIfFalse(a, _) => {
                let t = resolved_target_exec(a, &st.labels);
                Instr::PopJumpIfFalse(a.dup(), t)
            },
            _ => ins.dup(),
        };
        proof {
            assert(target[i as int] == resolve_instr(instrs_view(st.instrs@)[i as int],
                labels_view(st.labels@)));
            assert(resolved@ == target[i as int]);
            assert(instrs_view(out@.push(resolved)) =~= instrs_view(out@) + seq![resolved@]);
            assert(instrs_view(out@) + seq![resolved@] =~= target.take(i + 1));
        }
        out.push(resolved);
        i += 1;
    }
    proof {
        assert(target.take(st.instrs@.len() as int) =~= target);
    }
    Program { instrs: out }
}

/// Assembles a whole program text, as [`spec_assemble`] describes: the first
/// faulting line aborts assembly and no partial program is produced.
pub fn assemble(text: &str) -> (r: Result<Program, AsmError>)
    ensures
        match r {
            Ok(p) => spec_assemble(text@) == Ok::<Seq<InstrV>, AsmErrorV>(p@),
            Err(e) => spec_assemble(text@) == Err::<Seq<InstrV>, AsmErrorV>(e@),
        },
{
    let lines = split_str(text, '\n');
    let ghost lv = split_on(text@, '\n');
    let mut st = AsmState { instrs: Vec::new(), labels: Vec::new() };
    proof {
        assert(instrs_view(Seq::<Instr>::empty()) =~= Seq::<InstrV>::empty());
        assert(st@ =~= init_asm_state());
        assert(lv.skip(0) =~= lv);
    }
    let mut k: usize = 0;
    while k < lines.len()
        invariant
            k <= lines@.len(),
            lv == split_on(text@, '\n'),
            views_of(lines@) == lv,
            lines@.len() == lv.len(),
            spec_asm_lines(init_asm_state(), lv) == spec_asm_lines(st@, lv.skip(k as int)),
        decreases lines@.len() - k,
    {
        proof {
            assert(lv.skip(k as int)[0] == views_of(lines@)[k as int]);
            assert(lv.skip(k as int).drop_first() =~= lv.skip(k + 1));
        }
        match parse_line(&mut st, lines[k].as_str()) {
            Ok(_) => {},
            Err(e) => {
                proof {
                    assert(views_of(lines@)[k as int] == lines@[k as int]@);
                    assert(spec_asm_lines(st@, lv.skip(k as int)) == Err::<AsmStateV, AsmErrorV>(
                        e@,
                    ));
                }
                return Err(e);
            },
        }
        k += 1;
    }
    proof {
        assert(lv.skip(k as int).len() == 0);
    }
    Ok(resolve_program(st))
}

} // verus!
